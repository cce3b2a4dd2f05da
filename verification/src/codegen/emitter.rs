//! The emitter: walks the tree and writes the module.

use crate::codegen::instructions::{OpData, OpDataView, Opcodes, SysCalls, Types, WASIImports};
use crate::codegen::module::{
    all_instructions, all_segments, any_needs_write, close, data_texts, export_text,
    import_texts, instructions, main_open, memory_text, module_lines, module_open,
    module_text, needs_write, parameters, program_text, print_instructions, print_prelude, segments,
    string_bytes, with_write, STRING_ADDRESS,
};
use crate::frontend::ast::{node_view, nodes_view, ConstantLiteral, ListDetails, MainDetails, Node, NodeView};
use crate::frontend::scanner::Lexeme;
use crate::text::{concatenated, join, texts};
use vstd::prelude::*;
use vstd::string::StringExecFns;

verus! {

/// Walks a program and writes it as one module of WebAssembly text. While it walks it
/// collects what the head of the module has to declare: the imports and the data segments.
pub struct Emitter {
    imports: Vec<WASIImports>,
    data: Vec<OpData>,
    newline: bool,
}

/// The texts of `first` and then of `second` are the texts of both.
proof fn lemma_texts_concat(first: Seq<String>, second: Seq<String>)
    ensures
        texts(first + second) == texts(first) + texts(second),
{
    assert(texts(first + second) =~= texts(first) + texts(second));
}

/// The texts of strings with one more at the end.
proof fn lemma_texts_push(strings: Seq<String>, last: String)
    ensures
        texts(strings.push(last)) == texts(strings).push(last@),
{
    assert(texts(strings.push(last)) =~= texts(strings).push(last@));
}

/// Declaring the write call for one need and then for another declares it for either.
proof fn lemma_with_write_twice(imports: Seq<WASIImports>, first: bool, second: bool)
    ensures
        with_write(with_write(imports, first), second) == with_write(imports, first || second),
{
    if first && !imports.contains(WASIImports::FDWrite) {
        let declared = imports.push(WASIImports::FDWrite);
        assert(declared[imports.len() as int] == WASIImports::FDWrite);
    }
}

/// The module text that an emitter in the state `before` writes for the program `nodes`: the
/// module declares what the emitter had found before and what the program needs.
pub open spec fn emitted_text(before: Emitter, nodes: Seq<NodeView>) -> Seq<char> {
    module_text(
        with_write(before.imports(), any_needs_write(nodes)),
        before.data() + all_segments(nodes, before.newline()),
        all_instructions(nodes),
    )
}

/// Emission repeats: two emitters that have found nothing yet, and agree on the newline after
/// strings, write the same text for the same program, the text of the program.
pub proof fn lemma_fresh_emission_repeats(first: Emitter, second: Emitter, nodes: Seq<NodeView>)
    requires
        first.is_fresh(),
        second.is_fresh(),
        first.newline() == second.newline(),
    ensures
        emitted_text(first, nodes) == emitted_text(second, nodes),
        emitted_text(first, nodes) == program_text(nodes, first.newline()),
{
    assert(first.imports() =~= Seq::<WASIImports>::empty());
    assert(second.imports() =~= Seq::<WASIImports>::empty());
    assert(first.data() + all_segments(nodes, first.newline()) =~= all_segments(
        nodes,
        first.newline(),
    ));
    assert(second.data() + all_segments(nodes, first.newline()) =~= all_segments(
        nodes,
        first.newline(),
    ));
}

impl Emitter {
    /// The imports that the module has to declare, in the order in which they were found.
    pub closed spec fn imports(&self) -> Seq<WASIImports> {
        self.imports@
    }

    /// The data segments that the module has to declare, in the order in which they were
    /// found.
    pub closed spec fn data(&self) -> Seq<OpDataView> {
        self.data@.map_values(|segment: OpData| segment@)
    }

    /// Whether the bytes of a string constant end with a newline.
    pub closed spec fn newline(&self) -> bool {
        self.newline
    }

    /// Whether this emitter is what `before` becomes by an emission that needs the write call
    /// or not, and asks for the data segments `data`.
    pub open spec fn has_emitted(&self, before: Emitter, write: bool, data: Seq<OpDataView>) -> bool {
        &&& self.imports() == with_write(before.imports(), write)
        &&& self.data() == before.data() + data
        &&& self.newline() == before.newline()
    }

    /// Whether this emitter has found nothing yet.
    pub open spec fn is_fresh(&self) -> bool {
        self.imports().len() == 0 && self.data().len() == 0
    }

    /// One emission after another is an emission of both.
    proof fn lemma_has_emitted_twice(
        &self,
        middle: Emitter,
        before: Emitter,
        first_write: bool,
        first_data: Seq<OpDataView>,
        second_write: bool,
        second_data: Seq<OpDataView>,
    )
        requires
            middle.has_emitted(before, first_write, first_data),
            self.has_emitted(middle, second_write, second_data),
        ensures
            self.has_emitted(before, first_write || second_write, first_data + second_data),
    {
        lemma_with_write_twice(before.imports(), first_write, second_write);
        assert((before.data() + first_data) + second_data == before.data() + (first_data
            + second_data));
    }

    /// An emitter that has found nothing yet. The bytes of its strings end with a newline.
    pub fn new() -> (emitter: Emitter)
        ensures
            emitter.imports() == Seq::<WASIImports>::empty(),
            emitter.data() == Seq::<OpDataView>::empty(),
            emitter.newline(),
    {
        Emitter::with_newline(true)
    }

    /// An emitter that has found nothing yet, whose strings end with a newline or not.
    pub fn with_newline(newline: bool) -> (emitter: Emitter)
        ensures
            emitter.imports() == Seq::<WASIImports>::empty(),
            emitter.data() == Seq::<OpDataView>::empty(),
            emitter.newline() == newline,
    {
        let emitter = Emitter { imports: Vec::new(), data: Vec::new(), newline };
        assert(emitter.data() =~= Seq::<OpDataView>::empty());
        emitter
    }

    /// Writes the module of the program `head`. The imports and data segments that the
    /// program needs are added to those that this emitter has found before, and the module
    /// declares them all ahead of the body.
    pub fn emit(&mut self, head: Vec<Node>) -> (text: String)
        ensures
            final(self).has_emitted(
                *old(self),
                any_needs_write(nodes_view(head@)),
                all_segments(nodes_view(head@), old(self).newline()),
            ),
            text@ == module_text(
                final(self).imports(),
                final(self).data(),
                all_instructions(nodes_view(head@)),
            ),
            text@ == emitted_text(*old(self), nodes_view(head@)),
    {
        let body = self.build_body(&head);
        self.get_body_with_header(body)
    }

    /// Puts the head of the module before `body` and the export and the closing after it, and
    /// joins the lines.
    fn get_body_with_header(&self, body: Vec<String>) -> (text: String)
        ensures
            text@ == module_text(self.imports(), self.data(), texts(body@)),
    {
        let mut body = body;
        let ghost lines = texts(body@);
        body.insert(0, String::from_str("(module "));
        body.insert(1, self.import_declarations());
        body.insert(2, self.emit_memory_initializer());
        body.insert(3, self.data_declarations());
        let mut export = self.emit_export();
        let ghost headed = body@;
        let ghost exported = export@;
        body.append(&mut export);
        let ghost before_close = body@;
        body.push(String::from_str(")"));
        proof {
            lemma_texts_concat(headed, exported);
            lemma_texts_push(before_close, body@.last());
            assert(texts(headed) =~= seq![
                module_open(),
                concatenated(import_texts(self.imports())),
                memory_text(),
                concatenated(data_texts(self.data())),
            ] + lines);
            assert(texts(body@) =~= module_lines(self.imports(), self.data(), lines));
        }
        join(&body, "\n ")
    }

    /// The declarations of the imports, one after the other on one line.
    fn import_declarations(&self) -> (text: String)
        ensures
            text@ == concatenated(import_texts(self.imports())),
    {
        let mut declarations: Vec<String> = Vec::new();
        let mut i: usize = 0;
        while i < self.imports.len()
            invariant
                i <= self.imports.len(),
                texts(declarations@) == import_texts(self.imports()).take(i as int),
            decreases self.imports.len() - i,
        {
            let ghost before = declarations@;
            let declaration = self.imports[i].to_string();
            declarations.push(declaration);
            proof {
                lemma_texts_push(before, declaration);
                assert(import_texts(self.imports()).take(i + 1) =~= import_texts(
                    self.imports(),
                ).take(i as int).push(self.imports()[i as int].text()));
            }
            i += 1;
        }
        proof {
            assert(import_texts(self.imports()).take(self.imports.len() as int) == import_texts(
                self.imports(),
            ));
        }
        proof {
            reveal_strlit("");
            assert(""@ =~= Seq::<char>::empty());
        }
        join(&declarations, "")
    }

    /// The declarations of the data segments, one after the other on one line.
    fn data_declarations(&self) -> (text: String)
        ensures
            text@ == concatenated(data_texts(self.data())),
    {
        let mut declarations: Vec<String> = Vec::new();
        let mut i: usize = 0;
        while i < self.data.len()
            invariant
                i <= self.data.len(),
                texts(declarations@) == data_texts(self.data()).take(i as int),
            decreases self.data.len() - i,
        {
            let ghost before = declarations@;
            let declaration = self.data[i].to_string();
            declarations.push(declaration);
            proof {
                lemma_texts_push(before, declaration);
                assert(data_texts(self.data()).take(i + 1) =~= data_texts(self.data()).take(
                    i as int,
                ).push(self.data()[i as int].text()));
            }
            i += 1;
        }
        proof {
            assert(data_texts(self.data()).take(self.data.len() as int) == data_texts(
                self.data(),
            ));
        }
        proof {
            reveal_strlit("");
            assert(""@ =~= Seq::<char>::empty());
        }
        join(&declarations, "")
    }

    /// Emits the forms of a program, one after the other.
    fn build_body(&mut self, nodes: &Vec<Node>) -> (body: Vec<String>)
        ensures
            texts(body@) == all_instructions(nodes_view(nodes@)),
            final(self).has_emitted(
                *old(self),
                any_needs_write(nodes_view(nodes@)),
                all_segments(nodes_view(nodes@), old(self).newline()),
            ),
    {
        self.emit_function_body(nodes)
    }

    /// Emits `tree` where it stands.
    fn emit_instructions(&mut self, tree: &Node) -> (body: Vec<String>)
        ensures
            texts(body@) == instructions(tree@),
            final(self).has_emitted(
                *old(self),
                needs_write(tree@),
                segments(tree@, old(self).newline()),
            ),
        decreases tree, 0nat,
    {
        proof {
            assert(old(self).data() + Seq::<OpDataView>::empty() == old(self).data());
            assert(texts(Seq::<String>::empty()) =~= Seq::<Seq<char>>::empty());
        }
        match tree {
            Node::List(list) => self.emit_function_call(list),
            Node::Main(details) => self.emit_main_function(details),
            Node::Constant(constant) => self.emit_constant(constant),
            _ => Vec::new(),
        }
    }

    /// Emits the entry function: its opening, one parameter for each argument, its body and
    /// its closing.
    fn emit_main_function(&mut self, details: &MainDetails) -> (function: Vec<String>)
        ensures
            texts(function@) == instructions(node_view(Node::Main(*details))),
            final(self).has_emitted(
                *old(self),
                needs_write(node_view(Node::Main(*details))),
                segments(node_view(Node::Main(*details)), old(self).newline()),
            ),
        decreases details, 0nat,
    {
        let mut types: Vec<String> = Vec::new();
        let mut index: usize = 0;
        while index < details.args.len()
            invariant
                index <= details.args.len(),
                texts(types@) == parameters(index as nat),
            decreases details.args.len() - index,
        {
            let ghost before = types@;
            let parameter = Types::I32param(index).to_string();
            types.push(parameter);
            proof {
                lemma_texts_push(before, parameter);
                assert(parameters((index + 1) as nat) =~= parameters(index as nat).push(
                    Types::I32param(index).text(),
                ));
            }
            index += 1;
        }
        let mut body = self.emit_function_body(&details.body);
        let mut function: Vec<String> = Vec::new();
        function.push(String::from_str("(func $main "));
        let ghost opened = function@;
        let ghost declared = types@;
        let ghost walked = body@;
        function.append(&mut types);
        function.append(&mut body);
        let ghost filled = function@;
        function.push(String::from_str(")"));
        proof {
            lemma_texts_push(Seq::<String>::empty(), opened[0]);
            assert(opened == Seq::<String>::empty().push(opened[0]));
            lemma_texts_concat(opened, declared);
            lemma_texts_concat(opened + declared, walked);
            lemma_texts_push(filled, function@.last());
            assert(nodes_view(details.args@).len() == details.args.len());
            assert(texts(function@) =~= seq![main_open()] + parameters(details.args.len() as nat)
                + all_instructions(nodes_view(details.body@)) + seq![close()]);
        }
        function
    }

    /// Emits the forms of a function body, one after the other.
    fn emit_function_body(&mut self, body: &Vec<Node>) -> (instructions: Vec<String>)
        ensures
            texts(instructions@) == all_instructions(nodes_view(body@)),
            final(self).has_emitted(
                *old(self),
                any_needs_write(nodes_view(body@)),
                all_segments(nodes_view(body@), old(self).newline()),
            ),
        decreases body, 0nat,
    {
        let ghost nodes = nodes_view(body@);
        let ghost newline = self.newline();
        let mut instructions: Vec<String> = Vec::new();
        let mut i: usize = 0;
        proof {
            assert(nodes.take(0) =~= Seq::<NodeView>::empty());
            assert(texts(instructions@) =~= Seq::<Seq<char>>::empty());
            assert(self.data() + Seq::<OpDataView>::empty() == self.data());
        }
        while i < body.len()
            invariant
                i <= body.len(),
                nodes == nodes_view(body@),
                newline == old(self).newline(),
                texts(instructions@) == all_instructions(nodes.take(i as int)),
                self.has_emitted(
                    *old(self),
                    any_needs_write(nodes.take(i as int)),
                    all_segments(nodes.take(i as int), newline),
                ),
            decreases body.len() - i,
        {
            let ghost middle = *self;
            let ghost found = instructions@;
            let mut lines = self.emit_instructions(&body[i]);
            let ghost added = lines@;
            instructions.append(&mut lines);
            proof {
                let done = nodes.take(i as int);
                let next = nodes.take(i + 1);
                assert(next.drop_last() == done);
                assert(next.last() == body[i as int]@);
                lemma_texts_concat(found, added);
                self.lemma_has_emitted_twice(
                    middle,
                    *old(self),
                    any_needs_write(done),
                    all_segments(done, newline),
                    needs_write(body[i as int]@),
                    segments(body[i as int]@, newline),
                );
            }
            i += 1;
        }
        proof {
            assert(nodes.take(body.len() as int) == nodes);
        }
        instructions
    }

    /// Emits the call that the head of `list` names. Without a head that names a call the
    /// list emits nothing.
    fn emit_function_call(&mut self, list: &ListDetails) -> (body: Vec<String>)
        ensures
            texts(body@) == instructions(node_view(Node::List(*list))),
            final(self).has_emitted(
                *old(self),
                needs_write(node_view(Node::List(*list))),
                segments(node_view(Node::List(*list)), old(self).newline()),
            ),
        decreases list, 0nat,
    {
        proof {
            assert(old(self).data() + Seq::<OpDataView>::empty() == old(self).data());
            assert(texts(Seq::<String>::empty()) =~= Seq::<Seq<char>>::empty());
            assert(Node::List(*list)@ == (NodeView::List {
                head: Box::new(node_view(*list.head)),
                rest: nodes_view(list.rest@),
            }));
        }
        match &*list.head {
            Node::Keyword(details) => match &details.token {
                Lexeme::Plus => self.emit_add_function(&list.rest),
                Lexeme::Minus => self.emit_subtract_function(&list.rest),
                Lexeme::Print => self.emit_print_function(&list.rest),
                _ => Vec::new(),
            },
            _ => Vec::new(),
        }
    }

    /// The export of the entry function.
    fn emit_export(&self) -> (export: Vec<String>)
        ensures
            texts(export@) == seq![export_text()],
    {
        let mut export: Vec<String> = Vec::new();
        export.push(String::from_str("(export \"_start\" (func $main))"));
        proof {
            assert(texts(export@) =~= seq![export_text()]);
        }
        export
    }

    /// Emits an addition: the instruction, left open, its operands and the closing.
    fn emit_add_function(&mut self, args: &Vec<Node>) -> (body: Vec<String>)
        ensures
            texts(body@) == seq![Opcodes::Add.text()] + all_instructions(nodes_view(args@))
                + seq![close()],
            final(self).has_emitted(
                *old(self),
                any_needs_write(nodes_view(args@)),
                all_segments(nodes_view(args@), old(self).newline()),
            ),
        decreases args, 2nat,
    {
        self.emit_operation(Opcodes::Add, args)
    }

    /// Emits a subtraction: the instruction, left open, its operands and the closing.
    fn emit_subtract_function(&mut self, args: &Vec<Node>) -> (body: Vec<String>)
        ensures
            texts(body@) == seq![Opcodes::Subtract.text()] + all_instructions(
                nodes_view(args@),
            ) + seq![close()],
            final(self).has_emitted(
                *old(self),
                any_needs_write(nodes_view(args@)),
                all_segments(nodes_view(args@), old(self).newline()),
            ),
        decreases args, 2nat,
    {
        self.emit_operation(Opcodes::Subtract, args)
    }

    /// Emits an instruction that is left open, its operands and the closing.
    fn emit_operation(&mut self, operation: Opcodes, args: &Vec<Node>) -> (body: Vec<String>)
        ensures
            texts(body@) == seq![operation.text()] + all_instructions(nodes_view(args@)) + seq![
                close(),
            ],
            final(self).has_emitted(
                *old(self),
                any_needs_write(nodes_view(args@)),
                all_segments(nodes_view(args@), old(self).newline()),
            ),
        decreases args, 1nat,
    {
        let mut body: Vec<String> = Vec::new();
        body.push(operation.to_string());
        let ghost opened = body@;
        let mut operands = self.emit_function_body(args);
        let ghost walked = operands@;
        body.append(&mut operands);
        let ghost filled = body@;
        body.push(String::from_str(")"));
        proof {
            lemma_texts_push(Seq::<String>::empty(), opened[0]);
            assert(opened == Seq::<String>::empty().push(opened[0]));
            lemma_texts_concat(opened, walked);
            lemma_texts_push(filled, body@.last());
            assert(texts(body@) =~= seq![operation.text()] + all_instructions(nodes_view(args@))
                + seq![close()]);
        }
        body
    }

    /// Emits a print of each of `args`, and notes that the module needs the write call.
    fn emit_print_function(&mut self, args: &Vec<Node>) -> (body: Vec<String>)
        ensures
            texts(body@) == print_instructions(nodes_view(args@)),
            final(self).has_emitted(
                *old(self),
                true,
                all_segments(nodes_view(args@), old(self).newline()),
            ),
        decreases args, 0nat,
    {
        let ghost nodes = nodes_view(args@);
        let ghost newline = self.newline();
        if !self.declares(WASIImports::FDWrite) {
            self.imports.push(WASIImports::FDWrite);
        }
        let mut body: Vec<String> = Vec::new();
        let mut i: usize = 0;
        proof {
            assert(nodes.take(0) =~= Seq::<NodeView>::empty());
            assert(texts(body@) =~= Seq::<Seq<char>>::empty());
            assert(self.data() + Seq::<OpDataView>::empty() == self.data());
        }
        while i < args.len()
            invariant
                i <= args.len(),
                nodes == nodes_view(args@),
                newline == old(self).newline(),
                texts(body@) == print_instructions(nodes.take(i as int)),
                self.has_emitted(*old(self), true, all_segments(nodes.take(i as int), newline)),
            decreases args.len() - i,
        {
            let ghost middle = *self;
            let ghost found = body@;
            body.push(Opcodes::Store(0, 8).to_string());
            body.push(Opcodes::Store(4, 12).to_string());
            body.push(
                SysCalls::Write(
                    Opcodes::Const(1),
                    Opcodes::Const(0),
                    Opcodes::Const(1),
                    Opcodes::Const(20),
                ).to_string(),
            );
            let ghost prepared = body@;
            let mut lines = self.emit_instructions(&args[i]);
            let ghost added = lines@;
            body.append(&mut lines);
            let ghost shown = body@;
            body.push(Opcodes::Drop.to_string());
            proof {
                let done = nodes.take(i as int);
                let next = nodes.take(i + 1);
                assert(next.drop_last() == done);
                assert(next.last() == args[i as int]@);
                assert(texts(prepared) =~= texts(found) + print_prelude());
                lemma_texts_concat(prepared, added);
                lemma_texts_push(shown, body@.last());
                self.lemma_has_emitted_twice(
                    middle,
                    *old(self),
                    true,
                    all_segments(done, newline),
                    needs_write(args[i as int]@),
                    segments(args[i as int]@, newline),
                );
            }
            i += 1;
        }
        proof {
            assert(nodes.take(args.len() as int) == nodes);
        }
        body
    }

    /// Whether `import` is among the imports found.
    fn declares(&self, import: WASIImports) -> (found: bool)
        ensures
            found == self.imports().contains(import),
    {
        let mut i: usize = 0;
        while i < self.imports.len()
            invariant
                i <= self.imports.len(),
                forall|j: int| 0 <= j < i ==> self.imports@[j] != import,
            decreases self.imports.len() - i,
        {
            if self.imports[i] == import {
                return true;
            }
            i += 1;
        }
        false
    }

    /// Emits a constant.
    fn emit_constant(&mut self, constant: &ConstantLiteral) -> (body: Vec<String>)
        ensures
            texts(body@) == instructions(NodeView::Constant(constant@)),
            final(self).has_emitted(
                *old(self),
                false,
                segments(NodeView::Constant(constant@), old(self).newline()),
            ),
    {
        match constant {
            ConstantLiteral::IntegerLiteral(integer) => {
                proof {
                    assert(self.data() + Seq::<OpDataView>::empty() == self.data());
                }
                self.emit_integer_constant(*integer)
            },
            ConstantLiteral::StringLiteral(string) => self.emit_string_bytes(string),
        }
    }

    /// The push of the integer `constant`.
    fn emit_integer_constant(&self, constant: i32) -> (body: Vec<String>)
        ensures
            texts(body@) == seq![Opcodes::Const(constant).text()],
    {
        let mut body: Vec<String> = Vec::new();
        body.push(Opcodes::Const(constant).to_string());
        proof {
            assert(texts(body@) =~= seq![Opcodes::Const(constant).text()]);
        }
        body
    }

    /// Notes a data segment with the bytes of the string `constant`. A string emits no
    /// instruction of its own.
    fn emit_string_bytes(&mut self, constant: &String) -> (body: Vec<String>)
        ensures
            body@.len() == 0,
            final(self).has_emitted(
                *old(self),
                false,
                seq![
                    OpDataView {
                        location: Opcodes::Const(STRING_ADDRESS),
                        data: string_bytes(constant@, old(self).newline()),
                    },
                ],
            ),
    {
        let location = Opcodes::Const(STRING_ADDRESS);
        let mut data = constant.clone();
        if self.newline {
            data.push('\n');
        }
        let segment = OpData { location, data };
        let ghost found = self.data();
        self.data.push(segment);
        proof {
            assert(self.data() =~= found + seq![segment@]);
        }
        Vec::new()
    }

    /// The declaration of one page of linear memory and its export.
    fn emit_memory_initializer(&self) -> (text: String)
        ensures
            text@ == memory_text(),
    {
        String::from_str("(memory 1) (export \"memory\" (memory 0))")
    }
}

} // verus!
