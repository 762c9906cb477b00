//! The command visitor: one pass over a script's command stream, appending
//! generated source fragments to a buffer and keeping the per-module ledger
//! of pending invocation-wrapper calls.
//!
//! The whole pass is specified by a small state machine (`GenState`,
//! `step_command`, `run`, `finish`): the executable `Generator` is proved to
//! follow it step for step, and `generate_script` is proved to produce
//! exactly `script_text(filename, commands)`.

use vstd::prelude::*;
use vstd::string::StrSliceExecFns;
use vstd::string::StringExecFns;
use crate::commands::{CmdKind, InvokeAction, ScriptCommand};
use crate::text::{
    bytes_text, dec_text, escape_text, join_text, push_bytes, push_dec, push_escaped, push_join,
    push_quoted, quoted_text, texts_of,
};
use crate::values::{literal_text, type_name_text, LitValue};

verus! {

/// The fixed two-line banner every generated file begins with.
pub open spec fn banner_text() -> Seq<char> {
    "// Rust test file autogenerated with cargo build (src/build_spectests.rs).\n// Please do NOT modify it by hand, as it will be reseted on next build.\n"@
}

/// The full header of a generated file: banner, a comment naming the source
/// script, and the fixed using-declarations the generated code depends on.
pub open spec fn header_text(filename: Seq<char>) -> Seq<char> {
    banner_text() + "// Test based on spectests/"@ + filename
        + "\nuse crate::webassembly::{instantiate, compile, ImportObject, ResultObject, VmCtx, Export};\nuse super::_common::spectest_importobject;\nuse wabt::wat2wasm;\n\n"@
}

/// The comment marking the script line a command came from.
pub open spec fn line_mark_text(line: u64) -> Seq<char> {
    "\n// Line "@ + dec_text(line as nat) + "\n"@
}

/// The factory function for module `idx`: embeds the module's readable text,
/// parses it back to binary and instantiates it, expecting success.
pub open spec fn factory_text(idx: int, text: Seq<char>) -> Seq<char> {
    "fn create_module_"@ + dec_text(idx as nat) + "() -> ResultObject {\n    let module_str = \""@
        + escape_text(text)
        + "\";\n    let wasm_binary = wat2wasm(module_str.as_bytes()).expect(\"WAST not valid or malformed\");\n    instantiate(wasm_binary, spectest_importobject()).expect(\"WASM can't be instantiated\")\n}\n"@
}

/// The identifier of the invocation wrapper generated for a command on the
/// given script line.
pub open spec fn wrapper_name_text(line: u64) -> Seq<char> {
    "l"@ + dec_text(line as nat) + "_assert_return_invoke"@
}

/// The type names of a sequence of argument literals, in order.
pub open spec fn type_names_of(args: Seq<LitValue>) -> Seq<Seq<char>>
    decreases args.len(),
{
    if args.len() == 0 {
        Seq::empty()
    } else {
        type_names_of(args.drop_last()).push(type_name_text(args.last()))
    }
}

/// The literal expressions of a sequence of argument literals, in order.
pub open spec fn literal_texts_of(args: Seq<LitValue>) -> Seq<Seq<char>>
    decreases args.len(),
{
    if args.len() == 0 {
        Seq::empty()
    } else {
        literal_texts_of(args.drop_last()).push(literal_text(args.last()))
    }
}

/// The parameter type names of a wrapper's call signature: one per argument
/// literal, plus the implicit execution-context parameter.
pub open spec fn types_texts(args: Seq<LitValue>) -> Seq<Seq<char>> {
    type_names_of(args).push("&VmCtx"@)
}

/// The argument expressions of a wrapper's call: one literal per argument,
/// plus the execution context.
pub open spec fn values_texts(args: Seq<LitValue>) -> Seq<Seq<char>> {
    literal_texts_of(args).push("&vm_context"@)
}

/// The return-type annotation of a wrapper: the type of the first expected
/// value if any value is expected, otherwise nothing.
pub open spec fn ret_text(expected: Seq<LitValue>) -> Seq<char> {
    if expected.len() > 0 {
        " -> "@ + type_name_text(expected[0])
    } else {
        Seq::empty()
    }
}

/// The expression the wrapper's result is compared against: the first
/// expected value's literal, or the unit value when nothing is expected.
pub open spec fn expected_expr_text(expected: Seq<LitValue>) -> Seq<char> {
    if expected.len() > 0 {
        literal_text(expected[0])
    } else {
        "()"@
    }
}

/// The invocation wrapper emitted for an `assert_return` with an invoke
/// action: looks up the export, calls it with the argument literals, and
/// asserts the result equals the first expected value.
pub open spec fn wrapper_fn_text(
    line: u64,
    field: Seq<char>,
    args: Seq<LitValue>,
    expected: Seq<LitValue>,
) -> Seq<char> {
    "fn "@ + wrapper_name_text(line)
        + "(result_object: &ResultObject) {\n    let func_index = match result_object.module.info.exports.get("@
        + quoted_text(field)
        + ") {\n        Some(&Export::Function(index)) => index,\n        _ => panic!(\"Function not found\"),\n    };\n    let invoke_fn: fn("@
        + join_text(types_texts(args), ", "@) + ")"@ + ret_text(expected)
        + " = get_instance_function!(result_object.instance, func_index);\n    let vm_context = result_object.instance.generate_context();\n    let result = invoke_fn("@
        + join_text(values_texts(args), ", "@) + ");\n    assert_eq!(result, "@
        + expected_expr_text(expected) + ");\n}\n"@
}

/// The standalone test emitted for an `assert_invalid` command: compiling the
/// raw binary payload must fail.
pub open spec fn invalid_text(line: u64, binary: Seq<u8>) -> Seq<char> {
    "#[test]\nfn l"@ + dec_text(line as nat) + "_assert_invalid() {\n    let wasm_binary = "@
        + bytes_text(binary)
        + ";\n    let compilation = compile(wasm_binary.to_vec());\n    assert!(compilation.is_err(), \"WASM should not compile as is invalid\");\n}\n"@
}

/// The standalone test emitted for an `assert_malformed` command.
pub open spec fn malformed_text(line: u64, binary: Seq<u8>) -> Seq<char> {
    "#[test]\nfn l"@ + dec_text(line as nat) + "_assert_malformed() {\n    let wasm_binary = "@
        + bytes_text(binary)
        + ";\n    let compilation = compile(wasm_binary.to_vec());\n    assert!(compilation.is_err(), \"WASM should not compile as is malformed\");\n}\n"@
}

/// The call statement an aggregating test makes for one pending wrapper.
pub open spec fn call_stmt_text(name: Seq<char>) -> Seq<char> {
    name + "(&result_object);"@
}

/// The call statements for a whole ledger entry, in insertion order.
pub open spec fn call_stmts_of(calls: Seq<Seq<char>>) -> Seq<Seq<char>>
    decreases calls.len(),
{
    if calls.len() == 0 {
        Seq::empty()
    } else {
        call_stmts_of(calls.drop_last()).push(call_stmt_text(calls.last()))
    }
}

/// The aggregating test for module `m`: one instantiation, then every pending
/// wrapper in insertion order. A module with no pending calls emits nothing.
pub open spec fn agg_test_text(m: int, calls: Seq<Seq<char>>) -> Seq<char> {
    if calls.len() == 0 {
        Seq::empty()
    } else {
        "\n#[test]\nfn test_module_"@ + dec_text(m as nat)
            + "() {\n    let result_object = create_module_"@ + dec_text(m as nat)
            + "();\n    // We group the calls together\n    "@
            + join_text(call_stmts_of(calls), "\n    "@) + "\n}\n"@
    }
}

/// One emitted aggregating test: which module, and the wrapper names it
/// calls, in order. The state machine logs one event per non-empty flush.
#[verifier::ext_equal]
pub struct FlushEvent {
    /// The module index whose ledger entry was flushed.
    pub module: int,
    /// The wrapper names the aggregating test calls, in insertion order.
    pub calls: Seq<Seq<char>>,
}

/// The generator's abstract state: the current module index, the line of the
/// most recently visited command, the ledger of pending calls per module
/// index, the log of emitted aggregating tests, and the output text.
#[verifier::ext_equal]
pub struct GenState {
    /// Index of the most recently defined module; `0` before any definition.
    pub cur: int,
    /// Line number of the most recently visited command.
    pub last_line: u64,
    /// Pending wrapper names, indexed by module index `0 ..= cur`.
    pub pending: Seq<Seq<Seq<char>>>,
    /// Every aggregating test emitted so far.
    pub flushes: Seq<FlushEvent>,
    /// The output buffer.
    pub out: Seq<char>,
}

/// The ledger always has exactly one entry per module index seen so far.
pub open spec fn wf_state(s: GenState) -> bool {
    &&& 0 <= s.cur
    &&& s.pending.len() == s.cur + 1
}

/// Flushing module `m`: emit its aggregating test (nothing when its ledger
/// entry is empty) and clear the entry.
pub open spec fn flush_step(s: GenState, m: int) -> GenState {
    let calls = s.pending[m];
    GenState {
        pending: s.pending.update(m, Seq::empty()),
        flushes: if calls.len() > 0 {
            s.flushes.push(FlushEvent { module: m, calls })
        } else {
            s.flushes
        },
        out: s.out + agg_test_text(m, calls),
        ..s
    }
}

/// A module definition: flush the previous module, move to the next index,
/// open its empty ledger entry, and emit its factory function.
pub open spec fn step_module(s: GenState, text: Seq<char>) -> GenState {
    let f = flush_step(s, s.cur);
    GenState {
        cur: s.cur + 1,
        pending: f.pending.push(Seq::empty()),
        out: f.out + factory_text(s.cur + 1, text),
        ..f
    }
}

/// An `assert_return`: for an invoke action, emit the wrapper and append its
/// name to the current module's ledger entry; any other action is skipped.
pub open spec fn step_assert_return(
    s: GenState,
    action: InvokeAction,
    expected: Seq<LitValue>,
) -> GenState {
    match action {
        InvokeAction::Invoke { field, args } => GenState {
            pending: s.pending.update(s.cur, s.pending[s.cur].push(wrapper_name_text(s.last_line))),
            out: s.out + wrapper_fn_text(s.last_line, field@, args@, expected),
            ..s
        },
        InvokeAction::Other => s,
    }
}

/// The effect of one command kind on the state.
pub open spec fn step_kind(s: GenState, kind: CmdKind) -> GenState {
    match kind {
        CmdKind::Module { text } => step_module(s, text@),
        CmdKind::AssertReturn { action, expected } => step_assert_return(s, action, expected@),
        CmdKind::AssertInvalid { binary } => GenState {
            out: s.out + invalid_text(s.last_line, binary@),
            ..s
        },
        CmdKind::AssertMalformed { binary } => GenState {
            out: s.out + malformed_text(s.last_line, binary@),
            ..s
        },
        CmdKind::Unsupported => s,
    }
}

/// Visiting one command: record its line, emit the line comment, then apply
/// its kind.
pub open spec fn step_command(s: GenState, cmd: ScriptCommand) -> GenState {
    step_kind(
        GenState { last_line: cmd.line, out: s.out + line_mark_text(cmd.line), ..s },
        cmd.kind,
    )
}

/// Visiting a whole command sequence, in order.
pub open spec fn run(s: GenState, cmds: Seq<ScriptCommand>) -> GenState
    decreases cmds.len(),
{
    if cmds.len() == 0 {
        s
    } else {
        step_command(run(s, cmds.drop_last()), cmds.last())
    }
}

/// The end-of-script flush pass over module indexes `k ..= cur`.
pub open spec fn flush_from(s: GenState, k: int) -> GenState
    decreases s.cur + 1 - k,
{
    if k > s.cur {
        s
    } else {
        flush_from(flush_step(s, k), k + 1)
    }
}

/// The end-of-script flush pass: every module index in `1 ..= cur`.
pub open spec fn finish(s: GenState) -> GenState {
    flush_from(s, 1)
}

/// The generator's state after the header, before any command.
pub open spec fn init_state(filename: Seq<char>) -> GenState {
    GenState {
        cur: 0,
        last_line: 0,
        pending: seq![Seq::empty()],
        flushes: Seq::empty(),
        out: header_text(filename),
    }
}

/// The complete state after one pass over a script.
pub open spec fn final_state(filename: Seq<char>, cmds: Seq<ScriptCommand>) -> GenState {
    finish(run(init_state(filename), cmds))
}

/// The complete generated source text for one script.
pub open spec fn script_text(filename: Seq<char>, cmds: Seq<ScriptCommand>) -> Seq<char> {
    final_state(filename, cmds).out
}

/// A state whose output has just been extended with the file header.
pub open spec fn with_header(s: GenState, filename: Seq<char>) -> GenState {
    GenState { out: s.out + header_text(filename), ..s }
}

/// The ledger's abstract form: per module index, the pending wrapper names.
pub open spec fn ledger_view(v: Seq<Vec<String>>) -> Seq<Seq<Seq<char>>> {
    v.map_values(|inner: Vec<String>| texts_of(inner@))
}

/// The command visitor's concrete state for one script run.
pub struct Generator {
    /// Index of the most recently defined module; `0` before any definition.
    pub last_module: usize,
    /// Line number of the most recently visited command.
    pub last_line: u64,
    /// Base name of the script, named in the generated header.
    pub filename: String,
    /// Pending wrapper names, indexed by module index `0 ..= last_module`.
    pub module_calls: Vec<Vec<String>>,
    /// The accumulated output text.
    pub buffer: String,
    /// For reasoning: the aggregating tests emitted so far.
    pub flush_log: Ghost<Seq<FlushEvent>>,
}

impl View for Generator {
    type V = GenState;

    open spec fn view(&self) -> GenState {
        GenState {
            cur: self.last_module as int,
            last_line: self.last_line,
            pending: ledger_view(self.module_calls@),
            flushes: self.flush_log@,
            out: self.buffer@,
        }
    }
}

impl Generator {
    /// The ledger has exactly one entry per module index seen so far.
    pub open spec fn wf(&self) -> bool {
        self.module_calls@.len() == self.last_module as int + 1
    }

    /// A fresh generator for the script with the given base name.
    pub fn new(filename: String) -> (g: Generator)
        ensures
            g.wf(),
            g.filename == filename,
            g@ == (GenState {
                cur: 0,
                last_line: 0,
                pending: seq![Seq::empty()],
                flushes: Seq::empty(),
                out: Seq::empty(),
            }),
    {
        let mut calls: Vec<Vec<String>> = Vec::new();
        calls.push(Vec::new());
        let g = Generator {
            last_module: 0,
            last_line: 0,
            filename,
            module_calls: calls,
            buffer: String::from_str(""),
            flush_log: Ghost(Seq::empty()),
        };
        proof {
            reveal_strlit("");
            assert(g@ =~~= (GenState {
                cur: 0,
                last_line: 0,
                pending: seq![Seq::empty()],
                flushes: Seq::empty(),
                out: Seq::empty(),
            }));
        }
        g
    }

    /// Emits the aggregating test for `module` (nothing when its ledger entry
    /// is empty) and clears that entry.
    pub fn flush_module_calls(&mut self, module: usize)
        requires
            old(self).wf(),
            module < old(self).module_calls@.len(),
        ensures
            final(self).wf(),
            final(self).filename == old(self).filename,
            final(self).last_module == old(self).last_module,
            final(self).last_line == old(self).last_line,
            final(self)@ == flush_step(old(self)@, module as int),
    {
        let ghost calls = ledger_view(old(self).module_calls@)[module as int];
        let n = self.module_calls[module].len();
        proof {
            assert(calls =~= old(self).module_calls@[module as int]@.map_values(
                |s: String| s@,
            ));
            assert(calls.len() == n);
        }
        if n > 0 {
            let mut stmts: Vec<String> = Vec::new();
            let mut i: usize = 0;
            while i < n
                invariant
                    i <= n,
                    self == old(self),
                    old(self).wf(),
                    module < old(self).module_calls@.len(),
                    n == old(self).module_calls@[module as int]@.len(),
                    calls == ledger_view(old(self).module_calls@)[module as int],
                    calls.len() == n,
                    texts_of(stmts@) == call_stmts_of(calls.take(i as int)),
                decreases n - i,
            {
                let mut s = String::from_str(self.module_calls[module][i].as_str());
                s.append("(&result_object);");
                let ghost pre = stmts@;
                stmts.push(s);
                proof {
                    assert(calls[i as int] == self.module_calls@[module as int]@[i as int]@);
                    assert(s@ == call_stmt_text(calls[i as int]));
                    crate::text::lemma_texts_of_push(pre, s);
                    assert(calls.take(i + 1 as int).drop_last() =~= calls.take(i as int));
                    assert(calls.take(i + 1 as int).last() == calls[i as int]);
                    assert(texts_of(stmts@) =~= call_stmts_of(calls.take(i + 1 as int)));
                }
                i = i + 1;
            }
            proof {
                assert(calls.take(n as int) =~= calls);
            }
            self.buffer.append("\n#[test]\nfn test_module_");
            push_dec(&mut self.buffer, module as u64);
            self.buffer.append("() {\n    let result_object = create_module_");
            push_dec(&mut self.buffer, module as u64);
            self.buffer.append("();\n    // We group the calls together\n    ");
            push_join(&mut self.buffer, &stmts, "\n    ");
            self.buffer.append("\n}\n");
            self.flush_log = Ghost(
                self.flush_log@.push(FlushEvent { module: module as int, calls }),
            );
            self.module_calls[module].clear();
            proof {
                assert(self.buffer@ =~= old(self).buffer@ + agg_test_text(module as int, calls));
                assert(self@ =~~= flush_step(old(self)@, module as int));
            }
        } else {
            self.module_calls[module].clear();
            proof {
                assert(self.buffer@ =~= old(self).buffer@ + agg_test_text(module as int, calls));
                assert(self@ =~~= flush_step(old(self)@, module as int));
            }
        }
    }

    /// Visits a module definition: flushes the previous module's pending
    /// calls, advances the module index, and emits the factory function that
    /// embeds the module's readable text.
    pub fn visit_module(&mut self, text: &String)
        requires
            old(self).wf(),
        ensures
            final(self).wf(),
            final(self).filename == old(self).filename,
            final(self).last_module == old(self).last_module + 1,
            final(self)@ == step_module(old(self)@, text@),
    {
        let len = self.module_calls.len();
        proof {
            // The ledger has an entry per module index, so the next index
            // still fits the machine word.
            assert(self.last_module < len);
        }
        self.flush_module_calls(self.last_module);
        self.last_module = self.last_module + 1;
        self.module_calls.push(Vec::new());
        self.buffer.append("fn create_module_");
        push_dec(&mut self.buffer, self.last_module as u64);
        self.buffer.append("() -> ResultObject {\n    let module_str = \"");
        push_escaped(&mut self.buffer, text.as_str());
        self.buffer.append(
            "\";\n    let wasm_binary = wat2wasm(module_str.as_bytes()).expect(\"WAST not valid or malformed\");\n    instantiate(wasm_binary, spectest_importobject()).expect(\"WASM can't be instantiated\")\n}\n",
        );
        proof {
            assert(self@ =~~= step_module(old(self)@, text@));
        }
    }

    /// Visits an `assert_invalid`: emits a standalone test asserting that the
    /// raw binary payload fails to compile.
    pub fn visit_assert_invalid(&mut self, module_binary: &Vec<u8>)
        requires
            old(self).wf(),
        ensures
            final(self).wf(),
            final(self).filename == old(self).filename,
            final(self).last_module == old(self).last_module,
            final(self)@ == (GenState {
                out: old(self)@.out + invalid_text(old(self).last_line, module_binary@),
                ..old(self)@
            }),
    {
        self.buffer.append("#[test]\nfn l");
        push_dec(&mut self.buffer, self.last_line);
        self.buffer.append("_assert_invalid() {\n    let wasm_binary = ");
        push_bytes(&mut self.buffer, module_binary);
        self.buffer.append(
            ";\n    let compilation = compile(wasm_binary.to_vec());\n    assert!(compilation.is_err(), \"WASM should not compile as is invalid\");\n}\n",
        );
        proof {
            assert(self@ =~~= (GenState {
                out: old(self)@.out + invalid_text(old(self).last_line, module_binary@),
                ..old(self)@
            }));
        }
    }

    /// Visits an `assert_malformed`: emits a standalone test asserting that
    /// the raw binary payload fails to compile.
    pub fn visit_assert_malformed(&mut self, module_binary: &Vec<u8>)
        requires
            old(self).wf(),
        ensures
            final(self).wf(),
            final(self).filename == old(self).filename,
            final(self).last_module == old(self).last_module,
            final(self)@ == (GenState {
                out: old(self)@.out + malformed_text(old(self).last_line, module_binary@),
                ..old(self)@
            }),
    {
        self.buffer.append("#[test]\nfn l");
        push_dec(&mut self.buffer, self.last_line);
        self.buffer.append("_assert_malformed() {\n    let wasm_binary = ");
        push_bytes(&mut self.buffer, module_binary);
        self.buffer.append(
            ";\n    let compilation = compile(wasm_binary.to_vec());\n    assert!(compilation.is_err(), \"WASM should not compile as is malformed\");\n}\n",
        );
        proof {
            assert(self@ =~~= (GenState {
                out: old(self)@.out + malformed_text(old(self).last_line, module_binary@),
                ..old(self)@
            }));
        }
    }

    /// Visits an `assert_return`: for an invoke action, emits the invocation
    /// wrapper and appends its name to the current module's ledger entry.
    pub fn visit_assert_return(&mut self, action: &InvokeAction, expected: &Vec<LitValue>)
        requires
            old(self).wf(),
        ensures
            final(self).wf(),
            final(self).filename == old(self).filename,
            final(self).last_module == old(self).last_module,
            final(self)@ == step_assert_return(old(self)@, *action, expected@),
    {
        match action {
            InvokeAction::Invoke { field, args } => {
                let mut arg_types: Vec<String> = Vec::new();
                let mut i: usize = 0;
                while i < args.len()
                    invariant
                        i <= args@.len(),
                        texts_of(arg_types@) == type_names_of(args@.take(i as int)),
                    decreases args@.len() - i,
                {
                    let ghost pre = arg_types@;
                    let t = crate::values::rust_type_name(&args[i]);
                    arg_types.push(t);
                    proof {
                        crate::text::lemma_texts_of_push(pre, t);
                        assert(args@.take(i + 1 as int).drop_last() =~= args@.take(i as int));
                        assert(args@.take(i + 1 as int).last() == args@[i as int]);
                        assert(texts_of(arg_types@) =~= type_names_of(args@.take(i + 1 as int)));
                    }
                    i = i + 1;
                }
                let ghost pre_types = arg_types@;
                let ctx_ty = String::from_str("&VmCtx");
                arg_types.push(ctx_ty);
                let mut arg_values: Vec<String> = Vec::new();
                let mut j: usize = 0;
                while j < args.len()
                    invariant
                        j <= args@.len(),
                        texts_of(arg_values@) == literal_texts_of(args@.take(j as int)),
                    decreases args@.len() - j,
                {
                    let ghost pre = arg_values@;
                    let t = crate::values::rust_literal(&args[j]);
                    arg_values.push(t);
                    proof {
                        crate::text::lemma_texts_of_push(pre, t);
                        assert(args@.take(j + 1 as int).drop_last() =~= args@.take(j as int));
                        assert(args@.take(j + 1 as int).last() == args@[j as int]);
                        assert(texts_of(arg_values@) =~= literal_texts_of(args@.take(j + 1 as int)));
                    }
                    j = j + 1;
                }
                let ghost pre_values = arg_values@;
                let ctx_arg = String::from_str("&vm_context");
                arg_values.push(ctx_arg);
                proof {
                    assert(args@.take(args@.len() as int) =~= args@);
                    crate::text::lemma_texts_of_push(pre_types, ctx_ty);
                    crate::text::lemma_texts_of_push(pre_values, ctx_arg);
                    assert(texts_of(arg_types@) =~= types_texts(args@));
                    assert(texts_of(arg_values@) =~= values_texts(args@));
                }
                let mut func_name = String::from_str("l");
                push_dec(&mut func_name, self.last_line);
                func_name.append("_assert_return_invoke");
                proof {
                    assert(func_name@ =~= wrapper_name_text(self.last_line));
                }
                self.buffer.append("fn ");
                self.buffer.append(func_name.as_str());
                self.buffer.append(
                    "(result_object: &ResultObject) {\n    let func_index = match result_object.module.info.exports.get(",
                );
                push_quoted(&mut self.buffer, field.as_str());
                self.buffer.append(
                    ") {\n        Some(&Export::Function(index)) => index,\n        _ => panic!(\"Function not found\"),\n    };\n    let invoke_fn: fn(",
                );
                push_join(&mut self.buffer, &arg_types, ", ");
                self.buffer.append(")");
                if expected.len() > 0 {
                    self.buffer.append(" -> ");
                    let t = crate::values::rust_type_name(&expected[0]);
                    self.buffer.append(t.as_str());
                }
                self.buffer.append(
                    " = get_instance_function!(result_object.instance, func_index);\n    let vm_context = result_object.instance.generate_context();\n    let result = invoke_fn(",
                );
                push_join(&mut self.buffer, &arg_values, ", ");
                self.buffer.append(");\n    assert_eq!(result, ");
                if expected.len() > 0 {
                    let e = crate::values::rust_literal(&expected[0]);
                    self.buffer.append(e.as_str());
                } else {
                    self.buffer.append("()");
                }
                self.buffer.append(");\n}\n");
                let m = self.last_module;
                self.module_calls[m].push(func_name);
                proof {
                    assert(self.buffer@ =~= old(self).buffer@ + wrapper_fn_text(
                        old(self).last_line,
                        field@,
                        args@,
                        expected@,
                    ));
                    assert(self@ =~~= step_assert_return(old(self)@, *action, expected@));
                }
            },
            InvokeAction::Other => {
                proof {
                    assert(self@ =~~= step_assert_return(old(self)@, *action, expected@));
                }
            },
        }
    }

    /// Dispatches one command kind to its visitor; unsupported kinds emit
    /// nothing by design.
    pub fn visit_command(&mut self, kind: &CmdKind)
        requires
            old(self).wf(),
        ensures
            final(self).wf(),
            final(self).filename == old(self).filename,
            final(self)@ == step_kind(old(self)@, *kind),
    {
        match kind {
            CmdKind::Module { text } => {
                self.visit_module(text);
            },
            CmdKind::AssertReturn { action, expected } => {
                self.visit_assert_return(action, expected);
            },
            CmdKind::AssertInvalid { binary } => {
                self.visit_assert_invalid(binary);
            },
            CmdKind::AssertMalformed { binary } => {
                self.visit_assert_malformed(binary);
            },
            CmdKind::Unsupported => {
                proof {
                    assert(self@ =~~= step_kind(old(self)@, *kind));
                }
            },
        }
    }

    /// Drives the visitor over a whole command stream: emits the header, then
    /// every command with its line comment, then flushes every module's
    /// pending calls.
    pub fn consume(&mut self, cmds: &Vec<ScriptCommand>)
        requires
            old(self).wf(),
        ensures
            final(self).wf(),
            final(self).filename == old(self).filename,
            final(self)@ == finish(run(with_header(old(self)@, old(self).filename@), cmds@)),
    {
        self.buffer.append(
            "// Rust test file autogenerated with cargo build (src/build_spectests.rs).\n// Please do NOT modify it by hand, as it will be reseted on next build.\n",
        );
        self.buffer.append("// Test based on spectests/");
        let name = String::from_str(self.filename.as_str());
        self.buffer.append(name.as_str());
        self.buffer.append(
            "\nuse crate::webassembly::{instantiate, compile, ImportObject, ResultObject, VmCtx, Export};\nuse super::_common::spectest_importobject;\nuse wabt::wat2wasm;\n\n",
        );
        let ghost start = with_header(old(self)@, old(self).filename@);
        proof {
            assert(self@ =~~= start);
        }
        let mut i: usize = 0;
        while i < cmds.len()
            invariant
                self.wf(),
                self.filename == old(self).filename,
                i <= cmds@.len(),
                self@ == run(start, cmds@.take(i as int)),
            decreases cmds@.len() - i,
        {
            let ghost prev = self@;
            self.last_line = cmds[i].line;
            self.buffer.append("\n// Line ");
            push_dec(&mut self.buffer, self.last_line);
            self.buffer.append("\n");
            proof {
                assert(self@ =~~= (GenState {
                    last_line: cmds@[i as int].line,
                    out: prev.out + line_mark_text(cmds@[i as int].line),
                    ..prev
                }));
            }
            self.visit_command(&cmds[i].kind);
            proof {
                assert(cmds@.take(i + 1 as int).drop_last() =~= cmds@.take(i as int));
                assert(cmds@.take(i + 1 as int).last() == cmds@[i as int]);
                assert(self@ == step_command(prev, cmds@[i as int]));
                assert(self@ == run(start, cmds@.take(i + 1 as int)));
            }
            i = i + 1;
        }
        proof {
            assert(cmds@.take(cmds@.len() as int) =~= cmds@);
        }
        let ghost reached = run(start, cmds@);
        let top = self.module_calls.len();
        proof {
            assert(self.last_module < top);
        }
        let mut n: usize = 1;
        while n <= self.last_module
            invariant
                self.wf(),
                self.filename == old(self).filename,
                1 <= n <= self.last_module + 1,
                self.last_module < top,
                self@.cur == reached.cur,
                flush_from(reached, 1) == flush_from(self@, n as int),
            decreases self.last_module + 1 - n,
        {
            self.flush_module_calls(n);
            n = n + 1;
        }
        proof {
            assert(flush_from(self@, n as int) == self@);
        }
    }

    /// Hands back the finished buffer; the generator is spent.
    pub fn finalize(self) -> (r: String)
        ensures
            r@ == self@.out,
    {
        self.buffer
    }
}

/// Generates the complete test source text for one script: the header, one
/// fragment per translated command, and one aggregating test per module that
/// gathered pending calls.
pub fn generate_script(filename: &String, cmds: &Vec<ScriptCommand>) -> (r: String)
    ensures
        r@ == script_text(filename@, cmds@),
{
    let mut g = Generator::new(String::from_str(filename.as_str()));
    proof {
        assert(with_header(g@, filename@) =~~= init_state(filename@));
    }
    g.consume(cmds);
    g.finalize()
}

} // verus!
