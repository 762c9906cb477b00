//! The library's cross-cutting guarantees, stated and proved over the
//! generator's state machine and the controller's decision functions.

use vstd::prelude::*;
use crate::commands::{CmdKind, InvokeAction, ScriptCommand};
use crate::controller::{index_write_needed, stale_spec, ScriptStatus};
use crate::text::{esc_char, escape_text};
use crate::gen::{
    final_state, finish, flush_from, flush_step, header_text, init_state, line_mark_text, run,
    script_text, step_command, step_kind, wf_state, wrapper_name_text, FlushEvent, GenState,
};

verus! {

/// Determinism: the generated text is a function of the script's name and
/// command stream alone, so repeated runs over an identical script produce
/// byte-identical output.
pub proof fn lemma_deterministic(
    filename1: Seq<char>,
    cmds1: Seq<ScriptCommand>,
    filename2: Seq<char>,
    cmds2: Seq<ScriptCommand>,
)
    requires
        filename1 == filename2,
        cmds1 == cmds2,
    ensures
        script_text(filename1, cmds1) == script_text(filename2, cmds2),
{
}

/// Idempotent staleness check: after a pass that has left every script's
/// output at least as new as the script itself, and the index file holding
/// exactly the computed content, a second pass decides to write nothing.
pub proof fn lemma_second_pass_writes_nothing(
    statuses: Seq<ScriptStatus>,
    current_index: Seq<u8>,
    fresh_index: Seq<u8>,
)
    requires
        forall|i: int| 0 <= i < statuses.len() ==> (#[trigger] statuses[i].output_mtime matches Some(
            t,
        ) && t >= statuses[i].script_mtime),
        current_index == fresh_index,
    ensures
        forall|i: int| 0 <= i < statuses.len() ==> !stale_spec(statuses[i]),
        !index_write_needed(current_index, fresh_index),
{
}

/// Whether every command in the stream is of a kind the generator skips.
pub open spec fn all_unsupported(cmds: Seq<ScriptCommand>) -> bool {
    forall|i: int| 0 <= i < cmds.len() ==> cmds[i].kind is Unsupported
}

/// The line comments of a command stream, in order.
pub open spec fn line_marks_text(cmds: Seq<ScriptCommand>) -> Seq<char>
    decreases cmds.len(),
{
    if cmds.len() == 0 {
        Seq::empty()
    } else {
        line_marks_text(cmds.drop_last()) + line_mark_text(cmds.last().line)
    }
}

proof fn lemma_unsupported_run(s: GenState, cmds: Seq<ScriptCommand>)
    requires
        all_unsupported(cmds),
    ensures
        run(s, cmds).cur == s.cur,
        run(s, cmds).pending == s.pending,
        run(s, cmds).flushes == s.flushes,
        run(s, cmds).out == s.out + line_marks_text(cmds),
    decreases cmds.len(),
{
    if cmds.len() == 0 {
        assert(run(s, cmds).out =~= s.out + line_marks_text(cmds));
    } else {
        let p = cmds.drop_last();
        assert(all_unsupported(p)) by {
            assert(forall|i: int| 0 <= i < p.len() ==> p[i] == cmds[i]);
        }
        lemma_unsupported_run(s, p);
        assert(cmds.last().kind is Unsupported);
        assert(run(s, cmds) == step_command(run(s, p), cmds.last()));
        assert(run(s, cmds).out =~= s.out + line_marks_text(cmds));
    }
}

/// Unsupported-command skip: a script containing only unsupported command
/// kinds generates exactly the header and one line comment per command — no
/// factory, no wrapper, no standalone test, and no aggregating test — and
/// generation succeeds.
pub proof fn lemma_unsupported_skip(filename: Seq<char>, cmds: Seq<ScriptCommand>)
    requires
        all_unsupported(cmds),
    ensures
        script_text(filename, cmds) == header_text(filename) + line_marks_text(cmds),
        final_state(filename, cmds).flushes == Seq::<FlushEvent>::empty(),
{
    let s0 = init_state(filename);
    lemma_unsupported_run(s0, cmds);
    let r = run(s0, cmds);
    assert(r.cur == 0);
    assert(finish(r) == r);
}

/// The number of module definitions in the stream.
pub open spec fn num_modules(cmds: Seq<ScriptCommand>) -> int
    decreases cmds.len(),
{
    if cmds.len() == 0 {
        0
    } else {
        num_modules(cmds.drop_last()) + if cmds.last().kind is Module {
            1int
        } else {
            0int
        }
    }
}

/// Whether one command is an `assert_return` with an invoke action.
pub open spec fn is_invoke_return(c: ScriptCommand) -> bool {
    match c.kind {
        CmdKind::AssertReturn { action, expected: _ } => action is Invoke,
        _ => false,
    }
}

/// The wrapper names module `m`'s aggregating test must call: one per invoke
/// `assert_return` that appears while `m` is the current module, in script
/// order.
pub open spec fn calls_for(cmds: Seq<ScriptCommand>, m: int) -> Seq<Seq<char>>
    decreases cmds.len(),
{
    if cmds.len() == 0 {
        Seq::empty()
    } else {
        let p = cmds.drop_last();
        let rest = calls_for(p, m);
        if is_invoke_return(cmds.last()) && num_modules(p) == m {
            rest.push(wrapper_name_text(cmds.last().line))
        } else {
            rest
        }
    }
}

/// The flush events recorded for module `m`, in emission order.
pub open spec fn flushes_for(events: Seq<FlushEvent>, m: int) -> Seq<FlushEvent>
    decreases events.len(),
{
    if events.len() == 0 {
        Seq::empty()
    } else {
        let rest = flushes_for(events.drop_last(), m);
        if events.last().module == m {
            rest.push(events.last())
        } else {
            rest
        }
    }
}

/// The flush events a full pass owes module `m`: exactly one, holding the
/// module's wrapper names in script order, when the module gathered any; none
/// otherwise.
pub open spec fn expected_flushes(cmds: Seq<ScriptCommand>, m: int) -> Seq<FlushEvent> {
    if calls_for(cmds, m).len() > 0 {
        seq![FlushEvent { module: m, calls: calls_for(cmds, m) }]
    } else {
        Seq::empty()
    }
}

proof fn lemma_flushes_for_push(events: Seq<FlushEvent>, e: FlushEvent, m: int)
    ensures
        flushes_for(events.push(e), m) == if e.module == m {
            flushes_for(events, m).push(e)
        } else {
            flushes_for(events, m)
        },
{
    assert(events.push(e).drop_last() =~= events);
    assert(events.push(e).last() == e);
}

proof fn lemma_calls_for_high(cmds: Seq<ScriptCommand>, m: int)
    requires
        m > num_modules(cmds),
    ensures
        calls_for(cmds, m).len() == 0,
    decreases cmds.len(),
{
    if cmds.len() > 0 {
        lemma_calls_for_high(cmds.drop_last(), m);
    }
}

proof fn lemma_run_ledger(filename: Seq<char>, cmds: Seq<ScriptCommand>)
    ensures
        ({
            let r = run(init_state(filename), cmds);
            &&& 0 <= r.cur
            &&& r.cur == num_modules(cmds)
            &&& r.pending.len() == r.cur + 1
            &&& forall|m: int|
                0 <= m < r.cur ==> #[trigger] r.pending[m] == Seq::<Seq<char>>::empty()
            &&& r.pending[r.cur] == calls_for(cmds, r.cur)
            &&& forall|m: int|
                0 <= m < r.cur ==> #[trigger] flushes_for(r.flushes, m) == expected_flushes(
                    cmds,
                    m,
                )
            &&& forall|m: int|
                m >= r.cur || m < 0 ==> #[trigger] flushes_for(r.flushes, m)
                    == Seq::<FlushEvent>::empty()
        }),
    decreases cmds.len(),
{
    let s0 = init_state(filename);
    if cmds.len() == 0 {
        assert(forall|m: int| flushes_for(s0.flushes, m) == Seq::<FlushEvent>::empty());
    } else {
        let p = cmds.drop_last();
        let c = cmds.last();
        lemma_run_ledger(filename, p);
        let rp = run(s0, p);
        let r = run(s0, cmds);
        assert(r == step_command(rp, c));
        match c.kind {
            CmdKind::Module { text: _ } => {
                let s1 = GenState { last_line: c.line, out: rp.out + line_mark_text(c.line), ..rp };
                assert(r == step_kind(s1, c.kind));
                let pend = rp.pending[rp.cur];
                assert(r.cur == rp.cur + 1);
                assert(r.pending =~= rp.pending.update(rp.cur, Seq::empty()).push(Seq::empty()));
                assert(calls_for(cmds, rp.cur) == calls_for(p, rp.cur));
                lemma_calls_for_high(p, rp.cur + 1);
                assert(calls_for(cmds, r.cur) == calls_for(p, r.cur));
                if pend.len() > 0 {
                    let e = FlushEvent { module: rp.cur, calls: pend };
                    assert(r.flushes == rp.flushes.push(e));
                    assert forall|m: int| 0 <= m < r.cur implies #[trigger] flushes_for(
                        r.flushes,
                        m,
                    ) == expected_flushes(cmds, m) by {
                        lemma_flushes_for_push(rp.flushes, e, m);
                        if m == rp.cur {
                            assert(flushes_for(rp.flushes, m) == Seq::<FlushEvent>::empty());
                            assert(Seq::<FlushEvent>::empty().push(e) =~= seq![e]);
                            assert(calls_for(cmds, m) == pend);
                        } else {
                            assert(calls_for(cmds, m) == calls_for(p, m));
                        }
                    }
                    assert forall|m: int| m >= r.cur || m < 0 implies #[trigger] flushes_for(
                        r.flushes,
                        m,
                    ) == Seq::<FlushEvent>::empty() by {
                        lemma_flushes_for_push(rp.flushes, e, m);
                    }
                } else {
                    assert forall|m: int| 0 <= m < r.cur implies #[trigger] flushes_for(
                        r.flushes,
                        m,
                    ) == expected_flushes(cmds, m) by {
                        if m == rp.cur {
                            assert(calls_for(cmds, m) == pend);
                        } else {
                            assert(calls_for(cmds, m) == calls_for(p, m));
                        }
                    }
                }
            },
            CmdKind::AssertReturn { action, expected: _ } => {
                match action {
                    InvokeAction::Invoke { field: _, args: _ } => {
                        assert(is_invoke_return(c));
                        let s1 = GenState {
                            last_line: c.line,
                            out: rp.out + line_mark_text(c.line),
                            ..rp
                        };
                        assert(r == step_kind(s1, c.kind));
                        assert(r.cur == rp.cur);
                        assert(r.flushes == rp.flushes);
                        assert(r.pending == rp.pending.update(
                            rp.cur,
                            rp.pending[rp.cur].push(wrapper_name_text(c.line)),
                        ));
                        assert(r.pending[r.cur] == rp.pending[rp.cur].push(
                            wrapper_name_text(c.line),
                        ));
                        assert(calls_for(cmds, r.cur) == calls_for(p, r.cur).push(
                            wrapper_name_text(c.line),
                        ));
                        assert forall|m: int| 0 <= m < r.cur implies #[trigger] flushes_for(
                            r.flushes,
                            m,
                        ) == expected_flushes(cmds, m) by {
                            assert(calls_for(cmds, m) == calls_for(p, m));
                        }
                    },
                    InvokeAction::Other => {
                        assert(calls_for(cmds, r.cur) == calls_for(p, r.cur));
                        assert forall|m: int| 0 <= m < r.cur implies #[trigger] flushes_for(
                            r.flushes,
                            m,
                        ) == expected_flushes(cmds, m) by {
                            assert(calls_for(cmds, m) == calls_for(p, m));
                        }
                    },
                }
            },
            CmdKind::AssertInvalid { binary: _ } => {
                assert(calls_for(cmds, r.cur) == calls_for(p, r.cur));
                assert forall|m: int| 0 <= m < r.cur implies #[trigger] flushes_for(
                    r.flushes,
                    m,
                ) == expected_flushes(cmds, m) by {
                    assert(calls_for(cmds, m) == calls_for(p, m));
                }
            },
            CmdKind::AssertMalformed { binary: _ } => {
                assert(calls_for(cmds, r.cur) == calls_for(p, r.cur));
                assert forall|m: int| 0 <= m < r.cur implies #[trigger] flushes_for(
                    r.flushes,
                    m,
                ) == expected_flushes(cmds, m) by {
                    assert(calls_for(cmds, m) == calls_for(p, m));
                }
            },
            CmdKind::Unsupported => {
                assert(calls_for(cmds, r.cur) == calls_for(p, r.cur));
                assert forall|m: int| 0 <= m < r.cur implies #[trigger] flushes_for(
                    r.flushes,
                    m,
                ) == expected_flushes(cmds, m) by {
                    assert(calls_for(cmds, m) == calls_for(p, m));
                }
            },
        }
    }
}

proof fn lemma_finish_flushes(s: GenState, k: int)
    requires
        wf_state(s),
        1 <= k <= s.cur + 1,
        forall|j: int| k <= j < s.cur ==> #[trigger] s.pending[j] == Seq::<Seq<char>>::empty(),
    ensures
        flush_from(s, k).flushes == if k <= s.cur && s.pending[s.cur].len() > 0 {
            s.flushes.push(FlushEvent { module: s.cur, calls: s.pending[s.cur] })
        } else {
            s.flushes
        },
    decreases s.cur + 1 - k,
{
    if k <= s.cur {
        let f = flush_step(s, k);
        lemma_finish_flushes(f, k + 1);
    }
}

/// Module ledger flush completeness: over a full pass, every module index in
/// `1 ..= N` (with `N` the number of defined modules) that gathered at least
/// one invoke assertion is flushed into exactly one aggregating test, and
/// that test calls the module's wrapper names in script order; a module that
/// gathered none is flushed into no test at all.
pub proof fn lemma_flush_completeness(filename: Seq<char>, cmds: Seq<ScriptCommand>, m: int)
    requires
        1 <= m <= num_modules(cmds),
    ensures
        flushes_for(final_state(filename, cmds).flushes, m) == expected_flushes(cmds, m),
{
    lemma_run_ledger(filename, cmds);
    let r = run(init_state(filename), cmds);
    lemma_finish_flushes(r, 1);
    if r.cur >= 1 && r.pending[r.cur].len() > 0 {
        let e = FlushEvent { module: r.cur, calls: r.pending[r.cur] };
        lemma_flushes_for_push(r.flushes, e, m);
        if m == r.cur {
            assert(Seq::<FlushEvent>::empty().push(e) =~= seq![e]);
        }
    } else {
        if m == r.cur {
            assert(expected_flushes(cmds, m) == Seq::<FlushEvent>::empty());
        }
    }
}

/// One escaping step read back by the source language's literal rules: a
/// backslash takes the next character verbatim; everything else stands for
/// itself.
pub open spec fn unescape_rust(s: Seq<char>) -> Seq<char>
    decreases s.len(),
{
    if s.len() == 0 {
        Seq::empty()
    } else if s[0] == '\\' && s.len() >= 2 {
        seq![s[1]] + unescape_rust(s.skip(2))
    } else {
        seq![s[0]] + unescape_rust(s.skip(1))
    }
}

/// One character of module text after re-indentation: a line break gains the
/// four spaces the emitter inserts for alignment.
pub open spec fn indent_char(c: char) -> Seq<char> {
    if c == '\n' {
        seq!['\n', ' ', ' ', ' ', ' ']
    } else {
        seq![c]
    }
}

/// Module text after re-indentation of its line breaks.
pub open spec fn indented_text(s: Seq<char>) -> Seq<char>
    decreases s.len(),
{
    if s.len() == 0 {
        Seq::empty()
    } else {
        indent_char(s[0]) + indented_text(s.skip(1))
    }
}

proof fn lemma_escape_front(s: Seq<char>)
    requires
        s.len() > 0,
    ensures
        escape_text(s) == esc_char(s[0]) + escape_text(s.skip(1)),
    decreases s.len(),
{
    if s.len() == 1 {
        assert(escape_text(s.drop_last()) == Seq::<char>::empty());
        assert(escape_text(s.skip(1)) == Seq::<char>::empty());
        assert(escape_text(s) =~= esc_char(s[0]) + escape_text(s.skip(1)));
    } else {
        let p = s.drop_last();
        lemma_escape_front(p);
        assert(p[0] == s[0]);
        assert(s.skip(1).drop_last() =~= p.skip(1));
        assert(s.skip(1).last() == s.last());
        assert(escape_text(s.skip(1)) == escape_text(p.skip(1)) + esc_char(s.last()));
        assert(escape_text(s) =~= esc_char(s[0]) + escape_text(s.skip(1)));
    }
}

/// Escaping round-trip: for module text free of backslashes (the only escape
/// the emitter itself introduces), reading the embedded literal back by the
/// source language's escape rules gives the module text unchanged but for
/// the four alignment spaces after each line break — whitespace the script
/// format does not distinguish.
pub proof fn lemma_escape_round_trip(s: Seq<char>)
    requires
        forall|i: int| 0 <= i < s.len() ==> s[i] != '\\',
    ensures
        unescape_rust(escape_text(s)) == indented_text(s),
    decreases s.len(),
{
    if s.len() == 0 {
        assert(unescape_rust(escape_text(s)) =~= indented_text(s));
    } else {
        lemma_escape_front(s);
        let t = s.skip(1);
        assert(forall|i: int| 0 <= i < t.len() ==> t[i] != '\\');
        lemma_escape_round_trip(t);
        let r = escape_text(t);
        let e = escape_text(s);
        if s[0] == '"' {
            assert(e =~= seq!['\\', '"'] + r);
            assert(e[0] == '\\' && e.len() >= 2);
            assert(e.skip(2) =~= r);
            assert(unescape_rust(e) == seq![e[1]] + unescape_rust(e.skip(2)));
            assert(unescape_rust(e) =~= indented_text(s));
        } else if s[0] == '\n' {
            assert(e =~= seq!['\n', ' ', ' ', ' ', ' '] + r);
            let e1 = e.skip(1);
            assert(e1 =~= seq![' ', ' ', ' ', ' '] + r);
            let e2 = e1.skip(1);
            assert(e2 =~= seq![' ', ' ', ' '] + r);
            let e3 = e2.skip(1);
            assert(e3 =~= seq![' ', ' '] + r);
            let e4 = e3.skip(1);
            assert(e4 =~= seq![' '] + r);
            assert(e4.skip(1) =~= r);
            assert(unescape_rust(e4) == seq![' '] + unescape_rust(r));
            assert(unescape_rust(e3) == seq![' '] + unescape_rust(e4));
            assert(unescape_rust(e2) == seq![' '] + unescape_rust(e3));
            assert(unescape_rust(e1) == seq![' '] + unescape_rust(e2));
            assert(unescape_rust(e) == seq!['\n'] + unescape_rust(e1));
            assert(unescape_rust(e) =~= indented_text(s));
        } else {
            assert(e =~= seq![s[0]] + r);
            assert(e.skip(1) =~= r);
            assert(unescape_rust(e) == seq![e[0]] + unescape_rust(e.skip(1)));
            assert(unescape_rust(e) =~= indented_text(s));
        }
    }
}

/// The embedding is sound: inside the rendered literal, every quote
/// character stands immediately after a backslash, so the generated string
/// literal never ends before the module text does.
pub proof fn lemma_escape_quotes_guarded(s: Seq<char>, k: int)
    requires
        0 <= k < escape_text(s).len(),
        escape_text(s)[k] == '"',
    ensures
        k > 0 && escape_text(s)[k - 1] == '\\',
    decreases s.len(),
{
    if s.len() > 0 {
        let p = s.drop_last();
        let ep = escape_text(p);
        if k < ep.len() {
            lemma_escape_quotes_guarded(p, k);
        } else {
            assert(s.last() == '"');
            assert(k == ep.len() + 1);
        }
    }
}

} // verus!
