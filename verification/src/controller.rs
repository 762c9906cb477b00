//! The regeneration controller's decisions: which scripts are stale, what
//! the aggregating index file must hold, and whether it must be rewritten.
//!
//! The controller's file handling (reading timestamps, writing files) stays
//! with the caller; everything decided here is decided on plain values.

use vstd::prelude::*;
use vstd::string::StrSliceExecFns;
use vstd::string::StringExecFns;
use crate::gen::banner_text;
use crate::text::texts_of;

verus! {

/// What the controller knows of one configured script: the script file's
/// modification time and, where the generated output exists, its own.
/// Times are plain counters (for instance nanoseconds since an epoch); only
/// their order matters.
pub struct ScriptStatus {
    /// Modification time of the script file.
    pub script_mtime: u64,
    /// Modification time of the generated output, `None` where it is absent.
    pub output_mtime: Option<u64>,
}

/// A script is stale when its output is absent or older than the script.
pub open spec fn stale_spec(st: ScriptStatus) -> bool {
    match st.output_mtime {
        Option::None => true,
        Option::Some(t) => t < st.script_mtime,
    }
}

/// Decides whether one script's output must be regenerated.
pub fn is_stale(st: &ScriptStatus) -> (r: bool)
    ensures
        r == stale_spec(*st),
{
    match st.output_mtime {
        Option::None => true,
        Option::Some(t) => t < st.script_mtime,
    }
}

/// Decides, for every configured script in order, whether it must be
/// regenerated.
pub fn plan_regens(statuses: &Vec<ScriptStatus>) -> (r: Vec<bool>)
    ensures
        r@.len() == statuses@.len(),
        forall|i: int| 0 <= i < statuses@.len() ==> r@[i] == stale_spec(statuses@[i]),
{
    let mut r: Vec<bool> = Vec::new();
    let mut i: usize = 0;
    while i < statuses.len()
        invariant
            i <= statuses@.len(),
            r@.len() == i,
            forall|k: int| 0 <= k < i ==> r@[k] == stale_spec(statuses@[k]),
        decreases statuses@.len() - i,
    {
        let s = is_stale(&statuses[i]);
        r.push(s);
        i = i + 1;
    }
    r
}

/// The inclusion lines of the index file, one per generated module, in
/// configured order.
pub open spec fn mod_lines_text(names: Seq<Seq<char>>) -> Seq<char>
    decreases names.len(),
{
    if names.len() == 0 {
        Seq::empty()
    } else {
        mod_lines_text(names.drop_last()) + "mod "@ + names.last() + ";\n"@
    }
}

/// The complete content of the aggregating index file: the banner, the fixed
/// entry for the shared non-generated helper module, then one inclusion line
/// per generated module in configured order.
pub open spec fn index_text(names: Seq<Seq<char>>) -> Seq<char> {
    banner_text() + "\n"@
        + "// The _common module is not autogenerated, as it provides common functions for the spectests\nmod _common;"@
        + "\n"@ + mod_lines_text(names)
}

/// Builds the aggregating index file's content for the given module names.
pub fn index_content(names: &Vec<String>) -> (r: String)
    ensures
        r@ == index_text(texts_of(names@)),
{
    let mut out = String::from_str("");
    proof {
        reveal_strlit("");
        assert(out@ =~= Seq::<char>::empty());
    }
    out.append(
        "// Rust test file autogenerated with cargo build (src/build_spectests.rs).\n// Please do NOT modify it by hand, as it will be reseted on next build.\n",
    );
    out.append("\n");
    out.append(
        "// The _common module is not autogenerated, as it provides common functions for the spectests\nmod _common;",
    );
    out.append("\n");
    let ghost head = out@;
    let mut i: usize = 0;
    while i < names.len()
        invariant
            i <= names@.len(),
            out@ == head + mod_lines_text(texts_of(names@).take(i as int)),
        decreases names@.len() - i,
    {
        out.append("mod ");
        out.append(names[i].as_str());
        out.append(";\n");
        proof {
            let dv = texts_of(names@);
            assert(dv[i as int] == names@[i as int]@);
            assert(dv.take(i + 1 as int).drop_last() =~= dv.take(i as int));
            assert(dv.take(i + 1 as int).last() == dv[i as int]);
            assert(out@ =~= head + mod_lines_text(dv.take(i + 1 as int)));
        }
        i = i + 1;
    }
    proof {
        let dv = texts_of(names@);
        assert(dv.take(dv.len() as int) =~= dv);
        assert(out@ =~= index_text(dv));
    }
    out
}

/// The index file is rewritten exactly when its current bytes differ from
/// the freshly computed content.
pub open spec fn index_write_needed(current: Seq<u8>, fresh: Seq<u8>) -> bool {
    current != fresh
}

/// Decides whether the index file must be rewritten.
pub fn should_write_index(current: &Vec<u8>, fresh: &Vec<u8>) -> (r: bool)
    ensures
        r == index_write_needed(current@, fresh@),
{
    if current.len() != fresh.len() {
        proof {
            assert(current@ != fresh@);
        }
        return true;
    }
    let mut i: usize = 0;
    while i < current.len()
        invariant
            i <= current@.len(),
            current@.len() == fresh@.len(),
            forall|k: int| 0 <= k < i ==> current@[k] == fresh@[k],
        decreases current@.len() - i,
    {
        if current[i] != fresh[i] {
            return true;
        }
        i = i + 1;
    }
    proof {
        assert(current@ =~= fresh@);
    }
    false
}

} // verus!
