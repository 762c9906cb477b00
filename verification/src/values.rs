//! The typed literal values carried by script assertions, and the type
//! mapper that renders them as source text.
//!
//! A value is one of four numeric kinds. The two float kinds carry their
//! already-rendered decimal text rather than a machine float: the generator
//! only ever prints them, and the caller renders them when it converts the
//! upstream command stream.

use vstd::prelude::*;
use vstd::string::StringExecFns;
use crate::text::int_text;

verus! {

/// A typed literal value from a script assertion.
#[derive(Clone, Debug, PartialEq, Eq)]
pub enum LitValue {
    /// 32-bit integer.
    I32(i32),
    /// 64-bit integer.
    I64(i64),
    /// 32-bit float, carried as its rendered decimal text.
    F32(String),
    /// 64-bit float, carried as its rendered decimal text.
    F64(String),
}

/// The source-level type name of a value's kind.
pub open spec fn type_name_text(v: LitValue) -> Seq<char> {
    match v {
        LitValue::I32(_) => "i32"@,
        LitValue::I64(_) => "i64"@,
        LitValue::F32(_) => "f32"@,
        LitValue::F64(_) => "f64"@,
    }
}

/// The source-level literal expression of a value: its rendered number,
/// annotated with its type.
pub open spec fn literal_text(v: LitValue) -> Seq<char> {
    match v {
        LitValue::I32(x) => int_text(x as int) + " as i32"@,
        LitValue::I64(x) => int_text(x as int) + " as i64"@,
        LitValue::F32(t) => t@ + " as f32"@,
        LitValue::F64(t) => t@ + " as f64"@,
    }
}

/// Returns the source-level type name of `v`'s kind.
pub fn rust_type_name(v: &LitValue) -> (r: String)
    ensures
        r@ == type_name_text(*v),
{
    match v {
        LitValue::I32(_) => String::from_str("i32"),
        LitValue::I64(_) => String::from_str("i64"),
        LitValue::F32(_) => String::from_str("f32"),
        LitValue::F64(_) => String::from_str("f64"),
    }
}

/// Returns the source-level literal expression of `v`.
pub fn rust_literal(v: &LitValue) -> (r: String)
    ensures
        r@ == literal_text(*v),
{
    let mut out = String::from_str("");
    proof {
        reveal_strlit("");
        assert(out@ =~= Seq::<char>::empty());
    }
    match v {
        LitValue::I32(x) => {
            crate::text::push_int(&mut out, *x as i64);
            out.append(" as i32");
        },
        LitValue::I64(x) => {
            crate::text::push_int(&mut out, *x);
            out.append(" as i64");
        },
        LitValue::F32(t) => {
            out.append(t.as_str());
            out.append(" as f32");
        },
        LitValue::F64(t) => {
            out.append(t.as_str());
            out.append(" as f64");
        },
    }
    proof {
        assert(out@ =~= literal_text(*v));
    }
    out
}

} // verus!
