//! The library's model of one parsed script command.
//!
//! The upstream parser yields a richer command stream; the caller converts
//! each command into this model before handing it over. Only the four kinds
//! the generator translates carry a payload; every other kind collapses into
//! `Unsupported`, for which no code is emitted.

use vstd::prelude::*;
use crate::values::LitValue;

verus! {

/// The action of an `assert_return` command.
#[derive(Clone, Debug)]
pub enum InvokeAction {
    /// Invoke the export named `field` of the most recently defined module
    /// with the given argument literals.
    Invoke { field: String, args: Vec<LitValue> },
    /// Any other action: no code is emitted for it.
    Other,
}

/// The kind of one script command, reduced to what the generator translates.
#[derive(Clone, Debug)]
pub enum CmdKind {
    /// A module definition, carrying the module's readable text form.
    Module { text: String },
    /// An assertion that an action returns the expected values.
    AssertReturn { action: InvokeAction, expected: Vec<LitValue> },
    /// An assertion that a binary module does not validate.
    AssertInvalid { binary: Vec<u8> },
    /// An assertion that a binary module does not parse.
    AssertMalformed { binary: Vec<u8> },
    /// Every command kind the generator deliberately skips.
    Unsupported,
}

/// One parsed script command: its source line and its kind.
#[derive(Clone, Debug)]
pub struct ScriptCommand {
    /// Line number the command stands on in the script.
    pub line: u64,
    /// What the command is.
    pub kind: CmdKind,
}

} // verus!
