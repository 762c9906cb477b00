//! A miniature of the runtime protocol a generated suite drives.
//!
//! Each aggregating test in a generated suite instantiates one module, runs
//! its start function once, and then calls the module's invocation wrappers
//! in order. The instance model here keeps just enough state to pin that
//! protocol down: which module index the instance came from and whether its
//! start function has run. The real instantiation and execution belong to
//! the virtual-machine runtime the generated code is compiled against, not
//! to this library.

use vstd::prelude::*;

verus! {

/// The state a generated suite assumes of one module instance.
pub struct InstanceModel {
    /// Index of the module this instance was created from.
    pub module_index: u64,
    /// Whether the module's start function has run.
    pub started: bool,
}

/// A fresh, not yet started instance of module `m`, as each aggregating
/// test's factory call produces it.
pub fn create_instance(m: u64) -> (r: InstanceModel)
    ensures
        r.module_index == m,
        !r.started,
{
    InstanceModel { module_index: m, started: false }
}

/// The start step of the first module's aggregating test: runs the start
/// function of module 1's instance before any wrapper call.
pub fn start_module_1(inst: &mut InstanceModel)
    requires
        old(inst).module_index == 1,
        !old(inst).started,
    ensures
        final(inst).module_index == 1,
        final(inst).started,
{
    inst.started = true;
}

/// The start step of the second module's aggregating test: runs the start
/// function of module 2's instance before any wrapper call.
pub fn start_module_2(inst: &mut InstanceModel)
    requires
        old(inst).module_index == 2,
        !old(inst).started,
    ensures
        final(inst).module_index == 2,
        final(inst).started,
{
    inst.started = true;
}

} // verus!
