//! The bounded pool of live VMs. The `job` instruction asks it to admit one
//! more VM; the external driver owns stepping and culling.

use vstd::prelude::*;
use crate::vm::VM;

verus! {

/// Bounded collection of VMs with a fixed capacity.
pub struct VMPool {
    vms: Vec<VM>,
    max: usize,
}

impl VMPool {
    /// The live VMs, in admission order.
    pub closed spec fn spec_vms(self) -> Seq<VM> {
        self.vms@
    }

    /// The fixed capacity.
    pub closed spec fn spec_max(self) -> int {
        self.max as int
    }

    /// Creates an empty pool with the given capacity.
    pub fn new(max: usize) -> (p: VMPool)
        ensures
            p.spec_vms().len() == 0,
            p.spec_max() == max,
    {
        VMPool { vms: Vec::new(), max }
    }

    /// Whether the pool has no spare capacity.
    pub fn full(&self) -> (r: bool)
        ensures
            r == (self.spec_vms().len() >= self.spec_max()),
    {
        self.vms.len() >= self.max
    }

    /// Admits one more VM. Callers check `full` first.
    pub fn add(&mut self, vm: VM)
        requires
            old(self).spec_vms().len() < old(self).spec_max(),
        ensures
            final(self).spec_vms() == old(self).spec_vms().push(vm),
            final(self).spec_max() == old(self).spec_max(),
    {
        self.vms.push(vm);
    }

    /// Number of live VMs.
    pub fn len(&self) -> (n: usize)
        ensures
            n == self.spec_vms().len(),
    {
        self.vms.len()
    }

    /// Reads the VM admitted at position `i`.
    pub fn get(&self, i: usize) -> (vm: VM)
        requires
            i < self.spec_vms().len(),
        ensures
            vm == self.spec_vms()[i as int],
    {
        self.vms[i]
    }
}

} // verus!
