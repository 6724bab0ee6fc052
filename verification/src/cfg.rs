//! Per-instruction energy costs, consumed read-only by the handlers.

use vstd::prelude::*;

verus! {

/// Energy cost configuration. `mov`, `fix` and `if` debit their cost from the
/// running VM; `spl` credits its cost back.
#[derive(Copy, Clone)]
pub struct Config {
    /// Energy debited per atom relocated by one `mov` step.
    pub mov_energy: isize,
    /// Energy debited by a successful `fix`.
    pub fix_energy: isize,
    /// Energy credited by a successful `spl`.
    pub spl_energy: isize,
    /// Energy debited by a successful `if` branch.
    pub if_energy: isize,
}

} // verus!
