//! What a processor knows of the code it runs.
use vstd::prelude::*;

verus! {

/// The state of one processor: the process whose code it runs.
#[derive(Clone, Copy, Debug, PartialEq, Eq, Structural)]
pub struct ThreadCtrlBlock {
    pub proc_id: u128,
}

impl ThreadCtrlBlock {
    /// The block of a processor that runs the kernel's own process.
    pub fn new() -> (r: Self)
        ensures
            r.proc_id == 0,
    {
        ThreadCtrlBlock { proc_id: 0 }
    }

    /// The number of the process whose code the processor runs.
    pub fn proc_id(&self) -> (r: u128)
        ensures
            r == self.proc_id,
    {
        self.proc_id
    }
}

} // verus!
