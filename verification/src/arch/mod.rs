//! What depends on the processor: trap causes and frames, control
//! registers, the timer.
pub mod trap;
pub mod timer;
pub mod dispatch;
pub mod csr;
pub mod io;
