//! Core of a small RISC-V kernel: typed addresses, the multi-level page
//! table with its swap path, trap classification and the scheduler, and
//! beside them the block devices, the firmware's tables and the windows.
//!
//! Everything here is plain data and pure decisions. Hardware access
//! (control registers, the timer, raw memory) and the range allocator stay
//! with the caller, who hands in what was allocated and carries out what
//! the functions here decide.
pub mod bits;
pub mod mem;
pub mod paging;
pub mod dev;
pub mod arch;
pub mod scheduler;
pub mod cpu;
pub mod acpi;
