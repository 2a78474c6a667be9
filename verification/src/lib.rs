//! Core of a small teaching kernel: the process-level synchronisation
//! syscalls (mutexes, semaphores, condition variables and deadlock
//! detection) and the two task schedulers (a round-robin list of
//! applications and a FIFO ready queue).
//!
//! Everything that touches the machine (context switches, timers, blocking
//! on a lock) is left to the caller: the functions here take the values the
//! kernel read and say what it must do next.
pub mod syscall;
pub mod task;
