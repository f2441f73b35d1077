//! The hardware-independent core of a small x86_64 teaching kernel: the VGA text
//! writer, the keyboard scancode queue and key mapping, the boot frame
//! allocator, the cooperative task table, the interrupt vectors and the
//! kernel self-tests.
pub mod interrupt;
pub mod io;
pub mod mem;
pub mod os;
pub mod task;
