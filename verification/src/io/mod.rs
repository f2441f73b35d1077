pub mod keyboard;
pub mod vga;
