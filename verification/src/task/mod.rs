pub mod executor;
pub mod keyboard;
