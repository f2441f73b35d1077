pub mod frame;
pub mod remap;
