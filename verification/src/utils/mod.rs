pub mod daemon;
pub mod host;
pub mod node;
pub mod size;
