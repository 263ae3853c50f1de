pub mod grid;
pub mod droplet;
pub mod stack;
pub mod subroutines;
pub mod memory;
pub mod collision;
pub mod execution;
pub mod paths;
