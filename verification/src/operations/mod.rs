pub mod arithmetic;
pub mod flow_control;
pub mod io;
pub mod memory;
pub mod subroutines;
