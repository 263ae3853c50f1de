pub mod coordinate;
pub mod direction;
pub mod bigint;
pub mod error;
pub mod error_debug;
