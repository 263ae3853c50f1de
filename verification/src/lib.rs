//! Tubular: a two-dimensional, pipe-based esoteric programming language.
//!
//! Programs are ASCII grids; droplets carrying arbitrary precision integers
//! flow through the pipes and operators of the grid, one step per tick.
pub mod assoc;
pub mod text;
pub mod types;
pub mod interpreter;
pub mod operations;
pub mod parser;
pub mod cli;
