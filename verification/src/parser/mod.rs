pub mod grid_parser;
pub mod validator;
