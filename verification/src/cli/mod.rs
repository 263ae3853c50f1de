//! What the command line front end decides: trace settings, configuration and
//! the text of its reports.
pub mod commands;
pub mod output;
