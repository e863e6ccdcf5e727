//! Commands read line by line: a transformation and its input, processed
//! apart from where they are read.

pub mod commands;
pub mod csv_processing;
pub mod custom_errors;
pub mod extensions;
