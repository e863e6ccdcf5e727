//! Transforming lines from standard input, with a table renderer for CSV.

pub mod csv_processing;
pub mod custom_errors;
pub mod helpers;
