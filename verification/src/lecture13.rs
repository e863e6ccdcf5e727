//! Ways of reporting errors: plain enums, errors that borrow, chains of
//! context.

pub mod anyhow_personal;
pub mod borrowed_error;
pub mod downcasting_errors;
pub mod error_conversions;
pub mod thiserror_personal;
pub mod with_anyhow;
pub mod with_thiserror;
