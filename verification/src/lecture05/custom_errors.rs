//! Why transforming the input failed.

use vstd::prelude::*;

verus! {

/// Why transforming the input failed.
#[derive(Debug, Clone)]
pub enum AppError {
    /// No transformation was named on the command line.
    MissingCliArgument,
    /// The named transformation does not exist.
    InvalidCliArgument { message: String },
    /// Writing the output failed.
    OnOutput(String),
}

/// What an error says.
pub open spec fn app_error_text(e: AppError) -> Seq<char> {
    match e {
        AppError::MissingCliArgument => "Missing CLI argument."@,
        AppError::InvalidCliArgument { message } => message@,
        AppError::OnOutput(message) => message@,
    }
}

impl AppError {
    /// What the error says.
    pub fn message(&self) -> (r: String)
        ensures
            r@ == app_error_text(*self),
    {
        match self {
            AppError::MissingCliArgument => String::from_str("Missing CLI argument."),
            AppError::InvalidCliArgument { message } => message.clone(),
            AppError::OnOutput(message) => message.clone(),
        }
    }
}

} // verus!
