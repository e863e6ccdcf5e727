//! Why a command could not be read or carried out.

use vstd::prelude::*;

verus! {

/// Why a command could not be read or carried out.
#[derive(Debug, Clone)]
pub enum AppError {
    MissingCommand,
    MissingArgument,
    InvalidCliArgument { message: String },
    FileRead { message: String },
    OnOutput { message: String },
    ThreadSpawn { message: String },
}

/// What an error says.
pub open spec fn app_error_text(e: AppError) -> Seq<char> {
    match e {
        AppError::MissingCommand => "Missing command."@,
        AppError::MissingArgument => "Missing argument for command."@,
        AppError::InvalidCliArgument { message } => message@,
        AppError::FileRead { message } => message@,
        AppError::OnOutput { message } => message@,
        AppError::ThreadSpawn { message } => message@,
    }
}

impl AppError {
    /// What the error says.
    pub fn message(&self) -> (r: String)
        ensures
            r@ == app_error_text(*self),
    {
        match self {
            AppError::MissingCommand => String::from_str("Missing command."),
            AppError::MissingArgument => String::from_str("Missing argument for command."),
            AppError::InvalidCliArgument { message } => message.clone(),
            AppError::FileRead { message } => message.clone(),
            AppError::OnOutput { message } => message.clone(),
            AppError::ThreadSpawn { message } => message.clone(),
        }
    }
}

} // verus!
