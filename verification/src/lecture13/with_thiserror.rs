//! An error enum whose variants say what went wrong with some data.

use vstd::prelude::*;

use std::io;

verus! {

/// What went wrong with the data.
#[derive(Debug)]
pub enum DataProcessingError {
    NotFound(String),
    InvalidFormat,
    StructLike { name: String },
    Io(io::Error),
}

/// What an error says.
pub open spec fn data_error_text(e: DataProcessingError) -> Seq<char> {
    match e {
        DataProcessingError::NotFound(what) => "Data not found: "@ + what@,
        DataProcessingError::InvalidFormat => "Invalid data format"@,
        DataProcessingError::StructLike { name } => "Lol: "@ + name@,
        DataProcessingError::Io(_) => "IO error"@,
    }
}

impl DataProcessingError {
    /// What the error says.
    pub fn message(&self) -> (r: String)
        ensures
            r@ == data_error_text(*self),
    {
        match self {
            DataProcessingError::NotFound(what) => {
                let mut r = String::from_str("Data not found: ");
                r.append(what.as_str());
                r
            },
            DataProcessingError::InvalidFormat => String::from_str("Invalid data format"),
            DataProcessingError::StructLike { name } => {
                let mut r = String::from_str("Lol: ");
                r.append(name.as_str());
                r
            },
            DataProcessingError::Io(_) => String::from_str("IO error"),
        }
    }
}

/// An empty path names no data.
pub fn check_path(file_path: &str) -> (r: Result<(), DataProcessingError>)
    ensures
        r is Ok <==> file_path@.len() > 0,
        r matches Err(e) ==> e matches DataProcessingError::NotFound(p) && p@ == file_path@,
{
    if file_path.is_empty() {
        return Err(DataProcessingError::NotFound(String::from_str(file_path)));
    }
    Ok(())
}

/// Data that is empty has no valid format.
pub fn check_data(data: &str) -> (r: Result<(), DataProcessingError>)
    ensures
        r is Ok <==> data@.len() > 0,
        r is Err ==> r->Err_0 is InvalidFormat,
{
    if data.is_empty() {
        return Err(DataProcessingError::InvalidFormat);
    }
    Ok(())
}

} // verus!
