use vstd::prelude::*;

verus! {

/// The error type of the library.
///
/// Template compilation reports `ParseError`, extraction reports `Default`
/// (a generic error carrying its message), rendering a template that needs a
/// field the extraction never captured reports `MissingFieldError`.
/// `NoFilesError`, `IoError` and `PathError` are reserved for the
/// orchestrator around the library.
#[derive(Debug, Clone, PartialEq, Eq)]
pub enum MyCustomError {
    NoFilesError,
    IoError(String),
    PathError,
    Default(String),
    ParseError(String),
    MissingFieldError(String),
}

impl MyCustomError {
    /// A human-readable description of the error.
    pub fn message(&self) -> (r: String)
        ensures
            match self {
                MyCustomError::Default(x) => r@ == x@,
                MyCustomError::ParseError(x) => r@ == x@,
                MyCustomError::MissingFieldError(x) => r@ == x@,
                MyCustomError::IoError(x) => r@ == x@,
                _ => true,
            },
    {
        match self {
            MyCustomError::NoFilesError => String::from_str("No files in dir"),
            MyCustomError::IoError(x) => x.clone(),
            MyCustomError::PathError => String::from_str("path error"),
            MyCustomError::Default(x) => x.clone(),
            MyCustomError::ParseError(x) => x.clone(),
            MyCustomError::MissingFieldError(x) => x.clone(),
        }
    }
}

} // verus!
