//! Errors of the quote engine.
use vstd::prelude::*;

verus! {

/// Why a quote could not be made.
#[derive(Debug)]
pub enum EngineError {
    /// A capability the engine does not have.
    NotImplemented { capability: &'static str },
    /// A file format the engine cannot read.
    UnsupportedFormat(String),
    /// The request or its file does not allow a quote.
    InvalidInput(String),
    /// A file could not be parsed.
    Parse(String),
}

/// The text an engine error is reported with.
pub open spec fn engine_error_text(e: EngineError) -> Seq<char> {
    match e {
        EngineError::NotImplemented { capability } => "not implemented: "@ + capability@,
        EngineError::UnsupportedFormat(m) => "unsupported format: "@ + m@,
        EngineError::InvalidInput(m) => "invalid input: "@ + m@,
        EngineError::Parse(m) => "parse error: "@ + m@,
    }
}

impl EngineError {
    /// The text the error is reported with.
    pub fn message(&self) -> (s: String)
        ensures
            s@ == engine_error_text(*self),
    {
        match self {
            EngineError::NotImplemented { capability } => {
                let mut s = String::from_str("not implemented: ");
                s.append(capability);
                s
            },
            EngineError::UnsupportedFormat(m) => {
                let mut s = String::from_str("unsupported format: ");
                s.append(m.as_str());
                s
            },
            EngineError::InvalidInput(m) => {
                let mut s = String::from_str("invalid input: ");
                s.append(m.as_str());
                s
            },
            EngineError::Parse(m) => {
                let mut s = String::from_str("parse error: ");
                s.append(m.as_str());
                s
            },
        }
    }
}

} // verus!
