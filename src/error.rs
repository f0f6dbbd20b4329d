//! Errors of the engine.
use vstd::prelude::*;

use crate::text::join2;

verus! {

/// Why an event was rejected.
#[derive(Debug, Clone)]
pub enum EngineError {
    /// A field failed validation.
    Validation { field: String, reason: String },
    /// Input that could not be read structurally.
    Parse(String),
}

impl EngineError {
    /// A validation error naming the field and the reason.
    pub fn validation(field: &str, reason: &str) -> (r: EngineError)
        ensures
            r matches EngineError::Validation { field: f, reason: why } && f@ == field@ && why@
                == reason@,
    {
        EngineError::Validation { field: String::from_str(field), reason: String::from_str(reason) }
    }

    /// A parse error with a message.
    pub fn parse(msg: String) -> (r: EngineError)
        ensures
            r matches EngineError::Parse(m) && m@ == msg@,
    {
        EngineError::Parse(msg)
    }

    /// One-line description: `validation: <field>: <reason>` or `parse: <message>`.
    pub fn describe(&self) -> (r: String)
        ensures
            r@ == match self {
                EngineError::Validation { field, reason } => "validation: "@ + field@ + ": "@
                    + reason@,
                EngineError::Parse(m) => "parse: "@ + m@,
            },
    {
        match self {
            EngineError::Validation { field, reason } => {
                let a = join2("validation: ", field.as_str());
                let b = join2(a.as_str(), ": ");
                join2(b.as_str(), reason.as_str())
            },
            EngineError::Parse(m) => join2("parse: ", m.as_str()),
        }
    }
}

} // verus!
