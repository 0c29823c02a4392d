//! The error type of the control plane.

use vstd::prelude::*;

use crate::model::ValidateError;
use crate::text::{decimal, push_decimal, push_str};

verus! {

/// The schema version this library writes.
pub const CURRENT_SCHEMA_VERSION: i64 = 3;

#[derive(Debug, Clone, PartialEq, Eq)]
pub enum CoreError {
    ConfigNotFound(String),
    ConfigParse(String),
    Validate(ValidateError),
    Database(String),
    UnsupportedSchema(i64),
    Filesystem(String),
    Blocked(String),
    Apply(String),
}

/// A signed integer in decimal, with a leading `-` when negative.
pub open spec fn signed_decimal(v: int) -> Seq<char> {
    if v < 0 {
        seq!['-'] + decimal((-v) as nat)
    } else {
        decimal(v as nat)
    }
}

/// Appends a signed integer in decimal.
pub fn push_signed(dst: &mut Vec<char>, v: i64)
    ensures
        final(dst)@ == old(dst)@ + signed_decimal(v as int),
{
    if v < 0 {
        let m: u64 = ((-(v + 1)) as u64) + 1;
        dst.push('-');
        push_decimal(dst, m);
        assert(dst@ =~= old(dst)@ + signed_decimal(v as int));
    } else {
        push_decimal(dst, v as u64);
    }
}

impl CoreError {
    /// The message text of the error.
    pub open spec fn message(self) -> Seq<char> {
        match self {
            CoreError::ConfigNotFound(p) => "configuration file not found: "@ + p@,
            CoreError::ConfigParse(m) => "configuration parse failed: "@ + m@,
            CoreError::Validate(e) => "validation failed: "@ + e.message(),
            CoreError::Database(m) => "database error: "@ + m@,
            CoreError::UnsupportedSchema(v) => "unsupported database schema version: "@
                + signed_decimal(v as int) + " (current: "@ + signed_decimal(
                CURRENT_SCHEMA_VERSION as int,
            ) + ")"@,
            CoreError::Filesystem(m) => "filesystem error: "@ + m@,
            CoreError::Blocked(m) => "apply blocked: "@ + m@,
            CoreError::Apply(m) => "apply failed: "@ + m@,
        }
    }

    /// The message text (what `Display` shows).
    pub fn to_message(&self) -> (r: String)
        ensures
            r@ == self.message(),
    {
        let mut out: Vec<char> = Vec::new();
        match self {
            CoreError::ConfigNotFound(p) => {
                push_str(&mut out, "configuration file not found: ");
                push_str(&mut out, p.as_str());
            },
            CoreError::ConfigParse(m) => {
                push_str(&mut out, "configuration parse failed: ");
                push_str(&mut out, m.as_str());
            },
            CoreError::Validate(e) => {
                push_str(&mut out, "validation failed: ");
                let m = e.to_message();
                push_str(&mut out, m.as_str());
            },
            CoreError::Database(m) => {
                push_str(&mut out, "database error: ");
                push_str(&mut out, m.as_str());
            },
            CoreError::UnsupportedSchema(v) => {
                push_str(&mut out, "unsupported database schema version: ");
                push_signed(&mut out, *v);
                push_str(&mut out, " (current: ");
                push_signed(&mut out, CURRENT_SCHEMA_VERSION);
                push_str(&mut out, ")");
            },
            CoreError::Filesystem(m) => {
                push_str(&mut out, "filesystem error: ");
                push_str(&mut out, m.as_str());
            },
            CoreError::Blocked(m) => {
                push_str(&mut out, "apply blocked: ");
                push_str(&mut out, m.as_str());
            },
            CoreError::Apply(m) => {
                push_str(&mut out, "apply failed: ");
                push_str(&mut out, m.as_str());
            },
        }
        crate::text::from_chars(out.as_slice())
    }
}

impl From<ValidateError> for CoreError {
    fn from(e: ValidateError) -> (r: CoreError) {
        CoreError::Validate(e)
    }
}

impl vstd::std_specs::convert::FromSpecImpl<ValidateError> for CoreError {
    open spec fn obeys_from_spec() -> bool {
        true
    }

    open spec fn from_spec(e: ValidateError) -> CoreError {
        CoreError::Validate(e)
    }
}

} // verus!
