use vstd::prelude::*;
use crate::text::{decimal, push_decimal};

verus! {

/// Every way in which building or resolving a figure can fail.
#[derive(Debug, Clone)]
pub enum ReadingError {
    /// A line code outside 6, 7, 8 and 9.
    InvalidLineCode(u8),
    /// A figure number outside 1 to 64.
    OutOfRange(u8),
    /// No notation of the interpreter matched the text.
    UnrecognizedInput(String),
    /// The reference data holds no record for a valid figure number.
    DataLookupFailure(u8),
    /// A figure built for a transition did not reproduce the transition.
    TransitionReconciliationInconsistent,
}

/// The human-readable text of an error.
pub open spec fn error_text(e: ReadingError) -> Seq<char> {
    match e {
        ReadingError::InvalidLineCode(n) => "Invalid line number: "@ + decimal(n as nat)
            + ". Must be 6, 7, 8, or 9"@,
        ReadingError::OutOfRange(n) => "Hexagram number out of range: "@ + decimal(n as nat)
            + ". Must be 1 to 64"@,
        ReadingError::UnrecognizedInput(t) => "Invalid input: '"@ + t@
            + "'. Expected hexagram number (1-64), Unicode character, changing format (32→34 or 32->34), or comma-separated line numbers (6,7,8,9)"@,
        ReadingError::DataLookupFailure(n) => "Hexagram "@ + decimal(n as nat) + " not found"@,
        ReadingError::TransitionReconciliationInconsistent => "Internal error: the transition figure does not reproduce the requested figures"@,
    }
}

impl ReadingError {
    /// The human-readable text of this error, naming the offending value.
    pub fn message(&self) -> (r: String)
        ensures
            r@ == error_text(*self),
    {
        let mut s = String::new();
        match self {
            ReadingError::InvalidLineCode(n) => {
                s.append("Invalid line number: ");
                push_decimal(&mut s, *n);
                s.append(". Must be 6, 7, 8, or 9");
            },
            ReadingError::OutOfRange(n) => {
                s.append("Hexagram number out of range: ");
                push_decimal(&mut s, *n);
                s.append(". Must be 1 to 64");
            },
            ReadingError::UnrecognizedInput(t) => {
                s.append("Invalid input: '");
                s.append(t.as_str());
                s.append(
                    "'. Expected hexagram number (1-64), Unicode character, changing format (32→34 or 32->34), or comma-separated line numbers (6,7,8,9)",
                );
            },
            ReadingError::DataLookupFailure(n) => {
                s.append("Hexagram ");
                push_decimal(&mut s, *n);
                s.append(" not found");
            },
            ReadingError::TransitionReconciliationInconsistent => {
                s.append(
                    "Internal error: the transition figure does not reproduce the requested figures",
                );
            },
        }
        assert(s@ =~= error_text(*self));
        s
    }
}

} // verus!
