//! Parse failures.  Every failure names the source position handle of the
//! offending token, so a caller can attach the diagnostic to the right place.

use vstd::prelude::*;

verus! {

/// Why a parse failed.
#[derive(Debug, PartialEq, Eq)]
pub enum ParseError {
    /// None of `<`, a brace group or a string literal stood at a node
    /// position, or a `<`-led construct stopped looking like markup before
    /// its opening tag was complete.
    UnrecognizedNode { pos: u32 },
    /// The input ran out while scanning for a closing tag.
    UnexpectedEndOfChildren { pos: u32 },
    /// The closing tag does not close the construct: its identifier differs
    /// from the opening one, or the closing tag is malformed.  `expected`
    /// names the opening tag.
    MismatchedClosingTag { expected: String, pos: u32 },
    /// A `{..}` spread attribute without a bare identifier inside.
    ExpectedSpreadIdentifier { pos: u32 },
    /// An attribute missing its identifier, its `=` or its brace group.
    MalformedAttribute { pos: u32 },
    /// The cursor was stepped past the end of its region.
    UnexpectedEnd { pos: u32 },
}

/// Whether a failed speculative node parse falls back to treating `<` as an
/// ordinary token.  Only failures that can arise before the opening tag has
/// completed are recoverable; a construct that has committed to being markup
/// (its opening `...>` was consumed) fails the whole enclosing parse.
pub open spec fn spec_recoverable(e: ParseError) -> bool {
    match e {
        ParseError::MismatchedClosingTag { .. } => false,
        ParseError::UnexpectedEndOfChildren { .. } => false,
        _ => true,
    }
}

impl ParseError {
    /// See [`spec_recoverable`].
    pub fn is_recoverable(&self) -> (r: bool)
        ensures
            r == spec_recoverable(*self),
    {
        match self {
            ParseError::MismatchedClosingTag { .. } => false,
            ParseError::UnexpectedEndOfChildren { .. } => false,
            _ => true,
        }
    }
}

} // verus!
