use vstd::prelude::*;

verus! {

/// Which form of an offset pattern failed to parse.
#[derive(Clone, Copy, Debug, PartialEq, Eq, Structural)]
pub enum InvalidReason {
    /// The pattern was taken as an absolute index but is not a decimal number.
    AbsoluteIndex,
    /// The text after the leading `~` is not a decimal number.
    RelativeOffset,
}

/// Failures of pattern resolution and of indexed access into the history.
///
/// Every malformed or out-of-range input is reported as one of these values;
/// nothing in the library panics.
#[derive(Clone, Copy, Debug, PartialEq, Eq, Structural)]
pub enum HistoryError {
    /// The pattern matches neither the absolute nor the relative form.
    InvalidPattern { reason: InvalidReason },
    /// A relative offset `~k` reaches before the oldest item: `offset >= len`.
    OffsetOutOfRange { offset: usize, len: usize },
    /// An absolute index is past the newest item: `index >= len`.
    IndexOutOfRange { index: usize, len: usize },
}

impl HistoryError {
    /// The description that `describe` returns for each failure.
    pub open spec fn describe_spec(self) -> Seq<char> {
        match self {
            HistoryError::InvalidPattern { reason: InvalidReason::AbsoluteIndex } => (
                "History item has to be a number"@
            ),
            HistoryError::InvalidPattern { reason: InvalidReason::RelativeOffset } => (
                "Relative offset has to be a number."@
            ),
            HistoryError::OffsetOutOfRange { .. } => "Offset out of range"@,
            HistoryError::IndexOutOfRange { .. } => "Index out of range"@,
        }
    }

    /// A short, fixed description of the failure; the offending value and the
    /// history length are carried in the variant's fields.
    pub fn describe(&self) -> (r: &'static str)
        ensures
            r@ == self.describe_spec(),
    {
        match self {
            HistoryError::InvalidPattern { reason: InvalidReason::AbsoluteIndex } => {
                "History item has to be a number"
            },
            HistoryError::InvalidPattern { reason: InvalidReason::RelativeOffset } => {
                "Relative offset has to be a number."
            },
            HistoryError::OffsetOutOfRange { .. } => "Offset out of range",
            HistoryError::IndexOutOfRange { .. } => "Index out of range",
        }
    }
}

} // verus!
