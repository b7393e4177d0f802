//! The pairing of a plain record with its reactive counterpart, whose fields
//! are signals of the user interface.
use vstd::prelude::*;

verus! {

/// A plain record that can be turned into its reactive counterpart, each of
/// whose fields wraps the record's field in a signal.
pub trait AsReactive {
    /// The reactive counterpart. It must be capturable back into a record.
    type ReactiveType: ReactiveCapture;

    /// Wraps every field in a signal, consuming the record.
    fn as_reactive(self) -> Self::ReactiveType;
}

/// A reactive record that can be captured into a plain one: the values its
/// signals hold at that moment, with no signal left in it.
pub trait ReactiveCapture {
    /// The plain record.
    type CaptureType;

    /// Reads every signal into a plain record.
    fn capture(&self) -> Self::CaptureType;
}

} // verus!
