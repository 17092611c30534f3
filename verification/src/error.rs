use vstd::prelude::*;

verus! {

/// Why an operation of the editing core was refused. A refused operation
/// leaves the state it was called on unchanged.
#[derive(Clone, Copy, Debug, PartialEq, Eq, Structural)]
pub enum EditError {
    /// A line index lies outside the buffer, or a byte offset lies outside its
    /// line or inside the encoding of one of its characters.
    OutOfRange,
}

} // verus!
