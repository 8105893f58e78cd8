use vstd::prelude::*;

verus! {

/// The new value of a text box.
#[derive(Debug, Clone, PartialEq)]
pub struct ChangeEvent {
    pub value: String,
}

/// Whether a text box has focus.
#[derive(Debug, Clone, Copy, PartialEq, Eq)]
pub struct Focus(pub bool);

} // verus!
