use vstd::prelude::*;

use super::style::KStyle;

verus! {

/// A trait used to allow reading a value as an `Option<&T>`
pub trait AsRefOption<T> {
    /// The value read, if any.
    spec fn as_option_spec(&self) -> Option<T>;

    fn as_ref_option(&self) -> (r: Option<&T>)
        ensures
            match r {
                Some(v) => self.as_option_spec() == Some(*v),
                None => self.as_option_spec() is None,
            },
    ;
}

impl AsRefOption<KStyle> for KStyle {
    open spec fn as_option_spec(&self) -> Option<KStyle> {
        Some(*self)
    }

    fn as_ref_option(&self) -> (r: Option<&KStyle>) {
        Some(self)
    }
}

impl AsRefOption<KStyle> for &KStyle {
    open spec fn as_option_spec(&self) -> Option<KStyle> {
        Some(**self)
    }

    fn as_ref_option(&self) -> (r: Option<&KStyle>) {
        Some(*self)
    }
}

impl AsRefOption<KStyle> for Option<KStyle> {
    open spec fn as_option_spec(&self) -> Option<KStyle> {
        *self
    }

    fn as_ref_option(&self) -> (r: Option<&KStyle>) {
        match self {
            Some(s) => Some(s),
            None => None,
        }
    }
}

impl AsRefOption<KStyle> for &Option<KStyle> {
    open spec fn as_option_spec(&self) -> Option<KStyle> {
        **self
    }

    fn as_ref_option(&self) -> (r: Option<&KStyle>) {
        match *self {
            Some(s) => Some(s),
            None => None,
        }
    }
}

} // verus!
