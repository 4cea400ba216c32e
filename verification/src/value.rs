//! A request field that may be left out.

use vstd::prelude::*;

verus! {

/// A field of a change request: either absent, which keeps the stored value,
/// or present, which overwrites it even with an empty value.
#[derive(Debug, Clone, PartialEq, Eq)]
pub enum ProvidedValue<T> {
    Unset,
    Provided(T),
}

impl<T> ProvidedValue<T> {
    /// Whether the field carries a value.
    pub fn is_provided(&self) -> (r: bool)
        ensures
            r == (*self is Provided),
    {
        match self {
            ProvidedValue::Provided(_) => true,
            ProvidedValue::Unset => false,
        }
    }

    /// The field as an `Option`: `Some` exactly when it is set.
    pub fn to_option(self) -> (r: Option<T>)
        ensures
            r == (match self {
                ProvidedValue::Provided(v) => Some(v),
                ProvidedValue::Unset => None,
            }),
    {
        match self {
            ProvidedValue::Provided(v) => Some(v),
            ProvidedValue::Unset => None,
        }
    }
}

impl<T> Default for ProvidedValue<T> {
    fn default() -> (r: Self)
        ensures
            r is Unset,
    {
        ProvidedValue::Unset
    }
}

} // verus!
