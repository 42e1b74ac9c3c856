//! Conversion between the runtime representation of a value and another
//! shape of it (for the surrounding application: its persisted form).

use vstd::prelude::*;

verus! {

/// A value that can be converted to a `T` without being consumed.
pub trait ConvertTo<T> {
    /// Produce the converted value.
    fn convert_to(&self) -> T;
}

} // verus!
