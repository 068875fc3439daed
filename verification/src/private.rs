//! A trait that only this crate implements.
use vstd::prelude::*;
use crate::value::Value;

verus! {

/// Marks the types by which a value can be indexed. It cannot be implemented
/// outside this crate.
pub trait Sealed {
}

impl Sealed for usize {
}

impl Sealed for str {
}

impl Sealed for String {
}

impl Sealed for Value {
}

impl<T> Sealed for &T where T: ?Sized + Sealed {
}

} // verus!
