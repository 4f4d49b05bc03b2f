//! The traits behind `RowIndex`. This module is private, so no type outside the
//! crate can implement `RowIndex`.
use vstd::prelude::*;

verus! {

/// Marker trait that keeps `RowIndex` closed to the types of this crate.
pub trait Sealed {}

/// Something that has a column name.
pub trait AsName {
    /// The name, as characters.
    spec fn name_view(&self) -> Seq<char>;

    fn as_name(&self) -> (name: &str)
        ensures
            name@ == self.name_view(),
    ;
}

} // verus!
