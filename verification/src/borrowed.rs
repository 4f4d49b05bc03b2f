//! A row mapping whose fields borrow from the row.
use vstd::prelude::*;
use crate::error::{Error, ErrorKind};
use crate::index::{column_by_name, names_of};
use crate::row::{FromRow, Row};

verus! {

/// A struct whose fields borrow text and bytes from a row: `name` from the column
/// `name`, `data` from the column `data`, read in that order. A missing column is
/// a `Column` error; a value that cannot be converted is a `FromSql` error at its
/// column.
pub struct MultipleBorrowed<'a, 'b> {
    pub name: &'a str,
    pub data: &'b [u8],
}

impl<'row> FromRow<'row> for MultipleBorrowed<'row, 'row> {
    fn from_row(row: &'row Row) -> (res: Result<Self, Error>)
        ensures
            match column_by_name(names_of(row.spec_columns()), "name"@) {
                None => res matches Err(e) && e.kind matches ErrorKind::Column(label)
                    && label@ == "name"@,
                Some(i) => match column_by_name(names_of(row.spec_columns()), "data"@) {
                    None => res matches Err(e) && (e.kind == ErrorKind::FromSql(i as usize) || (
                    e.kind matches ErrorKind::Column(label) && label@ == "data"@)),
                    Some(j) => res is Ok || (res matches Err(e) && (e.kind == ErrorKind::FromSql(
                        i as usize,
                    ) || e.kind == ErrorKind::FromSql(j as usize))),
                },
            },
    {
        let name = match row.try_get::<&str, &'row str>("name") {
            Ok(v) => v,
            Err(e) => return Err(e),
        };
        let data = match row.try_get::<&str, &'row [u8]>("data") {
            Ok(v) => v,
            Err(e) => return Err(e),
        };
        Ok(MultipleBorrowed { name, data })
    }
}

/// Holds only when `T` can be built from a row that lives for `'a`.
pub fn assert_from_row<'a, T: FromRow<'a>>() {
}

/// A struct whose two borrowed fields share one lifetime can be built from a row
/// of that lifetime.
pub fn assert_multiple_borrowed<'a>() {
    assert_from_row::<MultipleBorrowed<'a, 'a>>();
}

} // verus!
