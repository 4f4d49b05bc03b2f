//! The PostgreSQL data row as `postgres-protocol` parses it, and the value
//! conversions of `postgres-types`.
use vstd::prelude::*;
use vstd::utf8::{decode_utf8, valid_utf8};
use fallible_iterator::FallibleIterator;
use postgres_protocol::message::backend::DataRowBody;
use postgres_types::{FromSql, Type, WrongType};

verus! {

/// `postgres_protocol`'s data row body, opaque to proofs.
#[verifier::external_type_specification]
#[verifier::external_body]
pub struct ExDataRowBody(DataRowBody);

/// `postgres_types`'s PostgreSQL type, opaque to proofs.
#[verifier::external_type_specification]
#[verifier::external_body]
pub struct ExType(Type);

/// `DataRowBody`'s derived `clone`: the clone shares the same bytes and field count.
pub assume_specification[ <DataRowBody as Clone>::clone ](body: &DataRowBody) -> (res: DataRowBody)
    ensures
        data_row_storage(res) == data_row_storage(*body),
        data_row_field_count(res) == data_row_field_count(*body),
;

/// `Type`'s derived `clone`: the same type.
pub assume_specification[ <Type as Clone>::clone ](ty: &Type) -> (res: Type)
    ensures
        res == *ty,
;

/// The bytes that a data row body holds: the fields, each a length and its bytes,
/// after the field count.
pub uninterp spec fn data_row_storage(body: DataRowBody) -> Seq<u8>;

/// The field count that the server announced in a data row.
pub uninterp spec fn data_row_field_count(body: DataRowBody) -> nat;

/// The big-endian `i32` at `pos`: a field's length word.
pub open spec fn length_word(buf: Seq<u8>, pos: int) -> int {
    let unsigned = (buf[pos] as int) * 16777216 + (buf[pos + 1] as int) * 65536 + (buf[pos + 2]
        as int) * 256 + (buf[pos + 3] as int);
    if buf[pos] >= 128 {
        unsigned - 4294967296
    } else {
        unsigned
    }
}

/// The byte ranges of `remaining` fields read from `pos` on: each field is a length
/// word and, unless the length is negative (NULL, no range), that many bytes. `None`
/// when a length word or a field's bytes run past the end, or when bytes are left
/// over after the last field.
pub open spec fn fields_from(buf: Seq<u8>, pos: int, remaining: nat) -> Option<
    Seq<Option<(usize, usize)>>,
>
    decreases remaining,
{
    if remaining == 0 {
        if pos == buf.len() {
            Some(Seq::empty())
        } else {
            None
        }
    } else if buf.len() - pos < 4 {
        None
    } else {
        let len = length_word(buf, pos);
        let start = pos + 4;
        if len < 0 {
            match fields_from(buf, start, (remaining - 1) as nat) {
                Some(rest) => Some(seq![None] + rest),
                None => None,
            }
        } else if buf.len() - start < len {
            None
        } else {
            match fields_from(buf, start + len, (remaining - 1) as nat) {
                Some(rest) => Some(seq![Some((start as usize, (start + len) as usize))] + rest),
                None => None,
            }
        }
    }
}

/// The fields of a data row's bytes that announces `count` fields.
pub open spec fn data_row_layout(storage: Seq<u8>, count: nat) -> Option<
    Seq<Option<(usize, usize)>>,
> {
    fields_from(storage, 0, count)
}

/// Every range lies within `len` bytes.
pub open spec fn ranges_within(ranges: Seq<Option<(usize, usize)>>, len: nat) -> bool {
    forall|i: int|
        0 <= i < ranges.len() ==> (#[trigger] ranges[i] matches Some(r) ==> r.0 <= r.1 <= len)
}

/// `DataRowBody::ranges`, collected with `FallibleIterator::collect`, each
/// `Range` given as its start and end.
///
/// `DataRowRanges::next` reads, while fields remain, a big-endian `i32` length
/// (failing when fewer than four bytes are left), yields no range for a negative
/// length, and otherwise fails when fewer bytes than the length are left or yields
/// the range of the next `len` bytes; with no fields remaining it succeeds only
/// when no bytes are left. `collect` stops at the first failure. So the result is
/// `data_row_layout` of the body's bytes and field count. The error's text (an
/// `io::Error`) is not stated.
#[verifier::external_body]
pub(crate) fn collect_ranges(body: &DataRowBody) -> (res: Result<
    Vec<Option<(usize, usize)>>,
    String,
>)
    ensures
        match res {
            Ok(ranges) => data_row_layout(data_row_storage(*body), data_row_field_count(*body))
                == Some(ranges@),
            Err(_) => data_row_layout(data_row_storage(*body), data_row_field_count(*body)) is None,
        },
{
    match body.ranges().collect::<Vec<_>>() {
        Ok(ranges) => Ok(ranges.into_iter().map(|r| r.map(|r| (r.start, r.end))).collect()),
        Err(e) => Err(e.to_string()),
    }
}

/// A parsed layout has one entry per announced field, each range within the bytes.
pub proof fn lemma_layout_within(buf: Seq<u8>, pos: int, remaining: nat)
    requires
        0 <= pos <= buf.len(),
        buf.len() <= usize::MAX,
    ensures
        fields_from(buf, pos, remaining) matches Some(r) ==> {
            &&& r.len() == remaining
            &&& ranges_within(r, buf.len())
        },
    decreases remaining,
{
    if remaining > 0 && buf.len() - pos >= 4 {
        let len = length_word(buf, pos);
        let start = pos + 4;
        if len < 0 {
            lemma_layout_within(buf, start, (remaining - 1) as nat);
            if let Some(rest) = fields_from(buf, start, (remaining - 1) as nat) {
                let r = seq![None] + rest;
                assert forall|i: int| 0 <= i < r.len() implies (#[trigger] r[i] matches Some(x)
                    ==> x.0 <= x.1 <= buf.len()) by {
                    if i > 0 {
                        assert(r[i] == rest[i - 1]);
                    }
                }
            }
        } else if buf.len() - start >= len {
            lemma_layout_within(buf, start + len, (remaining - 1) as nat);
            if let Some(rest) = fields_from(buf, start + len, (remaining - 1) as nat) {
                let r = seq![Some((start as usize, (start + len) as usize))] + rest;
                assert forall|i: int| 0 <= i < r.len() implies (#[trigger] r[i] matches Some(x)
                    ==> x.0 <= x.1 <= buf.len()) by {
                    if i > 0 {
                        assert(r[i] == rest[i - 1]);
                    }
                }
            }
        }
    }
}

/// `DataRowBody::buffer`: the body's bytes.
#[verifier::external_body]
pub(crate) fn row_bytes(body: &DataRowBody) -> (res: &[u8])
    ensures
        res@ == data_row_storage(*body),
{
    body.buffer()
}

/// `DataRowBody::buffer_bytes`, and the length of those bytes.
#[verifier::external_body]
pub(crate) fn row_bytes_len(body: &DataRowBody) -> (res: usize)
    ensures
        res == data_row_storage(*body).len(),
{
    body.buffer_bytes().len()
}

/// Evidence that `T` accepts the PostgreSQL type `ty`. Only `accepts` makes one:
/// its fields are private to this module.
pub struct Accepted<T> {
    ty: Type,
    marker: core::marker::PhantomData<T>,
}

impl<T> Accepted<T> {
    /// The type that `T` was found to accept.
    pub closed spec fn accepted_type(&self) -> Type {
        self.ty
    }
}

/// `<T as FromSql>::accepts`, with `true` given as evidence for `decode`. What it
/// answers is decided by `T`'s implementation, so only this is stated: evidence,
/// when there is any, is for the type asked about.
#[verifier::external_body]
pub(crate) fn accepts<'a, T: FromSql<'a>>(ty: &Type) -> (res: Option<Accepted<T>>)
    ensures
        res matches Some(w) ==> w.accepted_type() == *ty,
{
    T::accepts(ty).then_some(Accepted { ty: ty.clone(), marker: core::marker::PhantomData })
}

/// `<T as FromSql>::from_sql_nullable`, its error given as text. Its
/// documentation asks the caller to make sure first that `T` accepts `ty`
/// (some implementations panic otherwise), so it requires the evidence that
/// `accepts` gives. What it returns is decided by `T`'s implementation, so
/// nothing is stated of it.
#[verifier::external_body]
pub(crate) fn decode<'a, T: FromSql<'a>>(
    ty: &Type,
    accepted: &Accepted<T>,
    raw: Option<&'a [u8]>,
) -> Result<T, String>
    requires
        accepted.accepted_type() == *ty,
{
    T::from_sql_nullable(ty, raw).map_err(|e| e.to_string())
}

/// `WrongType::new::<T>`, as text: the message that a value of type `ty` cannot be
/// converted to `T`. Its text (which names `T`) is not stated.
#[verifier::external_body]
pub(crate) fn wrong_type<T>(ty: &Type) -> String {
    WrongType::new::<T>(ty.clone()).to_string()
}

/// `<Option<&str> as FromSql>::from_sql_nullable` with the type `TEXT`: NULL is
/// `None`; any other value goes through `text_from_sql`, which is
/// `str::from_utf8`, so it succeeds exactly on valid UTF-8 and then holds the
/// decoded characters. The error's text is not stated.
#[verifier::external_body]
pub(crate) fn decode_text<'a>(raw: Option<&'a [u8]>) -> (res: Result<Option<&'a str>, String>)
    ensures
        match raw {
            None => res == Ok::<Option<&'a str>, String>(None),
            Some(bytes) => match res {
                Ok(Some(s)) => valid_utf8(bytes@) && s@ == decode_utf8(bytes@),
                Ok(None) => false,
                Err(_) => !valid_utf8(bytes@),
            },
        },
{
    <Option<&'a str> as FromSql<'a>>::from_sql_nullable(&Type::TEXT, raw).map_err(|e| e.to_string())
}

} // verus!
