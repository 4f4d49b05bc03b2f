//! Rows of data returned by queries.
use vstd::prelude::*;
use vstd::utf8::{decode_utf8, valid_utf8};
use postgres_protocol::message::backend::DataRowBody;
use postgres_types::{FromSql, Type};
use crate::error::{Error, ErrorKind};
use crate::index::{RowIndex, names_of};
use crate::sealed::AsName;
use crate::wire::{
    accepts, collect_ranges, data_row_field_count, data_row_layout, data_row_storage, decode,
    decode_text, lemma_layout_within, ranges_within, row_bytes, row_bytes_len, wrong_type,
};

verus! {

/// A column of a prepared statement's result.
pub struct Column {
    name: String,
    table_oid: Option<u32>,
    column_id: Option<i16>,
    type_modifier: i32,
    type_: Type,
}

impl Column {
    /// The column's name.
    pub closed spec fn spec_name(&self) -> Seq<char> {
        self.name@
    }

    /// The column's type.
    pub closed spec fn spec_type(&self) -> Type {
        self.type_
    }

    /// The OID of the table the column comes from, if any.
    pub closed spec fn spec_table_oid(&self) -> Option<u32> {
        self.table_oid
    }

    /// The column's number in its table, if any.
    pub closed spec fn spec_column_id(&self) -> Option<i16> {
        self.column_id
    }

    /// The column's type modifier.
    pub closed spec fn spec_type_modifier(&self) -> i32 {
        self.type_modifier
    }

    /// A column description.
    pub fn new(
        name: String,
        table_oid: Option<u32>,
        column_id: Option<i16>,
        type_modifier: i32,
        type_: Type,
    ) -> (c: Column)
        ensures
            c.spec_name() == name@,
            c.spec_table_oid() == table_oid,
            c.spec_column_id() == column_id,
            c.spec_type_modifier() == type_modifier,
            c.spec_type() == type_,
    {
        Column { name, table_oid, column_id, type_modifier, type_ }
    }

    /// The column's name.
    pub fn name(&self) -> (n: &str)
        ensures
            n@ == self.spec_name(),
    {
        self.name.as_str()
    }

    /// The OID of the table the column comes from, if any.
    pub fn table_oid(&self) -> (t: Option<u32>)
        ensures
            t == self.spec_table_oid(),
    {
        self.table_oid
    }

    /// The column's number in its table, if any.
    pub fn column_id(&self) -> (c: Option<i16>)
        ensures
            c == self.spec_column_id(),
    {
        self.column_id
    }

    /// The column's type modifier.
    pub fn type_modifier(&self) -> (m: i32)
        ensures
            m == self.spec_type_modifier(),
    {
        self.type_modifier
    }

    /// The column's type.
    pub fn type_(&self) -> (t: &Type)
        ensures
            *t == self.spec_type(),
    {
        &self.type_
    }
}

impl Clone for Column {
    fn clone(&self) -> (c: Column)
        ensures
            c.spec_name() == self.spec_name(),
            c.spec_table_oid() == self.spec_table_oid(),
            c.spec_column_id() == self.spec_column_id(),
            c.spec_type_modifier() == self.spec_type_modifier(),
            c.spec_type() == self.spec_type(),
    {
        Column {
            name: self.name.clone(),
            table_oid: self.table_oid,
            column_id: self.column_id,
            type_modifier: self.type_modifier,
            type_: self.type_.clone(),
        }
    }
}

/// Copies column descriptions, keeping each name and type.
fn clone_columns(columns: &[Column]) -> (res: Vec<Column>)
    ensures
        res@.len() == columns@.len(),
        forall|i: int|
            #![trigger res@[i]]
            0 <= i < columns@.len() ==> res@[i].spec_name() == columns@[i].spec_name()
                && res@[i].spec_type() == columns@[i].spec_type(),
{
    let mut res: Vec<Column> = Vec::new();
    let n = columns.len();
    let mut i: usize = 0;
    while i < n
        invariant
            n == columns@.len(),
            i <= n,
            res@.len() == i,
            forall|j: int|
                #![trigger res@[j]]
                0 <= j < i ==> res@[j].spec_name() == columns@[j].spec_name()
                    && res@[j].spec_type() == columns@[j].spec_type(),
        decreases n - i,
    {
        res.push(columns[i].clone());
        i = i + 1;
    }
    res
}

/// Copies the field ranges of a row.
fn copy_ranges(ranges: &[Option<(usize, usize)>]) -> (res: Vec<Option<(usize, usize)>>)
    ensures
        res@ == ranges@,
{
    let mut res: Vec<Option<(usize, usize)>> = Vec::new();
    let n = ranges.len();
    let mut i: usize = 0;
    while i < n
        invariant
            n == ranges@.len(),
            i <= n,
            res@ == ranges@.take(i as int),
        decreases n - i,
    {
        res.push(ranges[i]);
        proof {
            assert(ranges@.take(i + 1) =~= ranges@.take(i as int).push(ranges@[i as int]));
        }
        i = i + 1;
    }
    proof {
        assert(ranges@.take(n as int) =~= ranges@);
    }
    res
}

impl AsName for Column {
    open spec fn name_view(&self) -> Seq<char> {
        self.spec_name()
    }

    fn as_name(&self) -> (name: &str) {
        self.name()
    }
}

/// A column of a simple query's result: a name only, every value being text.
#[derive(Clone, Debug)]
pub struct SimpleColumn {
    name: String,
}

impl SimpleColumn {
    /// The column's name.
    pub closed spec fn spec_name(&self) -> Seq<char> {
        self.name@
    }

    /// A column called `name`.
    pub fn new(name: String) -> (c: SimpleColumn)
        ensures
            c.spec_name() == name@,
    {
        SimpleColumn { name }
    }

    /// The column's name.
    pub fn name(&self) -> (n: &str)
        ensures
            n@ == self.spec_name(),
    {
        self.name.as_str()
    }
}

impl AsName for SimpleColumn {
    open spec fn name_view(&self) -> Seq<char> {
        self.spec_name()
    }

    fn as_name(&self) -> (name: &str) {
        self.name()
    }
}

/// A prepared statement: its name, parameter types and result columns.
pub struct Statement {
    name: String,
    params: Vec<Type>,
    columns: Vec<Column>,
}

impl Statement {
    /// The statement's result columns.
    pub closed spec fn spec_columns(&self) -> Seq<Column> {
        self.columns@
    }

    /// The statement's name.
    pub closed spec fn spec_name(&self) -> Seq<char> {
        self.name@
    }

    /// The statement's parameter types.
    pub closed spec fn spec_params(&self) -> Seq<Type> {
        self.params@
    }

    /// The unnamed statement with these parameter types and columns.
    pub fn unnamed(params: Vec<Type>, columns: Vec<Column>) -> (s: Statement)
        ensures
            s.spec_columns() == columns@,
            s.spec_params() == params@,
            s.spec_name() == Seq::<char>::empty(),
    {
        Statement { name: String::new(), params, columns }
    }

    /// The statement's name.
    pub fn name(&self) -> (n: &str)
        ensures
            n@ == self.spec_name(),
    {
        self.name.as_str()
    }

    /// The statement's parameter types.
    pub fn params(&self) -> (p: &[Type])
        ensures
            p@ == self.spec_params(),
    {
        self.params.as_slice()
    }

    /// The statement's result columns.
    pub fn columns(&self) -> (c: &[Column])
        ensures
            c@ == self.spec_columns(),
    {
        self.columns.as_slice()
    }
}

impl Clone for Statement {
    fn clone(&self) -> (s: Statement)
        ensures
            s.spec_name() == self.spec_name(),
            s.spec_params() == self.spec_params(),
            s.spec_columns().len() == self.spec_columns().len(),
            names_of(s.spec_columns()) == names_of(self.spec_columns()),
            forall|i: int|
                #![trigger s.spec_columns()[i]]
                0 <= i < self.spec_columns().len() ==> s.spec_columns()[i].spec_type()
                    == self.spec_columns()[i].spec_type(),
    {
        let columns = clone_columns(self.columns.as_slice());
        proof {
            assert(names_of(columns@) =~= names_of(self.spec_columns()));
        }
        let params = self.params.clone();
        proof {
            assert(params@ =~= self.params@);
        }
        Statement { name: self.name.clone(), params, columns }
    }

}

/// The cause of refusing a row whose field count differs from its column count.
pub open spec fn field_count_mismatch() -> Seq<char> {
    "DataRow field count does not match the number of columns"@
}

fn field_count_mismatch_text() -> (s: String)
    ensures
        s@ == field_count_mismatch(),
{
    let mut s = String::new();
    crate::text::push_str(&mut s, "DataRow field count does not match the number of columns");
    s
}

/// The bytes of the field at `i`, given its range; `None` for NULL.
pub open spec fn field_value(storage: Seq<u8>, ranges: Seq<Option<(usize, usize)>>, i: int) -> Option<
    Seq<u8>,
> {
    match ranges[i] {
        Some(r) => Some(storage.subrange(r.0 as int, r.1 as int)),
        None => None,
    }
}

/// A type that can be built from a row.
///
/// Implementations typically read fields with `Row::try_get`, keeping each column's
/// conversion. They may borrow from the row.
pub trait FromRow<'a>: Sized {
    /// Builds `Self` from `row`.
    fn from_row(row: &'a Row) -> Result<Self, Error>;
}

/// A row of data returned by a query.
pub struct Row {
    statement: Statement,
    body: DataRowBody,
    ranges: Vec<Option<(usize, usize)>>,
}

impl Row {
    /// One range per column, each within the row's bytes.
    #[verifier::type_invariant]
    closed spec fn well_formed(&self) -> bool {
        &&& self.ranges@.len() == self.statement.spec_columns().len()
        &&& ranges_within(self.ranges@, data_row_storage(self.body).len())
    }

    /// The row's columns.
    pub closed spec fn spec_columns(&self) -> Seq<Column> {
        self.statement.spec_columns()
    }

    /// The bytes of the row's data.
    pub closed spec fn spec_storage(&self) -> Seq<u8> {
        data_row_storage(self.body)
    }

    /// The byte range of each field, `None` for NULL.
    pub closed spec fn spec_ranges(&self) -> Seq<Option<(usize, usize)>> {
        self.ranges@
    }

    /// The bytes of the value at `i`, `None` for NULL.
    pub open spec fn spec_value(&self, i: int) -> Option<Seq<u8>> {
        field_value(self.spec_storage(), self.spec_ranges(), i)
    }

    /// Builds a row from a statement and the body of a data row. The server sends the
    /// field count apart from the column description, so a row whose field count
    /// differs from the statement's column count is refused: its accessors would
    /// otherwise index past the fields.
    pub fn new(statement: Statement, body: DataRowBody) -> (res: Result<Row, Error>)
        ensures
            res is Ok <==> (data_row_layout(
                data_row_storage(body),
                data_row_field_count(body),
            ) is Some && data_row_field_count(body) == statement.spec_columns().len()),
            match res {
                Ok(row) => {
                    &&& row.spec_columns() == statement.spec_columns()
                    &&& row.spec_storage() == data_row_storage(body)
                    &&& data_row_layout(data_row_storage(body), data_row_field_count(body))
                        == Some(row.spec_ranges())
                    &&& row.spec_ranges().len() == row.spec_columns().len()
                },
                Err(e) => {
                    &&& e.kind is Parse
                    &&& e.cause is Some
                    &&& data_row_layout(data_row_storage(body), data_row_field_count(body)) is Some
                        ==> e.cause->0@ == field_count_mismatch()
                },
            },
    {
        // The length of the row's bytes, which bounds every field's range.
        let _bytes_len = row_bytes_len(&body);
        let ranges = match collect_ranges(&body) {
            Ok(ranges) => ranges,
            Err(cause) => return Err(Error::parse(cause)),
        };
        proof {
            lemma_layout_within(data_row_storage(body), 0, data_row_field_count(body));
        }
        if ranges.len() != statement.columns().len() {
            return Err(Error::parse(field_count_mismatch_text()));
        }
        Ok(Row { statement, body, ranges })
    }

    /// The row's columns.
    pub fn columns(&self) -> (c: &[Column])
        ensures
            c@ == self.spec_columns(),
    {
        self.statement.columns()
    }

    /// Whether the row has no values.
    pub fn is_empty(&self) -> (b: bool)
        ensures
            b == (self.spec_columns().len() == 0),
    {
        self.len() == 0
    }

    /// The number of values in the row.
    pub fn len(&self) -> (n: usize)
        ensures
            n == self.spec_columns().len(),
    {
        self.columns().len()
    }

    /// The size of the row's data in bytes.
    pub fn raw_size_bytes(&self) -> (n: usize)
        ensures
            n == self.spec_storage().len(),
    {
        row_bytes_len(&self.body)
    }

    /// The bytes of the value at `idx`, `None` for NULL.
    fn col_buffer(&self, idx: usize) -> (res: Option<&[u8]>)
        requires
            idx < self.spec_columns().len(),
        ensures
            match res {
                Some(b) => self.spec_value(idx as int) == Some(b@),
                None => self.spec_value(idx as int) is None,
            },
    {
        proof {
            use_type_invariant(self);
        }
        match self.ranges[idx] {
            Some(r) => {
                Some(vstd::slice::slice_subrange(row_bytes(&self.body), r.0, r.1))
            },
            None => None,
        }
    }

    /// The position of the column that `idx` selects, or the error naming `idx`.
    fn column_position<I: RowIndex + std::fmt::Display>(&self, idx: &I) -> (res: Result<usize, Error>)
        ensures
            res matches Ok(i) ==> i < self.spec_columns().len(),
            match idx.locate(names_of(self.spec_columns())) {
                Some(i) => res == Ok::<usize, Error>(i as usize),
                None => res matches Err(e) && e.kind matches ErrorKind::Column(label)
                    && label@ == idx.label() && e.cause is None,
            },
    {
        match idx.__idx(self.columns()) {
            Some(i) => Ok(i),
            None => Err(Error::column(idx.__label())),
        }
    }

    /// Converts the value at `idx` to `T`.
    ///
    /// `idx` is a position or a column name. An index that selects no column gives a
    /// `Column` error naming it. Otherwise `T` decides whether it accepts the column's
    /// type and how it reads the value; when it refuses either, the error is `FromSql`
    /// at the column's position.
    pub fn try_get<'a, I, T>(&'a self, idx: I) -> (res: Result<T, Error>) where
        I: RowIndex + std::fmt::Display,
        T: FromSql<'a>,
        ensures
            match idx.locate(names_of(self.spec_columns())) {
                Some(i) => match res {
                    Ok(_) => true,
                    Err(e) => e.kind == ErrorKind::FromSql(i as usize),
                },
                None => res matches Err(e) && e.kind matches ErrorKind::Column(label)
                    && label@ == idx.label() && e.cause is None,
            },
    {
        self.get_inner(&idx)
    }

    fn get_inner<'a, I, T>(&'a self, idx: &I) -> (res: Result<T, Error>) where
        I: RowIndex + std::fmt::Display,
        T: FromSql<'a>,
        ensures
            match idx.locate(names_of(self.spec_columns())) {
                Some(i) => match res {
                    Ok(_) => true,
                    Err(e) => e.kind == ErrorKind::FromSql(i as usize),
                },
                None => res matches Err(e) && e.kind matches ErrorKind::Column(label)
                    && label@ == idx.label() && e.cause is None,
            },
    {
        let idx = match self.column_position(idx) {
            Ok(i) => i,
            Err(e) => return Err(e),
        };
        let ty = self.columns()[idx].type_();
        let accepted = match accepts::<T>(ty) {
            Some(w) => w,
            None => return Err(Error::from_sql(wrong_type::<T>(ty), idx)),
        };
        match decode::<T>(ty, &accepted, self.col_buffer(idx)) {
            Ok(v) => Ok(v),
            Err(cause) => Err(Error::from_sql(cause, idx)),
        }
    }
}

impl Clone for Row {
    fn clone(&self) -> (r: Row)
        ensures
            names_of(r.spec_columns()) == names_of(self.spec_columns()),
            r.spec_columns().len() == self.spec_columns().len(),
            forall|i: int|
                #![trigger r.spec_columns()[i]]
                0 <= i < self.spec_columns().len() ==> r.spec_columns()[i].spec_type()
                    == self.spec_columns()[i].spec_type(),
            r.spec_storage() == self.spec_storage(),
            r.spec_ranges() == self.spec_ranges(),
    {
        proof {
            use_type_invariant(self);
        }
        Row {
            statement: self.statement.clone(),
            body: self.body.clone(),
            ranges: copy_ranges(self.ranges.as_slice()),
        }
    }

}

} // verus!

verus! {

/// A row of data returned by a simple query; every value is text.
#[derive(Debug)]
pub struct SimpleQueryRow {
    columns: std::sync::Arc<[SimpleColumn]>,
    body: DataRowBody,
    ranges: Vec<Option<(usize, usize)>>,
}

impl SimpleQueryRow {
    /// One range per column, each within the row's bytes.
    #[verifier::type_invariant]
    closed spec fn well_formed(&self) -> bool {
        &&& self.ranges@.len() == self.columns@.len()
        &&& ranges_within(self.ranges@, data_row_storage(self.body).len())
    }

    /// The row's columns.
    pub closed spec fn spec_columns(&self) -> Seq<SimpleColumn> {
        self.columns@
    }

    /// The bytes of the row's data.
    pub closed spec fn spec_storage(&self) -> Seq<u8> {
        data_row_storage(self.body)
    }

    /// The byte range of each field, `None` for NULL.
    pub closed spec fn spec_ranges(&self) -> Seq<Option<(usize, usize)>> {
        self.ranges@
    }

    /// The bytes of the value at `i`, `None` for NULL.
    pub open spec fn spec_value(&self, i: int) -> Option<Seq<u8>> {
        field_value(self.spec_storage(), self.spec_ranges(), i)
    }

    /// What reading the value at `idx` as text gives: the error naming `idx` when it
    /// selects no column; `None` for NULL; the decoded text when the bytes are
    /// UTF-8; a conversion error at the column otherwise.
    pub open spec fn text_at<I: RowIndex + std::fmt::Display>(
        &self,
        idx: &I,
        res: Result<Option<&str>, Error>,
    ) -> bool {
        match idx.locate(names_of(self.spec_columns())) {
            None => res matches Err(e) && e.kind matches ErrorKind::Column(label)
                && label@ == idx.label() && e.cause is None,
            Some(i) => match self.spec_value(i) {
                None => res matches Ok(None),
                Some(bytes) => if valid_utf8(bytes) {
                    res matches Ok(Some(s)) && s@ == decode_utf8(bytes)
                } else {
                    res matches Err(e) && e.kind == ErrorKind::FromSql(i as usize)
                },
            },
        }
    }

    /// Whether reading the value at `idx` as text succeeds: `idx` selects a column
    /// whose value is NULL or valid UTF-8.
    pub open spec fn readable<I: RowIndex + std::fmt::Display>(&self, idx: &I) -> bool {
        idx.locate(names_of(self.spec_columns())) matches Some(i) && (self.spec_value(
            i,
        ) matches Some(bytes) ==> valid_utf8(bytes))
    }

    /// Builds a row from simple-query columns and the body of a data row; a row whose
    /// field count differs from the column count is refused.
    pub fn new(columns: std::sync::Arc<[SimpleColumn]>, body: DataRowBody) -> (res: Result<
        SimpleQueryRow,
        Error,
    >)
        ensures
            res is Ok <==> (data_row_layout(
                data_row_storage(body),
                data_row_field_count(body),
            ) is Some && data_row_field_count(body) == columns@.len()),
            match res {
                Ok(row) => {
                    &&& row.spec_columns() == columns@
                    &&& row.spec_storage() == data_row_storage(body)
                    &&& data_row_layout(data_row_storage(body), data_row_field_count(body))
                        == Some(row.spec_ranges())
                    &&& row.spec_ranges().len() == row.spec_columns().len()
                },
                Err(e) => {
                    &&& e.kind is Parse
                    &&& e.cause is Some
                    &&& data_row_layout(data_row_storage(body), data_row_field_count(body)) is Some
                        ==> e.cause->0@ == field_count_mismatch()
                },
            },
    {
        // The length of the row's bytes, which bounds every field's range.
        let _bytes_len = row_bytes_len(&body);
        let ranges = match collect_ranges(&body) {
            Ok(ranges) => ranges,
            Err(cause) => return Err(Error::parse(cause)),
        };
        proof {
            lemma_layout_within(data_row_storage(body), 0, data_row_field_count(body));
        }
        if ranges.len() != columns.len() {
            return Err(Error::parse(field_count_mismatch_text()));
        }
        Ok(SimpleQueryRow { columns, body, ranges })
    }

    /// The row's columns.
    pub fn columns(&self) -> (c: &[SimpleColumn])
        ensures
            c@ == self.spec_columns(),
    {
        &self.columns
    }

    /// Whether the row has no values.
    pub fn is_empty(&self) -> (b: bool)
        ensures
            b == (self.spec_columns().len() == 0),
    {
        self.len() == 0
    }

    /// The number of values in the row.
    pub fn len(&self) -> (n: usize)
        ensures
            n == self.spec_columns().len(),
    {
        self.columns.len()
    }

    /// The value at `idx` as text, `None` for NULL.
    ///
    /// `idx` is a position or a column name; it must select a column whose value is
    /// NULL or valid UTF-8.
    pub fn get<I: RowIndex + std::fmt::Display>(&self, idx: I) -> (res: Option<&str>)
        requires
            self.readable(&idx),
        ensures
            self.text_at(&idx, Ok(res)),
    {
        match self.get_inner(&idx) {
            Ok(v) => v,
            Err(_) => {
                assert(false);
                None
            },
        }
    }

    /// The value at `idx` as text, `None` for NULL; like `get`, but returns the
    /// error instead of requiring its absence.
    pub fn try_get<I: RowIndex + std::fmt::Display>(&self, idx: I) -> (res: Result<
        Option<&str>,
        Error,
    >)
        ensures
            self.text_at(&idx, res),
    {
        self.get_inner(&idx)
    }

    fn get_inner<I: RowIndex + std::fmt::Display>(&self, idx: &I) -> (res: Result<
        Option<&str>,
        Error,
    >)
        ensures
            self.text_at(idx, res),
    {
        proof {
            use_type_invariant(self);
        }
        let idx_pos = match idx.__idx(self.columns()) {
            Some(i) => i,
            None => return Err(Error::column(idx.__label())),
        };
        let buf = match self.ranges[idx_pos] {
            Some(r) => {
                Some(vstd::slice::slice_subrange(row_bytes(&self.body), r.0, r.1))
            },
            None => None,
        };
        match decode_text(buf) {
            Ok(v) => Ok(v),
            Err(cause) => Err(Error::from_sql(cause, idx_pos)),
        }
    }
}

/// Reading a simple row's value by a name gives what reading it by the position
/// that the name selects gives.
pub proof fn lemma_simple_text_by_name_or_position(
    row: SimpleQueryRow,
    name: &str,
    position: usize,
    by_name: Result<Option<&str>, Error>,
    by_position: Result<Option<&str>, Error>,
)
    requires
        name.locate(names_of(row.spec_columns())) == Some(position as int),
        row.text_at(&name, by_name),
        row.text_at(&position, by_position),
    ensures
        by_name is Ok <==> by_position is Ok,
        by_name matches Ok(None) <==> by_position matches Ok(None),
        by_name matches Ok(Some(a)) ==> by_position matches Ok(Some(b)) && a@ == b@,
        by_name matches Err(e) ==> e.kind == ErrorKind::FromSql(position),
{
    crate::index::lemma_column_by_name(names_of(row.spec_columns()), name@);
}

/// `get` asks of an index exactly what `try_get` needs to succeed, and then returns
/// the value that `try_get` returns: a read as text has one outcome.
pub proof fn lemma_get_is_try_get<I: RowIndex + std::fmt::Display>(
    row: SimpleQueryRow,
    idx: &I,
    tried: Result<Option<&str>, Error>,
    got: Option<&str>,
)
    requires
        row.text_at(idx, tried),
    ensures
        tried is Ok <==> row.readable(idx),
        row.text_at(idx, Ok(got)) ==> (tried matches Ok(v) && (v is None <==> got is None) && (
        v matches Some(a) ==> (got matches Some(b) && a@ == b@))),
{
}

} // verus!
