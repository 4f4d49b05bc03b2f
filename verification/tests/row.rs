use std::sync::Arc;

use bytes::BytesMut;
use pg_rows::error::ErrorKind;
use pg_rows::row::{Column, Row, SimpleColumn, SimpleQueryRow, Statement};
use postgres_protocol::message::backend::{DataRowBody, Message};
use postgres_types::Type;

fn data_row_with_lengths(field_count: u16, fields: &[Option<&[u8]>]) -> DataRowBody {
    let mut body = BytesMut::new();
    body.extend_from_slice(&field_count.to_be_bytes());
    for field in fields {
        match field {
            Some(field) => {
                body.extend_from_slice(&(field.len() as i32).to_be_bytes());
                body.extend_from_slice(field);
            }
            None => body.extend_from_slice(&(-1i32).to_be_bytes()),
        }
    }

    let mut buf = BytesMut::new();
    buf.extend_from_slice(b"D");
    buf.extend_from_slice(&(body.len() as i32 + 4).to_be_bytes());
    buf.extend_from_slice(&body);

    match Message::parse(&mut buf).unwrap().unwrap() {
        Message::DataRow(body) => body,
        _ => unreachable!("expected DataRow"),
    }
}

fn data_row(field_count: u16, fields: &[&[u8]]) -> DataRowBody {
    let fields: Vec<Option<&[u8]>> = fields.iter().map(|f| Some(*f)).collect();
    data_row_with_lengths(field_count, &fields)
}

fn column(name: &str) -> Column {
    Column::new(name.to_string(), None, None, 0, Type::TEXT)
}

fn typed_column(name: &str, ty: Type) -> Column {
    Column::new(name.to_string(), None, None, 0, ty)
}

#[test]
fn fewer_data_row_fields_than_columns_is_rejected() {
    // a server advertising two columns but sending a DataRow with a single
    // field would make column accessors index out of bounds and panic.
    let body = data_row(1, &[b""]);
    let statement = Statement::unnamed(vec![], vec![column("a"), column("b")]);
    assert!(Row::new(statement, body).is_err());
}

#[test]
fn matching_data_row_field_count_is_accepted() {
    let body = data_row(2, &[b"x", b"y"]);
    let statement = Statement::unnamed(vec![], vec![column("a"), column("b")]);
    assert!(Row::new(statement, body).is_ok());
}

#[test]
fn more_data_row_fields_than_columns_is_rejected() {
    let body = data_row(3, &[b"x", b"y", b"z"]);
    let statement = Statement::unnamed(vec![], vec![column("a"), column("b")]);
    let err = Row::new(statement, body).err().unwrap();
    assert!(matches!(err.kind(), ErrorKind::Parse));
    assert_eq!(err.message(), "error parsing response from server");
    assert_eq!(
        err.cause.as_deref(),
        Some("DataRow field count does not match the number of columns")
    );
    let body = data_row(1, &[b"x"]);
    let err = SimpleQueryRow::new(simple_columns(&["a", "b"]), body).err().unwrap();
    assert_eq!(
        err.cause.as_deref(),
        Some("DataRow field count does not match the number of columns")
    );
}

#[test]
fn trailing_bytes_and_null_fields_in_a_data_row() {
    // a NULL field has no range; any negative length is NULL
    let body = data_row_with_lengths(2, &[None, Some(b"ab")]);
    let row = Row::new(Statement::unnamed(vec![], vec![column("a"), column("b")]), body).unwrap();
    let a: Option<&str> = row.try_get(0usize).unwrap();
    assert_eq!(a, None);
    // bytes left over after the announced fields are refused
    let body = data_row(1, &[b"x", b"y"]);
    let err = Row::new(Statement::unnamed(vec![], vec![column("a")]), body).err().unwrap();
    assert!(matches!(err.kind(), ErrorKind::Parse));
    assert_ne!(
        err.cause.as_deref(),
        Some("DataRow field count does not match the number of columns")
    );
}

#[test]
fn truncated_data_row_is_rejected() {
    // announces two fields but holds one
    let body = data_row(2, &[b"x"]);
    let statement = Statement::unnamed(vec![], vec![column("a"), column("b")]);
    let err = Row::new(statement, body).err().unwrap();
    assert!(matches!(err.kind(), ErrorKind::Parse));
}

#[test]
fn row_reports_its_columns_and_size() {
    let body = data_row(2, &[b"xy", b"z"]);
    let statement = Statement::unnamed(vec![], vec![column("a"), column("b")]);
    let row = Row::new(statement, body).unwrap();
    assert_eq!(row.len(), 2);
    assert!(!row.is_empty());
    assert_eq!(row.columns()[1].name(), "b");
    // two length words of four bytes, and three bytes of data
    assert_eq!(row.raw_size_bytes(), 11);

    let empty = Row::new(Statement::unnamed(vec![], vec![]), data_row(0, &[])).unwrap();
    assert_eq!(empty.len(), 0);
    assert!(empty.is_empty());
}

#[test]
fn try_get_reads_by_position_and_by_name() {
    let body = data_row(2, &[&7i32.to_be_bytes(), b"alice"]);
    let statement = Statement::unnamed(
        vec![],
        vec![typed_column("id", Type::INT4), typed_column("name", Type::TEXT)],
    );
    let row = Row::new(statement, body).unwrap();
    let id: i32 = row.try_get(0usize).unwrap();
    assert_eq!(id, 7);
    let name: &str = row.try_get("name").unwrap();
    assert_eq!(name, "alice");
    let name: String = row.try_get(1usize).unwrap();
    assert_eq!(name, "alice");
}

#[test]
fn name_lookup_prefers_exact_match_then_ascii_case() {
    let body = data_row(3, &[b"first", b"second", b"third"]);
    let statement = Statement::unnamed(
        vec![],
        vec![column("Name"), column("name"), column("NAME")],
    );
    let row = Row::new(statement, body).unwrap();
    let exact: &str = row.try_get("NAME").unwrap();
    assert_eq!(exact, "third");
    let exact: &str = row.try_get("name").unwrap();
    assert_eq!(exact, "second");
    let folded: &str = row.try_get("nAmE").unwrap();
    assert_eq!(folded, "first");
}

#[test]
fn missing_column_is_a_column_error() {
    let body = data_row(1, &[&1i32.to_be_bytes()]);
    let statement = Statement::unnamed(vec![], vec![typed_column("id", Type::INT4)]);
    let row = Row::new(statement, body).unwrap();
    let err = row.try_get::<&str, i32>("name").err().unwrap();
    assert!(matches!(err.kind(), ErrorKind::Column(name) if name == "name"));
    assert!(err.cause.is_none());
    assert_eq!(err.message(), "invalid column `name`");
    let err = row.try_get::<usize, i32>(1).err().unwrap();
    assert!(matches!(err.kind(), ErrorKind::Column(name) if name == "1"));
}

#[test]
fn wrong_type_and_null_are_conversion_errors() {
    let body = data_row_with_lengths(2, &[Some(b"text"), None]);
    let statement = Statement::unnamed(
        vec![],
        vec![typed_column("id", Type::TEXT), typed_column("n", Type::INT4)],
    );
    let row = Row::new(statement, body).unwrap();
    let err = row.try_get::<usize, i32>(0).err().unwrap();
    assert!(matches!(err.kind(), ErrorKind::FromSql(0)));
    assert_eq!(err.message(), "error deserializing column 0");
    assert!(err.cause.unwrap().contains("cannot convert between the Rust type"));
    let err = row.try_get::<&str, i32>("n").err().unwrap();
    assert!(matches!(err.kind(), ErrorKind::FromSql(1)));
    let value: Option<i32> = row.try_get("n").unwrap();
    assert_eq!(value, None);
}

#[test]
fn cloned_row_reads_the_same_values() {
    let body = data_row(1, &[b"v"]);
    let row = Row::new(Statement::unnamed(vec![], vec![column("c")]), body).unwrap();
    let copy = row.clone();
    let value: &str = copy.try_get(0usize).unwrap();
    assert_eq!(value, "v");
    assert_eq!(copy.raw_size_bytes(), row.raw_size_bytes());
}

fn simple_columns(names: &[&str]) -> Arc<[SimpleColumn]> {
    names
        .iter()
        .map(|n| SimpleColumn::new(n.to_string()))
        .collect::<Vec<_>>()
        .into()
}

#[test]
fn simple_row_rejects_mismatched_field_count() {
    let body = data_row(1, &[b"x"]);
    assert!(SimpleQueryRow::new(simple_columns(&["a", "b"]), body).is_err());
    let body = data_row(2, &[b"x", b"y"]);
    assert!(SimpleQueryRow::new(simple_columns(&["a", "b"]), body).is_ok());
}

#[test]
fn simple_row_reads_text_and_null() {
    let body = data_row_with_lengths(3, &[Some(b"hello"), None, Some(&[0xff, 0xfe])]);
    let row = SimpleQueryRow::new(simple_columns(&["greeting", "nothing", "bad"]), body).unwrap();
    assert_eq!(row.len(), 3);
    assert!(!row.is_empty());
    assert_eq!(row.columns()[0].name(), "greeting");
    assert_eq!(row.get("greeting"), Some("hello"));
    assert_eq!(row.get(1usize), None);
    assert_eq!(row.get("greeting"), row.try_get("greeting").unwrap());
    assert_eq!(row.try_get("GREETING").unwrap(), Some("hello"));
    assert_eq!(row.try_get("greeting").unwrap(), row.try_get(0usize).unwrap());
    assert_eq!(row.try_get("nothing").unwrap(), row.try_get(1usize).unwrap());
    let err = row.try_get("bad").err().unwrap();
    assert!(matches!(err.kind(), ErrorKind::FromSql(2)));
    let err = row.try_get(3usize).err().unwrap();
    assert!(matches!(err.kind(), ErrorKind::Column(name) if name == "3"));
}

#[test]
fn error_messages_name_the_column() {
    let err = pg_rows::error::Error::from_sql("boom".to_string(), 12);
    assert_eq!(err.message(), "error deserializing column 12");
    let err = pg_rows::error::Error::column("nickName".to_string());
    assert_eq!(err.message(), "invalid column `nickName`");
}

#[test]
fn unknown_column_errors_name_the_index() {
    let body = data_row(2, &[b"x", b"y"]);
    let row = Row::new(Statement::unnamed(vec![], vec![column("a"), column("b")]), body).unwrap();
    let err = row.try_get::<_, &str>("c").err().unwrap();
    assert_eq!(err.message(), "invalid column `c`");
    let err = row.try_get::<_, &str>(2usize).err().unwrap();
    assert_eq!(err.message(), "invalid column `2`");
    let value: &str = row.try_get(&"b").unwrap();
    assert_eq!(value, row.try_get::<_, &str>("b").unwrap());
}

struct Wrapper<T>(#[allow(dead_code)] T);

impl<'a, T> postgres_types::FromSql<'a> for Wrapper<T> {
    fn from_sql(
        _: &Type,
        _: &'a [u8],
    ) -> Result<Self, Box<dyn std::error::Error + Sync + Send>> {
        Err("no value of this type is read from a row".into())
    }

    fn accepts(_: &Type) -> bool {
        true
    }
}

struct WrappedGeneric<T> {
    #[allow(dead_code)]
    value: Wrapper<T>,
}

impl<'row, T> pg_rows::row::FromRow<'row> for WrappedGeneric<T> {
    fn from_row(row: &'row Row) -> Result<Self, pg_rows::error::Error> {
        let value = row.try_get::<_, Wrapper<T>>("value")?;
        Ok(WrappedGeneric { value })
    }
}

fn assert_owned_from_row<T>()
where
    T: for<'a> pg_rows::row::FromRow<'a>,
{
}

fn assert_wrapped_generic<T>() {
    assert_owned_from_row::<WrappedGeneric<T>>();
}

#[test]
fn wrapped_generic_maps_rows_of_any_lifetime() {
    assert_wrapped_generic::<()>();
    let body = data_row(1, &[b"v"]);
    let row = Row::new(Statement::unnamed(vec![], vec![column("value")]), body).unwrap();
    let err = <WrappedGeneric<()> as pg_rows::row::FromRow>::from_row(&row).err().unwrap();
    assert!(matches!(err.kind(), ErrorKind::FromSql(0)));
}
