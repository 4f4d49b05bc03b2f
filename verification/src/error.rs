//! Errors of row access.
use vstd::prelude::*;
use crate::text::{decimal, push_decimal, push_str};

verus! {

/// What went wrong.
#[derive(Debug, Clone)]
pub enum ErrorKind {
    /// The server's response could not be parsed.
    Parse,
    /// No column matched the index; holds the index as written.
    Column(String),
    /// The value of the column at this position could not be converted.
    FromSql(usize),
}

/// An error of row access: its kind, and the underlying cause where there is one.
#[derive(Debug, Clone)]
pub struct Error {
    pub kind: ErrorKind,
    pub cause: Option<String>,
}

/// The text that describes an error kind.
pub open spec fn kind_message(kind: ErrorKind) -> Seq<char> {
    match kind {
        ErrorKind::Parse => "error parsing response from server"@,
        ErrorKind::Column(name) => "invalid column `"@ + name@ + "`"@,
        ErrorKind::FromSql(idx) => "error deserializing column "@ + decimal(idx as nat),
    }
}

impl Error {
    /// A response that could not be parsed.
    pub fn parse(cause: String) -> (e: Error)
        ensures
            e.kind is Parse,
            e.cause == Some(cause),
    {
        Error { kind: ErrorKind::Parse, cause: Some(cause) }
    }

    /// An index that selects no column.
    pub fn column(column: String) -> (e: Error)
        ensures
            e.kind == ErrorKind::Column(column),
            e.cause is None,
    {
        Error { kind: ErrorKind::Column(column), cause: None }
    }

    /// A value that could not be converted.
    pub fn from_sql(cause: String, idx: usize) -> (e: Error)
        ensures
            e.kind == ErrorKind::FromSql(idx),
            e.cause == Some(cause),
    {
        Error { kind: ErrorKind::FromSql(idx), cause: Some(cause) }
    }

    /// The kind of this error.
    pub fn kind(&self) -> (k: &ErrorKind)
        ensures
            *k == self.kind,
    {
        &self.kind
    }

    /// The text that describes this error.
    pub fn message(&self) -> (m: String)
        ensures
            m@ == kind_message(self.kind),
    {
        let mut m = String::new();
        match &self.kind {
            ErrorKind::Parse => {
                push_str(&mut m, "error parsing response from server");
            },
            ErrorKind::Column(name) => {
                push_str(&mut m, "invalid column `");
                push_str(&mut m, name.as_str());
                push_str(&mut m, "`");
            },
            ErrorKind::FromSql(idx) => {
                push_str(&mut m, "error deserializing column ");
                push_decimal(&mut m, *idx);
            },
        }
        m
    }
}

} // verus!
