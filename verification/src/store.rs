//! The store of a layer: where its database lives, and what is asked of it.
//!
//! A layer stores its own typed objects as JSON under its own `kind`. The statements
//! here are what the host sends to the database, with the values that go into their
//! numbered places.
use crate::ai::{text_or, text_view};
use crate::serve::variable;
use crate::text::{join, uppercased};
use vstd::prelude::*;
use vstd::string::*;

verus! {

/// The environment variable that names a tool's database: `{TOOL}_DB`.
pub fn database_variable(tool: &str) -> (r: String)
    ensures
        r@ == uppercased(tool@) + "_"@ + "DB"@,
{
    variable(tool, "DB")
}

/// The path of a tool's database: the value of its variable, or `{tool}.db`.
pub fn database_path(tool: &str, value: Option<String>) -> (r: String)
    ensures
        r@ == text_or(text_view(value), tool@ + ".db"@),
{
    match value {
        Some(path) => path,
        None => join(tool, ".db"),
    }
}

/// A value for a place of a statement.
#[derive(Debug, PartialEq, Eq)]
pub enum Bound {
    Text(String),
    Integer(i64),
}

/// What a [`Bound`] stands for.
pub enum BoundView {
    Text(Seq<char>),
    Integer(i64),
}

impl View for Bound {
    type V = BoundView;

    open spec fn view(&self) -> BoundView {
        match self {
            Bound::Text(s) => BoundView::Text(s@),
            Bound::Integer(i) => BoundView::Integer(*i),
        }
    }
}

/// A statement and the values for its places `?1`, `?2`, ..., in order.
#[derive(Debug, PartialEq, Eq)]
pub struct Statement {
    pub sql: &'static str,
    pub values: Vec<Bound>,
}

/// What a list of values stands for.
pub open spec fn bounds(values: Seq<Bound>) -> Seq<BoundView> {
    Seq::new(values.len(), |i: int| values[i]@)
}

/// Stores an object: the first time with both dates, later with a new payload and
/// the date of the change, so that the date of creation survives.
pub const PUT: &'static str = "INSERT INTO objects (kind, id, payload, created_at, updated_at) VALUES (?1, ?2, ?3, ?4, ?4) ON CONFLICT (kind, id) DO UPDATE SET payload = ?3, updated_at = ?4";

/// Reads the payload of one object.
pub const GET: &'static str = "SELECT payload FROM objects WHERE kind = ?1 AND id = ?2";

/// Reads the payloads of one kind, most recently updated first.
pub const LIST: &'static str = "SELECT payload FROM objects WHERE kind = ?1 ORDER BY updated_at DESC, id DESC LIMIT ?2";

/// Deletes one object.
pub const DELETE: &'static str = "DELETE FROM objects WHERE kind = ?1 AND id = ?2";

/// The statement that stores an object. `now` becomes its date of creation, unless it
/// is stored already, and the date of its last change.
pub fn put_statement(kind: &str, id: &str, payload: &str, now: &str) -> (r: Statement)
    ensures
        r.sql@ == PUT@,
        bounds(r.values@) == seq![
            BoundView::Text(kind@),
            BoundView::Text(id@),
            BoundView::Text(payload@),
            BoundView::Text(now@),
        ],
{
    let mut values: Vec<Bound> = Vec::new();
    values.push(Bound::Text(kind.to_owned()));
    values.push(Bound::Text(id.to_owned()));
    values.push(Bound::Text(payload.to_owned()));
    values.push(Bound::Text(now.to_owned()));
    Statement { sql: PUT, values }
}

/// The statement that reads one object.
pub fn get_statement(kind: &str, id: &str) -> (r: Statement)
    ensures
        r.sql@ == GET@,
        bounds(r.values@) == seq![BoundView::Text(kind@), BoundView::Text(id@)],
{
    let mut values: Vec<Bound> = Vec::new();
    values.push(Bound::Text(kind.to_owned()));
    values.push(Bound::Text(id.to_owned()));
    Statement { sql: GET, values }
}

/// The statement that reads up to `limit` objects of one kind.
pub fn list_statement(kind: &str, limit: i64) -> (r: Statement)
    ensures
        r.sql@ == LIST@,
        bounds(r.values@) == seq![BoundView::Text(kind@), BoundView::Integer(limit)],
{
    let mut values: Vec<Bound> = Vec::new();
    values.push(Bound::Text(kind.to_owned()));
    values.push(Bound::Integer(limit));
    Statement { sql: LIST, values }
}

/// The statement that deletes one object.
pub fn delete_statement(kind: &str, id: &str) -> (r: Statement)
    ensures
        r.sql@ == DELETE@,
        bounds(r.values@) == seq![BoundView::Text(kind@), BoundView::Text(id@)],
{
    let mut values: Vec<Bound> = Vec::new();
    values.push(Bound::Text(kind.to_owned()));
    values.push(Bound::Text(id.to_owned()));
    Statement { sql: DELETE, values }
}

/// Whether a deletion removed anything, from the number of rows that it affected.
pub fn was_deleted(rows_affected: u64) -> (r: bool)
    ensures
        r == (rows_affected > 0),
{
    rows_affected > 0
}

/// The values of a statement stand for what is in them, one for one.
pub proof fn law_views_keep_every_value(text: String, n: i64, values: Seq<Bound>)
    ensures
        Bound::Text(text)@ == BoundView::Text(text@),
        Bound::Integer(n)@ == BoundView::Integer(n),
        bounds(values).len() == values.len(),
        forall|i: int| 0 <= i < values.len() ==> #[trigger] bounds(values)[i] == values[i]@,
{
}

} // verus!
