//! Rows of schema metadata as the views show them: the names of their
//! columns and their cells, every cell a string; and the test that tells a
//! query that reads rows from one that writes.

use crate::glyph::is_whitespace_char;
use vstd::prelude::*;

verus! {

/// The text of an optional cell: empty where the value is missing.
pub open spec fn cell_text(value: Option<String>) -> Seq<char> {
    match value {
        Some(s) => s@,
        None => Seq::empty(),
    }
}

/// Copies an optional cell into a string.
pub fn cell(value: &Option<String>) -> (s: String)
    ensures
        s@ == cell_text(*value),
{
    match value {
        Some(v) => v.clone(),
        None => String::new(),
    }
}

/// The index of the first character at or after `from` that is not white
/// space, or the length of the string where all of them are.
pub open spec fn first_solid_char(s: Seq<char>, from: int) -> int
    decreases s.len() - from,
{
    if from < 0 || from >= s.len() {
        s.len() as int
    } else if !is_whitespace_char(s[from]) {
        from
    } else {
        first_solid_char(s, from + 1)
    }
}

/// The index just after the last character before `to` that is not white
/// space, or zero where all of them are.
pub open spec fn last_solid_char_end(s: Seq<char>, to: int) -> int
    decreases to,
{
    if to <= 0 || to > s.len() {
        0
    } else if !is_whitespace_char(s[to - 1]) {
        to
    } else {
        last_solid_char_end(s, to - 1)
    }
}

/// A string without the white space at its start and at its end.
pub open spec fn trimmed_text(s: Seq<char>) -> Seq<char> {
    let start = first_solid_char(s, 0);
    if start >= s.len() {
        Seq::empty()
    } else {
        s.subrange(start, last_solid_char_end(s, s.len() as int))
    }
}

/// What `str::to_uppercase` of std makes of a string.
pub uninterp spec fn uppercase_text(s: Seq<char>) -> Seq<char>;

/// `str::trim` of std: the string without its leading and trailing white
/// space, white space being what `char::is_whitespace` says.
pub assume_specification[ str::trim ](s: &str) -> (t: &str)
    ensures
        t@ == trimmed_text(s@),
;

/// `str::to_uppercase` of std: the result depends on the string alone.
pub assume_specification[ str::to_uppercase ](s: &str) -> (u: String)
    ensures
        u@ == uppercase_text(s@),
;

/// `str::starts_with` of std with a string as the pattern: whether the
/// string begins with the characters of `prefix`.
#[verifier::external_body]
fn has_prefix(s: &str, prefix: &str) -> (b: bool)
    ensures
        b == (prefix@.len() <= s@.len() && s@.take(prefix@.len() as int) == prefix@),
{
    s.starts_with(prefix)
}

/// A query reads rows when, trimmed and in upper case, it begins with `SELECT`.
pub open spec fn reads_rows(query: Seq<char>) -> bool {
    let q = uppercase_text(trimmed_text(query));
    "SELECT"@.len() <= q.len() && q.take("SELECT"@.len() as int) == "SELECT"@
}

/// Whether a query reads rows; every other query counts as one that writes.
pub fn is_read_query(query: &str) -> (b: bool)
    ensures
        b == reads_rows(query@),
{
    let upper = query.trim().to_uppercase();
    has_prefix(upper.as_str(), "SELECT")
}

/// A handle on a pool of connections to one database server.
pub struct PostgresPool {
    pool: String,
}

impl PostgresPool {
    /// The name of the pool behind the handle.
    pub closed spec fn pool_name(&self) -> Seq<char> {
        self.pool@
    }

    pub fn new(_database_url: &str) -> (p: Self)
        ensures
            p.pool_name() == "Fake"@,
    {
        Self { pool: "Fake".to_owned() }
    }

    pub fn name(&self) -> (s: String)
        ensures
            s@ == self.pool_name(),
    {
        self.pool.clone()
    }
}

/// A constraint of a table.
pub struct Constraint {
    pub name: String,
    pub column_name: String,
}

impl Constraint {
    pub fn fields(&self) -> (f: Vec<String>)
        ensures
            f@.len() == 2,
            f@[0]@ == "name"@,
            f@[1]@ == "column_name"@,
    {
        let mut f: Vec<String> = Vec::new();
        f.push("name".to_owned());
        f.push("column_name".to_owned());
        f
    }

    pub fn columns(&self) -> (c: Vec<String>)
        ensures
            c@.len() == 2,
            c@[0]@ == self.name@,
            c@[1]@ == self.column_name@,
    {
        let mut c: Vec<String> = Vec::new();
        c.push(self.name.clone());
        c.push(self.column_name.clone());
        c
    }
}

/// A column of a table.
pub struct Column {
    pub name: Option<String>,
    pub data_type: Option<String>,
    pub null: Option<String>,
    pub default: Option<String>,
    pub comment: Option<String>,
}

impl Column {
    pub fn fields(&self) -> (f: Vec<String>)
        ensures
            f@.len() == 5,
            f@[0]@ == "name"@,
            f@[1]@ == "type"@,
            f@[2]@ == "null"@,
            f@[3]@ == "default"@,
            f@[4]@ == "comment"@,
    {
        let mut f: Vec<String> = Vec::new();
        f.push("name".to_owned());
        f.push("type".to_owned());
        f.push("null".to_owned());
        f.push("default".to_owned());
        f.push("comment".to_owned());
        f
    }

    pub fn columns(&self) -> (c: Vec<String>)
        ensures
            c@.len() == 5,
            c@[0]@ == cell_text(self.name),
            c@[1]@ == cell_text(self.data_type),
            c@[2]@ == cell_text(self.null),
            c@[3]@ == cell_text(self.default),
            c@[4]@ == cell_text(self.comment),
    {
        let mut c: Vec<String> = Vec::new();
        c.push(cell(&self.name));
        c.push(cell(&self.data_type));
        c.push(cell(&self.null));
        c.push(cell(&self.default));
        c.push(cell(&self.comment));
        c
    }
}

/// A foreign key of a table.
pub struct ForeignKey {
    pub name: Option<String>,
    pub column_name: Option<String>,
    pub ref_table: Option<String>,
    pub ref_column: Option<String>,
}

impl ForeignKey {
    pub fn fields(&self) -> (f: Vec<String>)
        ensures
            f@.len() == 4,
            f@[0]@ == "name"@,
            f@[1]@ == "column_name"@,
            f@[2]@ == "ref_table"@,
            f@[3]@ == "ref_column"@,
    {
        let mut f: Vec<String> = Vec::new();
        f.push("name".to_owned());
        f.push("column_name".to_owned());
        f.push("ref_table".to_owned());
        f.push("ref_column".to_owned());
        f
    }

    pub fn columns(&self) -> (c: Vec<String>)
        ensures
            c@.len() == 4,
            c@[0]@ == cell_text(self.name),
            c@[1]@ == cell_text(self.column_name),
            c@[2]@ == cell_text(self.ref_table),
            c@[3]@ == cell_text(self.ref_column),
    {
        let mut c: Vec<String> = Vec::new();
        c.push(cell(&self.name));
        c.push(cell(&self.column_name));
        c.push(cell(&self.ref_table));
        c.push(cell(&self.ref_column));
        c
    }
}

/// An index of a table.
pub struct Index {
    pub name: Option<String>,
    pub column_name: Option<String>,
    pub index_type: Option<String>,
}

impl Index {
    pub fn fields(&self) -> (f: Vec<String>)
        ensures
            f@.len() == 3,
            f@[0]@ == "name"@,
            f@[1]@ == "column_name"@,
            f@[2]@ == "type"@,
    {
        let mut f: Vec<String> = Vec::new();
        f.push("name".to_owned());
        f.push("column_name".to_owned());
        f.push("type".to_owned());
        f
    }

    pub fn columns(&self) -> (c: Vec<String>)
        ensures
            c@.len() == 3,
            c@[0]@ == cell_text(self.name),
            c@[1]@ == cell_text(self.column_name),
            c@[2]@ == cell_text(self.index_type),
    {
        let mut c: Vec<String> = Vec::new();
        c.push(cell(&self.name));
        c.push(cell(&self.column_name));
        c.push(cell(&self.index_type));
        c
    }
}

} // verus!
