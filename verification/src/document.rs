//! A plain model of the declarative configuration document: key–value
//! sections holding strings, integers, booleans, arrays and nested tables.
//!
//! The document is what the configuration file resolves to once parsed; the
//! functions in [`crate::config`] read the declared servers and services out
//! of it. Table entries keep the order the parse handed them in, and a key is
//! looked up by its first occurrence.

use vstd::prelude::*;

verus! {

/// One key/value pair of a table.
#[derive(Debug)]
pub struct DocEntry {
    pub key: String,
    pub value: DocValue,
}

/// One value of the configuration document.
#[derive(Debug)]
pub enum DocValue {
    Str(String),
    Int(i64),
    Bool(bool),
    Arr(Vec<DocValue>),
    Table(Vec<DocEntry>),
    /// A value of a kind the library never reads (a float, a datetime).
    Other,
}

/// First value under `key` among the entries from position `i` on.
pub open spec fn lookup_from(entries: Seq<DocEntry>, key: Seq<char>, i: int) -> Option<DocValue>
    decreases entries.len() - i,
{
    if i < 0 || i >= entries.len() {
        None
    } else if entries[i].key@ == key {
        Some(entries[i].value)
    } else {
        lookup_from(entries, key, i + 1)
    }
}

/// First value under `key` in a table's entries, if any.
pub open spec fn lookup(entries: Seq<DocEntry>, key: Seq<char>) -> Option<DocValue> {
    lookup_from(entries, key, 0)
}

/// Looks a key up in a table's entries: the first entry with that key wins.
pub fn table_get<'a>(entries: &'a Vec<DocEntry>, key: &str) -> (r: Option<&'a DocValue>)
    ensures
        match r {
            Some(v) => lookup(entries@, key@) == Some(*v),
            None => lookup(entries@, key@) is None,
        },
{
    let k = String::from_str(key);
    let mut i: usize = 0;
    while i < entries.len()
        invariant
            0 <= i <= entries@.len(),
            k@ == key@,
            lookup(entries@, key@) == lookup_from(entries@, key@, i as int),
        decreases entries@.len() - i,
    {
        if entries[i].key == k {
            return Some(&entries[i].value);
        }
        i = i + 1;
    }
    None
}

} // verus!
