//! The naming rules of the history of received envelopes: a directory that
//! holds one `<id>.json` file per item. The files themselves are read and
//! written outside this crate.
use vstd::prelude::*;

use crate::text::concat3;

verus! {

/// The suffix of every item file.
pub const ITEM_SUFFIX: &'static str = ".json";

/// The history directory.
#[derive(Clone, Debug)]
pub struct History {
    pub path: String,
}

/// The history store under the name its client code uses.
pub type Db = History;

/// `s` ends with `suffix`.
pub open spec fn ends_with(s: Seq<char>, suffix: Seq<char>) -> bool {
    s.len() >= suffix.len() && s.subrange(s.len() - suffix.len(), s.len() as int) == suffix
}

impl History {
    /// The history kept in the directory `path`.
    pub fn new(path: String) -> (r: History)
        ensures
            r.path == path,
    {
        History { path }
    }

    /// The file of the item `id`: `<path>/<id>.json`.
    pub fn item_file(&self, id: &str) -> (r: String)
        ensures
            r@ == self.path@ + "/"@ + id@ + ITEM_SUFFIX@,
    {
        let mut s = concat3(self.path.as_str(), "/", id);
        s.append(ITEM_SUFFIX);
        s
    }

    /// The pattern that matches every item file: `<path>/*.json`.
    pub fn pattern(&self) -> (r: String)
        ensures
            r@ == self.path@ + "/*"@ + ITEM_SUFFIX@,
    {
        concat3(self.path.as_str(), "/*", ITEM_SUFFIX)
    }
}

/// The id of the item stored in the file named `file_name`: the name without
/// its `.json` suffix, for a name that has the suffix and something before it.
pub fn item_id(file_name: &str) -> (r: Option<String>)
    ensures
        match r {
            Some(id) => ends_with(file_name@, ITEM_SUFFIX@) && file_name@.len() > ITEM_SUFFIX@.len()
                && id@ == file_name@.subrange(0, file_name@.len() - ITEM_SUFFIX@.len()),
            None => !ends_with(file_name@, ITEM_SUFFIX@) || file_name@.len() <= ITEM_SUFFIX@.len(),
        },
{
    let n = file_name.unicode_len();
    let k = ITEM_SUFFIX.unicode_len();
    if n <= k {
        return None;
    }
    let tail = file_name.substring_char(n - k, n);
    if !crate::text::str_eq(tail, ITEM_SUFFIX) {
        return None;
    }
    Some(String::from_str(file_name.substring_char(0, n - k)))
}

} // verus!
