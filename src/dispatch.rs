//! Routing of a load request to a backend by the file's extension.
use crate::model::LoadError;
use crate::text::{chars_of, lower_of, lowercase, string_of};
use vstd::prelude::*;

verus! {

/// The backend that serves a format.
#[derive(Debug, Clone, Copy, PartialEq, Eq, Structural)]
pub enum Backend {
    /// Delimited text, read record by record.
    DelimitedText,
    /// A multi-sheet workbook.
    Workbook,
}

pub open spec fn is_separator(c: char) -> bool {
    c == '/' || c == '\\'
}

/// The index of the last path separator, or -1.
pub open spec fn last_separator(p: Seq<char>) -> int
    decreases p.len(),
{
    if p.len() == 0 {
        -1
    } else if is_separator(p.last()) {
        p.len() - 1
    } else {
        last_separator(p.drop_last())
    }
}

/// The index of the last dot, or -1.
pub open spec fn last_dot(p: Seq<char>) -> int
    decreases p.len(),
{
    if p.len() == 0 {
        -1
    } else if p.last() == '.' {
        p.len() - 1
    } else {
        last_dot(p.drop_last())
    }
}

/// The last component of a path.
pub open spec fn file_name(p: Seq<char>) -> Seq<char> {
    p.subrange(last_separator(p) + 1, p.len() as int)
}

/// What follows the last dot of the file name, unless that dot opens the name.
pub open spec fn extension_of(p: Seq<char>) -> Option<Seq<char>> {
    let name = file_name(p);
    let j = last_dot(name);
    if j > 0 {
        Some(name.subrange(j + 1, name.len() as int))
    } else {
        None
    }
}

/// The backend for a lower-case extension, if it is a supported one.
pub open spec fn backend_for(ext: Seq<char>) -> Option<Backend> {
    if ext == "csv"@ {
        Some(Backend::DelimitedText)
    } else if ext == "xlsx"@ || ext == "xls"@ || ext == "ods"@ {
        Some(Backend::Workbook)
    } else {
        None
    }
}

/// The backend a path routes to: by its extension, case-insensitively.
/// A path without an extension is rejected with an empty extension.
pub open spec fn route(p: Seq<char>) -> Result<Backend, Seq<char>> {
    match extension_of(p) {
        Some(e) => match backend_for(lower_of(e)) {
            Some(b) => Ok(b),
            None => Err(e),
        },
        None => Err(Seq::empty()),
    }
}

/// `last_separator` is the last index holding a separator.
proof fn lemma_last_separator_unique(p: Seq<char>, j: int)
    requires
        -1 <= j < p.len(),
        j >= 0 ==> is_separator(p[j]),
        forall|i: int| j < i < p.len() ==> !is_separator(#[trigger] p[i]),
    ensures
        last_separator(p) == j,
    decreases p.len(),
{
    if p.len() > 0 && j < p.len() - 1 {
        assert(!is_separator(p[p.len() - 1]));
        lemma_last_separator_unique(p.drop_last(), j);
    }
}

/// `last_dot` is the last index holding a dot.
proof fn lemma_last_dot_unique(p: Seq<char>, j: int)
    requires
        -1 <= j < p.len(),
        j >= 0 ==> p[j] == '.',
        forall|i: int| j < i < p.len() ==> #[trigger] p[i] != '.',
    ensures
        last_dot(p) == j,
    decreases p.len(),
{
    if p.len() > 0 && j < p.len() - 1 {
        assert(p[p.len() - 1] != '.');
        lemma_last_dot_unique(p.drop_last(), j);
    }
}

/// The extension of a path, if it has one.
pub fn file_extension(path: &str) -> (r: Option<String>)
    ensures
        match extension_of(path@) {
            Some(e) => r matches Some(s) && s@ == e,
            None => r is None,
        },
{
    let cs = chars_of(path);
    let n = cs.len();
    let mut start: usize = n;
    while start > 0 && cs[start - 1] != '/' && cs[start - 1] != '\\'
        invariant
            start <= n,
            n == cs@.len(),
            forall|i: int| start <= i < n ==> !is_separator(#[trigger] cs@[i]),
        decreases start,
    {
        start -= 1;
    }
    proof {
        lemma_last_separator_unique(cs@, start - 1);
    }
    let ghost name = file_name(cs@);
    let mut dot: usize = n;
    while dot > start && cs[dot - 1] != '.'
        invariant
            start <= dot <= n,
            n == cs@.len(),
            forall|i: int| dot <= i < n ==> #[trigger] cs@[i] != '.',
        decreases dot,
    {
        dot -= 1;
    }
    if dot - start <= 1 {
        proof {
            if dot == start + 1 {
                lemma_last_dot_unique(name, 0);
            } else {
                assert forall|i: int| -1 < i < name.len() implies #[trigger] name[i] != '.' by {
                    assert(name[i] == cs@[start + i]);
                }
                lemma_last_dot_unique(name, -1);
            }
        }
        return None;
    }
    proof {
        assert forall|i: int| dot - 1 - start < i < name.len() implies #[trigger] name[i]
            != '.' by {
            assert(name[i] == cs@[start + i]);
        }
        lemma_last_dot_unique(name, dot - 1 - start);
    }
    let mut ext: Vec<char> = Vec::new();
    let mut i: usize = dot;
    while i < n
        invariant
            dot <= i <= n,
            n == cs@.len(),
            ext@ == cs@.subrange(dot as int, i as int),
        decreases n - i,
    {
        ext.push(cs[i]);
        i += 1;
    }
    proof {
        assert(ext@ =~= name.subrange(dot - start, name.len() as int));
    }
    Some(string_of(&ext))
}

/// Chooses the backend for a path by its extension, ignoring case; any
/// other extension is rejected with `UnsupportedFormat`, carrying it.
pub fn select_backend(path: &str) -> (r: Result<Backend, LoadError>)
    ensures
        match route(path@) {
            Ok(b) => r == Ok::<Backend, LoadError>(b),
            Err(e) => r matches Err(LoadError::UnsupportedFormat(x)) && x@ == e,
        },
{
    let ext = match file_extension(path) {
        Some(e) => e,
        None => return Err(LoadError::UnsupportedFormat(String::new())),
    };
    let lower = lowercase(ext.as_str());
    if lower == "csv".to_owned() {
        Ok(Backend::DelimitedText)
    } else if lower == "xlsx".to_owned() || lower == "xls".to_owned() || lower == "ods".to_owned() {
        Ok(Backend::Workbook)
    } else {
        Err(LoadError::UnsupportedFormat(ext))
    }
}

/// The format dispatcher: routes load requests to a backend by the file's
/// extension. It does no I/O of its own.
pub struct DataLoader {}

impl DataLoader {
    pub fn new() -> (r: DataLoader) {
        DataLoader {  }
    }

    /// The backend that serves `path`, or `UnsupportedFormat`.
    pub fn backend_for_path(&self, path: &str) -> (r: Result<Backend, LoadError>)
        ensures
            match route(path@) {
                Ok(b) => r == Ok::<Backend, LoadError>(b),
                Err(e) => r matches Err(LoadError::UnsupportedFormat(x)) && x@ == e,
            },
    {
        select_backend(path)
    }
}

} // verus!
