//! The file browsing API: what a directory listing shows, and where the
//! paths of a request lead.
use vstd::prelude::*;

use crate::path::{join_path, path_join};
use crate::sort::TotalPreorder;
use crate::text::{
    chars_lex_le, chars_of, concat_chars, copy_str, lemma_lex_total, lemma_lex_transitive,
    lex_le, lowercase, str_eq, string_of, sub_chars, to_lowercase,
};

verus! {

/// One entry of a directory listing.
#[derive(Debug, Clone)]
pub struct FileEntry {
    pub name: String,
    pub path: String,
    pub is_dir: bool,
    pub size: Option<u64>,
    pub modified: Option<i64>,
    pub mime_type: Option<String>,
    pub thumbnail: Option<String>,
    pub metadata: Option<MediaMetadata>,
}

/// What is known of a video folder.
#[derive(Debug, Clone)]
pub struct MediaMetadata {
    pub title: Option<String>,
    pub poster: Option<String>,
    pub fanart: Option<String>,
    pub year: Option<String>,
    pub plot: Option<String>,
}

/// Paging of a listing request (accepted, not applied).
#[derive(Debug, Clone, Copy)]
pub struct ListQuery {
    pub page: Option<u32>,
    pub limit: Option<u32>,
}

/// A directory listing.
#[derive(Debug, Clone)]
pub struct ListResponse {
    pub entries: Vec<FileEntry>,
    pub total: usize,
    pub path: String,
    pub app: String,
}

/// A copy or move request.
#[derive(Debug, Clone)]
pub struct FileOperation {
    pub operation: String,
    pub destination: String,
}

/// Directories come first; then entries are ordered by their lower-cased
/// names.
impl TotalPreorder for FileEntry {
    open spec fn ranks_before(self, other: Self) -> bool {
        if self.is_dir != other.is_dir {
            self.is_dir
        } else {
            lex_le(lowercase(self.name@), lowercase(other.name@))
        }
    }

    proof fn lemma_total(a: Self, b: Self) {
        lemma_lex_total(lowercase(a.name@), lowercase(b.name@));
    }

    proof fn lemma_transitive(a: Self, b: Self, c: Self) {
        if a.is_dir == b.is_dir && b.is_dir == c.is_dir {
            lemma_lex_transitive(lowercase(a.name@), lowercase(b.name@), lowercase(c.name@));
        }
    }

    fn before(&self, other: &Self) -> (r: bool) {
        if self.is_dir != other.is_dir {
            return self.is_dir;
        }
        let a = to_lowercase(self.name.as_str());
        let b = to_lowercase(other.name.as_str());
        chars_lex_le(&chars_of(a.as_str()), &chars_of(b.as_str()))
    }
}

/// A listing of `entries` for the request path and app: `total` is the
/// number of entries.
pub fn list_response(entries: Vec<FileEntry>, path: String, app: String) -> (r: ListResponse)
    ensures
        r.entries == entries,
        r.total == entries@.len(),
        r.path == path,
        r.app == app,
{
    let total = entries.len();
    ListResponse { entries, total, path, app }
}

/// The kinds of file operation.
#[derive(Debug, Clone, Copy, PartialEq, Eq, Structural)]
pub enum FileOp {
    Copy,
    Move,
}

/// The operation a request names: `copy` or `move`; anything else is
/// refused.
pub fn parse_operation(operation: &str) -> (r: Option<FileOp>)
    ensures
        r == (if operation@ == "copy"@ {
            Some(FileOp::Copy)
        } else if operation@ == "move"@ {
            Some(FileOp::Move)
        } else {
            None
        }),
{
    if str_eq(operation, "copy") {
        Some(FileOp::Copy)
    } else if str_eq(operation, "move") {
        Some(FileOp::Move)
    } else {
        None
    }
}

/// `s` without all its leading `c` (`str::trim_start_matches`).
pub open spec fn strip_leading(s: Seq<char>, c: char) -> Seq<char>
    decreases s.len(),
{
    if s.len() > 0 && s[0] == c {
        strip_leading(s.drop_first(), c)
    } else {
        s
    }
}

fn strip_leading_of(s: &str, c: char) -> (r: Vec<char>)
    ensures
        r@ == strip_leading(s@, c),
{
    let v = chars_of(s);
    let n = v.len();
    let mut i: usize = 0;
    assert(v@.subrange(0, n as int) =~= v@);
    while i < n && v[i] == c
        invariant
            n == v@.len(),
            i <= n,
            strip_leading(v@.subrange(i as int, n as int), c) == strip_leading(v@, c),
        decreases n - i,
    {
        assert(v@.subrange(i as int, n as int).drop_first() =~= v@.subrange(i + 1, n as int));
        i = i + 1;
    }
    sub_chars(&v, i, n)
}

/// `base/rel`, with the slashes at the start of `rel` removed.
pub open spec fn under_base(base: Seq<char>, rel: Seq<char>) -> Seq<char> {
    base + "/"@ + strip_leading(rel, '/')
}

/// `base/rel` (see `under_base`).
pub fn path_under_base(base: &str, rel: &str) -> (r: String)
    ensures
        r@ == under_base(base@, rel@),
{
    let b = chars_of(base);
    let slash = chars_of("/");
    let tail = strip_leading_of(rel, '/');
    let joined = concat_chars(&concat_chars(&b, &slash), &tail);
    string_of(&joined)
}

/// The directory a listing request shows: the app directory itself for an
/// empty path or `/`, else the path under it.
pub fn list_path(base: &str, rel: &str) -> (r: String)
    ensures
        r@ == (if rel@.len() == 0 || rel@ == "/"@ {
            base@
        } else {
            under_base(base@, rel@)
        }),
{
    if rel.unicode_len() == 0 || str_eq(rel, "/") {
        copy_str(base)
    } else {
        path_under_base(base, rel)
    }
}

/// The source and destination of a copy or move request, both under the app
/// directory.
pub fn operation_paths(base: &str, rel: &str, destination: &str) -> (r: (String, String))
    ensures
        r.0@ == under_base(base@, rel@),
        r.1@ == under_base(base@, destination@),
{
    (path_under_base(base, rel), path_under_base(base, destination))
}

/// The path a request names inside an app directory, joined as a file-system
/// path: the directory itself for an empty path, else the path with its
/// leading slashes removed, joined to the directory.
pub fn resolve_app_path(base: &str, rel: &str) -> (r: String)
    ensures
        r@ == (if rel@.len() == 0 {
            base@
        } else {
            path_join(base@, strip_leading(rel@, '/'))
        }),
{
    if rel.unicode_len() == 0 {
        copy_str(base)
    } else {
        let tail = strip_leading_of(rel, '/');
        let t = string_of(&tail);
        join_path(base, t.as_str())
    }
}

/// One item of a directory as read: its name, its path, and, when its
/// metadata could be read, whether it is a directory and its size.
#[derive(Debug, Clone)]
pub struct DirEntryRead {
    pub name: String,
    pub path: String,
    pub meta: Option<(bool, u64)>,
}

/// One entry of a file listing.
#[derive(Debug, Clone)]
pub struct ListedEntry {
    pub name: String,
    pub path: String,
    pub is_dir: bool,
    pub size: Option<u64>,
}

/// The file listing of a directory of an app.
#[derive(Debug, Clone)]
pub struct FileListing {
    pub entries: Vec<ListedEntry>,
    pub total: usize,
    pub path: String,
    pub app: String,
}

/// How an item read from a directory is listed: its name and path; a
/// directory only if its metadata says so; its size if its metadata was
/// read.
pub open spec fn listed_as(e: ListedEntry, item: DirEntryRead) -> bool {
    &&& e.name@ == item.name@
    &&& e.path@ == item.path@
    &&& e.is_dir == (item.meta matches Some((d, _)) && d)
    &&& e.size == match item.meta {
        Some((_, len)) => Some(len),
        None => None,
    }
}

/// The listing of the items read from a directory (none when it could not
/// be read): every item, in the order read, hidden ones included, with their
/// count and the path and app asked for.
pub fn list_entries(items: &Vec<DirEntryRead>, path: String, app: String) -> (r: FileListing)
    ensures
        r.entries@.len() == items@.len(),
        forall|i: int| 0 <= i < items@.len() ==> listed_as(#[trigger] r.entries@[i], items@[i]),
        r.total == items@.len(),
        r.path == path,
        r.app == app,
{
    let mut entries: Vec<ListedEntry> = Vec::new();
    let mut i: usize = 0;
    while i < items.len()
        invariant
            i <= items@.len(),
            entries@.len() == i,
            forall|k: int| 0 <= k < i ==> listed_as(#[trigger] entries@[k], items@[k]),
        decreases items@.len() - i,
    {
        let item = &items[i];
        let (is_dir, size) = match item.meta {
            Some((d, len)) => (d, Some(len)),
            None => (false, None),
        };
        entries.push(
            ListedEntry {
                name: copy_str(item.name.as_str()),
                path: copy_str(item.path.as_str()),
                is_dir,
                size,
            },
        );
        i = i + 1;
    }
    let total = entries.len();
    FileListing { entries, total, path, app }
}

} // verus!
