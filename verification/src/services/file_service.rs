//! Listing directories: which entries are shown, what is said of each, and
//! in which order.
//!
//! Reading a directory, and copying, moving and deleting files, is done
//! outside the library.
use vstd::prelude::*;

use crate::handlers::files::{FileEntry, MediaMetadata};
use crate::sort::{lemma_stable_sort_elements, lemma_stable_sort_keeps, stable_sort, stable_sort_of, TotalPreorder};
use crate::text::{chars_of, copy_str, lex_le, lowercase, starts_with, str_eq};
use crate::utils::video_detector::{NfoData, VideoEntry};

verus! {

/// What the library needs to know of one directory entry.
#[derive(Debug, Clone)]
pub struct RawEntry {
    pub name: String,
    pub path: String,
    pub is_dir: bool,
    /// The size in bytes.
    pub len: u64,
    /// The modification time: `None` when it could not be read, `Some(None)`
    /// when it lies before the Unix epoch, else seconds since the epoch.
    pub modified: Option<Option<u64>>,
    /// What is known of a video folder, when one was recognised.
    pub media: Option<MediaMetadata>,
}

/// Why a directory cannot be listed.
#[derive(Debug, Clone, Copy, PartialEq, Eq, Structural)]
pub enum FileError {
    /// The path does not exist.
    NotFound,
    /// The path is not a directory.
    NotADirectory,
}

impl FileError {
    /// The message shown for the error.
    pub fn message(&self) -> (r: String)
        ensures
            *self == FileError::NotFound ==> r@ == "Directory not found"@,
            *self == FileError::NotADirectory ==> r@ == "Path is not a directory"@,
    {
        match self {
            FileError::NotFound => copy_str("Directory not found"),
            FileError::NotADirectory => copy_str("Path is not a directory"),
        }
    }
}

/// Whether a path can be listed, given whether it exists and whether it is a
/// directory.
pub fn check_directory(exists: bool, is_dir: bool) -> (r: Result<(), FileError>)
    ensures
        !exists ==> r == Err::<(), FileError>(FileError::NotFound),
        exists && !is_dir ==> r == Err::<(), FileError>(FileError::NotADirectory),
        exists && is_dir ==> r is Ok,
{
    if !exists {
        Err(FileError::NotFound)
    } else if !is_dir {
        Err(FileError::NotADirectory)
    } else {
        Ok(())
    }
}

/// What `mime_guess` guesses from a path: the text of the first MIME type
/// registered for its extension.
pub uninterp spec fn mime_guess_first(path: Seq<char>) -> Option<Seq<char>>;

/// `mime_guess::from_path(path).first()`, as text. Its contract: the result is
/// `mime_guess_first` of the path; the table of types is not stated.
#[verifier::external_body]
fn guess_mime_type(path: &str) -> (r: Option<String>)
    ensures
        r.deep_view() == mime_guess_first(path@),
{
    mime_guess::from_path(path).first().map(|m| m.to_string())
}

/// Whether a directory entry of an app should be looked at as a video
/// folder: directories of the `videos` app.
pub fn wants_video_metadata(app_type: &str, is_dir: bool) -> (r: bool)
    ensures
        r == (app_type@ == "videos"@ && is_dir),
{
    is_dir && str_eq(app_type, "videos")
}

/// The entry is shown: its name does not start with `.`.
pub open spec fn shown(e: RawEntry) -> bool {
    !starts_with(e.name@, "."@)
}

/// `f` is how the directory entry `e` is listed for the app: name and path
/// as they are; the size only for files; the modification time (0 for times
/// before the epoch); a MIME type guessed from the path, only for files; no
/// thumbnail; video metadata only for directories of the `videos` app.
pub open spec fn entry_of(f: FileEntry, e: RawEntry, app_type: Seq<char>) -> bool {
    &&& f.name == e.name
    &&& f.path == e.path
    &&& f.is_dir == e.is_dir
    &&& f.size == (if e.is_dir {
        None
    } else {
        Some(e.len)
    })
    &&& f.modified == match e.modified {
        Some(Some(secs)) => Some(secs as i64),
        Some(None) => Some(0i64),
        None => None,
    }
    &&& f.mime_type.deep_view() == (if e.is_dir {
        None
    } else {
        mime_guess_first(e.path@)
    })
    &&& f.thumbnail is None
    &&& f.metadata == (if app_type == "videos"@ && e.is_dir {
        e.media
    } else {
        None
    })
}

/// `r` is the listing of the entries: the shown ones, listed, directories
/// first and then by lower-cased name, entries that tie keeping their order.
pub open spec fn listing_of(r: Seq<FileEntry>, entries: Seq<RawEntry>, app_type: Seq<char>) -> bool {
    let kept = entries.filter(|e: RawEntry| shown(e));
    exists|u: Seq<FileEntry>|
        #![trigger stable_sort_of(r, u)]
        u.len() == kept.len() && (forall|i: int|
            0 <= i < u.len() ==> entry_of(#[trigger] u[i], kept[i], app_type)) && stable_sort_of(
            r,
            u,
        )
}

/// A listing shows exactly as many entries as the directory has entries
/// whose names do not start with `.`; it shows none whose name does; and it
/// lists every directory before every file.
pub proof fn lemma_listing_shape(r: Seq<FileEntry>, entries: Seq<RawEntry>, app_type: Seq<char>)
    requires
        listing_of(r, entries, app_type),
    ensures
        r.len() == entries.filter(|e: RawEntry| shown(e)).len(),
        forall|i: int| 0 <= i < r.len() ==> !starts_with((#[trigger] r[i]).name@, "."@),
        forall|i: int, j: int|
            0 <= i < j < r.len() && (#[trigger] r[j]).is_dir ==> (#[trigger] r[i]).is_dir,
{
    let kept = entries.filter(|e: RawEntry| shown(e));
    let u = choose|u: Seq<FileEntry>|
        #![trigger stable_sort_of(r, u)]
        u.len() == kept.len() && (forall|i: int|
            0 <= i < u.len() ==> entry_of(#[trigger] u[i], kept[i], app_type)) && stable_sort_of(
            r,
            u,
        );
    lemma_stable_sort_elements(r, u);
    assert forall|i: int| 0 <= i < r.len() implies !starts_with((#[trigger] r[i]).name@, "."@) by {
        assert(u.contains(r[i]));
        let k = choose|k: int| 0 <= k < u.len() && u[k] == r[i];
        assert(entry_of(u[k], kept[k], app_type));
        entries.lemma_filter_pred(|e: RawEntry| shown(e), k);
    }
    assert forall|i: int, j: int|
        0 <= i < j < r.len() && (#[trigger] r[j]).is_dir implies (#[trigger] r[i]).is_dir by {
        assert(r[i].ranks_before(r[j]));
    }
}

/// Every directory entry whose name does not start with `.` is listed, under
/// its name and path.
pub proof fn lemma_listing_shows_visible(r: Seq<FileEntry>, entries: Seq<RawEntry>, app_type: Seq<char>)
    requires
        listing_of(r, entries, app_type),
    ensures
        forall|k: int|
            0 <= k < entries.len() && !starts_with((#[trigger] entries[k]).name@, "."@)
                ==> exists|i: int|
                0 <= i < r.len() && r[i].name == entries[k].name && r[i].path == entries[k].path,
{
    let kept = entries.filter(|e: RawEntry| shown(e));
    let u = choose|u: Seq<FileEntry>|
        #![trigger stable_sort_of(r, u)]
        u.len() == kept.len() && (forall|i: int|
            0 <= i < u.len() ==> entry_of(#[trigger] u[i], kept[i], app_type)) && stable_sort_of(
            r,
            u,
        );
    lemma_stable_sort_keeps(r, u);
    assert forall|k: int|
        0 <= k < entries.len() && !starts_with((#[trigger] entries[k]).name@, "."@) implies exists|i: int|
            0 <= i < r.len() && r[i].name == entries[k].name && r[i].path == entries[k].path by {
        entries.lemma_filter_contains(|e: RawEntry| shown(e), k);
        let j = choose|j: int| 0 <= j < kept.len() && kept[j] == entries[k];
        assert(entry_of(u[j], kept[j], app_type));
        assert(r.contains(u[j]));
        let i = choose|i: int| 0 <= i < r.len() && r[i] == u[j];
        assert(r[i].name == entries[k].name);
    }
}

/// In a listing, entries of the same kind (two files, or two directories)
/// come in the lexicographic order of their whole lower-cased names.
pub proof fn lemma_listing_name_order(r: Seq<FileEntry>, entries: Seq<RawEntry>, app_type: Seq<char>)
    requires
        listing_of(r, entries, app_type),
    ensures
        forall|i: int, j: int|
            0 <= i < j < r.len() && r[i].is_dir == r[j].is_dir ==> lex_le(
                lowercase((#[trigger] r[i]).name@),
                lowercase((#[trigger] r[j]).name@),
            ),
{
    assert forall|i: int, j: int|
        0 <= i < j < r.len() && r[i].is_dir == r[j].is_dir implies lex_le(
        lowercase((#[trigger] r[i]).name@),
        lowercase((#[trigger] r[j]).name@),
    ) by {
        assert(r[i].ranks_before(r[j]));
    }
}

/// Lists a directory's entries for an app.
pub fn list_directory(entries: Vec<RawEntry>, app_type: &str) -> (r: Vec<FileEntry>)
    ensures
        listing_of(r@, entries@, app_type@),
{
    let ghost orig = entries@;
    let ghost f = |e: RawEntry| shown(e);
    let videos = wants_video_metadata(app_type, true);
    let dot = chars_of(".");
    let mut rest = entries;
    let mut out: Vec<FileEntry> = Vec::new();
    let ghost mut done: int = 0;
    while rest.len() > 0
        invariant
            0 <= done <= orig.len(),
            rest@ == orig.subrange(done, orig.len() as int),
            f == (|e: RawEntry| shown(e)),
            dot@ == "."@,
            videos == (app_type@ == "videos"@),
            out@.len() == orig.take(done).filter(f).len(),
            forall|i: int|
                0 <= i < out@.len() ==> entry_of(
                    #[trigger] out@[i],
                    orig.take(done).filter(f)[i],
                    app_type@,
                ),
        decreases rest.len(),
    {
        let e = rest.remove(0);
        let ghost prev = orig.take(done).filter(f);
        proof {
            assert(e == orig[done]);
            assert(orig.take(done + 1).drop_last() =~= orig.take(done));
            assert(orig.take(done + 1).last() == e);
            reveal(Seq::filter);
        }
        let name_chars = chars_of(e.name.as_str());
        if crate::text::starts_with_chars(&name_chars, &dot) {
            assert(orig.take(done + 1).filter(f) == prev);
        } else {
            let size = if e.is_dir {
                None
            } else {
                Some(e.len)
            };
            let modified = match e.modified {
                Some(Some(secs)) => Some(secs as i64),
                Some(None) => Some(0i64),
                None => None,
            };
            let mime_type = if e.is_dir {
                None
            } else {
                guess_mime_type(e.path.as_str())
            };
            let metadata = if videos && e.is_dir {
                e.media
            } else {
                None
            };
            let entry = FileEntry {
                name: e.name,
                path: e.path,
                is_dir: e.is_dir,
                size,
                modified,
                mime_type,
                thumbnail: None,
                metadata,
            };
            out.push(entry);
            assert(orig.take(done + 1).filter(f) == prev.push(e));
        }
        proof {
            done = done + 1;
            assert(rest@ =~= orig.subrange(done, orig.len() as int));
        }
    }
    proof {
        assert(orig.take(done) =~= orig);
    }
    let ghost unsorted = out@;
    let sorted = stable_sort(out);
    assert(stable_sort_of(sorted@, unsorted));
    sorted
}

/// What a listing tells of a video folder: for a movie with metadata, its
/// NFO title, year and plot and its poster and fanart; for a series, its
/// title and poster; nothing for other entries.
pub fn video_metadata(entry: VideoEntry) -> (r: Option<MediaMetadata>)
    ensures
        entry matches VideoEntry::MovieWithMeta { poster, fanart, nfo_data, .. } ==> (r matches Some(
            m,
        ) && m.poster == poster && m.fanart == fanart && m.title == (match nfo_data {
            Some(n) => n.title,
            None => None,
        }) && m.year == (match nfo_data {
            Some(n) => n.year,
            None => None,
        }) && m.plot == (match nfo_data {
            Some(n) => n.plot,
            None => None,
        })),
        entry matches VideoEntry::TvSeries { title, poster, .. } ==> (r matches Some(m) && m.title
            == Some(title) && m.poster == poster && m.fanart is None && m.year is None
            && m.plot is None),
        !(entry is MovieWithMeta) && !(entry is TvSeries) ==> r is None,
{
    match entry {
        VideoEntry::MovieWithMeta { poster, fanart, nfo_data, .. } => {
            let (title, year, plot) = match nfo_data {
                Some(n) => (n.title, n.year, n.plot),
                None => (None, None, None),
            };
            Some(MediaMetadata { title, poster, fanart, year, plot })
        },
        VideoEntry::TvSeries { title, poster, .. } => Some(
            MediaMetadata { title: Some(title), poster, fanart: None, year: None, plot: None },
        ),
        _ => None,
    }
}

} // verus!
