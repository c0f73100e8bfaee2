//! File-system paths, as `std::path::Path` reads them.
//!
//! The library only computes with paths given as text; each operation below
//! is one call of `std::path::Path`, whose result the contracts name.
use vstd::prelude::*;

verus! {

/// What `Path::file_name` gives for a path: its last component, unless that
/// is `..` or the path has none.
pub uninterp spec fn path_file_name(p: Seq<char>) -> Option<Seq<char>>;

/// What `Path::file_stem` gives for a path: the file name without its
/// extension.
pub uninterp spec fn path_file_stem(p: Seq<char>) -> Option<Seq<char>>;

/// What `Path::extension` gives for a path: the text after the last `.` of
/// the file name, if any.
pub uninterp spec fn path_extension(p: Seq<char>) -> Option<Seq<char>>;

/// What `Path::parent` gives for a path.
pub uninterp spec fn path_parent(p: Seq<char>) -> Option<Seq<char>>;

/// What `Path::join` gives for a base path and a path to append.
pub uninterp spec fn path_join(base: Seq<char>, rel: Seq<char>) -> Seq<char>;

/// What `Path::with_extension` gives for a path and a new extension.
pub uninterp spec fn path_with_extension(p: Seq<char>, ext: Seq<char>) -> Seq<char>;

/// `Path::file_name`, as text. Its contract: the result is `path_file_name` of
/// the path; which component that is, is not stated.
#[verifier::external_body]
pub(crate) fn file_name_of(p: &str) -> (r: Option<String>)
    ensures
        r.deep_view() == path_file_name(p@),
{
    std::path::Path::new(p).file_name().map(|n| n.to_string_lossy().to_string())
}

/// `Path::file_stem`, as text. Its contract: the result is `path_file_stem`
/// of the path.
#[verifier::external_body]
pub(crate) fn file_stem_of(p: &str) -> (r: Option<String>)
    ensures
        r.deep_view() == path_file_stem(p@),
{
    std::path::Path::new(p).file_stem().map(|n| n.to_string_lossy().to_string())
}

/// `Path::extension`, as text. Its contract: the result is `path_extension`
/// of the path.
#[verifier::external_body]
pub(crate) fn extension_of(p: &str) -> (r: Option<String>)
    ensures
        r.deep_view() == path_extension(p@),
{
    std::path::Path::new(p).extension().map(|n| n.to_string_lossy().to_string())
}

/// `Path::parent`, as text. Its contract: the result is `path_parent` of the
/// path.
#[verifier::external_body]
pub(crate) fn parent_of(p: &str) -> (r: Option<String>)
    ensures
        r.deep_view() == path_parent(p@),
{
    std::path::Path::new(p).parent().map(|n| n.to_string_lossy().to_string())
}

/// `Path::join`, as text. Its contract: the result is `path_join` of the two
/// paths.
#[verifier::external_body]
pub(crate) fn join_path(base: &str, rel: &str) -> (r: String)
    ensures
        r@ == path_join(base@, rel@),
{
    std::path::Path::new(base).join(rel).to_string_lossy().to_string()
}

/// `Path::with_extension`, as text. Its contract: the result is
/// `path_with_extension` of the path and the extension. `Path::with_extension`
/// panics when the extension holds a path separator, so such an extension is
/// not admitted.
#[verifier::external_body]
pub(crate) fn with_extension_of(p: &str, ext: &str) -> (r: String)
    requires
        !ext@.contains('/'),
    ensures
        r@ == path_with_extension(p@, ext@),
{
    std::path::Path::new(p).with_extension(ext).to_string_lossy().to_string()
}

/// The first of `candidates` whose flag in `present` is set (the flags say
/// which of the paths exist).
pub open spec fn first_present_of(candidates: Seq<Seq<char>>, present: Seq<bool>) -> Option<
    Seq<char>,
>
    decreases candidates.len(),
{
    if candidates.len() == 0 || present.len() == 0 {
        None
    } else if present[0] {
        Some(candidates[0])
    } else {
        first_present_of(candidates.drop_first(), present.drop_first())
    }
}

/// The first of the candidate paths that is present, given for each whether it
/// exists.
pub fn first_present(candidates: &Vec<String>, present: &Vec<bool>) -> (r: Option<String>)
    requires
        candidates@.len() == present@.len(),
    ensures
        r.deep_view() == first_present_of(candidates.deep_view(), present@),
{
    let ghost c = candidates.deep_view();
    let mut i: usize = 0;
    assert(c.skip(0) =~= c);
    assert(present@.skip(0) =~= present@);
    while i < candidates.len()
        invariant
            i <= candidates@.len(),
            candidates@.len() == present@.len(),
            c == candidates.deep_view(),
            first_present_of(c.skip(i as int), present@.skip(i as int)) == first_present_of(
                c,
                present@,
            ),
        decreases candidates@.len() - i,
    {
        assert(c.skip(i as int)[0] == candidates@[i as int]@);
        assert(present@.skip(i as int)[0] == present@[i as int]);
        if present[i] {
            return Some(crate::text::copy_str(candidates[i].as_str()));
        }
        assert(c.skip(i as int).drop_first() =~= c.skip(i + 1));
        assert(present@.skip(i as int).drop_first() =~= present@.skip(i + 1));
        i = i + 1;
    }
    assert(c.skip(i as int).len() == 0);
    None
}

} // verus!
