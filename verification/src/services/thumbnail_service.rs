//! Where thumbnails are kept, and which poster images stand for a video.
//!
//! Decoding, resizing and saving images is done outside the library.
use vstd::prelude::*;

use crate::path::{file_name_of, file_stem_of, join_path, parent_of, path_file_name, path_file_stem, path_join, path_parent};
use crate::text::{chars_of, concat_chars, copy_str, string_of};
use crate::utils::video_detector::or_empty;

verus! {

/// The largest width and height of a thumbnail, in pixels.
pub const THUMBNAIL_SIZE: u32 = 300u32;

/// The name of the directory, beside an image, that holds its thumbnail.
pub open spec fn thumbnail_dir_name() -> Seq<char> {
    ".thumbnails"@
}

/// Why no thumbnail could be had.
#[derive(Debug, Clone, Copy, PartialEq, Eq, Structural)]
pub enum ThumbnailError {
    /// The path has no parent directory.
    InvalidPath,
    /// The path has no file name.
    InvalidFilename,
    /// No poster image exists for the video.
    NoThumbnail,
}

impl ThumbnailError {
    /// The message shown for the error.
    pub fn message(&self) -> (r: String)
        ensures
            *self == ThumbnailError::InvalidPath ==> r@ == "Invalid path"@,
            *self == ThumbnailError::InvalidFilename ==> r@ == "Invalid filename"@,
            *self == ThumbnailError::NoThumbnail ==> r@ == "No thumbnail available"@,
    {
        match self {
            ThumbnailError::InvalidPath => copy_str("Invalid path"),
            ThumbnailError::InvalidFilename => copy_str("Invalid filename"),
            ThumbnailError::NoThumbnail => copy_str("No thumbnail available"),
        }
    }
}

/// Where the thumbnail of an image is kept: the directory `.thumbnails`
/// beside the image, and in it the file `{name}.thumb.jpg`. A path without a
/// parent, or without a file name, has none.
pub open spec fn thumbnail_location(file_path: Seq<char>) -> Result<(Seq<char>, Seq<char>), ThumbnailError> {
    match path_parent(file_path) {
        None => Err(ThumbnailError::InvalidPath),
        Some(parent) => match path_file_name(file_path) {
            None => Err(ThumbnailError::InvalidFilename),
            Some(name) => {
                let dir = path_join(parent, thumbnail_dir_name());
                Ok((dir, path_join(dir, name + ".thumb.jpg"@)))
            },
        },
    }
}

/// The directory and the path of an image's thumbnail.
pub fn thumbnail_paths(file_path: &str) -> (r: Result<(String, String), ThumbnailError>)
    ensures
        match (r, thumbnail_location(file_path@)) {
            (Ok((d, p)), Ok((sd, sp))) => d@ == sd && p@ == sp,
            (Err(e), Err(f)) => e == f,
            _ => false,
        },
{
    let parent = match parent_of(file_path) {
        Some(p) => p,
        None => {
            return Err(ThumbnailError::InvalidPath);
        },
    };
    let name = match file_name_of(file_path) {
        Some(n) => n,
        None => {
            return Err(ThumbnailError::InvalidFilename);
        },
    };
    let dir = join_path(parent.as_str(), ".thumbnails");
    let thumb_name = string_of(&concat_chars(&chars_of(name.as_str()), &chars_of(".thumb.jpg")));
    let path = join_path(dir.as_str(), thumb_name.as_str());
    Ok((dir, path))
}

/// What serving the thumbnail of a file does to the files present
/// (`existing`): the thumbnail's path, and the files present afterwards. A
/// thumbnail already present is served as it is and nothing is written;
/// otherwise it is made at that path. A path without a parent or a file name
/// has no thumbnail.
pub open spec fn thumbnail_outcome(file_path: Seq<char>, existing: Set<Seq<char>>) -> Result<
    (Seq<char>, Set<Seq<char>>),
    ThumbnailError,
> {
    match thumbnail_location(file_path) {
        Err(e) => Err(e),
        Ok((_, p)) => Ok((p, existing.insert(p))),
    }
}

/// A second request for the same thumbnail serves the same file and writes
/// nothing: the thumbnail made (or found) by the first is reused.
pub proof fn lemma_thumbnail_reused(file_path: Seq<char>, existing: Set<Seq<char>>)
    requires
        thumbnail_outcome(file_path, existing) is Ok,
    ensures
        ({
            let (p, after) = thumbnail_outcome(file_path, existing)->Ok_0;
            &&& after.contains(p)
            &&& thumbnail_outcome(file_path, after) == Ok::<
                (Seq<char>, Set<Seq<char>>),
                ThumbnailError,
            >((p, after))
        }),
{
    let (p, after) = thumbnail_outcome(file_path, existing)->Ok_0;
    assert(after.insert(p) =~= after);
}

/// What to do for a thumbnail request, once its location is known.
#[derive(Debug, Clone)]
pub enum ThumbnailPlan {
    /// The thumbnail is present: serve it.
    Reuse(String),
    /// Make the thumbnail at `path`, creating `dir` first, then serve it.
    Generate { dir: String, path: String },
}

/// The plan for a thumbnail request on `file_path`, given whether its
/// thumbnail file is present: the thumbnail's location (as
/// `thumbnail_location`); reuse when present, generate otherwise. The path
/// served is the one of `thumbnail_outcome`.
pub fn plan_thumbnail(file_path: &str, present: bool) -> (r: Result<ThumbnailPlan, ThumbnailError>)
    ensures
        match (r, thumbnail_location(file_path@)) {
            (Ok(ThumbnailPlan::Reuse(p)), Ok((_, sp))) => present && p@ == sp,
            (Ok(ThumbnailPlan::Generate { dir, path }), Ok((sd, sp))) => !present && dir@ == sd
                && path@ == sp,
            (Err(e), Err(f)) => e == f,
            _ => false,
        },
{
    match thumbnail_paths(file_path) {
        Err(e) => Err(e),
        Ok((dir, path)) => if present {
            Ok(ThumbnailPlan::Reuse(path))
        } else {
            Ok(ThumbnailPlan::Generate { dir, path })
        },
    }
}

/// What `DynamicImage::thumbnail` makes of an RGBA image of the given size
/// when asked to fit within `max` by `max`: the new width, height and RGBA
/// pixels.
pub uninterp spec fn image_thumbnail(width: u32, height: u32, rgba: Seq<u8>, max: u32) -> (
    u32,
    u32,
    Seq<u8>,
);

/// `image::DynamicImage::thumbnail` on an RGBA image, the pixels taken and
/// given back as bytes. Its contract: the result is `image_thumbnail` of the
/// arguments; it fits within `max` by `max` (the crate scales the image to
/// the largest size within the bounds, and never below one pixel); and it
/// has four bytes per pixel. How the pixels are scaled is not stated. Empty
/// images and an empty bound are not admitted.
#[verifier::external_body]
fn thumbnail_rgba(width: u32, height: u32, rgba: &Vec<u8>, max: u32) -> (r: (u32, u32, Vec<u8>))
    requires
        width > 0,
        height > 0,
        max > 0,
        rgba@.len() == 4 * width * height,
    ensures
        (r.0, r.1, r.2@) == image_thumbnail(width, height, rgba@, max),
        1 <= r.0 <= max,
        1 <= r.1 <= max,
        r.2@.len() == 4 * r.0 * r.1,
{
    let img = image::RgbaImage::from_raw(width, height, rgba.clone()).unwrap();
    let small = image::DynamicImage::ImageRgba8(img).thumbnail(max, max).to_rgba8();
    (small.width(), small.height(), small.into_raw())
}

/// The thumbnail of an RGBA image: `image_thumbnail` at `THUMBNAIL_SIZE`,
/// so at most 300 pixels wide and high.
pub fn make_thumbnail(width: u32, height: u32, rgba: &Vec<u8>) -> (r: (u32, u32, Vec<u8>))
    requires
        width > 0,
        height > 0,
        rgba@.len() == 4 * width * height,
    ensures
        (r.0, r.1, r.2@) == image_thumbnail(width, height, rgba@, THUMBNAIL_SIZE),
        1 <= r.0 <= THUMBNAIL_SIZE,
        1 <= r.1 <= THUMBNAIL_SIZE,
        r.2@.len() == 4 * r.0 * r.1,
{
    thumbnail_rgba(width, height, rgba, THUMBNAIL_SIZE)
}

/// The images tried, in order, as the thumbnail of a video: beside it,
/// `{stem}-poster.jpg`, `{stem}.jpg`, `poster.jpg` and `folder.jpg`. A path
/// without a parent has none.
pub open spec fn poster_candidates(file_path: Seq<char>) -> Result<Seq<Seq<char>>, ThumbnailError> {
    match path_parent(file_path) {
        None => Err(ThumbnailError::InvalidPath),
        Some(parent) => {
            let stem = or_empty(path_file_stem(file_path));
            Ok(
                seq![
                    path_join(parent, stem + "-poster.jpg"@),
                    path_join(parent, stem + ".jpg"@),
                    path_join(parent, "poster.jpg"@),
                    path_join(parent, "folder.jpg"@),
                ],
            )
        },
    }
}

/// The images to try, in order, as the thumbnail of a video; the first that
/// exists is it.
pub fn video_thumbnail_candidates(file_path: &str) -> (r: Result<Vec<String>, ThumbnailError>)
    ensures
        match (r, poster_candidates(file_path@)) {
            (Ok(v), Ok(s)) => v.deep_view() == s,
            (Err(e), Err(f)) => e == f,
            _ => false,
        },
{
    let parent = match parent_of(file_path) {
        Some(p) => p,
        None => {
            return Err(ThumbnailError::InvalidPath);
        },
    };
    let stem = match file_stem_of(file_path) {
        Some(s) => s,
        None => String::new(),
    };
    let sv = chars_of(stem.as_str());
    let with_poster = string_of(&concat_chars(&sv, &chars_of("-poster.jpg")));
    let with_jpg = string_of(&concat_chars(&sv, &chars_of(".jpg")));
    let mut r: Vec<String> = Vec::new();
    r.push(join_path(parent.as_str(), with_poster.as_str()));
    r.push(join_path(parent.as_str(), with_jpg.as_str()));
    r.push(join_path(parent.as_str(), "poster.jpg"));
    r.push(join_path(parent.as_str(), "folder.jpg"));
    proof {
        let s = poster_candidates(file_path@);
        assert(r.deep_view() =~= s->Ok_0);
    }
    Ok(r)
}

} // verus!
