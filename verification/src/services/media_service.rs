//! Media information: whether a path is audio, a video, or neither.
use vstd::prelude::*;

use crate::path::extension_of;
use crate::text::{chars_of, to_lowercase};
use crate::utils::music_parser::MusicInfo;
use crate::utils::video_detector::{lower_extension, VideoEntry};

verus! {

/// What is known of a media path: its video entry or its music tags.
#[derive(Debug, Clone)]
pub struct MediaInfo {
    pub video_info: Option<VideoEntry>,
    pub music_info: Option<MusicInfo>,
}

/// How a media path is read.
#[derive(Debug, Clone, Copy, PartialEq, Eq, Structural)]
pub enum MediaKind {
    /// An audio file, read for its tags.
    Audio,
    /// Any other file with an extension, read as a video entry.
    Video,
    /// A path without an extension: a video folder if it is a directory,
    /// unknown otherwise.
    NoExtension,
}

/// The extensions of audio files.
pub open spec fn audio_extensions() -> Seq<Seq<char>> {
    seq!["mp3"@, "flac"@, "m4a"@, "ogg"@, "wav"@, "aac"@]
}

/// How a path is read, by its lower-cased extension.
pub open spec fn media_kind_of(path: Seq<char>) -> MediaKind {
    match lower_extension(path) {
        Some(e) => if audio_extensions().contains(e) {
            MediaKind::Audio
        } else {
            MediaKind::Video
        },
        None => MediaKind::NoExtension,
    }
}

/// How a media path is read.
pub fn media_kind(path: &str) -> (r: MediaKind)
    ensures
        r == media_kind_of(path@),
{
    let ext = match extension_of(path) {
        Some(e) => e,
        None => {
            return MediaKind::NoExtension;
        },
    };
    let lower = to_lowercase(ext.as_str());
    let e = chars_of(lower.as_str());
    let audio: Vec<&str> = vec!["mp3", "flac", "m4a", "ogg", "wav", "aac"];
    let mut i: usize = 0;
    while i < audio.len()
        invariant
            i <= audio@.len(),
            audio@.map_values(|s: &str| s@) == audio_extensions(),
            lower_extension(path@) == Some(e@),
            forall|k: int| 0 <= k < i ==> audio_extensions()[k] != e@,
        decreases audio@.len() - i,
    {
        assert(audio@[i as int]@ == audio_extensions()[i as int]);
        if crate::text::chars_eq(&chars_of(audio[i]), &e) {
            assert(audio_extensions()[i as int] == e@);
            assert(audio_extensions().contains(e@));
            return MediaKind::Audio;
        }
        i = i + 1;
    }
    MediaKind::Video
}

} // verus!
