//! Recognising what a video folder holds: a single file, a movie with its
//! metadata files, a TV series, a Blu-ray disc or an ISO image.
//!
//! Listing directories and reading files happens outside the library; it hands
//! the listing in, and the library decides.
use vstd::prelude::*;

use crate::path::{
    extension_of, file_name_of, file_stem_of, path_extension, path_file_name, path_file_stem,
};
use crate::sort::{lemma_stable_sort_keeps, stable_sort, stable_sort_of, TotalPreorder};
use crate::text::{
    chars_of, concat_chars, contains, copy_str, find, find_chars, lowercase, parse_u32_chars,
    parse_unsigned, str_contains, str_eq, string_of, sub_chars, to_lowercase, trim, trim_chars,
};

verus! {

/// What a video folder or file holds.
#[derive(Debug, Clone)]
pub enum VideoEntry {
    /// Single video file without metadata
    SingleFile { path: String, title: String },
    /// Video with accompanying metadata files (poster, fanart, nfo)
    MovieWithMeta {
        video_path: String,
        poster: Option<String>,
        fanart: Option<String>,
        nfo_data: Option<NfoData>,
        title: String,
    },
    /// TV Series with multiple episodes
    TvSeries { folder: String, title: String, episodes: Vec<Episode>, poster: Option<String> },
    /// Blu-ray disc structure
    BluRay { folder: String, title: String, main_video: Option<String> },
    /// ISO file
    IsoFile { path: String, title: String, nfo: Option<String>, poster: Option<String> },
}

/// One episode of a series.
#[derive(Debug, Clone)]
pub struct Episode {
    pub number: u32,
    pub title: String,
    pub path: String,
}

impl View for Episode {
    type V = (u32, Seq<char>, Seq<char>);

    open spec fn view(&self) -> (u32, Seq<char>, Seq<char>) {
        (self.number, self.title@, self.path@)
    }
}

/// Episodes are ordered by their number alone.
impl TotalPreorder for Episode {
    open spec fn ranks_before(self, other: Self) -> bool {
        self.number <= other.number
    }

    proof fn lemma_total(a: Self, b: Self) {
    }

    proof fn lemma_transitive(a: Self, b: Self, c: Self) {
    }

    fn before(&self, other: &Self) -> (r: bool) {
        self.number <= other.number
    }
}

/// The fields of an NFO metadata file, as the text found between their tags.
/// The rating is kept as text; reading it as a number is left to the caller.
#[derive(Debug, Clone)]
pub struct NfoData {
    pub title: Option<String>,
    pub year: Option<String>,
    pub plot: Option<String>,
    pub rating: Option<String>,
}

// ---------------------------------------------------------------------------
// TV series recognition
// ---------------------------------------------------------------------------

/// The markers that make a file name look like an episode.
pub open spec fn episode_markers() -> Seq<Seq<char>> {
    seq![
        "集"@,
        "第"@,
        "episode"@,
        "ep"@,
        "e0"@,
        "e1"@,
        "e2"@,
        "s0"@,
        "s1"@,
    ]
}

/// The lower-cased path contains one of the episode markers.
pub open spec fn has_episode_marker(video: Seq<char>) -> bool {
    exists|i: int|
        0 <= i < episode_markers().len() && #[trigger] contains(
            lowercase(video),
            episode_markers()[i],
        )
}

/// How many of the paths carry an episode marker.
pub open spec fn count_marked(videos: Seq<Seq<char>>) -> nat
    decreases videos.len(),
{
    if videos.len() == 0 {
        0
    } else {
        count_marked(videos.drop_last()) + if has_episode_marker(videos.last()) {
            1nat
        } else {
            0nat
        }
    }
}

/// The videos look like a series: at least three of them, and more than 60
/// percent (rounding the percentage down) carry an episode marker.
pub open spec fn looks_like_series(videos: Seq<Seq<char>>) -> bool {
    videos.len() >= 3 && (count_marked(videos) * 100) / videos.len() > 60
}

/// A path whose lower-cased text contains any of the markers `集`, `第`,
/// `episode`, `ep`, `e0`, `e1`, `e2`, `s0` or `s1` carries an episode
/// marker.
pub proof fn lemma_markers_recognised(video: Seq<char>)
    ensures
        contains(lowercase(video), "集"@) ==> has_episode_marker(video),
        contains(lowercase(video), "第"@) ==> has_episode_marker(video),
        contains(lowercase(video), "episode"@) ==> has_episode_marker(video),
        contains(lowercase(video), "ep"@) ==> has_episode_marker(video),
        contains(lowercase(video), "e0"@) ==> has_episode_marker(video),
        contains(lowercase(video), "e1"@) ==> has_episode_marker(video),
        contains(lowercase(video), "e2"@) ==> has_episode_marker(video),
        contains(lowercase(video), "s0"@) ==> has_episode_marker(video),
        contains(lowercase(video), "s1"@) ==> has_episode_marker(video),
{
    let m = episode_markers();
    assert(m[0] == "集"@);
    assert(m[1] == "第"@);
    assert(m[2] == "episode"@);
    assert(m[3] == "ep"@);
    assert(m[4] == "e0"@);
    assert(m[5] == "e1"@);
    assert(m[6] == "e2"@);
    assert(m[7] == "s0"@);
    assert(m[8] == "s1"@);
}

/// Three or more videos whose lower-cased paths all contain `集` look like a
/// series.
pub proof fn lemma_all_marked_is_series(videos: Seq<Seq<char>>)
    requires
        videos.len() >= 3,
        forall|i: int| 0 <= i < videos.len() ==> contains(lowercase(#[trigger] videos[i]), "集"@),
    ensures
        looks_like_series(videos),
{
    lemma_count_all_marked(videos);
    let n = videos.len();
    assert((n * 100) / n == 100) by (nonlinear_arith)
        requires
            n >= 3,
    ;
}

proof fn lemma_count_all_marked(videos: Seq<Seq<char>>)
    requires
        forall|i: int| 0 <= i < videos.len() ==> contains(lowercase(#[trigger] videos[i]), "集"@),
    ensures
        count_marked(videos) == videos.len(),
    decreases videos.len(),
{
    if videos.len() > 0 {
        assert forall|i: int| 0 <= i < videos.drop_last().len() implies contains(
            lowercase(#[trigger] videos.drop_last()[i]),
            "集"@,
        ) by {
            assert(videos.drop_last()[i] == videos[i]);
        }
        lemma_count_all_marked(videos.drop_last());
        assert(contains(lowercase(videos[videos.len() - 1]), "集"@));
        lemma_markers_recognised(videos.last());
    }
}

proof fn lemma_count_marked_bound(videos: Seq<Seq<char>>)
    ensures
        count_marked(videos) <= videos.len(),
    decreases videos.len(),
{
    if videos.len() > 0 {
        lemma_count_marked_bound(videos.drop_last());
    }
}

fn marker_texts() -> (r: Vec<Vec<char>>)
    ensures
        r@.len() == episode_markers().len(),
        forall|i: int| 0 <= i < r@.len() ==> (#[trigger] r@[i])@ == episode_markers()[i],
{
    let mut r: Vec<Vec<char>> = Vec::new();
    r.push(chars_of("集"));
    r.push(chars_of("第"));
    r.push(chars_of("episode"));
    r.push(chars_of("ep"));
    r.push(chars_of("e0"));
    r.push(chars_of("e1"));
    r.push(chars_of("e2"));
    r.push(chars_of("s0"));
    r.push(chars_of("s1"));
    r
}

fn has_marker(video: &String) -> (r: bool)
    ensures
        r == has_episode_marker(video@),
{
    let lower = to_lowercase(video.as_str());
    let lv = chars_of(lower.as_str());
    let markers = marker_texts();
    let mut i: usize = 0;
    while i < markers.len()
        invariant
            i <= markers.len(),
            lv@ == lowercase(video@),
            markers@.len() == episode_markers().len(),
            forall|k: int| 0 <= k < markers@.len() ==> (#[trigger] markers@[k])@ == episode_markers()[k],
            forall|k: int| 0 <= k < i ==> !contains(lowercase(video@), #[trigger] episode_markers()[k]),
        decreases markers.len() - i,
    {
        if crate::text::contains_chars(&lv, &markers[i]) {
            assert(contains(lowercase(video@), episode_markers()[i as int]));
            return true;
        }
        i = i + 1;
    }
    false
}

/// Whether the videos look like a TV series (see `looks_like_series`).
pub fn is_tv_series(videos: &Vec<String>) -> (r: bool)
    requires
        videos@.len() * 100 <= usize::MAX,
    ensures
        r == looks_like_series(videos.deep_view()),
{
    let ghost vs = videos.deep_view();
    if videos.len() < 3 {
        return false;
    }
    let mut matching: usize = 0;
    let mut i: usize = 0;
    while i < videos.len()
        invariant
            i <= videos.len(),
            vs == videos.deep_view(),
            matching == count_marked(vs.take(i as int)),
            matching <= i,
        decreases videos.len() - i,
    {
        assert(vs.take(i + 1).drop_last() =~= vs.take(i as int));
        assert(vs.take(i + 1).last() == videos@[i as int]@);
        if has_marker(&videos[i]) {
            matching = matching + 1;
        }
        i = i + 1;
    }
    assert(vs.take(videos.len() as int) =~= vs);
    assert(matching * 100 <= videos.len() * 100) by (nonlinear_arith)
        requires
            matching <= videos.len(),
    ;
    matching * 100 / videos.len() > 60
}

// ---------------------------------------------------------------------------
// Episode numbers
// ---------------------------------------------------------------------------

/// What `regex_lite` gives for a pattern and a text: `Err` when the pattern
/// does not compile, otherwise the text of capture group 1 of the leftmost
/// match, if there is a match and the group took part in it.
pub uninterp spec fn regex_first_capture(pattern: Seq<char>, text: Seq<char>) -> Result<
    Option<Seq<char>>,
    (),
>;

/// `regex_lite::Regex::new` followed by `captures` and `get(1)`. Its contract:
/// the outcome is `regex_first_capture` of the pattern and the text; what the
/// regular expression matches is not stated.
#[verifier::external_body]
fn first_capture(pattern: &str, text: &str) -> (r: Result<Option<String>, ()>)
    ensures
        match (r, regex_first_capture(pattern@, text@)) {
            (Ok(Some(g)), Ok(Some(v))) => g@ == v,
            (Ok(None), Ok(None)) => true,
            (Err(()), Err(())) => true,
            _ => false,
        },
{
    match regex_lite::Regex::new(pattern) {
        Ok(re) => Ok(re.captures(text).and_then(|c| c.get(1)).map(|m| m.as_str().to_string())),
        Err(_) => Err(()),
    }
}

/// The patterns tried, in order, to find an episode number: `第N集`, `EN` or
/// `EPN`, `Episode N`, and `N集`.
pub open spec fn episode_number_patterns() -> Seq<Seq<char>> {
    seq!["第(\\d+)集"@, "[Ee][Pp]?(\\d+)"@, "[Ee]pisode\\s*(\\d+)"@, "(\\d+)集"@]
}

/// The episode number found by the patterns from the `i`-th on: the first
/// pattern whose capture is a number that fits in 32 bits gives it; a pattern
/// that does not compile ends the search with no number.
pub open spec fn episode_number_from(name: Seq<char>, i: int) -> Option<u32>
    decreases episode_number_patterns().len() - i,
{
    if i < 0 || i >= episode_number_patterns().len() {
        None
    } else {
        match regex_first_capture(episode_number_patterns()[i], name) {
            Err(()) => None,
            Ok(Some(g)) => match parse_unsigned(g, u32::MAX as nat) {
                Some(n) => Some(n as u32),
                None => episode_number_from(name, i + 1),
            },
            Ok(None) => episode_number_from(name, i + 1),
        }
    }
}

/// The episode number in a file name, if one of the patterns finds one.
pub open spec fn episode_number(name: Seq<char>) -> Option<u32> {
    episode_number_from(name, 0)
}

/// What one pattern's outcome means for the search for an episode number.
#[derive(Debug, Clone, Copy, PartialEq, Eq, Structural)]
pub enum CaptureStep {
    /// The pattern does not compile: the search ends with no number.
    Stop,
    /// The capture is a number that fits in 32 bits: the search ends with it.
    Found(u32),
    /// No capture, or one that is not such a number: try the next pattern.
    Next,
}

/// What a pattern's outcome (as `regex_first_capture` gives it) means for the
/// search.
pub fn capture_step(outcome: Result<Option<String>, ()>) -> (r: CaptureStep)
    ensures
        outcome is Err ==> r == CaptureStep::Stop,
        outcome matches Ok(None) ==> r == CaptureStep::Next,
        outcome matches Ok(Some(g)) ==> match parse_unsigned(g@, u32::MAX as nat) {
            Some(n) => r == CaptureStep::Found(n as u32),
            None => r == CaptureStep::Next,
        },
{
    match outcome {
        Err(()) => CaptureStep::Stop,
        Ok(None) => CaptureStep::Next,
        Ok(Some(g)) => {
            let gv = chars_of(g.as_str());
            match parse_u32_chars(&gv) {
                Some(n) => CaptureStep::Found(n),
                None => CaptureStep::Next,
            }
        },
    }
}

/// Extracts the episode number from a file name.
pub fn extract_episode_number(name: &str) -> (r: Option<u32>)
    ensures
        r == episode_number(name@),
{
    let mut patterns: Vec<String> = Vec::new();
    patterns.push(copy_str("第(\\d+)集"));
    patterns.push(copy_str("[Ee][Pp]?(\\d+)"));
    patterns.push(copy_str("[Ee]pisode\\s*(\\d+)"));
    patterns.push(copy_str("(\\d+)集"));
    assert(patterns.deep_view() =~= episode_number_patterns());
    let mut i: usize = 0;
    while i < patterns.len()
        invariant
            i <= patterns.len(),
            patterns.deep_view() == episode_number_patterns(),
            episode_number_from(name@, 0) == episode_number_from(name@, i as int),
        decreases patterns.len() - i,
    {
        assert(patterns@[i as int]@ == episode_number_patterns()[i as int]);
        match capture_step(first_capture(patterns[i].as_str(), name)) {
            CaptureStep::Stop => {
                return None;
            },
            CaptureStep::Found(n) => {
                return Some(n);
            },
            CaptureStep::Next => {},
        }
        i = i + 1;
    }
    None
}

/// The episode that the `i`-th of the videos becomes before sorting: numbered
/// from its file stem, or by its position (counting from 1) when the stem has
/// no number.
pub open spec fn episode_at(videos: Seq<Seq<char>>, i: int) -> (u32, Seq<char>, Seq<char>) {
    let stem = match path_file_stem(videos[i]) {
        Some(s) => s,
        None => Seq::empty(),
    };
    let number = match episode_number(stem) {
        Some(n) => n,
        None => (i + 1) as u32,
    };
    (number, stem, videos[i])
}

/// `r` holds the episodes of the videos, sorted by number; episodes with the
/// same number keep the order of their videos.
pub open spec fn episodes_of(r: Seq<Episode>, videos: Seq<Seq<char>>) -> bool {
    exists|u: Seq<Episode>|
        #![trigger stable_sort_of(r, u)]
        u.len() == videos.len() && (forall|i: int| 0 <= i < u.len() ==> (#[trigger] u[i])@ == episode_at(videos, i))
            && stable_sort_of(r, u)
}

/// The episodes of a series are one for each video, and come in order of
/// their numbers.
pub proof fn lemma_episodes_in_order(r: Seq<Episode>, videos: Seq<Seq<char>>)
    requires
        episodes_of(r, videos),
    ensures
        r.len() == videos.len(),
        forall|i: int, j: int| 0 <= i < j < r.len() ==> (#[trigger] r[i]).number <= (
        #[trigger] r[j]).number,
{
    let u = choose|u: Seq<Episode>|
        #![trigger stable_sort_of(r, u)]
        u.len() == videos.len() && (forall|i: int|
            0 <= i < u.len() ==> (#[trigger] u[i])@ == episode_at(videos, i)) && stable_sort_of(
            r,
            u,
        );
    assert forall|i: int, j: int| 0 <= i < j < r.len() implies (#[trigger] r[i]).number <= (
    #[trigger] r[j]).number by {
        assert(r[i].ranks_before(r[j]));
    }
}

/// Every video becomes an episode of the series with its path: numbered by
/// the number found in its file stem (titled by that stem), or, when the stem
/// gives no number, by its 1-based position among the videos.
pub proof fn lemma_episode_numbering(r: Seq<Episode>, videos: Seq<Seq<char>>)
    requires
        episodes_of(r, videos),
    ensures
        forall|i: int|
            #![trigger videos[i]]
            0 <= i < videos.len() && i + 1 <= u32::MAX && episode_number(
                or_empty(path_file_stem(videos[i])),
            ) is None ==> exists|k: int|
                0 <= k < r.len() && r[k].path@ == videos[i] && r[k].number == i + 1,
        forall|i: int|
            #![trigger videos[i]]
            0 <= i < videos.len() && episode_number(or_empty(path_file_stem(videos[i])))
                is Some ==> exists|k: int|
                0 <= k < r.len() && r[k].path@ == videos[i] && r[k].title@ == or_empty(
                    path_file_stem(videos[i]),
                ) && Some(r[k].number) == episode_number(or_empty(path_file_stem(videos[i]))),
{
    let u = choose|u: Seq<Episode>|
        #![trigger stable_sort_of(r, u)]
        u.len() == videos.len() && (forall|i: int|
            0 <= i < u.len() ==> (#[trigger] u[i])@ == episode_at(videos, i)) && stable_sort_of(
            r,
            u,
        );
    lemma_stable_sort_keeps(r, u);
    assert forall|i: int|
        #![trigger videos[i]]
        0 <= i < videos.len() && i + 1 <= u32::MAX && episode_number(
            or_empty(path_file_stem(videos[i])),
        ) is None implies exists|k: int|
            0 <= k < r.len() && r[k].path@ == videos[i] && r[k].number == i + 1 by {
        assert(u[i]@ == episode_at(videos, i));
        assert(r.contains(u[i]));
        let k = choose|k: int| 0 <= k < r.len() && r[k] == u[i];
        assert(r[k].path@ == videos[i]);
        assert(r[k].number == i + 1);
    }
    assert forall|i: int|
        #![trigger videos[i]]
        0 <= i < videos.len() && episode_number(or_empty(path_file_stem(videos[i]))) is Some implies exists|k: int|
            0 <= k < r.len() && r[k].path@ == videos[i] && r[k].title@ == or_empty(
                path_file_stem(videos[i]),
            ) && Some(r[k].number) == episode_number(or_empty(path_file_stem(videos[i]))) by {
        assert(u[i]@ == episode_at(videos, i));
        assert(r.contains(u[i]));
        let k = choose|k: int| 0 <= k < r.len() && r[k] == u[i];
        assert(r[k].path@ == videos[i]);
    }
}

/// The episodes of a series, numbered from their file names and sorted by
/// number.
pub fn extract_episodes(videos: &Vec<String>) -> (r: Vec<Episode>)
    ensures
        episodes_of(r@, videos.deep_view()),
{
    let ghost vs = videos.deep_view();
    let mut eps: Vec<Episode> = Vec::new();
    let mut i: usize = 0;
    while i < videos.len()
        invariant
            i <= videos.len(),
            vs == videos.deep_view(),
            eps@.len() == i,
            forall|k: int| 0 <= k < i ==> (#[trigger] eps@[k])@ == episode_at(vs, k),
        decreases videos.len() - i,
    {
        let path = &videos[i];
        assert(vs[i as int] == path@);
        let stem = match file_stem_of(path.as_str()) {
            Some(s) => s,
            None => String::new(),
        };
        let number = match extract_episode_number(stem.as_str()) {
            Some(n) => n,
            None => (i + 1) as u32,
        };
        let path_copy = copy_str(path.as_str());
        eps.push(Episode { number, title: stem, path: path_copy });
        i = i + 1;
    }
    let ghost unsorted = eps@;
    let sorted = stable_sort(eps);
    assert(stable_sort_of(sorted@, unsorted));
    sorted
}

// ---------------------------------------------------------------------------
// NFO files
// ---------------------------------------------------------------------------

/// The value of the XML element `field` in `content`: the trimmed text between
/// the first `<field>` and the first `</field>` after it, if that text is not
/// empty.
pub open spec fn xml_field(content: Seq<char>, field: Seq<char>) -> Option<Seq<char>> {
    let open_tag = "<"@ + field + ">"@;
    let close_tag = "</"@ + field + ">"@;
    match find(content, open_tag) {
        None => None,
        Some(start) => {
            let from = start + open_tag.len();
            match find(content.subrange(from, content.len() as int), close_tag) {
                None => None,
                Some(end) => {
                    let value = trim(content.subrange(from, from + end));
                    if value.len() > 0 {
                        Some(value)
                    } else {
                        None
                    }
                },
            }
        },
    }
}

/// Extracts the text of a simple XML element.
pub fn extract_xml_field(content: &str, field: &str) -> (r: Option<String>)
    ensures
        r.deep_view() == xml_field(content@, field@),
{
    let cv = chars_of(content);
    let fv = chars_of(field);
    let lt = chars_of("<");
    let lt_slash = chars_of("</");
    let gt = chars_of(">");
    let open_tag = concat_chars(&concat_chars(&lt, &fv), &gt);
    let close_tag = concat_chars(&concat_chars(&lt_slash, &fv), &gt);
    match find_chars(&cv, &open_tag) {
        None => None,
        Some(start) => {
            proof {
                crate::text::lemma_find_from(cv@, open_tag@, 0);
                assert(crate::text::occurs_at(cv@, open_tag@, start as int));
                assert(start + open_tag@.len() <= cv@.len());
            }
            let open_len = open_tag.len();
            assert(start + open_len <= cv.len());
            let from = start + open_len;
            let rest = sub_chars(&cv, from, cv.len());
            match find_chars(&rest, &close_tag) {
                None => None,
                Some(end) => {
                    proof {
                        crate::text::lemma_find_from(rest@, close_tag@, 0);
                        assert(rest@.subrange(0, end as int) =~= cv@.subrange(
                            from as int,
                            from + end,
                        ));
                    }
                    let raw = sub_chars(&rest, 0, end);
                    let value = trim_chars(&raw);
                    if value.len() > 0 {
                        Some(string_of(&value))
                    } else {
                        None
                    }
                },
            }
        },
    }
}

/// The NFO fields of a metadata text: title, year, plot and rating.
pub open spec fn nfo_fields(content: Seq<char>) -> (
    Option<Seq<char>>,
    Option<Seq<char>>,
    Option<Seq<char>>,
    Option<Seq<char>>,
) {
    (
        xml_field(content, "title"@),
        xml_field(content, "year"@),
        xml_field(content, "plot"@),
        xml_field(content, "rating"@),
    )
}

/// The metadata in the text of an NFO file.
pub fn parse_nfo_text(content: &str) -> (r: NfoData)
    ensures
        (r.title.deep_view(), r.year.deep_view(), r.plot.deep_view(), r.rating.deep_view())
            == nfo_fields(content@),
{
    NfoData {
        title: extract_xml_field(content, "title"),
        year: extract_xml_field(content, "year"),
        plot: extract_xml_field(content, "plot"),
        rating: extract_xml_field(content, "rating"),
    }
}

// ---------------------------------------------------------------------------
// Directory contents
// ---------------------------------------------------------------------------

/// One entry of a directory listing: its file name and its full path.
#[derive(Debug, Clone)]
pub struct DirItem {
    pub name: String,
    pub path: String,
}

impl View for DirItem {
    type V = (Seq<char>, Seq<char>);

    open spec fn view(&self) -> (Seq<char>, Seq<char>) {
        (self.name@, self.path@)
    }
}

/// The views of a directory listing.
pub open spec fn item_views(items: Seq<DirItem>) -> Seq<(Seq<char>, Seq<char>)> {
    items.map_values(|i: DirItem| i@)
}

/// What a directory entry is, for a video folder.
#[derive(Debug, Clone, Copy, PartialEq, Eq, Structural)]
pub enum ItemKind {
    Video,
    Iso,
    Nfo,
    Poster,
    Fanart,
    Other,
}

/// The extensions of video files.
pub open spec fn video_extensions() -> Seq<Seq<char>> {
    seq!["mp4"@, "mkv"@, "avi"@, "mov"@, "wmv"@, "flv"@, "webm"@, "m4v"@, "ts"@, "m2ts"@]
}

/// The extensions of poster and fanart images.
pub open spec fn image_extensions() -> Seq<Seq<char>> {
    seq!["jpg"@, "jpeg"@, "png"@, "webp"@]
}

/// The lower-cased extension of a path.
pub open spec fn lower_extension(path: Seq<char>) -> Option<Seq<char>> {
    match path_extension(path) {
        Some(e) => Some(lowercase(e)),
        None => None,
    }
}

/// The kind of a directory entry: by its lower-cased extension a video, an
/// ISO image or an NFO file; an image whose lower-cased name contains
/// `poster` is a poster, else one that contains `fanart` is a fanart.
pub open spec fn kind_of(item: (Seq<char>, Seq<char>)) -> ItemKind {
    match lower_extension(item.1) {
        None => ItemKind::Other,
        Some(e) => if video_extensions().contains(e) {
            ItemKind::Video
        } else if e == "iso"@ {
            ItemKind::Iso
        } else if e == "nfo"@ {
            ItemKind::Nfo
        } else if image_extensions().contains(e) {
            let n = lowercase(item.0);
            if contains(n, "-poster"@) || contains(n, "poster"@) {
                ItemKind::Poster
            } else if contains(n, "-fanart"@) || contains(n, "fanart"@) {
                ItemKind::Fanart
            } else {
                ItemKind::Other
            }
        } else {
            ItemKind::Other
        },
    }
}

/// The paths of the entries of the given kind, in listing order.
pub open spec fn paths_of_kind(items: Seq<(Seq<char>, Seq<char>)>, k: ItemKind) -> Seq<Seq<char>>
    decreases items.len(),
{
    if items.len() == 0 {
        Seq::empty()
    } else {
        let prev = paths_of_kind(items.drop_last(), k);
        if kind_of(items.last()) == k {
            prev.push(items.last().1)
        } else {
            prev
        }
    }
}

/// The path of the last entry of the given kind.
pub open spec fn last_of_kind(items: Seq<(Seq<char>, Seq<char>)>, k: ItemKind) -> Option<Seq<char>>
    decreases items.len(),
{
    if items.len() == 0 {
        None
    } else if kind_of(items.last()) == k {
        Some(items.last().1)
    } else {
        last_of_kind(items.drop_last(), k)
    }
}

proof fn lemma_paths_of_kind_len(items: Seq<(Seq<char>, Seq<char>)>, k: ItemKind)
    ensures
        paths_of_kind(items, k).len() <= items.len(),
    decreases items.len(),
{
    if items.len() > 0 {
        lemma_paths_of_kind_len(items.drop_last(), k);
    }
}

fn literal_list(lits: &Vec<&str>) -> (r: Vec<Vec<char>>)
    ensures
        r@.len() == lits@.len(),
        forall|i: int| 0 <= i < r@.len() ==> (#[trigger] r@[i])@ == lits@[i]@,
{
    let mut r: Vec<Vec<char>> = Vec::new();
    let mut i: usize = 0;
    while i < lits.len()
        invariant
            i <= lits.len(),
            r@.len() == i,
            forall|k: int| 0 <= k < i ==> (#[trigger] r@[k])@ == lits@[k]@,
        decreases lits.len() - i,
    {
        r.push(chars_of(lits[i]));
        i = i + 1;
    }
    r
}

fn one_of(e: &Vec<char>, list: &Vec<Vec<char>>) -> (r: bool)
    ensures
        r == exists|i: int| 0 <= i < list@.len() && (#[trigger] list@[i])@ == e@,
{
    let mut i: usize = 0;
    while i < list.len()
        invariant
            i <= list.len(),
            forall|k: int| 0 <= k < i ==> (#[trigger] list@[k])@ != e@,
        decreases list.len() - i,
    {
        if crate::text::chars_eq(&list[i], e) {
            return true;
        }
        i = i + 1;
    }
    false
}

fn in_literals(e: &Vec<char>, lits: &Vec<&str>, ghost_set: Ghost<Seq<Seq<char>>>) -> (r: bool)
    requires
        lits@.len() == ghost_set@.len(),
        forall|i: int| 0 <= i < lits@.len() ==> (#[trigger] lits@[i])@ == ghost_set@[i],
    ensures
        r == ghost_set@.contains(e@),
{
    let list = literal_list(lits);
    let r = one_of(e, &list);
    proof {
        if r {
            let i = choose|i: int| 0 <= i < list@.len() && (#[trigger] list@[i])@ == e@;
            assert(ghost_set@[i] == e@);
        }
        if ghost_set@.contains(e@) {
            let i = choose|i: int| 0 <= i < ghost_set@.len() && ghost_set@[i] == e@;
            assert(list@[i]@ == e@);
        }
    }
    r
}

/// The kind of one directory entry.
pub fn item_kind(item: &DirItem) -> (r: ItemKind)
    ensures
        r == kind_of(item@),
{
    let ext = match extension_of(item.path.as_str()) {
        Some(e) => e,
        None => {
            return ItemKind::Other;
        },
    };
    let lower = to_lowercase(ext.as_str());
    let e = chars_of(lower.as_str());
    let videos: Vec<&str> = vec!["mp4", "mkv", "avi", "mov", "wmv", "flv", "webm", "m4v", "ts", "m2ts"];
    let images: Vec<&str> = vec!["jpg", "jpeg", "png", "webp"];
    assert(video_extensions() =~= videos@.map_values(|s: &str| s@));
    assert(image_extensions() =~= images@.map_values(|s: &str| s@));
    if in_literals(&e, &videos, Ghost(video_extensions())) {
        return ItemKind::Video;
    }
    if str_eq(lower.as_str(), "iso") {
        return ItemKind::Iso;
    }
    if str_eq(lower.as_str(), "nfo") {
        return ItemKind::Nfo;
    }
    if in_literals(&e, &images, Ghost(image_extensions())) {
        let name_lower = to_lowercase(item.name.as_str());
        if str_contains(name_lower.as_str(), "-poster") || str_contains(name_lower.as_str(), "poster") {
            ItemKind::Poster
        } else if str_contains(name_lower.as_str(), "-fanart") || str_contains(
            name_lower.as_str(),
            "fanart",
        ) {
            ItemKind::Fanart
        } else {
            ItemKind::Other
        }
    } else {
        ItemKind::Other
    }
}

/// What a video folder's listing shows: its videos, ISO images and NFO files
/// in listing order, and its last poster and last fanart image.
#[derive(Debug, Clone)]
pub struct DirScan {
    pub folder: String,
    pub title: String,
    pub videos: Vec<String>,
    pub iso_files: Vec<String>,
    pub nfo_files: Vec<String>,
    pub poster: Option<String>,
    pub fanart: Option<String>,
}

/// The text of an optional string, or the empty text.
pub open spec fn or_empty(o: Option<Seq<char>>) -> Seq<char> {
    match o {
        Some(s) => s,
        None => Seq::empty(),
    }
}

/// `scan` is what the listing `items` of the folder `dir_path` shows.
pub open spec fn scan_of(scan: DirScan, dir_path: Seq<char>, items: Seq<(Seq<char>, Seq<char>)>) -> bool {
    &&& scan.folder@ == dir_path
    &&& scan.title@ == or_empty(path_file_name(dir_path))
    &&& scan.videos.deep_view() == paths_of_kind(items, ItemKind::Video)
    &&& scan.iso_files.deep_view() == paths_of_kind(items, ItemKind::Iso)
    &&& scan.nfo_files.deep_view() == paths_of_kind(items, ItemKind::Nfo)
    &&& scan.poster.deep_view() == last_of_kind(items, ItemKind::Poster)
    &&& scan.fanart.deep_view() == last_of_kind(items, ItemKind::Fanart)
}

/// Sorts the entries of a video folder's listing.
pub fn scan_directory(dir_path: &str, items: &Vec<DirItem>) -> (r: DirScan)
    ensures
        scan_of(r, dir_path@, item_views(items@)),
        r.videos@.len() <= items@.len(),
{
    let ghost iv = item_views(items@);
    let mut videos: Vec<String> = Vec::new();
    let mut isos: Vec<String> = Vec::new();
    let mut nfos: Vec<String> = Vec::new();
    let mut poster: Option<String> = None;
    let mut fanart: Option<String> = None;
    let mut i: usize = 0;
    while i < items.len()
        invariant
            i <= items.len(),
            iv == item_views(items@),
            videos.deep_view() == paths_of_kind(iv.take(i as int), ItemKind::Video),
            isos.deep_view() == paths_of_kind(iv.take(i as int), ItemKind::Iso),
            nfos.deep_view() == paths_of_kind(iv.take(i as int), ItemKind::Nfo),
            poster.deep_view() == last_of_kind(iv.take(i as int), ItemKind::Poster),
            fanart.deep_view() == last_of_kind(iv.take(i as int), ItemKind::Fanart),
        decreases items.len() - i,
    {
        let item = &items[i];
        let ghost pre = iv.take(i as int);
        assert(iv.take(i + 1).drop_last() =~= pre);
        assert(iv.take(i + 1).last() == item@);
        let kind = item_kind(item);
        let ghost old_videos = videos.deep_view();
        let ghost old_isos = isos.deep_view();
        let ghost old_nfos = nfos.deep_view();
        match kind {
            ItemKind::Video => {
                videos.push(copy_str(item.path.as_str()));
                assert(videos.deep_view() =~= old_videos.push(item.path@));
            },
            ItemKind::Iso => {
                isos.push(copy_str(item.path.as_str()));
                assert(isos.deep_view() =~= old_isos.push(item.path@));
            },
            ItemKind::Nfo => {
                nfos.push(copy_str(item.path.as_str()));
                assert(nfos.deep_view() =~= old_nfos.push(item.path@));
            },
            ItemKind::Poster => {
                poster = Some(copy_str(item.path.as_str()));
            },
            ItemKind::Fanart => {
                fanart = Some(copy_str(item.path.as_str()));
            },
            ItemKind::Other => {},
        }
        i = i + 1;
    }
    assert(iv.take(items.len() as int) =~= iv);
    proof {
        lemma_paths_of_kind_len(iv, ItemKind::Video);
    }
    let title = match file_name_of(dir_path) {
        Some(n) => n,
        None => String::new(),
    };
    DirScan {
        folder: copy_str(dir_path),
        title,
        videos,
        iso_files: isos,
        nfo_files: nfos,
        poster,
        fanart,
    }
}

/// The entry is recognised as a series (no ISO image, and the videos look
/// like a series).
pub open spec fn scan_is_series(scan: DirScan) -> bool {
    scan.iso_files@.len() == 0 && looks_like_series(scan.videos.deep_view())
}

/// The entry is recognised as a movie with metadata.
pub open spec fn scan_is_movie(scan: DirScan) -> bool {
    scan.iso_files@.len() == 0 && !looks_like_series(scan.videos.deep_view())
        && scan.videos@.len() > 0
}

impl DirScan {
    /// The NFO file whose metadata the entry needs: the first NFO file, when
    /// the folder is a movie with metadata.
    pub fn nfo_to_read(&self) -> (r: Option<String>)
        requires
            self.videos@.len() * 100 <= usize::MAX,
        ensures
            r.deep_view() == (if scan_is_movie(*self) && self.nfo_files@.len() > 0 {
                Some(self.nfo_files@[0]@)
            } else {
                None
            }),
    {
        if self.iso_files.len() > 0 || is_tv_series(&self.videos) || self.videos.len() == 0 {
            return None;
        }
        if self.nfo_files.len() > 0 {
            Some(copy_str(self.nfo_files[0].as_str()))
        } else {
            None
        }
    }
}

fn copy_opt(o: &Option<String>) -> (r: Option<String>)
    ensures
        r.deep_view() == o.deep_view(),
{
    match o {
        Some(s) => Some(copy_str(s.as_str())),
        None => None,
    }
}

/// The video entry of a scanned folder. `nfo` is the metadata read from the
/// folder's first NFO file, if it could be read; it is used only when the
/// folder is a movie with an NFO file. The first ISO image makes an ISO
/// entry; else videos that look like a series make a series; else the first
/// video makes a movie; else the folder is a single entry of its own.
pub fn video_entry_from_scan(scan: &DirScan, nfo: Option<NfoData>) -> (r: VideoEntry)
    requires
        scan.videos@.len() * 100 <= usize::MAX,
    ensures
        scan.iso_files@.len() > 0 ==> (r matches VideoEntry::IsoFile { path, title, nfo, poster }
            && path@ == scan.iso_files@[0]@ && title@ == scan.title@ && nfo.deep_view() == (
        if scan.nfo_files@.len() > 0 {
            Some(scan.nfo_files@[0]@)
        } else {
            None
        }) && poster.deep_view() == scan.poster.deep_view()),
        scan_is_series(*scan) ==> (r matches VideoEntry::TvSeries { folder, title, episodes, poster }
            && folder@ == scan.folder@ && title@ == scan.title@ && episodes_of(
            episodes@,
            scan.videos.deep_view(),
        ) && poster.deep_view() == scan.poster.deep_view()),
        scan_is_movie(*scan) ==> (r matches VideoEntry::MovieWithMeta {
            video_path,
            poster,
            fanart,
            nfo_data,
            title,
        } && video_path@ == scan.videos@[0]@ && poster.deep_view() == scan.poster.deep_view()
            && fanart.deep_view() == scan.fanart.deep_view() && title@ == scan.title@ && (
        scan.nfo_files@.len() > 0 ==> nfo_data == nfo) && (scan.nfo_files@.len() == 0
            ==> nfo_data is None)),
        scan.iso_files@.len() == 0 && !scan_is_series(*scan) && scan.videos@.len() == 0 ==> (
        r matches VideoEntry::SingleFile { path, title } && path@ == scan.folder@ && title@
            == scan.title@),
{
    if scan.iso_files.len() > 0 {
        let nfo_path = if scan.nfo_files.len() > 0 {
            Some(copy_str(scan.nfo_files[0].as_str()))
        } else {
            None
        };
        return VideoEntry::IsoFile {
            path: copy_str(scan.iso_files[0].as_str()),
            title: copy_str(scan.title.as_str()),
            nfo: nfo_path,
            poster: copy_opt(&scan.poster),
        };
    }
    if is_tv_series(&scan.videos) {
        return VideoEntry::TvSeries {
            folder: copy_str(scan.folder.as_str()),
            title: copy_str(scan.title.as_str()),
            episodes: extract_episodes(&scan.videos),
            poster: copy_opt(&scan.poster),
        };
    }
    if scan.videos.len() > 0 {
        let nfo_data = if scan.nfo_files.len() > 0 {
            nfo
        } else {
            None
        };
        return VideoEntry::MovieWithMeta {
            video_path: copy_str(scan.videos[0].as_str()),
            poster: copy_opt(&scan.poster),
            fanart: copy_opt(&scan.fanart),
            nfo_data,
            title: copy_str(scan.title.as_str()),
        };
    }
    VideoEntry::SingleFile { path: copy_str(scan.folder.as_str()), title: copy_str(scan.title.as_str()) }
}

/// What kind of video source a path is, which decides how it is read.
#[derive(Debug, Clone, Copy, PartialEq, Eq, Structural)]
pub enum VideoSource {
    /// A single file.
    File,
    /// A folder holding a Blu-ray disc structure (a `BDMV` folder).
    BluRay,
    /// Any other folder, whose listing is scanned.
    Folder,
}

/// The kind of video source, given whether the path is a file and whether it
/// holds a `BDMV` folder: a file first, then a Blu-ray disc, else a folder.
pub fn video_source(is_file: bool, has_bdmv: bool) -> (r: VideoSource)
    ensures
        is_file ==> r == VideoSource::File,
        !is_file && has_bdmv ==> r == VideoSource::BluRay,
        !is_file && !has_bdmv ==> r == VideoSource::Folder,
{
    if is_file {
        VideoSource::File
    } else if has_bdmv {
        VideoSource::BluRay
    } else {
        VideoSource::Folder
    }
}

/// The entry of a single video file: its path, titled by its file stem.
pub fn single_file_entry(path: &str) -> (r: VideoEntry)
    ensures
        r matches VideoEntry::SingleFile { path: p, title } && p@ == path@ && title@ == or_empty(
            path_file_stem(path@),
        ),
{
    let title = match file_stem_of(path) {
        Some(t) => t,
        None => String::new(),
    };
    VideoEntry::SingleFile { path: copy_str(path), title }
}

/// One file in a Blu-ray disc's `BDMV/STREAM` folder: its path and its size,
/// if its metadata could be read.
#[derive(Debug, Clone)]
pub struct StreamItem {
    pub path: String,
    pub size: Option<u64>,
}

impl View for StreamItem {
    type V = (Seq<char>, Option<u64>);

    open spec fn view(&self) -> (Seq<char>, Option<u64>) {
        (self.path@, self.size)
    }
}

/// The largest `.m2ts` stream seen so far and its path: a stream replaces
/// the current one only when it is strictly larger (so the first of equally
/// large streams stays, and empty streams are never chosen).
pub open spec fn largest_stream(items: Seq<(Seq<char>, Option<u64>)>) -> (u64, Option<Seq<char>>)
    decreases items.len(),
{
    if items.len() == 0 {
        (0, None)
    } else {
        let (largest, main) = largest_stream(items.drop_last());
        let it = items.last();
        match it.1 {
            Some(size) => if lower_extension(it.0) == Some("m2ts"@) && size > largest {
                (size, Some(it.0))
            } else {
                (largest, main)
            },
            None => (largest, main),
        }
    }
}

proof fn lemma_largest_stream_facts(items: Seq<(Seq<char>, Option<u64>)>)
    ensures
        ({
            let (largest, main) = largest_stream(items);
            &&& main is None ==> largest == 0
            &&& main matches Some(p) ==> exists|k: int|
                0 <= k < items.len() && items[k].0 == p && lower_extension(p) == Some("m2ts"@)
                    && items[k].1 == Some(largest) && largest > 0 && forall|j: int|
                    0 <= j < k && lower_extension(#[trigger] items[j].0) == Some("m2ts"@)
                        && items[j].1 is Some ==> items[j].1.unwrap() < largest
            &&& forall|j: int|
                0 <= j < items.len() && lower_extension(#[trigger] items[j].0) == Some("m2ts"@)
                    && items[j].1 is Some ==> items[j].1.unwrap() <= largest
        }),
    decreases items.len(),
{
    if items.len() > 0 {
        let prev = items.drop_last();
        lemma_largest_stream_facts(prev);
        let (pl, pm) = largest_stream(prev);
        let it = items.last();
        assert forall|j: int| 0 <= j < prev.len() implies #[trigger] items[j] == prev[j] by {}
        let (largest, main) = largest_stream(items);
        match it.1 {
            Some(size) => {
                if lower_extension(it.0) == Some("m2ts"@) && size > pl {
                    let k = items.len() - 1;
                    assert(items[k] == it);
                    assert forall|j: int|
                        0 <= j < k && lower_extension(#[trigger] items[j].0) == Some("m2ts"@)
                            && items[j].1 is Some implies items[j].1.unwrap() < largest by {
                        assert(items[j] == prev[j]);
                    }
                } else {
                    if let Some(p) = pm {
                        let k = choose|k: int|
                            0 <= k < prev.len() && prev[k].0 == p && lower_extension(p) == Some(
                                "m2ts"@,
                            ) && prev[k].1 == Some(pl) && pl > 0 && forall|j: int|
                                0 <= j < k && lower_extension(#[trigger] prev[j].0) == Some(
                                    "m2ts"@,
                                ) && prev[j].1 is Some ==> prev[j].1.unwrap() < pl;
                        assert(items[k] == prev[k]);
                        assert forall|j: int|
                            0 <= j < k && lower_extension(#[trigger] items[j].0) == Some("m2ts"@)
                                && items[j].1 is Some implies items[j].1.unwrap() < largest by {
                            assert(items[j] == prev[j]);
                        }
                    }
                }
            },
            None => {
                if let Some(p) = pm {
                    let k = choose|k: int|
                        0 <= k < prev.len() && prev[k].0 == p && lower_extension(p) == Some(
                            "m2ts"@,
                        ) && prev[k].1 == Some(pl) && pl > 0 && forall|j: int|
                            0 <= j < k && lower_extension(#[trigger] prev[j].0) == Some("m2ts"@)
                                && prev[j].1 is Some ==> prev[j].1.unwrap() < pl;
                    assert(items[k] == prev[k]);
                    assert forall|j: int|
                        0 <= j < k && lower_extension(#[trigger] items[j].0) == Some("m2ts"@)
                            && items[j].1 is Some implies items[j].1.unwrap() < largest by {
                        assert(items[j] == prev[j]);
                    }
                }
            },
        }
        assert forall|j: int|
            0 <= j < items.len() && lower_extension(#[trigger] items[j].0) == Some("m2ts"@)
                && items[j].1 is Some implies items[j].1.unwrap() <= largest by {
            if j < prev.len() {
                assert(items[j] == prev[j]);
            } else {
                assert(items[j] == it);
            }
        }
    }
}

/// The main video of a Blu-ray disc, when there is one, is an `.m2ts` stream
/// of known size at least as large as every `.m2ts` stream of known size, and
/// the first stream of that size; when there is none, no `.m2ts` stream has a
/// known size above 0.
pub proof fn lemma_main_stream_is_largest(items: Seq<(Seq<char>, Option<u64>)>)
    ensures
        largest_stream(items).1 matches Some(p) ==> exists|k: int|
            0 <= k < items.len() && (#[trigger] items[k]).0 == p && lower_extension(p) == Some(
                "m2ts"@,
            ) && items[k].1 is Some && (forall|j: int|
                0 <= j < items.len() && lower_extension(#[trigger] items[j].0) == Some("m2ts"@)
                    && items[j].1 is Some ==> items[j].1.unwrap() <= items[k].1.unwrap()) && (
            forall|j: int|
                0 <= j < k && lower_extension(#[trigger] items[j].0) == Some("m2ts"@)
                    && items[j].1 is Some ==> items[j].1.unwrap() < items[k].1.unwrap()),
        largest_stream(items).1 is None ==> forall|j: int|
            0 <= j < items.len() && lower_extension(#[trigger] items[j].0) == Some("m2ts"@)
                && items[j].1 is Some ==> items[j].1.unwrap() == 0,
{
    lemma_largest_stream_facts(items);
    let (largest, main) = largest_stream(items);
    if let Some(p) = main {
        let k = choose|k: int|
            0 <= k < items.len() && items[k].0 == p && lower_extension(p) == Some("m2ts"@)
                && items[k].1 == Some(largest) && largest > 0 && forall|j: int|
                0 <= j < k && lower_extension(#[trigger] items[j].0) == Some("m2ts"@)
                    && items[j].1 is Some ==> items[j].1.unwrap() < largest;
        assert(items[k].1 == Some(largest));
    }
}

/// The main video of a Blu-ray disc: the largest `.m2ts` stream.
pub fn main_stream(items: &Vec<StreamItem>) -> (r: Option<String>)
    ensures
        r.deep_view() == largest_stream(items@.map_values(|i: StreamItem| i@)).1,
{
    let ghost iv = items@.map_values(|i: StreamItem| i@);
    let mut largest: u64 = 0;
    let mut main: Option<String> = None;
    let mut i: usize = 0;
    let m2ts = chars_of("m2ts");
    while i < items.len()
        invariant
            i <= items.len(),
            iv == items@.map_values(|i: StreamItem| i@),
            m2ts@ == "m2ts"@,
            (largest, main.deep_view()) == largest_stream(iv.take(i as int)),
        decreases items.len() - i,
    {
        let item = &items[i];
        assert(iv.take(i + 1).drop_last() =~= iv.take(i as int));
        assert(iv.take(i + 1).last() == item@);
        let is_m2ts = match extension_of(item.path.as_str()) {
            Some(e) => {
                let lower = to_lowercase(e.as_str());
                let lv = chars_of(lower.as_str());
                crate::text::chars_eq(&lv, &m2ts)
            },
            None => false,
        };
        match item.size {
            Some(size) => {
                if is_m2ts && size > largest {
                    largest = size;
                    main = Some(copy_str(item.path.as_str()));
                }
            },
            None => {},
        }
        i = i + 1;
    }
    assert(iv.take(items.len() as int) =~= iv);
    main
}

/// The entry of a Blu-ray disc folder: the folder, titled by its name, with
/// its largest stream as the main video.
pub fn bluray_entry(path: &str, streams: &Vec<StreamItem>) -> (r: VideoEntry)
    ensures
        r matches VideoEntry::BluRay { folder, title, main_video } && folder@ == path@ && title@
            == or_empty(path_file_name(path@)) && main_video.deep_view() == largest_stream(
            streams@.map_values(|i: StreamItem| i@),
        ).1,
{
    let title = match file_name_of(path) {
        Some(t) => t,
        None => String::new(),
    };
    VideoEntry::BluRay { folder: copy_str(path), title, main_video: main_stream(streams) }
}

} // verus!
