//! Music metadata and LRC lyrics.
//!
//! Reading the tags of an audio file is done outside the library; what the
//! library decides is where lyrics and cover art are looked for, and how an
//! LRC text becomes a list of timed lyric lines.
use vstd::prelude::*;

use crate::path::{
    join_path, parent_of, path_join, path_parent, path_with_extension, with_extension_of,
};
use crate::sort::{lemma_stable_sort_elements, lemma_stable_sort_keeps, stable_sort, stable_sort_of, TotalPreorder};
use crate::text::{
    alphabetic, char_is_alphabetic, chars_of, copy_str, find_char, find_char_in, lemma_find_from,
    lines, lines_of, parse_u64_chars, parse_unsigned, split_by, split_chars, string_of, sub_chars,
    trim, trim_chars, views,
};

verus! {

/// The tags and properties of an audio file.
#[derive(Debug, Clone)]
pub struct MusicInfo {
    pub title: Option<String>,
    pub artist: Option<String>,
    pub album: Option<String>,
    pub year: Option<u32>,
    pub duration_secs: Option<u64>,
    pub cover_art: Option<String>,
}

/// The tag values of an audio file, taken from its primary tag (or else its
/// first tag).
#[derive(Debug, Clone)]
pub struct AudioTags {
    pub title: Option<String>,
    pub artist: Option<String>,
    pub album: Option<String>,
    pub year: Option<u32>,
}

/// The tags to read from an audio file: its primary tag's values if it has a
/// primary tag, else its first tag's.
pub fn chosen_tags(primary: Option<AudioTags>, first: Option<AudioTags>) -> (r: Option<AudioTags>)
    ensures
        primary is Some ==> r == primary,
        primary is None ==> r == first,
{
    match primary {
        Some(t) => Some(t),
        None => first,
    }
}

/// The music information of an audio file: the tag values, if the file has a
/// tag; its duration in whole seconds; and the cover art found for it.
pub fn music_info(tags: Option<AudioTags>, duration_secs: u64, cover_art: Option<String>) -> (r:
    MusicInfo)
    ensures
        tags matches Some(t) ==> r.title == t.title && r.artist == t.artist && r.album == t.album
            && r.year == t.year,
        tags is None ==> r.title is None && r.artist is None && r.album is None && r.year is None,
        r.duration_secs == Some(duration_secs),
        r.cover_art == cover_art,
{
    let mut info = MusicInfo {
        title: None,
        artist: None,
        album: None,
        year: None,
        duration_secs: None,
        cover_art: None,
    };
    match tags {
        Some(t) => {
            info.title = t.title;
            info.artist = t.artist;
            info.album = t.album;
            info.year = t.year;
        },
        None => {},
    }
    info.duration_secs = Some(duration_secs);
    info.cover_art = cover_art;
    info
}

/// One timed line of lyrics.
#[derive(Debug, Clone)]
pub struct LyricsLine {
    pub time_ms: u64,
    pub text: String,
}

impl View for LyricsLine {
    type V = (u64, Seq<char>);

    open spec fn view(&self) -> (u64, Seq<char>) {
        (self.time_ms, self.text@)
    }
}

/// Lyric lines are ordered by their time alone.
impl TotalPreorder for LyricsLine {
    open spec fn ranks_before(self, other: Self) -> bool {
        self.time_ms <= other.time_ms
    }

    proof fn lemma_total(a: Self, b: Self) {
    }

    proof fn lemma_transitive(a: Self, b: Self, c: Self) {
    }

    fn before(&self, other: &Self) -> (r: bool) {
        self.time_ms <= other.time_ms
    }
}

/// Why lyrics could not be had.
#[derive(Debug, Clone, Copy, PartialEq, Eq)]
pub enum LyricsError {
    /// There is no `.lrc` file beside the audio file.
    NotFound,
}

impl LyricsError {
    /// The message shown for the error.
    pub fn message(&self) -> (r: String)
        ensures
            r@ == "Lyrics file not found"@,
    {
        match self {
            LyricsError::NotFound => copy_str("Lyrics file not found"),
        }
    }
}

/// The separators inside an LRC time stamp: `mm:ss.xx` or `mm:ss:xx`.
pub open spec fn is_lrc_sep(c: char) -> bool {
    c == ':' || c == '.'
}

/// The fields of an LRC time stamp.
pub open spec fn timestamp_parts(ts: Seq<char>) -> Seq<Seq<char>> {
    split_by(ts, |c: char| is_lrc_sep(c))
}

/// The time in milliseconds that an LRC time stamp denotes: minutes, seconds
/// and (optionally) hundredths, separated by `:` or `.`. The first two fields
/// must be unsigned numbers; a third field that is not a number counts as 0.
pub open spec fn lrc_timestamp_ms(ts: Seq<char>) -> Option<int> {
    let parts = timestamp_parts(ts);
    if parts.len() >= 2 {
        match (
            parse_unsigned(parts[0], u64::MAX as nat),
            parse_unsigned(parts[1], u64::MAX as nat),
        ) {
            (Some(m), Some(s)) => {
                let c: nat = if parts.len() > 2 {
                    match parse_unsigned(parts[2], u64::MAX as nat) {
                        Some(c) => c,
                        None => 0,
                    }
                } else {
                    0
                };
                Some((m * 60000 + s * 1000 + c * 10) as int)
            },
            _ => None,
        }
    } else {
        None
    }
}

/// The time of an LRC time stamp, computed without overflow.
fn lrc_timestamp_wide(ts: &Vec<char>) -> (r: Option<u128>)
    ensures
        r matches Some(v) ==> lrc_timestamp_ms(ts@) == Some(v as int),
        r is None ==> lrc_timestamp_ms(ts@) is None,
{
    let seps: Vec<char> = vec![':', '.'];
    let parts = split_chars(ts, &seps);
    proof {
        assert forall|c: char| seps@.contains(c) == is_lrc_sep(c) by {
            if c == ':' {
                assert(seps@[0] == c);
            }
            if c == '.' {
                assert(seps@[1] == c);
            }
        }
        assert((|c: char| seps@.contains(c)) =~= (|c: char| is_lrc_sep(c)));
        assert(views(parts@) == timestamp_parts(ts@));
    }
    if parts.len() < 2 {
        return None;
    }
    assert(parts@[0]@ == timestamp_parts(ts@)[0]);
    assert(parts@[1]@ == timestamp_parts(ts@)[1]);
    let m = match parse_u64_chars(&parts[0]) {
        Some(m) => m,
        None => return None,
    };
    let s = match parse_u64_chars(&parts[1]) {
        Some(s) => s,
        None => return None,
    };
    let c: u64 = if parts.len() > 2 {
        assert(parts@[2]@ == timestamp_parts(ts@)[2]);
        match parse_u64_chars(&parts[2]) {
            Some(c) => c,
            None => 0,
        }
    } else {
        0
    };
    Some((m as u128) * 60000 + (s as u128) * 1000 + (c as u128) * 10)
}

/// Parses an LRC time stamp (`mm:ss.xx` or `mm:ss:xx`) into milliseconds.
pub fn parse_lrc_timestamp(ts: &str) -> (r: Option<u64>)
    requires
        lrc_timestamp_ms(ts@) matches Some(v) ==> v <= u64::MAX,
    ensures
        r matches Some(v) ==> lrc_timestamp_ms(ts@) == Some(v as int),
        r is None ==> lrc_timestamp_ms(ts@) is None,
{
    let v = chars_of(ts);
    match lrc_timestamp_wide(&v) {
        Some(ms) => Some(ms as u64),
        None => None,
    }
}

/// What one line of an LRC text contributes: nothing for blank lines, lines
/// that do not start with `[`, metadata tags such as `[ar:...]` (a letter
/// right after the bracket), lines without `]` and lines whose time stamp does
/// not parse; otherwise the time and the trimmed text after the `]`.
pub open spec fn lrc_line(line: Seq<char>) -> Option<(int, Seq<char>)> {
    let t = trim(line);
    if t.len() == 0 || t[0] != '[' {
        None
    } else if t.len() > 1 && alphabetic(t[1]) {
        None
    } else {
        match find_char(t, ']') {
            None => None,
            Some(k) => match lrc_timestamp_ms(t.subrange(1, k)) {
                Some(ms) => Some((ms, trim(t.subrange(k + 1, t.len() as int)))),
                None => None,
            },
        }
    }
}

/// The timed lines of a list of LRC lines, in text order.
pub open spec fn lrc_entries(ls: Seq<Seq<char>>) -> Seq<(u64, Seq<char>)>
    decreases ls.len(),
{
    if ls.len() == 0 {
        Seq::empty()
    } else {
        let prev = lrc_entries(ls.drop_last());
        match lrc_line(ls.last()) {
            Some((ms, text)) => prev.push((ms as u64, text)),
            None => prev,
        }
    }
}

/// Every time stamp of the LRC text fits in 64 bits of milliseconds.
pub open spec fn lrc_fits(content: Seq<char>) -> bool {
    forall|i: int| 0 <= i < lines(content).len() ==> #[trigger] line_fits(lines(content)[i])
}

/// The time stamp of an LRC line, if it has one, fits in 64 bits.
pub open spec fn line_fits(line: Seq<char>) -> bool {
    lrc_line(line) matches Some((ms, _)) ==> ms <= u64::MAX
}

/// `v` holds the lyric lines of the LRC text `content`, sorted by time; lines
/// with equal times keep their order in the text.
pub open spec fn lyrics_of(v: Seq<LyricsLine>, content: Seq<char>) -> bool {
    exists|u: Seq<LyricsLine>|
        #![trigger stable_sort_of(v, u)]
        u.map_values(|l: LyricsLine| l@) == lrc_entries(lines(content)) && stable_sort_of(v, u)
}

/// Parsed lyrics have one line for each timed line of the text, and come in
/// time order.
pub proof fn lemma_lyrics_in_time_order(v: Seq<LyricsLine>, content: Seq<char>)
    requires
        lyrics_of(v, content),
    ensures
        v.len() == lrc_entries(lines(content)).len(),
        forall|i: int, j: int| 0 <= i < j < v.len() ==> (#[trigger] v[i]).time_ms <= (
        #[trigger] v[j]).time_ms,
{
    let u = choose|u: Seq<LyricsLine>|
        #![trigger stable_sort_of(v, u)]
        u.map_values(|l: LyricsLine| l@) == lrc_entries(lines(content)) && stable_sort_of(v, u);
    assert(u.map_values(|l: LyricsLine| l@).len() == u.len());
    assert forall|i: int, j: int| 0 <= i < j < v.len() implies (#[trigger] v[i]).time_ms <= (
    #[trigger] v[j]).time_ms by {
        assert(v[i].ranks_before(v[j]));
    }
}

/// A line that reads `[ts]rest` once trimmed, with `ts` a valid time stamp
/// holding no `]` and not starting with a letter, is the timed line
/// `(time of ts, trimmed rest)`.
proof fn lemma_lrc_line_form(line: Seq<char>, ts: Seq<char>, rest: Seq<char>, ms: int)
    requires
        trim(line) == seq!['['] + ts + seq![']'] + rest,
        ts.len() > 0,
        !alphabetic(ts[0]),
        !ts.contains(']'),
        lrc_timestamp_ms(ts) == Some(ms),
    ensures
        lrc_line(line) == Some((ms, trim(rest))),
{
    let t = trim(line);
    let k0: int = ts.len() as int + 1;
    assert(t[0] == '[');
    assert(t[1] == ts[0]);
    lemma_find_from(t, seq![']'], 0);
    assert(t.subrange(k0, k0 + 1) =~= seq![']']);
    assert forall|j: int| 0 <= j < k0 implies !crate::text::occurs_at(t, seq![']'], j) by {
        if crate::text::occurs_at(t, seq![']'], j) {
            assert(t.subrange(j, j + 1)[0] == t[j]);
            if j > 0 {
                assert(t[j] == ts[j - 1]);
                assert(ts.contains(']'));
            }
        }
    }
    assert(crate::text::occurs_at(t, seq![']'], k0));
    assert(find_char(t, ']') == Some(k0));
    assert(t.subrange(1, k0) =~= ts);
    assert(t.subrange(k0 + 1, t.len() as int) =~= rest);
}

proof fn lemma_lrc_entries_contain(ls: Seq<Seq<char>>, i: int, ms: int, text: Seq<char>)
    requires
        0 <= i < ls.len(),
        lrc_line(ls[i]) == Some((ms, text)),
    ensures
        lrc_entries(ls).contains((ms as u64, text)),
    decreases ls.len(),
{
    let prev = lrc_entries(ls.drop_last());
    if i == ls.len() - 1 {
        assert(ls.last() == ls[i]);
        assert(lrc_entries(ls) == prev.push((ms as u64, text)));
        assert(lrc_entries(ls)[prev.len() as int] == (ms as u64, text));
    } else {
        assert(ls.drop_last()[i] == ls[i]);
        lemma_lrc_entries_contain(ls.drop_last(), i, ms, text);
        let j = choose|j: int| 0 <= j < prev.len() && prev[j] == (ms as u64, text);
        match lrc_line(ls.last()) {
            Some((m2, t2)) => {
                assert(lrc_entries(ls) == prev.push((m2 as u64, t2)));
                assert(lrc_entries(ls)[j] == prev[j]);
            },
            None => {},
        }
    }
}

/// Every line of an LRC text that reads `[ts]rest` once trimmed, with `ts` a
/// valid time stamp (holding no `]`, and not starting with a letter), gives a
/// lyric line at the time of `ts` with the trimmed `rest` as its text, also
/// when that text is empty.
pub proof fn lemma_timed_lines_kept(
    content: Seq<char>,
    i: int,
    ts: Seq<char>,
    rest: Seq<char>,
    ms: u64,
    v: Seq<LyricsLine>,
)
    requires
        0 <= i < lines(content).len(),
        trim(lines(content)[i]) == seq!['['] + ts + seq![']'] + rest,
        ts.len() > 0,
        !alphabetic(ts[0]),
        !ts.contains(']'),
        lrc_timestamp_ms(ts) == Some(ms as int),
        lyrics_of(v, content),
    ensures
        exists|k: int| 0 <= k < v.len() && (#[trigger] v[k]).time_ms == ms && v[k].text@ == trim(rest),
{
    lemma_lrc_line_form(lines(content)[i], ts, rest, ms as int);
    lemma_lrc_entries_contain(lines(content), i, ms as int, trim(rest));
    let u = choose|u: Seq<LyricsLine>|
        #![trigger stable_sort_of(v, u)]
        u.map_values(|l: LyricsLine| l@) == lrc_entries(lines(content)) && stable_sort_of(v, u);
    let e = lrc_entries(lines(content));
    let j = choose|j: int| 0 <= j < e.len() && e[j] == (ms, trim(rest));
    assert(u.map_values(|l: LyricsLine| l@).len() == u.len());
    assert(u.map_values(|l: LyricsLine| l@)[j] == u[j]@);
    lemma_stable_sort_keeps(v, u);
    assert(v.contains(u[j]));
    let k = choose|k: int| 0 <= k < v.len() && v[k] == u[j];
    assert(v[k].time_ms == ms);
}

proof fn lemma_split_without_separator(s: Seq<char>, sep: spec_fn(char) -> bool)
    requires
        forall|i: int| 0 <= i < s.len() ==> !sep(#[trigger] s[i]),
    ensures
        split_by(s, sep) == seq![s],
    decreases s.len(),
{
    if s.len() > 0 {
        assert forall|i: int| 0 <= i < s.drop_last().len() implies !sep(
            #[trigger] s.drop_last()[i],
        ) by {
            assert(s.drop_last()[i] == s[i]);
        }
        lemma_split_without_separator(s.drop_last(), sep);
        assert(!sep(s[s.len() - 1]));
        assert(s.drop_last().push(s.last()) =~= s);
        assert(seq![s.drop_last()].update(0, s.drop_last().push(s.last())) =~= seq![s]);
    } else {
        assert(s =~= Seq::<char>::empty());
    }
}

/// A text of one line (no newline) that reads `[ts]rest` once trimmed, with
/// `ts` a valid time stamp (holding no `]`, and not starting with a letter),
/// gives exactly one lyric line: at the time of `ts`, with the trimmed `rest`
/// as its text, also when that text is empty.
pub proof fn lemma_timed_line_kept(
    content: Seq<char>,
    ts: Seq<char>,
    rest: Seq<char>,
    ms: u64,
    v: Seq<LyricsLine>,
)
    requires
        !content.contains('\n'),
        trim(content) == seq!['['] + ts + seq![']'] + rest,
        ts.len() > 0,
        !alphabetic(ts[0]),
        !ts.contains(']'),
        lrc_timestamp_ms(ts) == Some(ms as int),
        lyrics_of(v, content),
    ensures
        v.len() == 1,
        v[0].time_ms == ms,
        v[0].text@ == trim(rest),
{
    // The text is one line.
    assert forall|i: int| 0 <= i < content.len() implies !((|c: char| c == '\n')(
        #[trigger] content[i],
    )) by {
        if content[i] == '\n' {
            assert(content.contains('\n'));
        }
    }
    lemma_split_without_separator(content, |c: char| c == '\n');
    assert(crate::text::newline_pieces(content) == seq![content]);
    assert(crate::text::strip_crs(seq![content].drop_last()) =~= Seq::<Seq<char>>::empty());
    assert(lines(content) =~= seq![content]);
    lemma_lrc_line_form(content, ts, rest, ms as int);
    assert(seq![content].drop_last() =~= Seq::<Seq<char>>::empty());
    assert(lrc_entries(Seq::<Seq<char>>::empty()) == Seq::<(u64, Seq<char>)>::empty());
    assert(seq![content].last() == content);
    assert(lrc_entries(lines(content)) =~= seq![(ms, trim(rest))]);
    let u = choose|u: Seq<LyricsLine>|
        #![trigger stable_sort_of(v, u)]
        u.map_values(|l: LyricsLine| l@) == lrc_entries(lines(content)) && stable_sort_of(v, u);
    assert(u.map_values(|l: LyricsLine| l@).len() == u.len());
    assert(u.len() == 1);
    assert(u.map_values(|l: LyricsLine| l@)[0] == u[0]@);
    lemma_stable_sort_elements(v, u);
    assert(u.contains(v[0]));
    assert(v[0] == u[0]);
}

/// One line of LRC text, parsed.
fn lrc_line_of(line: &Vec<char>) -> (r: Option<(u128, Vec<char>)>)
    ensures
        r matches Some((ms, text)) ==> lrc_line(line@) == Some((ms as int, text@)),
        r is None ==> lrc_line(line@) is None,
{
    let t = trim_chars(line);
    if t.len() == 0 || t[0] != '[' {
        return None;
    }
    if t.len() > 1 && char_is_alphabetic(t[1]) {
        return None;
    }
    match find_char_in(&t, ']') {
        None => None,
        Some(k) => {
            proof {
                lemma_find_from(t@, seq![']'], 0);
                assert(t@.subrange(k as int, k + 1)[0] == ']');
            }
            let ts = sub_chars(&t, 1, k);
            match lrc_timestamp_wide(&ts) {
                None => None,
                Some(ms) => {
                    let rest = sub_chars(&t, k + 1, t.len());
                    let text = trim_chars(&rest);
                    Some((ms, text))
                },
            }
        },
    }
}

/// Whether every time stamp in an LRC text fits in 64 bits of milliseconds,
/// so that `parse_lrc` may be called on it.
pub fn lrc_timestamps_fit(content: &str) -> (r: bool)
    ensures
        r == lrc_fits(content@),
{
    let cv = chars_of(content);
    let ls = lines_of(&cv);
    let mut i: usize = 0;
    while i < ls.len()
        invariant
            i <= ls.len(),
            views(ls@) == lines(content@),
            forall|j: int| 0 <= j < i ==> #[trigger] line_fits(lines(content@)[j]),
        decreases ls.len() - i,
    {
        assert(ls@[i as int]@ == lines(content@)[i as int]);
        match lrc_line_of(&ls[i]) {
            Some((ms, _)) => {
                if ms > u64::MAX as u128 {
                    assert(!line_fits(lines(content@)[i as int]));
                    return false;
                }
            },
            None => {},
        }
        i = i + 1;
    }
    true
}

/// Parses an LRC lyrics text into timed lines sorted by time. Blank lines,
/// metadata tags and lines without a valid time stamp are skipped.
pub fn parse_lrc(content: &str) -> (r: Result<Vec<LyricsLine>, LyricsError>)
    requires
        lrc_fits(content@),
    ensures
        r is Ok,
        r matches Ok(v) ==> lyrics_of(v@, content@),
{
    let cv = chars_of(content);
    let ls = lines_of(&cv);
    let mut out: Vec<LyricsLine> = Vec::new();
    let mut i: usize = 0;
    while i < ls.len()
        invariant
            i <= ls.len(),
            views(ls@) == lines(content@),
            lrc_fits(content@),
            out@.map_values(|l: LyricsLine| l@) == lrc_entries(views(ls@).take(i as int)),
        decreases ls.len() - i,
    {
        let ghost prefix = views(ls@).take(i as int);
        assert(views(ls@).take(i + 1).drop_last() =~= prefix);
        assert(views(ls@).take(i + 1).last() == ls@[i as int]@);
        assert(ls@[i as int]@ == lines(content@)[i as int]);
        match lrc_line_of(&ls[i]) {
            Some((ms, text)) => {
                assert(line_fits(lines(content@)[i as int]));
                assert(ms <= u64::MAX);
                let line = LyricsLine { time_ms: ms as u64, text: string_of(&text) };
                let ghost before = out@.map_values(|l: LyricsLine| l@);
                out.push(line);
                assert(out@.map_values(|l: LyricsLine| l@) =~= before.push(line@));
            },
            None => {},
        }
        i = i + 1;
    }
    assert(views(ls@).take(ls.len() as int) =~= views(ls@));
    let ghost unsorted = out@;
    let sorted = stable_sort(out);
    assert(lyrics_of(sorted@, content@)) by {
        assert(stable_sort_of(sorted@, unsorted));
    }
    Ok(sorted)
}

/// Parses an LRC lyrics text (see `parse_lrc`) when every time stamp in it
/// fits in 64 bits of milliseconds; `None` when one does not.
pub fn parse_lrc_checked(content: &str) -> (r: Option<Vec<LyricsLine>>)
    ensures
        r is Some <==> lrc_fits(content@),
        r matches Some(v) ==> lyrics_of(v@, content@),
{
    if !lrc_timestamps_fit(content) {
        return None;
    }
    match parse_lrc(content) {
        Ok(v) => Some(v),
        Err(_) => None,
    }
}

/// Where the lyrics of an audio file are looked for: the same path with the
/// extension `lrc`.
pub fn lyrics_path(path: &str) -> (r: String)
    ensures
        r@ == path_with_extension(path@, "lrc"@),
{
    proof {
        reveal_strlit("lrc");
    }
    with_extension_of(path, "lrc")
}

/// The cover images looked for beside an audio file, in the order in which
/// they are tried: the same path with the extension `jpg`, then `cover.jpg`,
/// `folder.jpg` and `album.jpg` in the file's directory (when the path has
/// one).
pub open spec fn cover_candidates(path: Seq<char>) -> Seq<Seq<char>> {
    let own = seq![path_with_extension(path, "jpg"@)];
    match path_parent(path) {
        Some(dir) => own + seq![
            path_join(dir, "cover.jpg"@),
            path_join(dir, "folder.jpg"@),
            path_join(dir, "album.jpg"@),
        ],
        None => own,
    }
}

/// The cover images to look for beside an audio file, in order; the first
/// one that exists is the cover art.
pub fn cover_art_candidates(path: &str) -> (r: Vec<String>)
    ensures
        r.deep_view() == cover_candidates(path@),
{
    let mut r: Vec<String> = Vec::new();
    proof {
        reveal_strlit("jpg");
    }
    r.push(with_extension_of(path, "jpg"));
    match parent_of(path) {
        Some(dir) => {
            r.push(join_path(&dir, "cover.jpg"));
            r.push(join_path(&dir, "folder.jpg"));
            r.push(join_path(&dir, "album.jpg"));
        },
        None => {},
    }
    assert(r.deep_view() =~= cover_candidates(path@));
    r
}

} // verus!
