use home_nas::path::first_present;
use home_nas::utils::music_parser::{
    chosen_tags, music_info, parse_lrc_checked, AudioTags,
    cover_art_candidates, lrc_timestamps_fit, lyrics_path, parse_lrc, parse_lrc_timestamp,
    LyricsError,
};

#[test]
fn test_parse_lrc_timestamp() {
    assert_eq!(parse_lrc_timestamp("01:23.45"), Some(83450));
    assert_eq!(parse_lrc_timestamp("00:05.00"), Some(5000));
    assert_eq!(parse_lrc_timestamp("02:30:50"), Some(150500));
}

#[test]
fn lrc_timestamp_edge_cases() {
    assert_eq!(parse_lrc_timestamp("01:02"), Some(62000));
    assert_eq!(parse_lrc_timestamp("01:02.xx"), Some(62000));
    assert_eq!(parse_lrc_timestamp("+1:+2.+3"), Some(62030));
    assert_eq!(parse_lrc_timestamp("12"), None);
    assert_eq!(parse_lrc_timestamp("a:02"), None);
    assert_eq!(parse_lrc_timestamp(":02"), None);
    assert_eq!(parse_lrc_timestamp("01:-2"), None);
    assert_eq!(parse_lrc_timestamp("1:2.3.4"), Some(62030));
}

#[test]
fn test_parse_lrc() {
    let content = r#"
[ar:Artist Name]
[ti:Song Title]
[00:12.00]First line of lyrics
[00:17.20]Second line of lyrics
        "#;

    let lines = parse_lrc(content).unwrap();
    assert_eq!(lines.len(), 2);
    assert_eq!(lines[0].time_ms, 12000);
    assert_eq!(lines[0].text, "First line of lyrics");
}

#[test]
fn parse_lrc_sorts_stably_and_skips_bad_lines() {
    let content = "[00:20.00]late\r\n  [00:05.00]  early  \n[00:20.00]late too\nno bracket\n[bad]x\n[00:01.00\n[00:10:00]middle";
    let lines = parse_lrc(content).unwrap();
    let got: Vec<(u64, &str)> = lines.iter().map(|l| (l.time_ms, l.text.as_str())).collect();
    assert_eq!(got, vec![(5000, "early"), (10000, "middle"), (20000, "late"), (20000, "late too")]);
}

#[test]
fn lrc_fit_check() {
    assert!(lrc_timestamps_fit("[00:01.00]a\n[ti:x]"));
    assert!(!lrc_timestamps_fit("[99999999999999999:00]huge"));
    assert!(lrc_timestamps_fit("[99999999999999999999999:00]not a number"));
    assert!(parse_lrc_checked("[99999999999999999:00]huge").is_none());
    let lines = parse_lrc_checked("[00:02.00]b\n[00:01.00]a").unwrap();
    assert_eq!(lines.len(), 2);
    assert_eq!((lines[0].time_ms, lines[0].text.as_str()), (1000, "a"));
    assert_eq!((lines[1].time_ms, lines[1].text.as_str()), (2000, "b"));
}

#[test]
fn lyrics_and_cover_paths() {
    assert_eq!(lyrics_path("/music/a/song.mp3"), "/music/a/song.lrc");
    assert_eq!(
        cover_art_candidates("/music/a/song.mp3"),
        vec![
            "/music/a/song.jpg".to_string(),
            "/music/a/cover.jpg".to_string(),
            "/music/a/folder.jpg".to_string(),
            "/music/a/album.jpg".to_string(),
        ]
    );
    assert_eq!(cover_art_candidates("/"), vec!["/".to_string()]);
    assert_eq!(LyricsError::NotFound.message(), "Lyrics file not found");
}

#[test]
fn music_info_from_tags() {
    let tags = AudioTags {
        title: Some("Song".to_string()),
        artist: Some("Band".to_string()),
        album: None,
        year: Some(1999),
    };
    let info = music_info(Some(tags), 215, Some("/m/cover.jpg".to_string()));
    assert_eq!(info.title, Some("Song".to_string()));
    assert_eq!(info.artist, Some("Band".to_string()));
    assert_eq!(info.album, None);
    assert_eq!(info.year, Some(1999));
    assert_eq!(info.duration_secs, Some(215));
    assert_eq!(info.cover_art, Some("/m/cover.jpg".to_string()));

    let bare = music_info(None, 0, None);
    assert_eq!(bare.title, None);
    assert_eq!(bare.year, None);
    assert_eq!(bare.duration_secs, Some(0));
    assert_eq!(bare.cover_art, None);
}

#[test]
fn cover_art_is_the_first_present_candidate() {
    let candidates = cover_art_candidates("/m/a/song.mp3");
    assert_eq!(first_present(&candidates, &vec![false, false, true, true]), Some("/m/a/folder.jpg".to_string()));
    assert_eq!(first_present(&candidates, &vec![true, false, true, false]), Some("/m/a/song.jpg".to_string()));
    assert_eq!(first_present(&candidates, &vec![false; 4]), None);
    assert_eq!(first_present(&vec![], &vec![]), None);
}

#[test]
fn primary_tag_first() {
    let t = |title: &str| AudioTags { title: Some(title.to_string()), artist: None, album: None, year: None };
    assert_eq!(chosen_tags(Some(t("p")), Some(t("f"))).unwrap().title, Some("p".to_string()));
    assert_eq!(chosen_tags(None, Some(t("f"))).unwrap().title, Some("f".to_string()));
    assert!(chosen_tags(None, None).is_none());
}
