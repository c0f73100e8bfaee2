use home_nas::utils::video_detector::{
    capture_step, video_source, CaptureStep, VideoSource,
    bluray_entry, extract_episode_number, extract_episodes, extract_xml_field, is_tv_series,
    item_kind, parse_nfo_text, scan_directory, single_file_entry, video_entry_from_scan,
    DirItem, ItemKind, NfoData, StreamItem, VideoEntry,
};

fn item(name: &str, dir: &str) -> DirItem {
    DirItem { name: name.to_string(), path: format!("{}/{}", dir, name) }
}

#[test]
fn test_extract_episode_number() {
    assert_eq!(extract_episode_number("第1集"), Some(1));
    assert_eq!(extract_episode_number("E01"), Some(1));
    assert_eq!(extract_episode_number("哪吒传奇 第10集"), Some(10));
    assert_eq!(extract_episode_number("Episode 5"), Some(5));
}

#[test]
fn episode_number_edge_cases() {
    assert_eq!(extract_episode_number("Movie"), None);
    assert_eq!(extract_episode_number("12集"), Some(12));
    assert_eq!(extract_episode_number("ep7"), Some(7));
    assert_eq!(extract_episode_number("E99999999999"), None);
}

#[test]
fn test_is_tv_series() {
    let series = vec![
        "第1集.mp4".to_string(),
        "第2集.mp4".to_string(),
        "第3集.mp4".to_string(),
    ];
    assert!(is_tv_series(&series));

    let movie = vec!["Movie.mp4".to_string()];
    assert!(!is_tv_series(&movie));
}

#[test]
fn tv_series_threshold() {
    let two_of_three = vec!["E1.mkv".to_string(), "E2.mkv".to_string(), "x.mkv".to_string()];
    assert!(is_tv_series(&two_of_three));
    let three_of_five: Vec<String> =
        vec!["E1", "E2", "E3", "a", "b"].into_iter().map(|s| s.to_string()).collect();
    assert!(!is_tv_series(&three_of_five));
}

#[test]
fn episodes_are_numbered_and_sorted() {
    let videos = vec![
        "/tv/show/Show E03.mkv".to_string(),
        "/tv/show/Show E01.mkv".to_string(),
        "/tv/show/extras.mkv".to_string(),
    ];
    let eps = extract_episodes(&videos);
    let got: Vec<(u32, &str)> = eps.iter().map(|e| (e.number, e.title.as_str())).collect();
    assert_eq!(got, vec![(1, "Show E01"), (3, "Show E03"), (3, "extras")]);
    assert_eq!(eps[0].path, "/tv/show/Show E01.mkv");
}

#[test]
fn xml_fields() {
    let nfo = "<movie><title> Nezha </title><year>2019</year><plot></plot><rating>8.5</rating></movie>";
    assert_eq!(extract_xml_field(nfo, "title"), Some("Nezha".to_string()));
    assert_eq!(extract_xml_field(nfo, "plot"), None);
    assert_eq!(extract_xml_field(nfo, "genre"), None);
    assert_eq!(extract_xml_field("<title>open only", "title"), None);
    let data = parse_nfo_text(nfo);
    assert_eq!(data.title, Some("Nezha".to_string()));
    assert_eq!(data.year, Some("2019".to_string()));
    assert_eq!(data.plot, None);
    assert_eq!(data.rating, Some("8.5".to_string()));
}

#[test]
fn item_kinds() {
    assert_eq!(item_kind(&item("a.MKV", "/v")), ItemKind::Video);
    assert_eq!(item_kind(&item("disc.iso", "/v")), ItemKind::Iso);
    assert_eq!(item_kind(&item("movie.nfo", "/v")), ItemKind::Nfo);
    assert_eq!(item_kind(&item("Movie-Poster.JPG", "/v")), ItemKind::Poster);
    assert_eq!(item_kind(&item("fanart.png", "/v")), ItemKind::Fanart);
    assert_eq!(item_kind(&item("cover.png", "/v")), ItemKind::Other);
    assert_eq!(item_kind(&item("README", "/v")), ItemKind::Other);
}

#[test]
fn movie_with_metadata() {
    let dir = "/videos/Nezha";
    let items = vec![
        item("nezha.mkv", dir),
        item("nezha.nfo", dir),
        item("poster.jpg", dir),
        item("fanart.jpg", dir),
        item("other-poster.jpg", dir),
    ];
    let scan = scan_directory(dir, &items);
    assert_eq!(scan.title, "Nezha");
    assert_eq!(scan.nfo_to_read(), Some("/videos/Nezha/nezha.nfo".to_string()));
    let nfo = NfoData { title: Some("T".to_string()), year: None, plot: None, rating: None };
    match video_entry_from_scan(&scan, Some(nfo)) {
        VideoEntry::MovieWithMeta { video_path, poster, fanart, nfo_data, title } => {
            assert_eq!(video_path, "/videos/Nezha/nezha.mkv");
            assert_eq!(poster, Some("/videos/Nezha/other-poster.jpg".to_string()));
            assert_eq!(fanart, Some("/videos/Nezha/fanart.jpg".to_string()));
            assert_eq!(nfo_data.unwrap().title, Some("T".to_string()));
            assert_eq!(title, "Nezha");
        }
        other => panic!("unexpected entry {:?}", other),
    }
}

#[test]
fn iso_series_and_empty_folders() {
    let dir = "/videos/Disc";
    let scan = scan_directory(dir, &vec![item("b.iso", dir), item("a.iso", dir), item("x.mkv", dir)]);
    assert_eq!(scan.nfo_to_read(), None);
    match video_entry_from_scan(&scan, None) {
        VideoEntry::IsoFile { path, title, nfo, poster } => {
            assert_eq!(path, "/videos/Disc/b.iso");
            assert_eq!(title, "Disc");
            assert_eq!(nfo, None);
            assert_eq!(poster, None);
        }
        other => panic!("unexpected entry {:?}", other),
    }

    let dir = "/videos/Show";
    let scan = scan_directory(
        dir,
        &vec![item("第2集.mp4", dir), item("第1集.mp4", dir), item("第3集.mp4", dir)],
    );
    match video_entry_from_scan(&scan, None) {
        VideoEntry::TvSeries { folder, title, episodes, poster } => {
            assert_eq!(folder, "/videos/Show");
            assert_eq!(title, "Show");
            assert_eq!(episodes.iter().map(|e| e.number).collect::<Vec<_>>(), vec![1, 2, 3]);
            assert_eq!(poster, None);
        }
        other => panic!("unexpected entry {:?}", other),
    }

    let dir = "/videos/Empty";
    let scan = scan_directory(dir, &vec![item("notes.txt", dir)]);
    match video_entry_from_scan(&scan, None) {
        VideoEntry::SingleFile { path, title } => {
            assert_eq!(path, "/videos/Empty");
            assert_eq!(title, "Empty");
        }
        other => panic!("unexpected entry {:?}", other),
    }
}

#[test]
fn single_file_and_bluray() {
    match single_file_entry("/videos/clip.final.mp4") {
        VideoEntry::SingleFile { path, title } => {
            assert_eq!(path, "/videos/clip.final.mp4");
            assert_eq!(title, "clip.final");
        }
        other => panic!("unexpected entry {:?}", other),
    }
    let streams = vec![
        StreamItem { path: "/bd/BDMV/STREAM/00001.m2ts".to_string(), size: Some(10) },
        StreamItem { path: "/bd/BDMV/STREAM/00002.M2TS".to_string(), size: Some(30) },
        StreamItem { path: "/bd/BDMV/STREAM/00003.m2ts".to_string(), size: Some(30) },
        StreamItem { path: "/bd/BDMV/STREAM/00004.mkv".to_string(), size: Some(99) },
        StreamItem { path: "/bd/BDMV/STREAM/00005.m2ts".to_string(), size: None },
    ];
    match bluray_entry("/bd", &streams) {
        VideoEntry::BluRay { folder, title, main_video } => {
            assert_eq!(folder, "/bd");
            assert_eq!(title, "bd");
            assert_eq!(main_video, Some("/bd/BDMV/STREAM/00002.M2TS".to_string()));
        }
        other => panic!("unexpected entry {:?}", other),
    }
    match bluray_entry("/bd", &vec![]) {
        VideoEntry::BluRay { main_video, .. } => assert_eq!(main_video, None),
        other => panic!("unexpected entry {:?}", other),
    }
}

#[test]
fn capture_steps_and_sources() {
    assert_eq!(capture_step(Err(())), CaptureStep::Stop);
    assert_eq!(capture_step(Ok(None)), CaptureStep::Next);
    assert_eq!(capture_step(Ok(Some("07".to_string()))), CaptureStep::Found(7));
    assert_eq!(capture_step(Ok(Some("99999999999".to_string()))), CaptureStep::Next);
    assert_eq!(video_source(true, true), VideoSource::File);
    assert_eq!(video_source(false, true), VideoSource::BluRay);
    assert_eq!(video_source(false, false), VideoSource::Folder);
}
