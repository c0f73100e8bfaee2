use home_nas::handlers::files::{
    list_entries, DirEntryRead,
    list_path, list_response, operation_paths, parse_operation, path_under_base,
    resolve_app_path, FileOp, MediaMetadata,
};
use home_nas::services::file_service::{
    check_directory, list_directory, video_metadata, wants_video_metadata, FileError, RawEntry,
};
use home_nas::services::media_service::{media_kind, MediaKind};
use home_nas::services::thumbnail_service::{
    make_thumbnail, plan_thumbnail, ThumbnailPlan,
    thumbnail_paths, video_thumbnail_candidates, ThumbnailError, THUMBNAIL_SIZE,
};
use home_nas::utils::video_detector::{NfoData, VideoEntry};

fn raw(name: &str, is_dir: bool, len: u64, modified: Option<Option<u64>>) -> RawEntry {
    RawEntry {
        name: name.to_string(),
        path: format!("/base/{}", name),
        is_dir,
        len,
        modified,
        media: None,
    }
}

fn meta(title: &str) -> MediaMetadata {
    MediaMetadata { title: Some(title.to_string()), poster: None, fanart: None, year: None, plot: None }
}

#[test]
fn listing_hides_dot_files_and_puts_directories_first() {
    let entries = vec![
        raw("notes.txt", false, 12, Some(Some(100))),
        raw(".hidden", false, 1, None),
        raw("Zeta", true, 4096, Some(None)),
        raw("Clip.MP4", false, 2048, None),
        raw("alpha", true, 4096, None),
        raw(".config", true, 0, None),
    ];
    let listed = list_directory(entries, "documents");
    let names: Vec<&str> = listed.iter().map(|e| e.name.as_str()).collect();
    assert_eq!(names, vec!["alpha", "Zeta", "Clip.MP4", "notes.txt"]);

    let zeta = &listed[1];
    assert!(zeta.is_dir);
    assert_eq!(zeta.size, None);
    assert_eq!(zeta.modified, Some(0));
    assert_eq!(zeta.mime_type, None);

    let clip = &listed[2];
    assert_eq!(clip.size, Some(2048));
    assert_eq!(clip.modified, None);
    assert_eq!(clip.mime_type, Some("video/mp4".to_string()));
    assert_eq!(clip.path, "/base/Clip.MP4");

    let notes = &listed[3];
    assert_eq!(notes.modified, Some(100));
    assert_eq!(notes.mime_type, Some("text/plain".to_string()));
    assert!(listed.iter().all(|e| e.thumbnail.is_none()));
}

#[test]
fn listing_sorts_names_without_case() {
    let entries = vec![
        raw("b", false, 0, None),
        raw("A", false, 0, None),
        raw("a", false, 0, None),
        raw("B", false, 0, None),
    ];
    let listed = list_directory(entries, "medias");
    let names: Vec<&str> = listed.iter().map(|e| e.name.as_str()).collect();
    assert_eq!(names, vec!["A", "a", "b", "B"]);
    assert!(list_directory(vec![], "medias").is_empty());
}

#[test]
fn video_folders_carry_metadata() {
    let mut show = raw("Show", true, 0, None);
    show.media = Some(meta("Show"));
    let mut file = raw("x.mkv", false, 1, None);
    file.media = Some(meta("ignored"));
    let listed = list_directory(vec![show.clone(), file.clone()], "videos");
    assert_eq!(listed[0].metadata.as_ref().unwrap().title, Some("Show".to_string()));
    assert!(listed[1].metadata.is_none());
    let listed = list_directory(vec![show, file], "music");
    assert!(listed[0].metadata.is_none());
    assert!(wants_video_metadata("videos", true));
    assert!(!wants_video_metadata("videos", false));
    assert!(!wants_video_metadata("music", true));
}

#[test]
fn metadata_from_video_entries() {
    let movie = VideoEntry::MovieWithMeta {
        video_path: "/v/m.mkv".to_string(),
        poster: Some("/v/poster.jpg".to_string()),
        fanart: None,
        nfo_data: Some(NfoData {
            title: Some("M".to_string()),
            year: Some("2001".to_string()),
            plot: None,
            rating: None,
        }),
        title: "m".to_string(),
    };
    let m = video_metadata(movie).unwrap();
    assert_eq!(m.title, Some("M".to_string()));
    assert_eq!(m.year, Some("2001".to_string()));
    assert_eq!(m.poster, Some("/v/poster.jpg".to_string()));

    let series = VideoEntry::TvSeries {
        folder: "/tv/s".to_string(),
        title: "S".to_string(),
        episodes: vec![],
        poster: None,
    };
    let m = video_metadata(series).unwrap();
    assert_eq!(m.title, Some("S".to_string()));
    assert_eq!(m.plot, None);

    let single = VideoEntry::SingleFile { path: "/v/a.mp4".to_string(), title: "a".to_string() };
    assert!(video_metadata(single).is_none());
}

#[test]
fn directory_checks() {
    assert_eq!(check_directory(false, false), Err(FileError::NotFound));
    assert_eq!(check_directory(true, false), Err(FileError::NotADirectory));
    assert_eq!(check_directory(true, true), Ok(()));
    assert_eq!(FileError::NotFound.message(), "Directory not found");
    assert_eq!(FileError::NotADirectory.message(), "Path is not a directory");
}

#[test]
fn paths_under_the_app_base() {
    assert_eq!(list_path("/mnt/data", ""), "/mnt/data");
    assert_eq!(list_path("/mnt/data", "/"), "/mnt/data");
    assert_eq!(list_path("/mnt/data", "/photos/2020"), "/mnt/data/photos/2020");
    assert_eq!(list_path("/mnt/data", "photos"), "/mnt/data/photos");
    assert_eq!(path_under_base("/b", "//x"), "/b/x");
    assert_eq!(path_under_base("/b", ""), "/b/");
    let (src, dst) = operation_paths("/b", "/a.txt", "/dir/a.txt");
    assert_eq!(src, "/b/a.txt");
    assert_eq!(dst, "/b/dir/a.txt");
    assert_eq!(resolve_app_path("/b", ""), "/b");
    assert_eq!(resolve_app_path("/b", "/x/y"), "/b/x/y");
    assert_eq!(resolve_app_path("/b/", "x"), "/b/x");
    assert_eq!(resolve_app_path("/b", "/"), "/b/");
}

#[test]
fn operations_by_name() {
    assert_eq!(parse_operation("copy"), Some(FileOp::Copy));
    assert_eq!(parse_operation("move"), Some(FileOp::Move));
    assert_eq!(parse_operation("Copy"), None);
    assert_eq!(parse_operation("delete"), None);
    let r = list_response(vec![], "/".to_string(), "medias".to_string());
    assert_eq!(r.total, 0);
    assert_eq!(r.app, "medias");
}

#[test]
fn media_kinds_by_extension() {
    assert_eq!(media_kind("/m/song.MP3"), MediaKind::Audio);
    assert_eq!(media_kind("/m/a.flac"), MediaKind::Audio);
    assert_eq!(media_kind("/m/a.aac"), MediaKind::Audio);
    assert_eq!(media_kind("/v/movie.mkv"), MediaKind::Video);
    assert_eq!(media_kind("/v/notes.txt"), MediaKind::Video);
    assert_eq!(media_kind("/v/README"), MediaKind::NoExtension);
}

#[test]
fn thumbnail_locations() {
    assert_eq!(
        thumbnail_paths("/media/pics/cat.png"),
        Ok((
            "/media/pics/.thumbnails".to_string(),
            "/media/pics/.thumbnails/cat.png.thumb.jpg".to_string()
        ))
    );
    assert_eq!(thumbnail_paths("/"), Err(ThumbnailError::InvalidPath));
    assert_eq!(thumbnail_paths(""), Err(ThumbnailError::InvalidPath));
    assert_eq!(thumbnail_paths("pics/.."), Err(ThumbnailError::InvalidFilename));
    assert_eq!(THUMBNAIL_SIZE, 300);
    assert_eq!(ThumbnailError::InvalidPath.message(), "Invalid path");
    assert_eq!(ThumbnailError::InvalidFilename.message(), "Invalid filename");
    assert_eq!(ThumbnailError::NoThumbnail.message(), "No thumbnail available");
}

#[test]
fn video_poster_candidates() {
    assert_eq!(
        video_thumbnail_candidates("/v/Movie.mkv"),
        Ok(vec![
            "/v/Movie-poster.jpg".to_string(),
            "/v/Movie.jpg".to_string(),
            "/v/poster.jpg".to_string(),
            "/v/folder.jpg".to_string(),
        ])
    );
    assert_eq!(video_thumbnail_candidates("/"), Err(ThumbnailError::InvalidPath));
}

#[test]
fn file_listing_keeps_every_entry_in_read_order() {
    let items = vec![
        DirEntryRead { name: "b.txt".to_string(), path: "/d/b.txt".to_string(), meta: Some((false, 5)) },
        DirEntryRead { name: ".hidden".to_string(), path: "/d/.hidden".to_string(), meta: Some((false, 1)) },
        DirEntryRead { name: "a".to_string(), path: "/d/a".to_string(), meta: Some((true, 4096)) },
        DirEntryRead { name: "gone".to_string(), path: "/d/gone".to_string(), meta: None },
    ];
    let l = list_entries(&items, "/sub".to_string(), "documents".to_string());
    assert_eq!(l.total, 4);
    let names: Vec<&str> = l.entries.iter().map(|e| e.name.as_str()).collect();
    assert_eq!(names, vec!["b.txt", ".hidden", "a", "gone"]);
    assert_eq!((l.entries[2].is_dir, l.entries[2].size), (true, Some(4096)));
    assert_eq!((l.entries[3].is_dir, l.entries[3].size), (false, None));
    assert_eq!(l.entries[0].path, "/d/b.txt");
    assert_eq!((l.path.as_str(), l.app.as_str()), ("/sub", "documents"));
    let empty = list_entries(&vec![], String::new(), "medias".to_string());
    assert_eq!(empty.total, 0);
    assert!(empty.entries.is_empty());
}

#[test]
fn thumbnails_are_reused_once_made() {
    match plan_thumbnail("/p/cat.png", false).unwrap() {
        ThumbnailPlan::Generate { dir, path } => {
            assert_eq!(dir, "/p/.thumbnails");
            assert_eq!(path, "/p/.thumbnails/cat.png.thumb.jpg");
        }
        other => panic!("unexpected {:?}", other),
    }
    match plan_thumbnail("/p/cat.png", true).unwrap() {
        ThumbnailPlan::Reuse(path) => assert_eq!(path, "/p/.thumbnails/cat.png.thumb.jpg"),
        other => panic!("unexpected {:?}", other),
    }
    assert_eq!(plan_thumbnail("/", true).unwrap_err(), ThumbnailError::InvalidPath);
}

#[test]
fn thumbnails_fit_within_the_size() {
    let (w, h) = (600u32, 150u32);
    let rgba = vec![200u8; (w * h * 4) as usize];
    let (tw, th, px) = make_thumbnail(w, h, &rgba);
    assert_eq!((tw, th), (300, 75));
    assert_eq!(px.len(), (tw * th * 4) as usize);
    assert!(px.iter().all(|&b| b == 200));
    let (tw, th, _) = make_thumbnail(10, 20, &vec![0u8; 800]);
    assert_eq!((tw, th), (150, 300));
}
