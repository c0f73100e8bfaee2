pub mod music_parser;
pub mod video_detector;
