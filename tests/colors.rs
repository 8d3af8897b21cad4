use lsd_core::colors::{
    color_for_extension, get_color, Color, ARCHIVE_COLOR, AUDIO_COLOR, DIR_COLOR, FILE_COLOR,
    IMAGE_COLOR, VIDEO_COLOR,
};

const IMAGE_EXTENSIONS: &[&str] = &["jpg", "jpeg", "jpe", "png", "bmp", "svg", "eps", "gif", "ico", "webp"];
const AUDIO_EXTENSIONS: &[&str] = &["mp3", "oga", "opus", "m4a", "flac", "wav", "wma", "aac", "alac"];
const ARCHIVE_EXTENSIONS: &[&str] = &[
    "iso", "tar", "bz2", "gz", "lz", "lz4", "lzma", "lzo", "rz", "xz", "z", "zst", "7z", "s7z",
    "rar", "tgz", "tbz2", "tlz", "txz", "zip", "zipx", "jar",
];
const VIDEO_EXTENSIONS: &[&str] = &[
    "webm", "mkv", "flv", "vob", "ogv", "ogg", "gifv", "avi", "mov", "qt", "wmv", "mp4", "m4v",
    "mp2", "mpv",
];

#[test]
fn test_image_color() {
    for ext in IMAGE_EXTENSIONS {
        let path_as_string: String = format!["something.{}", ext];
        assert_eq!(get_color(&path_as_string, false), IMAGE_COLOR);
    }
}

#[test]
fn test_audio_color() {
    for ext in AUDIO_EXTENSIONS {
        let path_as_string: String = format!["something.{}", ext];
        assert_eq!(get_color(&path_as_string, false), AUDIO_COLOR);
    }
}

#[test]
fn test_archive_color() {
    for ext in ARCHIVE_EXTENSIONS {
        let path_as_string: String = format!["something.{}", ext];
        assert_eq!(get_color(&path_as_string, false), ARCHIVE_COLOR);
    }
}

#[test]
fn test_video_color() {
    for ext in VIDEO_EXTENSIONS {
        let path_as_string: String = format!["something.{}", ext];
        assert_eq!(get_color(&path_as_string, false), VIDEO_COLOR);
    }
}

#[test]
fn color_ignores_case_of_extension() {
    assert_eq!(get_color("PHOTO.JPG", false), IMAGE_COLOR);
    assert_eq!(get_color("dir/Song.Mp3", false), AUDIO_COLOR);
    assert_eq!(get_color("backup.TAR.GZ", false), ARCHIVE_COLOR);
}

#[test]
fn color_of_directory_wins_over_extension() {
    assert_eq!(get_color("pictures.jpg", true), DIR_COLOR);
    assert_eq!(DIR_COLOR, Color::Blue);
}

#[test]
fn color_default_for_unknown_or_missing_extension() {
    assert_eq!(get_color("notes.txt", false), FILE_COLOR);
    assert_eq!(get_color("Makefile", false), FILE_COLOR);
    assert_eq!(get_color(".bashrc", false), FILE_COLOR);
    assert_eq!(get_color("", false), FILE_COLOR);
}

#[test]
fn color_uses_last_extension_only() {
    assert_eq!(get_color("movie.mp4.txt", false), FILE_COLOR);
    assert_eq!(get_color("archive.txt.zip", false), ARCHIVE_COLOR);
}

#[test]
fn color_for_lowercase_extension() {
    assert_eq!(color_for_extension("png"), IMAGE_COLOR);
    assert_eq!(color_for_extension("flac"), AUDIO_COLOR);
    assert_eq!(color_for_extension("zst"), ARCHIVE_COLOR);
    assert_eq!(color_for_extension("mkv"), VIDEO_COLOR);
    assert_eq!(color_for_extension("PNG"), FILE_COLOR);
    assert_eq!(color_for_extension(""), FILE_COLOR);
}
