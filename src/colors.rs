//! Colour classification of listed entries by kind and file extension.

use vstd::prelude::*;

verus! {

/// Terminal colour in which an entry name is shown.
#[derive(Clone, Copy, PartialEq, Eq, Structural, Debug)]
pub enum Color {
    Blue,
    White,
    Magenta,
    Cyan,
    Red,
}

pub const DIR_COLOR: Color = Color::Blue;

pub const FILE_COLOR: Color = Color::White;

pub const IMAGE_COLOR: Color = Color::Magenta;

pub const AUDIO_COLOR: Color = Color::Cyan;

pub const ARCHIVE_COLOR: Color = Color::Red;

pub const VIDEO_COLOR: Color = Color::Magenta;

/// Lowercase extensions of photographs and drawings.
pub open spec fn image_table() -> Seq<Seq<char>> {
    seq![
        "jpg"@, "jpeg"@, "jpe"@, "png"@, "bmp"@, "svg"@, "eps"@, "gif"@, "ico"@, "webp"@,
    ]
}

/// Lowercase extensions of sound recordings.
pub open spec fn audio_table() -> Seq<Seq<char>> {
    seq![
        "mp3"@, "oga"@, "opus"@, "m4a"@, "flac"@, "wav"@, "wma"@, "aac"@, "alac"@,
    ]
}

/// Lowercase extensions of archives and compressed files.
pub open spec fn archive_table() -> Seq<Seq<char>> {
    seq![
        "iso"@, "tar"@, "bz2"@, "gz"@, "lz"@, "lz4"@, "lzma"@, "lzo"@, "rz"@, "xz"@, "z"@, "zst"@,
        "7z"@, "s7z"@, "rar"@, "tgz"@, "tbz2"@, "tlz"@, "txz"@, "zip"@, "zipx"@, "jar"@,
    ]
}

/// Lowercase extensions of moving pictures.
pub open spec fn video_table() -> Seq<Seq<char>> {
    seq![
        "webm"@, "mkv"@, "flv"@, "vob"@, "ogv"@, "ogg"@, "gifv"@, "avi"@, "mov"@, "qt"@, "wmv"@,
        "mp4"@, "m4v"@, "mp2"@, "mpv"@,
    ]
}

/// Colour of a lowercase extension: the first table that holds it decides.
pub open spec fn ext_color(e: Seq<char>) -> Color {
    if image_table().contains(e) {
        IMAGE_COLOR
    } else if audio_table().contains(e) {
        AUDIO_COLOR
    } else if archive_table().contains(e) {
        ARCHIVE_COLOR
    } else if video_table().contains(e) {
        VIDEO_COLOR
    } else {
        FILE_COLOR
    }
}

/// Extension of a path as `std::path::Path::extension` reads it.
pub uninterp spec fn extension_of(p: Seq<char>) -> Option<Seq<char>>;

/// Lowercase form of a string as `str::to_lowercase` computes it.
pub uninterp spec fn lower_of(s: Seq<char>) -> Seq<char>;

/// Colour of an entry: directories have their own colour, everything else
/// goes by its lowercased extension.
pub open spec fn path_color(p: Seq<char>, is_dir: bool) -> Color {
    if is_dir {
        DIR_COLOR
    } else {
        match extension_of(p) {
            None => FILE_COLOR,
            Some(e) => ext_color(lower_of(e)),
        }
    }
}

/// Relies on `std::path::Path::extension`: the text after the last dot of the
/// final component, if any.
#[verifier::external_body]
fn path_extension(path: &str) -> (r: Option<String>)
    ensures
        match r {
            None => extension_of(path@) is None,
            Some(e) => extension_of(path@) == Some(e@),
        },
{
    std::path::Path::new(path).extension().and_then(|e| e.to_str()).map(|e| e.to_string())
}

/// Relies on `str::to_lowercase`: the result depends on the characters alone.
#[verifier::external_body]
fn lowercase(s: &str) -> (r: String)
    ensures
        r@ == lower_of(s@),
{
    s.to_lowercase()
}

/// Whether two strings hold the same characters.
pub fn str_equals(a: &str, b: &str) -> (r: bool)
    ensures
        r == (a@ == b@),
{
    let n = a.unicode_len();
    if n != b.unicode_len() {
        return false;
    }
    let mut i: usize = 0;
    while i < n
        invariant
            n == a@.len(),
            n == b@.len(),
            i <= n,
            forall|j: int| 0 <= j < i ==> a@[j] == b@[j],
        decreases n - i,
    {
        if a.get_char(i) != b.get_char(i) {
            return false;
        }
        i = i + 1;
    }
    assert(a@ =~= b@);
    true
}

/// Whether a lowercase extension is in the image table; likewise below for
/// the other tables.
fn in_image_table(e: &str) -> (r: bool)
    ensures
        r == image_table().contains(e@),
{
    let ghost t = image_table();
    if str_equals(e, "jpg") {
        assert(t[0] == e@);
        return true;
    }
    if str_equals(e, "jpeg") {
        assert(t[1] == e@);
        return true;
    }
    if str_equals(e, "jpe") {
        assert(t[2] == e@);
        return true;
    }
    if str_equals(e, "png") {
        assert(t[3] == e@);
        return true;
    }
    if str_equals(e, "bmp") {
        assert(t[4] == e@);
        return true;
    }
    if str_equals(e, "svg") {
        assert(t[5] == e@);
        return true;
    }
    if str_equals(e, "eps") {
        assert(t[6] == e@);
        return true;
    }
    if str_equals(e, "gif") {
        assert(t[7] == e@);
        return true;
    }
    if str_equals(e, "ico") {
        assert(t[8] == e@);
        return true;
    }
    if str_equals(e, "webp") {
        assert(t[9] == e@);
        return true;
    }
    assert forall|i: int| 0 <= i < t.len() implies t[i] != e@ by {
        if i == 0 {
        } else if i == 1 {
        } else if i == 2 {
        } else if i == 3 {
        } else if i == 4 {
        } else if i == 5 {
        } else if i == 6 {
        } else if i == 7 {
        } else if i == 8 {
        } else {
        }
    }
    false
}

fn in_audio_table(e: &str) -> (r: bool)
    ensures
        r == audio_table().contains(e@),
{
    let ghost t = audio_table();
    if str_equals(e, "mp3") {
        assert(t[0] == e@);
        return true;
    }
    if str_equals(e, "oga") {
        assert(t[1] == e@);
        return true;
    }
    if str_equals(e, "opus") {
        assert(t[2] == e@);
        return true;
    }
    if str_equals(e, "m4a") {
        assert(t[3] == e@);
        return true;
    }
    if str_equals(e, "flac") {
        assert(t[4] == e@);
        return true;
    }
    if str_equals(e, "wav") {
        assert(t[5] == e@);
        return true;
    }
    if str_equals(e, "wma") {
        assert(t[6] == e@);
        return true;
    }
    if str_equals(e, "aac") {
        assert(t[7] == e@);
        return true;
    }
    if str_equals(e, "alac") {
        assert(t[8] == e@);
        return true;
    }
    assert forall|i: int| 0 <= i < t.len() implies t[i] != e@ by {
        if i == 0 {
        } else if i == 1 {
        } else if i == 2 {
        } else if i == 3 {
        } else if i == 4 {
        } else if i == 5 {
        } else if i == 6 {
        } else if i == 7 {
        } else {
        }
    }
    false
}

fn in_archive_table(e: &str) -> (r: bool)
    ensures
        r == archive_table().contains(e@),
{
    let ghost t = archive_table();
    if str_equals(e, "iso") {
        assert(t[0] == e@);
        return true;
    }
    if str_equals(e, "tar") {
        assert(t[1] == e@);
        return true;
    }
    if str_equals(e, "bz2") {
        assert(t[2] == e@);
        return true;
    }
    if str_equals(e, "gz") {
        assert(t[3] == e@);
        return true;
    }
    if str_equals(e, "lz") {
        assert(t[4] == e@);
        return true;
    }
    if str_equals(e, "lz4") {
        assert(t[5] == e@);
        return true;
    }
    if str_equals(e, "lzma") {
        assert(t[6] == e@);
        return true;
    }
    if str_equals(e, "lzo") {
        assert(t[7] == e@);
        return true;
    }
    if str_equals(e, "rz") {
        assert(t[8] == e@);
        return true;
    }
    if str_equals(e, "xz") {
        assert(t[9] == e@);
        return true;
    }
    if str_equals(e, "z") {
        assert(t[10] == e@);
        return true;
    }
    if str_equals(e, "zst") {
        assert(t[11] == e@);
        return true;
    }
    if str_equals(e, "7z") {
        assert(t[12] == e@);
        return true;
    }
    if str_equals(e, "s7z") {
        assert(t[13] == e@);
        return true;
    }
    if str_equals(e, "rar") {
        assert(t[14] == e@);
        return true;
    }
    if str_equals(e, "tgz") {
        assert(t[15] == e@);
        return true;
    }
    if str_equals(e, "tbz2") {
        assert(t[16] == e@);
        return true;
    }
    if str_equals(e, "tlz") {
        assert(t[17] == e@);
        return true;
    }
    if str_equals(e, "txz") {
        assert(t[18] == e@);
        return true;
    }
    if str_equals(e, "zip") {
        assert(t[19] == e@);
        return true;
    }
    if str_equals(e, "zipx") {
        assert(t[20] == e@);
        return true;
    }
    if str_equals(e, "jar") {
        assert(t[21] == e@);
        return true;
    }
    assert forall|i: int| 0 <= i < t.len() implies t[i] != e@ by {
        if i == 0 {
        } else if i == 1 {
        } else if i == 2 {
        } else if i == 3 {
        } else if i == 4 {
        } else if i == 5 {
        } else if i == 6 {
        } else if i == 7 {
        } else if i == 8 {
        } else if i == 9 {
        } else if i == 10 {
        } else if i == 11 {
        } else if i == 12 {
        } else if i == 13 {
        } else if i == 14 {
        } else if i == 15 {
        } else if i == 16 {
        } else if i == 17 {
        } else if i == 18 {
        } else if i == 19 {
        } else if i == 20 {
        } else {
        }
    }
    false
}

fn in_video_table(e: &str) -> (r: bool)
    ensures
        r == video_table().contains(e@),
{
    let ghost t = video_table();
    if str_equals(e, "webm") {
        assert(t[0] == e@);
        return true;
    }
    if str_equals(e, "mkv") {
        assert(t[1] == e@);
        return true;
    }
    if str_equals(e, "flv") {
        assert(t[2] == e@);
        return true;
    }
    if str_equals(e, "vob") {
        assert(t[3] == e@);
        return true;
    }
    if str_equals(e, "ogv") {
        assert(t[4] == e@);
        return true;
    }
    if str_equals(e, "ogg") {
        assert(t[5] == e@);
        return true;
    }
    if str_equals(e, "gifv") {
        assert(t[6] == e@);
        return true;
    }
    if str_equals(e, "avi") {
        assert(t[7] == e@);
        return true;
    }
    if str_equals(e, "mov") {
        assert(t[8] == e@);
        return true;
    }
    if str_equals(e, "qt") {
        assert(t[9] == e@);
        return true;
    }
    if str_equals(e, "wmv") {
        assert(t[10] == e@);
        return true;
    }
    if str_equals(e, "mp4") {
        assert(t[11] == e@);
        return true;
    }
    if str_equals(e, "m4v") {
        assert(t[12] == e@);
        return true;
    }
    if str_equals(e, "mp2") {
        assert(t[13] == e@);
        return true;
    }
    if str_equals(e, "mpv") {
        assert(t[14] == e@);
        return true;
    }
    assert forall|i: int| 0 <= i < t.len() implies t[i] != e@ by {
        if i == 0 {
        } else if i == 1 {
        } else if i == 2 {
        } else if i == 3 {
        } else if i == 4 {
        } else if i == 5 {
        } else if i == 6 {
        } else if i == 7 {
        } else if i == 8 {
        } else if i == 9 {
        } else if i == 10 {
        } else if i == 11 {
        } else if i == 12 {
        } else if i == 13 {
        } else {
        }
    }
    false
}


/// Two short words that differ in length or in one of their first four letters.
spec fn differs(a: Seq<char>, b: Seq<char>) -> bool {
    a.len() != b.len() || a[0] != b[0] || a[1] != b[1] || a[2] != b[2] || a[3] != b[3]
}


/// No audio extension is also an image extension.
proof fn lemma_audio_image_disjoint(e: Seq<char>)
    requires
        audio_table().contains(e),
    ensures
        !image_table().contains(e),
{
    reveal_strlit("jpg");
    reveal_strlit("jpeg");
    reveal_strlit("jpe");
    reveal_strlit("png");
    reveal_strlit("bmp");
    reveal_strlit("svg");
    reveal_strlit("eps");
    reveal_strlit("gif");
    reveal_strlit("ico");
    reveal_strlit("webp");
    reveal_strlit("mp3");
    reveal_strlit("oga");
    reveal_strlit("opus");
    reveal_strlit("m4a");
    reveal_strlit("flac");
    reveal_strlit("wav");
    reveal_strlit("wma");
    reveal_strlit("aac");
    reveal_strlit("alac");
    let ta = image_table();
    let tb = audio_table();
    let j = choose|j: int| 0 <= j < tb.len() && tb[j] == e;
    assert forall|i: int| 0 <= i < ta.len() implies differs(#[trigger] ta[i], e) by {
        if j == 0 {
        } else if j == 1 {
        } else if j == 2 {
        } else if j == 3 {
        } else if j == 4 {
        } else if j == 5 {
        } else if j == 6 {
        } else if j == 7 {
        } else {
        }
        if i == 0 {
        } else if i == 1 {
        } else if i == 2 {
        } else if i == 3 {
        } else if i == 4 {
        } else if i == 5 {
        } else if i == 6 {
        } else if i == 7 {
        } else if i == 8 {
        } else {
        }
    }
}

/// No archive extension is also an image extension.
proof fn lemma_archive_image_disjoint(e: Seq<char>)
    requires
        archive_table().contains(e),
    ensures
        !image_table().contains(e),
{
    reveal_strlit("jpg");
    reveal_strlit("jpeg");
    reveal_strlit("jpe");
    reveal_strlit("png");
    reveal_strlit("bmp");
    reveal_strlit("svg");
    reveal_strlit("eps");
    reveal_strlit("gif");
    reveal_strlit("ico");
    reveal_strlit("webp");
    reveal_strlit("iso");
    reveal_strlit("tar");
    reveal_strlit("bz2");
    reveal_strlit("gz");
    reveal_strlit("lz");
    reveal_strlit("lz4");
    reveal_strlit("lzma");
    reveal_strlit("lzo");
    reveal_strlit("rz");
    reveal_strlit("xz");
    reveal_strlit("z");
    reveal_strlit("zst");
    reveal_strlit("7z");
    reveal_strlit("s7z");
    reveal_strlit("rar");
    reveal_strlit("tgz");
    reveal_strlit("tbz2");
    reveal_strlit("tlz");
    reveal_strlit("txz");
    reveal_strlit("zip");
    reveal_strlit("zipx");
    reveal_strlit("jar");
    let ta = image_table();
    let tb = archive_table();
    let j = choose|j: int| 0 <= j < tb.len() && tb[j] == e;
    assert forall|i: int| 0 <= i < ta.len() implies differs(#[trigger] ta[i], e) by {
        if j == 0 {
        } else if j == 1 {
        } else if j == 2 {
        } else if j == 3 {
        } else if j == 4 {
        } else if j == 5 {
        } else if j == 6 {
        } else if j == 7 {
        } else if j == 8 {
        } else if j == 9 {
        } else if j == 10 {
        } else if j == 11 {
        } else if j == 12 {
        } else if j == 13 {
        } else if j == 14 {
        } else if j == 15 {
        } else if j == 16 {
        } else if j == 17 {
        } else if j == 18 {
        } else if j == 19 {
        } else if j == 20 {
        } else {
        }
        if i == 0 {
        } else if i == 1 {
        } else if i == 2 {
        } else if i == 3 {
        } else if i == 4 {
        } else if i == 5 {
        } else if i == 6 {
        } else if i == 7 {
        } else if i == 8 {
        } else {
        }
    }
}

/// No video extension is also an image extension.
proof fn lemma_video_image_disjoint(e: Seq<char>)
    requires
        video_table().contains(e),
    ensures
        !image_table().contains(e),
{
    reveal_strlit("jpg");
    reveal_strlit("jpeg");
    reveal_strlit("jpe");
    reveal_strlit("png");
    reveal_strlit("bmp");
    reveal_strlit("svg");
    reveal_strlit("eps");
    reveal_strlit("gif");
    reveal_strlit("ico");
    reveal_strlit("webp");
    reveal_strlit("webm");
    reveal_strlit("mkv");
    reveal_strlit("flv");
    reveal_strlit("vob");
    reveal_strlit("ogv");
    reveal_strlit("ogg");
    reveal_strlit("gifv");
    reveal_strlit("avi");
    reveal_strlit("mov");
    reveal_strlit("qt");
    reveal_strlit("wmv");
    reveal_strlit("mp4");
    reveal_strlit("m4v");
    reveal_strlit("mp2");
    reveal_strlit("mpv");
    let ta = image_table();
    let tb = video_table();
    let j = choose|j: int| 0 <= j < tb.len() && tb[j] == e;
    assert forall|i: int| 0 <= i < ta.len() implies differs(#[trigger] ta[i], e) by {
        if j == 0 {
        } else if j == 1 {
        } else if j == 2 {
        } else if j == 3 {
        } else if j == 4 {
        } else if j == 5 {
        } else if j == 6 {
        } else if j == 7 {
        } else if j == 8 {
        } else if j == 9 {
        } else if j == 10 {
        } else if j == 11 {
        } else if j == 12 {
        } else if j == 13 {
        } else {
        }
        if i == 0 {
        } else if i == 1 {
        } else if i == 2 {
        } else if i == 3 {
        } else if i == 4 {
        } else if i == 5 {
        } else if i == 6 {
        } else if i == 7 {
        } else if i == 8 {
        } else {
        }
    }
}

/// No archive extension is also an audio extension.
proof fn lemma_archive_audio_disjoint(e: Seq<char>)
    requires
        archive_table().contains(e),
    ensures
        !audio_table().contains(e),
{
    reveal_strlit("mp3");
    reveal_strlit("oga");
    reveal_strlit("opus");
    reveal_strlit("m4a");
    reveal_strlit("flac");
    reveal_strlit("wav");
    reveal_strlit("wma");
    reveal_strlit("aac");
    reveal_strlit("alac");
    reveal_strlit("iso");
    reveal_strlit("tar");
    reveal_strlit("bz2");
    reveal_strlit("gz");
    reveal_strlit("lz");
    reveal_strlit("lz4");
    reveal_strlit("lzma");
    reveal_strlit("lzo");
    reveal_strlit("rz");
    reveal_strlit("xz");
    reveal_strlit("z");
    reveal_strlit("zst");
    reveal_strlit("7z");
    reveal_strlit("s7z");
    reveal_strlit("rar");
    reveal_strlit("tgz");
    reveal_strlit("tbz2");
    reveal_strlit("tlz");
    reveal_strlit("txz");
    reveal_strlit("zip");
    reveal_strlit("zipx");
    reveal_strlit("jar");
    let ta = audio_table();
    let tb = archive_table();
    let j = choose|j: int| 0 <= j < tb.len() && tb[j] == e;
    assert forall|i: int| 0 <= i < ta.len() implies differs(#[trigger] ta[i], e) by {
        if j == 0 {
        } else if j == 1 {
        } else if j == 2 {
        } else if j == 3 {
        } else if j == 4 {
        } else if j == 5 {
        } else if j == 6 {
        } else if j == 7 {
        } else if j == 8 {
        } else if j == 9 {
        } else if j == 10 {
        } else if j == 11 {
        } else if j == 12 {
        } else if j == 13 {
        } else if j == 14 {
        } else if j == 15 {
        } else if j == 16 {
        } else if j == 17 {
        } else if j == 18 {
        } else if j == 19 {
        } else if j == 20 {
        } else {
        }
        if i == 0 {
        } else if i == 1 {
        } else if i == 2 {
        } else if i == 3 {
        } else if i == 4 {
        } else if i == 5 {
        } else if i == 6 {
        } else if i == 7 {
        } else {
        }
    }
}

/// No video extension is also an audio extension.
proof fn lemma_video_audio_disjoint(e: Seq<char>)
    requires
        video_table().contains(e),
    ensures
        !audio_table().contains(e),
{
    reveal_strlit("mp3");
    reveal_strlit("oga");
    reveal_strlit("opus");
    reveal_strlit("m4a");
    reveal_strlit("flac");
    reveal_strlit("wav");
    reveal_strlit("wma");
    reveal_strlit("aac");
    reveal_strlit("alac");
    reveal_strlit("webm");
    reveal_strlit("mkv");
    reveal_strlit("flv");
    reveal_strlit("vob");
    reveal_strlit("ogv");
    reveal_strlit("ogg");
    reveal_strlit("gifv");
    reveal_strlit("avi");
    reveal_strlit("mov");
    reveal_strlit("qt");
    reveal_strlit("wmv");
    reveal_strlit("mp4");
    reveal_strlit("m4v");
    reveal_strlit("mp2");
    reveal_strlit("mpv");
    let ta = audio_table();
    let tb = video_table();
    let j = choose|j: int| 0 <= j < tb.len() && tb[j] == e;
    assert forall|i: int| 0 <= i < ta.len() implies differs(#[trigger] ta[i], e) by {
        if j == 0 {
        } else if j == 1 {
        } else if j == 2 {
        } else if j == 3 {
        } else if j == 4 {
        } else if j == 5 {
        } else if j == 6 {
        } else if j == 7 {
        } else if j == 8 {
        } else if j == 9 {
        } else if j == 10 {
        } else if j == 11 {
        } else if j == 12 {
        } else if j == 13 {
        } else {
        }
        if i == 0 {
        } else if i == 1 {
        } else if i == 2 {
        } else if i == 3 {
        } else if i == 4 {
        } else if i == 5 {
        } else if i == 6 {
        } else if i == 7 {
        } else {
        }
    }
}

/// No video extension is also an archive extension.
proof fn lemma_video_archive_disjoint(e: Seq<char>)
    requires
        video_table().contains(e),
    ensures
        !archive_table().contains(e),
{
    reveal_strlit("iso");
    reveal_strlit("tar");
    reveal_strlit("bz2");
    reveal_strlit("gz");
    reveal_strlit("lz");
    reveal_strlit("lz4");
    reveal_strlit("lzma");
    reveal_strlit("lzo");
    reveal_strlit("rz");
    reveal_strlit("xz");
    reveal_strlit("z");
    reveal_strlit("zst");
    reveal_strlit("7z");
    reveal_strlit("s7z");
    reveal_strlit("rar");
    reveal_strlit("tgz");
    reveal_strlit("tbz2");
    reveal_strlit("tlz");
    reveal_strlit("txz");
    reveal_strlit("zip");
    reveal_strlit("zipx");
    reveal_strlit("jar");
    reveal_strlit("webm");
    reveal_strlit("mkv");
    reveal_strlit("flv");
    reveal_strlit("vob");
    reveal_strlit("ogv");
    reveal_strlit("ogg");
    reveal_strlit("gifv");
    reveal_strlit("avi");
    reveal_strlit("mov");
    reveal_strlit("qt");
    reveal_strlit("wmv");
    reveal_strlit("mp4");
    reveal_strlit("m4v");
    reveal_strlit("mp2");
    reveal_strlit("mpv");
    let ta = archive_table();
    let tb = video_table();
    let j = choose|j: int| 0 <= j < tb.len() && tb[j] == e;
    assert forall|i: int| 0 <= i < ta.len() implies differs(#[trigger] ta[i], e) by {
        if j == 0 {
        } else if j == 1 {
        } else if j == 2 {
        } else if j == 3 {
        } else if j == 4 {
        } else if j == 5 {
        } else if j == 6 {
        } else if j == 7 {
        } else if j == 8 {
        } else if j == 9 {
        } else if j == 10 {
        } else if j == 11 {
        } else if j == 12 {
        } else if j == 13 {
        } else {
        }
        if i == 0 {
        } else if i == 1 {
        } else if i == 2 {
        } else if i == 3 {
        } else if i == 4 {
        } else if i == 5 {
        } else if i == 6 {
        } else if i == 7 {
        } else if i == 8 {
        } else if i == 9 {
        } else if i == 10 {
        } else if i == 11 {
        } else if i == 12 {
        } else if i == 13 {
        } else if i == 14 {
        } else if i == 15 {
        } else if i == 16 {
        } else if i == 17 {
        } else if i == 18 {
        } else if i == 19 {
        } else if i == 20 {
        } else {
        }
    }
}

/// Each extension of the image, audio, archive and video tables is shown in
/// the colour of its own category.
pub proof fn lemma_table_colors(e: Seq<char>)
    ensures
        image_table().contains(e) ==> ext_color(e) == IMAGE_COLOR,
        audio_table().contains(e) ==> ext_color(e) == AUDIO_COLOR,
        archive_table().contains(e) ==> ext_color(e) == ARCHIVE_COLOR,
        video_table().contains(e) ==> ext_color(e) == VIDEO_COLOR,
{
    if audio_table().contains(e) {
        lemma_audio_image_disjoint(e);
    }
    if archive_table().contains(e) {
        lemma_archive_image_disjoint(e);
        lemma_archive_audio_disjoint(e);
    }
    if video_table().contains(e) {
        lemma_video_image_disjoint(e);
        lemma_video_audio_disjoint(e);
        lemma_video_archive_disjoint(e);
    }
}


/// Colour of an extension that is already in lowercase.
pub fn color_for_extension(ext: &str) -> (r: Color)
    ensures
        r == ext_color(ext@),
{
    if in_image_table(ext) {
        IMAGE_COLOR
    } else if in_audio_table(ext) {
        AUDIO_COLOR
    } else if in_archive_table(ext) {
        ARCHIVE_COLOR
    } else if in_video_table(ext) {
        VIDEO_COLOR
    } else {
        FILE_COLOR
    }
}

/// Colour in which the entry at `path` is shown; `is_dir` tells whether the
/// path, followed through links, is a directory.
pub fn get_color(path: &str, is_dir: bool) -> (r: Color)
    ensures
        r == path_color(path@, is_dir),
{
    if is_dir {
        return DIR_COLOR;
    }
    match path_extension(path) {
        None => FILE_COLOR,
        Some(ext) => {
            let lower = lowercase(ext.as_str());
            color_for_extension(lower.as_str())
        },
    }
}

/// A directory is shown in the directory colour whatever its name; a file
/// whose extension is in no table, or that has none, in the default colour;
/// and extensions that agree once lowercased give the same colour.
pub proof fn lemma_classifier(p: Seq<char>, q: Seq<char>)
    ensures
        path_color(p, true) == DIR_COLOR,
        extension_of(p) is None ==> path_color(p, false) == FILE_COLOR,
        (extension_of(p) matches Some(e) && !image_table().contains(lower_of(e))
            && !audio_table().contains(lower_of(e)) && !archive_table().contains(lower_of(e))
            && !video_table().contains(lower_of(e))) ==> path_color(p, false) == FILE_COLOR,
        (extension_of(p) matches Some(e) && extension_of(q) matches Some(f) && lower_of(e)
            == lower_of(f)) ==> path_color(p, false) == path_color(q, false),
{
}

} // verus!
