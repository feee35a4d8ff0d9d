//! Entry classification: every archive entry is tagged by its path alone.
//!
//! An entry is media when it lies under the kind's directory prefix
//! (`Images/`, `Audio/`, `Video/`, case-sensitive) and its file extension,
//! matched ASCII-case-insensitively, belongs to the kind's supported set.
//! The literal path `content.xml` is the manifest; everything else is `Other`.
//!
//! Paths are treated as plain forward-slash separated text: the file name is
//! what follows the last `/`, and the extension is what follows the last `.`
//! of the file name, provided that `.` is not its first character.

use vstd::prelude::*;

use crate::text::{
    find_last, last_index_of, lemma_last_index_concat_free, lemma_last_index_of, seq_lower,
    starts_with, str_eq, str_starts_with, str_to_lower,
};

verus! {

#[derive(Clone, Copy, Debug, PartialEq, Eq)]
pub enum EntryKind {
    Image,
    Audio,
    Video,
    Manifest,
    Other,
}

#[derive(Debug, PartialEq, Eq)]
pub enum AudioFormat {
    Mp3,
}

#[derive(Debug, PartialEq, Eq)]
pub enum VideoFormat {
    Mp4,
    Mov,
    Avi,
    Mkv,
}

/// The file-name component of a path: everything after the last `/`.
pub open spec fn file_name_of(p: Seq<char>) -> Seq<char> {
    p.subrange(last_index_of(p, '/') + 1, p.len() as int)
}

/// The extension of a path, when its file name has a `.` that is neither
/// missing nor leading.
pub open spec fn spec_ext(p: Seq<char>) -> Option<Seq<char>> {
    let f = file_name_of(p);
    let d = last_index_of(f, '.');
    if d <= 0 {
        None
    } else {
        Some(f.subrange(d + 1, f.len() as int))
    }
}

/// The extension of `path`, or `None` when the file name has no usable one.
pub fn ext_of(path: &str) -> (r: Option<String>)
    ensures
        match r {
            Some(e) => spec_ext(path@) == Some(e@),
            None => spec_ext(path@) is None,
        },
{
    let n = path.unicode_len();
    let base: usize = match find_last(path, '/') {
        Some(i) => i + 1,
        None => 0,
    };
    proof {
        lemma_last_index_of(path@, '/');
        assert(base == last_index_of(path@, '/') + 1);
    }
    let fname = path.substring_char(base, n);
    proof {
        assert(fname@ =~= file_name_of(path@));
    }
    let fn_len = fname.unicode_len();
    match find_last(fname, '.') {
        Some(d) => {
            if d == 0 {
                None
            } else {
                let e = fname.substring_char(d + 1, fn_len);
                Some(e.to_owned())
            }
        },
        None => None,
    }
}

pub open spec fn is_image_ext(e: Seq<char>) -> bool {
    ||| seq_lower(e) == "jpg"@
    ||| seq_lower(e) == "jpeg"@
    ||| seq_lower(e) == "png"@
    ||| seq_lower(e) == "webp"@
}

pub open spec fn is_audio_ext(e: Seq<char>) -> bool {
    seq_lower(e) == "mp3"@
}

pub open spec fn is_video_ext(e: Seq<char>) -> bool {
    ||| seq_lower(e) == "mp4"@
    ||| seq_lower(e) == "mov"@
    ||| seq_lower(e) == "avi"@
    ||| seq_lower(e) == "mkv"@
    ||| seq_lower(e) == "wmv"@
    ||| seq_lower(e) == "webm"@
}

pub open spec fn spec_is_supported_image(p: Seq<char>) -> bool {
    match spec_ext(p) {
        Some(e) => is_image_ext(e),
        None => false,
    }
}

pub open spec fn spec_is_supported_audio(p: Seq<char>) -> bool {
    match spec_ext(p) {
        Some(e) => is_audio_ext(e),
        None => false,
    }
}

pub open spec fn spec_is_supported_video(p: Seq<char>) -> bool {
    match spec_ext(p) {
        Some(e) => is_video_ext(e),
        None => false,
    }
}

/// An image entry can be recompressed when its extension is one of
/// jpg, jpeg, png, webp (any letter case).
pub fn is_supported_image(filename: &str) -> (r: bool)
    ensures
        r == spec_is_supported_image(filename@),
{
    match ext_of(filename) {
        Some(e) => {
            let low = str_to_lower(e.as_str());
            str_eq(low.as_str(), "jpg") || str_eq(low.as_str(), "jpeg") || str_eq(
                low.as_str(),
                "png",
            ) || str_eq(low.as_str(), "webp")
        },
        None => false,
    }
}

/// An audio entry can be recompressed when its extension is mp3 (any letter case).
pub fn is_supported_audio(filename: &str) -> (r: bool)
    ensures
        r == spec_is_supported_audio(filename@),
{
    match ext_of(filename) {
        Some(e) => {
            let low = str_to_lower(e.as_str());
            str_eq(low.as_str(), "mp3")
        },
        None => false,
    }
}

/// A video entry can be recompressed when its extension is one of
/// mp4, mov, avi, mkv, wmv, webm (any letter case).
pub fn is_supported_video(filename: &str) -> (r: bool)
    ensures
        r == spec_is_supported_video(filename@),
{
    match ext_of(filename) {
        Some(e) => {
            let low = str_to_lower(e.as_str());
            str_eq(low.as_str(), "mp4") || str_eq(low.as_str(), "mov") || str_eq(
                low.as_str(),
                "avi",
            ) || str_eq(low.as_str(), "mkv") || str_eq(low.as_str(), "wmv") || str_eq(
                low.as_str(),
                "webm",
            )
        },
        None => false,
    }
}

pub open spec fn spec_detect_audio_format(p: Seq<char>) -> Option<AudioFormat> {
    match spec_ext(p) {
        Some(e) => if seq_lower(e) == "mp3"@ {
            Some(AudioFormat::Mp3)
        } else {
            None
        },
        None => None,
    }
}

/// The audio container format implied by the file extension.
pub fn detect_audio_format(filename: &str) -> (r: Option<AudioFormat>)
    ensures
        r == spec_detect_audio_format(filename@),
{
    match ext_of(filename) {
        Some(e) => {
            let low = str_to_lower(e.as_str());
            if str_eq(low.as_str(), "mp3") {
                Some(AudioFormat::Mp3)
            } else {
                None
            }
        },
        None => None,
    }
}

pub open spec fn spec_detect_video_format(p: Seq<char>) -> Option<VideoFormat> {
    match spec_ext(p) {
        Some(e) => if seq_lower(e) == "mp4"@ {
            Some(VideoFormat::Mp4)
        } else if seq_lower(e) == "mov"@ {
            Some(VideoFormat::Mov)
        } else if seq_lower(e) == "avi"@ {
            Some(VideoFormat::Avi)
        } else if seq_lower(e) == "mkv"@ {
            Some(VideoFormat::Mkv)
        } else {
            None
        },
        None => None,
    }
}

/// The video container format implied by the file extension; `wmv` and `webm`
/// entries are recognized as video but have no dedicated container tag.
pub fn detect_video_format(filename: &str) -> (r: Option<VideoFormat>)
    ensures
        r == spec_detect_video_format(filename@),
{
    match ext_of(filename) {
        Some(e) => {
            let low = str_to_lower(e.as_str());
            if str_eq(low.as_str(), "mp4") {
                Some(VideoFormat::Mp4)
            } else if str_eq(low.as_str(), "mov") {
                Some(VideoFormat::Mov)
            } else if str_eq(low.as_str(), "avi") {
                Some(VideoFormat::Avi)
            } else if str_eq(low.as_str(), "mkv") {
                Some(VideoFormat::Mkv)
            } else {
                None
            }
        },
        None => None,
    }
}

pub open spec fn spec_ffmpeg_format(f: VideoFormat) -> Seq<char> {
    match f {
        VideoFormat::Mp4 => "mp4"@,
        VideoFormat::Mov => "mov"@,
        VideoFormat::Avi => "avi"@,
        VideoFormat::Mkv => "matroska"@,
    }
}

/// The container name the external encoder uses for each video format.
pub fn get_ffmpeg_format(format: VideoFormat) -> (r: &'static str)
    ensures
        r@ == spec_ffmpeg_format(format),
{
    match format {
        VideoFormat::Mp4 => "mp4",
        VideoFormat::Mov => "mov",
        VideoFormat::Avi => "avi",
        VideoFormat::Mkv => "matroska",
    }
}

pub open spec fn spec_file_extension(p: Seq<char>) -> Seq<char> {
    match spec_ext(p) {
        Some(e) => "."@ + seq_lower(e),
        None => ".mp4"@,
    }
}

/// The dot-prefixed, lower-cased extension of a path, with `.mp4` as the
/// fallback when the path has none.
pub fn get_file_extension(filename: &str) -> (r: String)
    ensures
        r@ == spec_file_extension(filename@),
{
    match ext_of(filename) {
        Some(e) => {
            let low = str_to_lower(e.as_str());
            let mut s = String::from_str(".");
            s.append(low.as_str());
            s
        },
        None => String::from_str(".mp4"),
    }
}

/// Everything up to and including the last `/` (empty when there is none),
/// then the stem of the file name, then `suffix`.
pub open spec fn spec_with_stem_suffix(p: Seq<char>, suffix: Seq<char>) -> Seq<char> {
    let s = last_index_of(p, '/');
    let f = p.subrange(s + 1, p.len() as int);
    let d = last_index_of(f, '.');
    let stem = if d <= 0 {
        f
    } else {
        f.subrange(0, d)
    };
    p.subrange(0, s + 1) + stem + suffix
}

fn with_stem_suffix(path: &str, suffix: &str) -> (r: String)
    ensures
        r@ == spec_with_stem_suffix(path@, suffix@),
{
    let n = path.unicode_len();
    let base: usize = match find_last(path, '/') {
        Some(i) => i + 1,
        None => 0,
    };
    proof {
        lemma_last_index_of(path@, '/');
        assert(base == last_index_of(path@, '/') + 1);
    }
    let fname = path.substring_char(base, n);
    let fn_len = fname.unicode_len();
    let stem = match find_last(fname, '.') {
        Some(d) => {
            if d == 0 {
                fname
            } else {
                fname.substring_char(0, d)
            }
        },
        None => fname,
    };
    let mut out = String::from_str(path.substring_char(0, base));
    out.append(stem);
    out.append(suffix);
    proof {
        assert(out@ =~= spec_with_stem_suffix(path@, suffix@));
    }
    out
}

pub open spec fn spec_to_webp_filename(p: Seq<char>) -> Seq<char> {
    spec_with_stem_suffix(p, ".webp"@)
}

/// The path an image entry is written under after recompression: the same
/// directory and stem, with a `.webp` extension.
pub fn to_webp_filename(filename: &str) -> (r: String)
    ensures
        r@ == spec_to_webp_filename(filename@),
{
    with_stem_suffix(filename, ".webp")
}

pub open spec fn spec_is_siq_path(p: Seq<char>) -> bool {
    spec_ext(p) == Some("siq"@)
}

/// Whether a path carries the pack extension `siq` (case-sensitive).
pub fn is_siq_path(path: &str) -> (r: bool)
    ensures
        r == spec_is_siq_path(path@),
{
    match ext_of(path) {
        Some(e) => str_eq(e.as_str(), "siq"),
        None => {
            proof {
                assert(spec_ext(path@) != Some("siq"@));
            }
            false
        },
    }
}

pub open spec fn spec_default_output_path(p: Seq<char>) -> Seq<char> {
    spec_with_stem_suffix(p, "_compressed.siq"@)
}

/// The output path used when the caller gives none: the input path with
/// `_compressed.siq` in place of its extension.
pub fn default_output_path(input: &str) -> (r: String)
    ensures
        r@ == spec_default_output_path(input@),
{
    with_stem_suffix(input, "_compressed.siq")
}

pub open spec fn spec_classify(p: Seq<char>) -> EntryKind {
    if p == "content.xml"@ {
        EntryKind::Manifest
    } else if starts_with(p, "Images/"@) && spec_is_supported_image(p) {
        EntryKind::Image
    } else if starts_with(p, "Audio/"@) && spec_is_supported_audio(p) {
        EntryKind::Audio
    } else if starts_with(p, "Video/"@) && spec_is_supported_video(p) {
        EntryKind::Video
    } else {
        EntryKind::Other
    }
}

/// Tag one archive entry by its path alone.
pub fn classify(path: &str) -> (k: EntryKind)
    ensures
        k == spec_classify(path@),
{
    if str_eq(path, "content.xml") {
        EntryKind::Manifest
    } else if str_starts_with(path, "Images/") && is_supported_image(path) {
        EntryKind::Image
    } else if str_starts_with(path, "Audio/") && is_supported_audio(path) {
        EntryKind::Audio
    } else if str_starts_with(path, "Video/") && is_supported_video(path) {
        EntryKind::Video
    } else {
        EntryKind::Other
    }
}

proof fn lemma_starts_with_slash_prefix(b: Seq<char>, e1: Seq<char>, e2: Seq<char>, pre: Seq<char>)
    requires
        e1.len() == e2.len(),
        forall|j: int| 0 <= j < e1.len() ==> e1[j] != '/',
        forall|j: int| 0 <= j < e2.len() ==> e2[j] != '/',
        pre.len() > 0,
        pre[pre.len() - 1] == '/',
    ensures
        starts_with(b + e1, pre) == starts_with(b + e2, pre),
{
    let p1 = b + e1;
    let p2 = b + e2;
    if pre.len() <= b.len() {
        assert(p1.subrange(0, pre.len() as int) =~= b.subrange(0, pre.len() as int));
        assert(p2.subrange(0, pre.len() as int) =~= b.subrange(0, pre.len() as int));
    } else if pre.len() > p1.len() {
        assert(!starts_with(p1, pre));
        assert(!starts_with(p2, pre));
    } else {
        assert(p1[pre.len() - 1] == e1[pre.len() - 1 - b.len()]);
        assert(p2[pre.len() - 1] == e2[pre.len() - 1 - b.len()]);
        if starts_with(p1, pre) {
            assert(p1.subrange(0, pre.len() as int)[pre.len() - 1] == pre[pre.len() - 1]);
        }
        if starts_with(p2, pre) {
            assert(p2.subrange(0, pre.len() as int)[pre.len() - 1] == pre[pre.len() - 1]);
        }
    }
}

/// Classification does not depend on the letter case of the file
/// extension: two paths that agree up to and including the last `.` of
/// their file name, and whose extensions (free of `.` and `/`) agree up to
/// ASCII case, classify alike. The one exception is the manifest path
/// itself, which is matched case-sensitively and is excluded here.
pub proof fn lemma_classify_ext_case_insensitive(b: Seq<char>, e1: Seq<char>, e2: Seq<char>)
    requires
        b.len() > 0,
        b[b.len() - 1] == '.',
        seq_lower(e1) == seq_lower(e2),
        forall|j: int| 0 <= j < e1.len() ==> e1[j] != '.' && e1[j] != '/',
        forall|j: int| 0 <= j < e2.len() ==> e2[j] != '.' && e2[j] != '/',
        b + e1 != "content.xml"@,
        b + e2 != "content.xml"@,
    ensures
        spec_classify(b + e1) == spec_classify(b + e2),
{
    let p1 = b + e1;
    let p2 = b + e2;
    assert(e1.len() == e2.len()) by {
        assert(seq_lower(e1).len() == e1.len());
        assert(seq_lower(e2).len() == e2.len());
    }
    assert forall|j: int| 0 <= j < e1.len() implies e1[j] != '/' by {}
    assert forall|j: int| 0 <= j < e2.len() implies e2[j] != '/' by {}
    lemma_last_index_concat_free(b, e1, '/');
    lemma_last_index_concat_free(b, e2, '/');
    let ls = last_index_of(b, '/');
    lemma_last_index_of(b, '/');
    assert(ls < b.len());
    assert(ls != b.len() - 1);
    let bf = b.subrange(ls + 1, b.len() as int);
    assert(bf.len() > 0);
    assert(bf[bf.len() - 1] == '.');
    assert(file_name_of(p1) =~= bf + e1);
    assert(file_name_of(p2) =~= bf + e2);
    lemma_last_index_concat_free(bf, e1, '.');
    lemma_last_index_concat_free(bf, e2, '.');
    let d = last_index_of(bf, '.');
    assert(d == bf.len() - 1);
    assert(last_index_of(file_name_of(p1), '.') == d);
    assert(last_index_of(file_name_of(p2), '.') == d);
    if d <= 0 {
        assert(spec_ext(p1) is None);
        assert(spec_ext(p2) is None);
    } else {
        assert((bf + e1).subrange(d + 1, (bf + e1).len() as int) =~= e1);
        assert((bf + e2).subrange(d + 1, (bf + e2).len() as int) =~= e2);
        assert(spec_ext(p1) == Some(e1));
        assert(spec_ext(p2) == Some(e2));
    }
    assert(is_image_ext(e1) == is_image_ext(e2));
    assert(is_audio_ext(e1) == is_audio_ext(e2));
    assert(is_video_ext(e1) == is_video_ext(e2));
    reveal_strlit("Images/");
    reveal_strlit("Audio/");
    reveal_strlit("Video/");
    lemma_starts_with_slash_prefix(b, e1, e2, "Images/"@);
    lemma_starts_with_slash_prefix(b, e1, e2, "Audio/"@);
    lemma_starts_with_slash_prefix(b, e1, e2, "Video/"@);
}

} // verus!
