use sicom::classify::{
    classify, default_output_path, detect_audio_format, detect_video_format, get_ffmpeg_format,
    get_file_extension, is_siq_path, is_supported_audio, is_supported_image, is_supported_video,
    to_webp_filename, AudioFormat, EntryKind, VideoFormat,
};

#[test]
fn test_is_supported_audio() {
    assert!(is_supported_audio("Audio/test.mp3"));
    assert!(is_supported_audio("Audio/test.MP3"));
    assert!(!is_supported_audio("Audio/test.wav"));
    assert!(!is_supported_audio("Audio/test.ogg"));
    assert!(!is_supported_audio("Audio/test.txt"));
    assert!(!is_supported_audio("Images/test.jpg"));
}

#[test]
fn test_detect_audio_format() {
    assert_eq!(detect_audio_format("test.mp3"), Some(AudioFormat::Mp3));
    assert_eq!(detect_audio_format("test.MP3"), Some(AudioFormat::Mp3));
    assert_eq!(detect_audio_format("Audio/song.mp3"), Some(AudioFormat::Mp3));
    assert_eq!(detect_audio_format("test.wav"), None);
    assert_eq!(detect_audio_format("test.txt"), None);
}

#[test]
fn test_is_supported_image() {
    assert!(is_supported_image("Images/test.jpg"));
    assert!(is_supported_image("Images/test.jpeg"));
    assert!(is_supported_image("Images/test.png"));
    assert!(is_supported_image("Images/test.webp"));
    assert!(is_supported_image("Images/test.JPG"));
    assert!(!is_supported_image("Images/test.gif"));
    assert!(!is_supported_image("Images/test.bmp"));
    assert!(!is_supported_image("Audio/test.mp3"));
    assert!(!is_supported_image("content.xml"));
}

#[test]
fn test_to_webp_filename() {
    assert_eq!(to_webp_filename("Images/test.jpg"), "Images/test.webp");
    assert_eq!(to_webp_filename("Images/test.jpeg"), "Images/test.webp");
    assert_eq!(to_webp_filename("Images/test.png"), "Images/test.webp");
    assert_eq!(to_webp_filename("Images/test.webp"), "Images/test.webp");
    assert_eq!(
        to_webp_filename("Images/КимЧенИр. Северная Корея.jpg"),
        "Images/КимЧенИр. Северная Корея.webp"
    );
    assert_eq!(
        to_webp_filename("Images/ВДНХ.Москва~2.jpg"),
        "Images/ВДНХ.Москва~2.webp"
    );
    assert_eq!(to_webp_filename("test.jpg"), "test.webp");
    assert_eq!(to_webp_filename("test"), "test.webp");
}

#[test]
fn test_is_supported_video() {
    assert!(is_supported_video("Video/test.mp4"));
    assert!(is_supported_video("Video/test.MP4"));
    assert!(is_supported_video("Video/test.mov"));
    assert!(is_supported_video("Video/test.avi"));
    assert!(is_supported_video("Video/test.mkv"));
    assert!(!is_supported_video("Video/test.txt"));
    assert!(!is_supported_video("Audio/test.mp3"));
    assert!(!is_supported_video("Images/test.jpg"));
}

#[test]
fn test_detect_video_format() {
    assert_eq!(detect_video_format("test.mp4"), Some(VideoFormat::Mp4));
    assert_eq!(detect_video_format("test.MP4"), Some(VideoFormat::Mp4));
    assert_eq!(detect_video_format("test.mov"), Some(VideoFormat::Mov));
    assert_eq!(detect_video_format("Video/movie.avi"), Some(VideoFormat::Avi));
    assert_eq!(detect_video_format("test.mkv"), Some(VideoFormat::Mkv));
    assert_eq!(detect_video_format("test.wmv"), None);
    assert_eq!(detect_video_format("test.txt"), None);
}

#[test]
fn test_get_file_extension() {
    assert_eq!(get_file_extension("video.mp4"), ".mp4");
    assert_eq!(get_file_extension("Video/test.MOV"), ".mov");
    assert_eq!(get_file_extension("path/to/file.AVI"), ".avi");
    assert_eq!(get_file_extension("test.MKV"), ".mkv");
    assert_eq!(get_file_extension("noextension"), ".mp4");
}

#[test]
fn test_get_ffmpeg_format() {
    assert_eq!(get_ffmpeg_format(VideoFormat::Mp4), "mp4");
    assert_eq!(get_ffmpeg_format(VideoFormat::Mov), "mov");
    assert_eq!(get_ffmpeg_format(VideoFormat::Avi), "avi");
    assert_eq!(get_ffmpeg_format(VideoFormat::Mkv), "matroska");
}

#[test]
fn test_output_path_generation() {
    assert_eq!(default_output_path("test.siq"), "test_compressed.siq");
}

#[test]
fn test_classify_kinds() {
    assert_eq!(classify("content.xml"), EntryKind::Manifest);
    assert_eq!(classify("Images/test.jpg"), EntryKind::Image);
    assert_eq!(classify("Audio/test.mp3"), EntryKind::Audio);
    assert_eq!(classify("Video/test.mp4"), EntryKind::Video);
    assert_eq!(classify("Texts/readme.txt"), EntryKind::Other);
    assert_eq!(classify("Images/test.gif"), EntryKind::Other);
    assert_eq!(classify("test.jpg"), EntryKind::Other);
    assert_eq!(classify(""), EntryKind::Other);
    // The manifest path is matched case-sensitively.
    assert_eq!(classify("content.XML"), EntryKind::Other);
}

#[test]
fn test_classify_extension_case_insensitive() {
    assert_eq!(classify("Images/a.JPG"), classify("Images/a.jpg"));
    assert_eq!(classify("Images/a.JpEg"), classify("Images/a.jpeg"));
    assert_eq!(classify("Audio/a.MP3"), classify("Audio/a.mp3"));
    assert_eq!(classify("Video/a.MkV"), classify("Video/a.mkv"));
    assert_eq!(classify("Images/a.JPG"), EntryKind::Image);
    // Directory prefixes stay case-sensitive.
    assert_eq!(classify("images/a.jpg"), EntryKind::Other);
}

#[test]
fn test_is_siq_path() {
    assert!(is_siq_path("pack.siq"));
    assert!(is_siq_path("dir/pack.siq"));
    assert!(!is_siq_path("pack.SIQ"));
    assert!(!is_siq_path("pack.zip"));
    assert!(!is_siq_path("pack"));
}

#[test]
fn test_default_output_path_with_directory() {
    assert_eq!(default_output_path("packs/game.siq"), "packs/game_compressed.siq");
}
