use sicom::classify::{classify, EntryKind};
use sicom::errors::{get_log_color, get_log_color_with_module, LogLevel, SicomError};
use sicom::pipeline::{
    CodecOutcome, ConversionOutcome, ManifestPatch, Pipeline, RunConfig,
};
use sicom::rename::RenameRegistry;
use sicom::stats::CompressionStats;

fn config() -> RunConfig {
    RunConfig {
        image_quality: 85,
        audio_quality: 85,
        video_quality: 75,
        skip_image: false,
        skip_audio: false,
        skip_video: false,
        always_compress: false,
        ffmpeg_available: true,
    }
}

#[test]
fn test_invalid_quality_aborts_before_any_entry() {
    let mut c = config();
    c.image_quality = 0;
    let r = Pipeline::new(c);
    assert!(matches!(
        r,
        Err(SicomError::InvalidQuality { kind: EntryKind::Image, value: 0 })
    ));

    let mut c = config();
    c.audio_quality = 101;
    assert!(matches!(
        Pipeline::new(c),
        Err(SicomError::InvalidQuality { kind: EntryKind::Audio, value: 101 })
    ));

    let mut c = config();
    c.video_quality = 0;
    assert!(matches!(
        Pipeline::new(c),
        Err(SicomError::InvalidQuality { kind: EntryKind::Video, value: 0 })
    ));

    assert!(Pipeline::new(config()).is_ok());
}

#[test]
fn test_quality_validation() {
    // Quality must be between 1 and 100, checked before any entry is read.
    let cases = [
        (0u8, 85u8, 75u8),
        (101, 85, 75),
        (85, 0, 75),
        (85, 101, 75),
        (85, 85, 0),
        (85, 85, 101),
    ];
    for (iq, aq, vq) in cases {
        let c = RunConfig { image_quality: iq, audio_quality: aq, video_quality: vq, ..config() };
        let r = Pipeline::new(c);
        match r {
            Err(e) => assert!(e.message().contains("quality must be between")),
            Ok(_) => panic!("out-of-range quality accepted"),
        }
    }
    let c = RunConfig { image_quality: 50, audio_quality: 75, video_quality: 60, ..config() };
    assert!(Pipeline::new(c).is_ok());
}

#[test]
fn test_accepted_replacement_renames_image() {
    let mut p = Pipeline::new(config()).unwrap();
    let path = "Images/a.jpg".to_string();
    let outcome = p.process_media_entry(
        &path,
        EntryKind::Image,
        100,
        Some(CodecOutcome::Encoded { compressed_size: 40 }),
    );
    match outcome {
        ConversionOutcome::Replaced { new_path, original_size, compressed_size } => {
            assert_eq!(new_path, "Images/a.webp");
            assert_eq!(original_size, 100);
            assert_eq!(compressed_size, 40);
        }
        _ => panic!("expected a replacement"),
    }
    assert_eq!(p.stats.images_processed(), 1);
    assert_eq!(p.stats.image_original_size(), 100);
    assert_eq!(p.stats.image_compressed_size(), 40);
    assert_eq!(p.renames.len(), 1);
    assert_eq!(p.renames.lookup("Images/a.jpg"), Some("Images/a.webp".to_string()));
}

#[test]
fn test_audio_replacement_keeps_path_and_records_no_rename() {
    let mut p = Pipeline::new(config()).unwrap();
    let path = "Audio/a.mp3".to_string();
    let outcome = p.process_media_entry(
        &path,
        EntryKind::Audio,
        100,
        Some(CodecOutcome::Encoded { compressed_size: 40 }),
    );
    match outcome {
        ConversionOutcome::Replaced { new_path, .. } => assert_eq!(new_path, "Audio/a.mp3"),
        _ => panic!("expected a replacement"),
    }
    assert_eq!(p.renames.len(), 0);
    assert_eq!(p.stats.audio_processed(), 1);
}

#[test]
fn test_webp_image_kept_same_path_records_no_rename() {
    let mut p = Pipeline::new(config()).unwrap();
    let path = "Images/a.webp".to_string();
    let outcome = p.process_media_entry(
        &path,
        EntryKind::Image,
        100,
        Some(CodecOutcome::Encoded { compressed_size: 40 }),
    );
    assert!(matches!(outcome, ConversionOutcome::Replaced { .. }));
    assert_eq!(p.renames.len(), 0);
}

#[test]
fn test_larger_result_keeps_original() {
    let mut p = Pipeline::new(config()).unwrap();
    let path = "Images/a.jpg".to_string();
    let outcome = p.process_media_entry(
        &path,
        EntryKind::Image,
        100,
        Some(CodecOutcome::Encoded { compressed_size: 100 }),
    );
    assert!(matches!(outcome, ConversionOutcome::KeptOriginal { size: 100 }));
    assert_eq!(p.stats.images_kept_original(), 1);
    assert_eq!(p.stats.images_processed(), 0);
    assert_eq!(p.stats.image_compressed_size(), 100);
    assert_eq!(p.renames.len(), 0);
}

#[test]
fn test_always_compress_accepts_larger_result() {
    let mut c = config();
    c.always_compress = true;
    let mut p = Pipeline::new(c).unwrap();
    let path = "Images/a.jpg".to_string();
    let outcome = p.process_media_entry(
        &path,
        EntryKind::Image,
        100,
        Some(CodecOutcome::Encoded { compressed_size: 250 }),
    );
    match outcome {
        ConversionOutcome::Replaced { new_path, original_size, compressed_size } => {
            assert_eq!(new_path, "Images/a.webp");
            assert_eq!(original_size, 100);
            assert_eq!(compressed_size, 250);
        }
        _ => panic!("expected a forced replacement"),
    }
    assert_eq!(p.renames.len(), 1);
}

#[test]
fn test_codec_failure_skips_and_counts_once() {
    let mut p = Pipeline::new(config()).unwrap();
    let path = "Audio/bad.mp3".to_string();
    let outcome = p.process_media_entry(
        &path,
        EntryKind::Audio,
        77,
        Some(CodecOutcome::Failed { reason: "decode error".to_string() }),
    );
    match outcome {
        ConversionOutcome::Skipped { size, reason } => {
            assert_eq!(size, 77);
            assert_eq!(reason, "decode error");
        }
        _ => panic!("expected a skip"),
    }
    assert_eq!(p.stats.audio_skipped(), 1);
    assert_eq!(p.stats.audio_processed(), 0);
    // The original bytes are written: both byte totals move by the size.
    assert_eq!(p.stats.total_input_size(), 77);
    assert_eq!(p.stats.total_output_size(), 77);
    assert_eq!(p.renames.len(), 0);
}

#[test]
fn test_skip_flag_passes_entry_through() {
    let mut c = config();
    c.skip_image = true;
    let mut p = Pipeline::new(c).unwrap();
    assert!(!p.wants_compression(EntryKind::Image));
    let path = "Images/a.jpg".to_string();
    let outcome = p.process_media_entry(&path, EntryKind::Image, 50, None);
    assert!(matches!(outcome, ConversionOutcome::PassedThrough { size: 50 }));
    assert_eq!(p.stats.images_skipped(), 0);
    assert_eq!(p.stats.images_processed(), 0);
    assert_eq!(p.stats.total_input_size(), 50);
}

#[test]
fn test_video_without_encoder_passes_through_with_one_warning() {
    let mut c = config();
    c.ffmpeg_available = false;
    let mut p = Pipeline::new(c).unwrap();
    assert!(!p.wants_compression(EntryKind::Video));

    let first_warn = p.note_video_capability(EntryKind::Video);
    let o1 = p.process_media_entry(&"Video/a.mp4".to_string(), EntryKind::Video, 10, None);
    let second_warn = p.note_video_capability(EntryKind::Video);
    let o2 = p.process_media_entry(&"Video/b.mkv".to_string(), EntryKind::Video, 20, None);

    assert!(matches!(o1, ConversionOutcome::PassedThrough { size: 10 }));
    assert!(matches!(o2, ConversionOutcome::PassedThrough { size: 20 }));
    assert!(first_warn);
    assert!(!second_warn);
    assert_eq!(p.stats.video_skipped(), 0);
    assert_eq!(p.stats.video_processed(), 0);
}

#[test]
fn test_no_warning_when_video_skipped_by_flag() {
    let mut c = config();
    c.ffmpeg_available = false;
    c.skip_video = true;
    let mut p = Pipeline::new(c).unwrap();
    assert!(!p.note_video_capability(EntryKind::Video));
}

#[test]
fn test_missing_manifest_completes_with_warning() {
    let mut p = Pipeline::new(config()).unwrap();
    let o = p.process_media_entry(
        &"Images/a.jpg".to_string(),
        EntryKind::Image,
        100,
        Some(CodecOutcome::Encoded { compressed_size: 10 }),
    );
    assert!(matches!(o, ConversionOutcome::Replaced { .. }));
    let patch = p.finalize();
    assert!(matches!(patch, ManifestPatch::Missing));
    assert_eq!(p.stats.total_updated_refs, 0);
}

#[test]
fn test_hundred_entry_archive_with_ten_images() {
    let mut p = Pipeline::new(config()).unwrap();
    let mut manifest = String::from("<pack>");
    for i in 0..10 {
        manifest.push_str(&format!("<atom isRef=\"True\">img{i}.jpg</atom>"));
    }
    manifest.push_str("</pack>");

    for i in 0..10 {
        let path = format!("Images/img{i}.jpg");
        assert_eq!(classify(&path), EntryKind::Image);
        let outcome = p.process_media_entry(
            &path,
            EntryKind::Image,
            1000,
            Some(CodecOutcome::Encoded { compressed_size: 300 }),
        );
        assert!(matches!(outcome, ConversionOutcome::Replaced { .. }));
    }
    for i in 0..89 {
        let path = format!("Texts/t{i}.txt");
        assert_eq!(classify(&path), EntryKind::Other);
        p.pass_through_entry(20);
    }
    assert_eq!(classify("content.xml"), EntryKind::Manifest);
    p.buffer_manifest(manifest);

    assert_eq!(p.renames.len(), 10);
    match p.finalize() {
        ManifestPatch::Patched { text, updated_refs, record_tallies } => {
            assert_eq!(updated_refs, 10);
            assert_eq!(record_tallies, vec![1; 10]);
            assert!(!text.contains(".jpg"));
            assert!(text.contains("isRef=\"True\">img0.webp"));
        }
        ManifestPatch::Missing => panic!("manifest was buffered"),
    }
    assert_eq!(p.stats.images_processed(), 10);
    assert_eq!(p.stats.images_skipped(), 0);
    assert_eq!(p.stats.images_kept_original(), 0);
    assert_eq!(p.stats.total_updated_refs, 10);
    assert_eq!(p.stats.image_original_size(), 10_000);
    assert_eq!(p.stats.image_compressed_size(), 3_000);
}

#[test]
fn test_rename_registry_last_write_wins() {
    let mut r = RenameRegistry::new();
    r.record("a.jpg".to_string(), "a.webp".to_string());
    r.record("b.png".to_string(), "b.webp".to_string());
    assert_eq!(r.len(), 2);
    r.record("a.jpg".to_string(), "other.webp".to_string());
    assert_eq!(r.len(), 2);
    assert_eq!(r.lookup("a.jpg"), Some("other.webp".to_string()));
    assert_eq!(r.lookup("b.png"), Some("b.webp".to_string()));
    assert_eq!(r.lookup("c.gif"), None);
}

#[test]
fn test_stats_accumulate_per_outcome() {
    let mut s = CompressionStats::new();
    s.add_processed_image(100, 40);
    s.add_kept_original_audio(50);
    s.add_skipped_video(30);
    s.add_other_file(7);
    s.add_updated_refs(3);
    assert_eq!(s.images_processed(), 1);
    assert_eq!(s.audio_kept_original(), 1);
    assert_eq!(s.video_skipped(), 1);
    assert_eq!(s.total_input_size(), 187);
    assert_eq!(s.total_output_size(), 127);
    assert_eq!(s.total_updated_refs, 3);
}

#[test]
fn test_error_messages() {
    let e = SicomError::InputNotFound("pack.siq".to_string());
    assert_eq!(e.message(), "Input file does not exist: pack.siq");
    let e = SicomError::InvalidSiqFile("pack.zip".to_string());
    assert_eq!(e.message(), "Input file is not a valid .siq file: pack.zip");
    let e = SicomError::ImageProcessingError {
        name: "a.jpg".to_string(),
        cause: "bad header".to_string(),
    };
    assert_eq!(e.message(), "Failed to process image a.jpg: bad header");
    let e = SicomError::InvalidQuality { kind: EntryKind::Image, value: 0 };
    assert_eq!(e.message(), "Image quality must be between 1 and 100");
    let e = SicomError::InvalidQuality { kind: EntryKind::Audio, value: 101 };
    assert_eq!(e.message(), "Audio quality must be between 1 and 100");
    let e = SicomError::InvalidQuality { kind: EntryKind::Video, value: 200 };
    assert_eq!(e.message(), "Video quality must be between 1 and 100");
}

#[test]
fn test_log_colors() {
    assert_eq!(get_log_color(LogLevel::Error), "\x1b[91m");
    assert_eq!(get_log_color(LogLevel::Warn), "\x1b[33m");
    assert_eq!(get_log_color(LogLevel::Info), "\x1b[32m");
    assert_eq!(get_log_color(LogLevel::Debug), "\x1b[90m");
    assert_eq!(get_log_color(LogLevel::Trace), "\x1b[90m");
    assert_eq!(
        get_log_color_with_module(LogLevel::Info, Some("symphonia_core::probe")),
        "\x1b[90m"
    );
    assert_eq!(get_log_color_with_module(LogLevel::Info, Some("sicom")), "\x1b[32m");
    assert_eq!(get_log_color_with_module(LogLevel::Warn, Some("symphonia")), "\x1b[33m");
    assert_eq!(get_log_color_with_module(LogLevel::Error, None), "\x1b[91m");
}

#[test]
fn test_buffer_manifest_counts_bytes() {
    let mut p = Pipeline::new(config()).unwrap();
    p.buffer_manifest("<pack></pack>".to_string());
    assert_eq!(p.stats.total_input_size(), 13);
    assert_eq!(p.stats.total_output_size(), 13);
}
