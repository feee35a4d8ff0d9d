use sicom::policy::{decide, quality_in_range, quality_to_crf, quality_to_mp3_bitrate, Decision};

#[test]
fn test_quality_to_crf() {
    assert_eq!(quality_to_crf(1), 51);
    assert_eq!(quality_to_crf(100), 18);
    assert_eq!(quality_to_crf(50), 35);
    assert_eq!(quality_to_crf(0), 51);
    assert_eq!(quality_to_crf(101), 18);
    assert_eq!(quality_to_crf(30), 42);
    assert_eq!(quality_to_crf(80), 25);
}

#[test]
fn test_quality_to_mp3_bitrate() {
    let _result_1 = quality_to_mp3_bitrate(1);
    let _result_100 = quality_to_mp3_bitrate(100);
    let _result_10 = quality_to_mp3_bitrate(10);
    let _result_20 = quality_to_mp3_bitrate(20);
    let _result_30 = quality_to_mp3_bitrate(30);
    let _result_40 = quality_to_mp3_bitrate(40);
    let _result_50 = quality_to_mp3_bitrate(50);
    let _result_60 = quality_to_mp3_bitrate(60);
    let _result_70 = quality_to_mp3_bitrate(70);
    let _result_80 = quality_to_mp3_bitrate(80);
    let _result_90 = quality_to_mp3_bitrate(90);
    let _result_99 = quality_to_mp3_bitrate(99);
    let _result_0 = quality_to_mp3_bitrate(0);
    let _result_101 = quality_to_mp3_bitrate(101);
    let result1_first = quality_to_mp3_bitrate(50);
    let result1_second = quality_to_mp3_bitrate(50);
    assert_eq!(result1_first, result1_second);
}

#[test]
fn test_quality_to_mp3_bitrate_table() {
    assert_eq!(quality_to_mp3_bitrate(1), 64);
    assert_eq!(quality_to_mp3_bitrate(15), 64);
    assert_eq!(quality_to_mp3_bitrate(16), 80);
    assert_eq!(quality_to_mp3_bitrate(30), 96);
    assert_eq!(quality_to_mp3_bitrate(40), 128);
    assert_eq!(quality_to_mp3_bitrate(50), 160);
    assert_eq!(quality_to_mp3_bitrate(60), 192);
    assert_eq!(quality_to_mp3_bitrate(70), 224);
    assert_eq!(quality_to_mp3_bitrate(90), 256);
    assert_eq!(quality_to_mp3_bitrate(100), 320);
    // Out-of-range qualities are clamped.
    assert_eq!(quality_to_mp3_bitrate(0), 64);
    assert_eq!(quality_to_mp3_bitrate(255), 320);
}

#[test]
fn test_decide_accepts_only_smaller() {
    assert_eq!(decide(100, 99, false), Decision::Accept);
    assert_eq!(decide(100, 100, false), Decision::Reject);
    assert_eq!(decide(100, 150, false), Decision::Reject);
    assert_eq!(decide(0, 0, false), Decision::Reject);
    assert_eq!(decide(u64::MAX, u64::MAX - 1, false), Decision::Accept);
}

#[test]
fn test_decide_force_accept() {
    assert_eq!(decide(100, 150, true), Decision::Accept);
    assert_eq!(decide(100, 100, true), Decision::Accept);
    assert_eq!(decide(100, 50, true), Decision::Accept);
    assert_eq!(decide(0, u64::MAX, true), Decision::Accept);
}

#[test]
fn test_quality_in_range() {
    assert!(!quality_in_range(0));
    assert!(quality_in_range(1));
    assert!(quality_in_range(85));
    assert!(quality_in_range(100));
    assert!(!quality_in_range(101));
    assert!(!quality_in_range(255));
}
