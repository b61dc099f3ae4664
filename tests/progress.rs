use mdu::progress::{progress_hundredths, ProgressParser};

#[test]
fn lines_without_a_frame_marker_give_nothing() {
    let parser = ProgressParser::new(1000);
    assert!(parser.parse("Stream mapping: Stream #0:0 -> #0:0 (h264 -> libx264)").is_none());
    assert!(parser.parse("").is_none());
}

#[test]
fn sample_line_at_half_way() {
    let parser = ProgressParser::new(1000);
    let p = parser
        .parse("frame=10 fps=25.0 time=00:00:05.00 size=100kB bitrate=200kbits/s speed=1.0x")
        .unwrap();
    assert_eq!(p.frame, 10);
    assert_eq!(p.progress_hundredths, 5000);
    assert!((p.progress_hundredths as f64 / 100.0 - 50.0).abs() < 1e-9);
    assert_eq!(p.time_centis, 500);
    assert_eq!(p.fps, "25.0");
    assert_eq!(p.size, "100kB");
    assert_eq!(p.bitrate, "200kbits/s");
    assert_eq!(p.speed, "1.0x");
    assert_eq!(p.q, "N/A");
}

#[test]
fn encoder_status_line_with_padding() {
    let parser = ProgressParser::new(16690);
    let p = parser
        .parse("frame=  123 fps= 30 q=23.0 size=    512kB time=00:01:23.45 bitrate= 800.0kbits/s speed=1.02x")
        .unwrap();
    assert_eq!(p.frame, 123);
    assert_eq!(p.fps, "30");
    assert_eq!(p.q, "23.0");
    assert_eq!(p.size, "512kB");
    assert_eq!(p.time_centis, 8345);
    assert_eq!(p.bitrate, "800.0kbits/s");
    assert_eq!(p.speed, "1.02x");
    assert_eq!(p.progress_hundredths, 5000);
}

#[test]
fn missing_fields_keep_their_defaults() {
    let parser = ProgressParser::new(1000);
    let p = parser.parse("frame=5").unwrap();
    assert_eq!(p.frame, 5);
    assert_eq!(p.fps, "N/A");
    assert_eq!(p.q, "N/A");
    assert_eq!(p.size, "N/A");
    assert_eq!(p.bitrate, "N/A");
    assert_eq!(p.speed, "0.0x");
    assert_eq!(p.time_centis, 0);
    assert_eq!(p.progress_hundredths, 0);
    let p = parser.parse("frame=N/A time=garbage").unwrap();
    assert_eq!(p.frame, 0);
    assert_eq!(p.time_centis, 0);
}

#[test]
fn progress_share() {
    assert_eq!(progress_hundredths(500, 1000), 5000);
    assert_eq!(progress_hundredths(1, 3), 3333);
    assert_eq!(progress_hundredths(2000, 1000), 20000);
    assert_eq!(progress_hundredths(500, 0), 0);
    assert_eq!(progress_hundredths(u64::MAX, 1), u64::MAX);
}
