use mdu::greet;
use mdu::processing::{
    format_output_path, get_default_output_template, sanitize_filename, Format, MediaInfo,
    Platform,
};

fn sample_info() -> MediaInfo {
    MediaInfo {
        id: "123".to_string(),
        title: "Test: Video".to_owned(),
        description: None,
        duration: None,
        thumbnail: None,
        formats: vec![],
        upload_date: Some("20231001".to_string()),
        uploader: Some("Test User".to_owned()),
        view_count: None,
        platform: Platform::YouTube,
    }
}

fn sample_format() -> Format {
    Format {
        format_id: "1".to_string(),
        url: "".to_string(),
        ext: "mp4".to_string(),
        quality: "".to_string(),
        format_note: None,
        filesize: None,
        tbr: None,
        acodec: None,
        vcodec: None,
    }
}

#[test]
fn test_sanitize_filename() {
    assert_eq!(sanitize_filename(r#"test: video * file?"#), "test_ video _ file_");
}

#[test]
fn test_format_output_path() {
    let info = sample_info();
    let format = sample_format();
    assert_eq!(
        format_output_path("%(title)s-%(uploader)s.%(ext)s", &info, &format),
        "Test_ Video-Test User.mp4"
    );
}

#[test]
fn test_greet() {
    let result = greet("Test");
    assert_eq!(result, "Hello, Test! You've been greeted from Rust!");
}

#[test]
fn sanitize_replaces_every_illegal_character_and_trims() {
    assert_eq!(sanitize_filename("  a<b>c:d\"e/f\\g|h?i*j \t"), "a_b_c_d_e_f_g_h_i_j");
    assert_eq!(sanitize_filename(""), "");
    assert_eq!(sanitize_filename("   "), "");
}

#[test]
fn output_path_fills_id_and_date() {
    let info = sample_info();
    let format = sample_format();
    assert_eq!(
        format_output_path("%(id)s_%(upload_date)s_%(title)s.%(ext)s", &info, &format),
        "123_20231001_Test_ Video.mp4"
    );
}

#[test]
fn output_path_leaves_unknown_placeholders() {
    let mut info = sample_info();
    info.uploader = None;
    info.upload_date = None;
    let format = sample_format();
    assert_eq!(
        format_output_path("%(uploader)s/%(upload_date)s/%(title)s", &info, &format),
        "%(uploader)s/%(upload_date)s/Test_ Video"
    );
}

#[test]
fn default_template_names_title_and_extension() {
    let info = sample_info();
    let format = sample_format();
    assert_eq!(get_default_output_template(), "%(title)s.%(ext)s");
    assert_eq!(
        format_output_path(&get_default_output_template(), &info, &format),
        "Test_ Video.mp4"
    );
}
