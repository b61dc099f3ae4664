use mdu::postprocess::{get_file_extension, raw_file_extension, validate_output_path};

#[test]
fn test_file_extension() {
    assert_eq!(get_file_extension("test.mp4"), Some("mp4".to_string()));
    assert_eq!(get_file_extension("test"), None);
}

#[test]
fn extension_is_lowercased() {
    assert_eq!(get_file_extension("VIDEO.MP4"), Some("mp4".to_string()));
    assert_eq!(raw_file_extension("VIDEO.MP4"), Some("MP4".to_string()));
}

#[test]
fn extension_follows_path_rules() {
    assert_eq!(get_file_extension("/home/u/a.tar.gz"), Some("gz".to_string()));
    assert_eq!(get_file_extension(".bashrc"), None);
    assert_eq!(get_file_extension("dir.d/file"), None);
    assert_eq!(get_file_extension("clip.webm/"), Some("webm".to_string()));
    assert_eq!(get_file_extension("clip.mkv/."), Some("mkv".to_string()));
    assert_eq!(get_file_extension("a/.."), None);
    assert_eq!(get_file_extension("name."), Some("".to_string()));
    assert_eq!(get_file_extension(""), None);
}

#[test]
fn output_path_validation() {
    assert!(validate_output_path(Some(true), false).is_ok());
    assert!(validate_output_path(None, false).is_ok());
    assert_eq!(
        validate_output_path(Some(false), false),
        Err("Output directory does not exist".to_string())
    );
    assert_eq!(
        validate_output_path(Some(true), true),
        Err("Output file already exists".to_string())
    );
}
