use mdu::signature::SignatureCache;
use mdu::youtube::{
    assemble_media_info, build_format, extract_formats, extract_video_id, find_player_url,
    get_extension_from_mime, parse_mime_type, slice_player_response, watch_url, FormatsStep,
    StreamFormat, StreamingData, VideoDetails, YouTubeError,
};

const ID: &str = "dQw4w9WgXcQ";

fn direct(itag: i32, url: &str, mime: &str) -> StreamFormat {
    StreamFormat {
        itag,
        url: Some(url.to_string()),
        signature_cipher: None,
        mime_type: mime.to_string(),
        bitrate: 1000,
        content_length: None,
        quality: "medium".to_string(),
        quality_label: None,
    }
}

fn ciphered(itag: i32, cipher: &str) -> StreamFormat {
    StreamFormat {
        itag,
        url: None,
        signature_cipher: Some(cipher.to_string()),
        mime_type: "audio/webm; codecs=\"opus\"".to_string(),
        bitrate: 2000,
        content_length: Some("777".to_string()),
        quality: "tiny".to_string(),
        quality_label: None,
    }
}

const REVERSING_PLAYER: &str =
    "var x=1;function(a){a=a.split(\"\");a.reverse();return a.join(\"\")};";

#[test]
fn every_url_shape_yields_the_identifier() {
    for url in [
        "https://www.youtube.com/watch?v=dQw4w9WgXcQ",
        "https://www.youtube.com/embed/dQw4w9WgXcQ",
        "https://www.youtube.com/shorts/dQw4w9WgXcQ",
        "dQw4w9WgXcQ",
        "https://youtu.be/dQw4w9WgXcQ",
        "https://www.youtube.com/watch?v=dQw4w9WgXcQ&t=42",
        "https://www.youtube.com/watch?feature=share&v=dQw4w9WgXcQ",
    ] {
        assert_eq!(extract_video_id(url).unwrap(), ID, "{}", url);
    }
}

#[test]
fn unmatched_urls_are_not_found() {
    for url in [
        "",
        "not a url",
        "https://www.youtube.com/watch?v=short",
        "https://www.youtube.com/watch?v=dQw4w9WgXcQX",
        "dQw4w9WgXc",
        "https://example.com/",
    ] {
        assert!(matches!(extract_video_id(url), Err(YouTubeError::ExtractError(_))), "{}", url);
    }
}

#[test]
fn mime_with_two_codecs_gives_audio_and_video() {
    assert_eq!(
        parse_mime_type("video/mp4; codecs=\"avc1.42, mp4a.40\""),
        (Some("mp4a.40".to_string()), Some("avc1.42".to_string()))
    );
}

#[test]
fn mime_with_one_codec() {
    assert_eq!(parse_mime_type("video/webm; codecs=\"vp9\""), (None, Some("vp9".to_string())));
    assert_eq!(
        parse_mime_type("audio/mp4; codecs=\"mp4a.40.2\""),
        (Some("mp4a.40.2".to_string()), None)
    );
    assert_eq!(parse_mime_type("audio/mp4; codecs=\"a, b\""), (None, None));
    assert_eq!(parse_mime_type("video/mp4"), (None, None));
    assert_eq!(parse_mime_type("text/plain; codecs=\"x\""), (None, None));
}

#[test]
fn extension_from_mime() {
    assert_eq!(get_extension_from_mime("video/mp4; codecs=\"avc1\""), "mp4");
    assert_eq!(get_extension_from_mime("audio/mp4"), "mp4");
    assert_eq!(get_extension_from_mime("audio/webm; codecs=\"opus\""), "webm");
    assert_eq!(get_extension_from_mime("video/x-flv"), "unknown");
}

#[test]
fn player_data_is_sliced_out_of_the_page() {
    let page = "<script>var ytInitialPlayerResponse = {\"a\":{\"b\":1}};var meta = 2;</script>";
    assert_eq!(slice_player_response(page).unwrap(), "{\"a\":{\"b\":1}}");
}

#[test]
fn player_data_without_marker_or_end_is_a_parse_error() {
    assert!(matches!(slice_player_response("<html></html>"), Err(YouTubeError::Parse(_))));
    assert!(matches!(
        slice_player_response("ytInitialPlayerResponse = {\"a\":1}"),
        Err(YouTubeError::Parse(_))
    ));
}

#[test]
fn player_url_is_found_and_made_absolute() {
    let page = "x \"PLAYER_JS_URL\" : \"/s/player/base.js\", y";
    assert_eq!(find_player_url(page).unwrap(), "https://www.youtube.com/s/player/base.js");
    let page = "{'PLAYER_JS_URL':'https://cdn.example/p.js'}";
    assert_eq!(find_player_url(page).unwrap(), "https://cdn.example/p.js");
    assert!(matches!(find_player_url("no player"), Err(YouTubeError::ExtractError(_))));
}

#[test]
fn watch_url_names_the_video() {
    assert_eq!(watch_url(ID), "https://www.youtube.com/watch?v=dQw4w9WgXcQ");
}

#[test]
fn format_is_built_from_its_stream() {
    let e = StreamFormat {
        itag: 18,
        url: Some("https://v/18".to_string()),
        signature_cipher: None,
        mime_type: "video/mp4; codecs=\"avc1.42001E, mp4a.40.2\"".to_string(),
        bitrate: 500000,
        content_length: Some("12345".to_string()),
        quality: "medium".to_string(),
        quality_label: Some("360p".to_string()),
    };
    let f = build_format(&e, "https://v/18".to_string());
    assert_eq!(f.format_id, "18");
    assert_eq!(f.url, "https://v/18");
    assert_eq!(f.ext, "mp4");
    assert_eq!(f.quality, "360p");
    assert_eq!(f.format_note, Some("medium".to_string()));
    assert_eq!(f.filesize, Some(12345));
    assert_eq!(f.tbr, Some(500000));
    assert_eq!(f.acodec, Some("mp4a.40.2".to_string()));
    assert_eq!(f.vcodec, Some("avc1.42001E".to_string()));
}

#[test]
fn format_without_label_or_numeric_length() {
    let mut e = direct(-5, "u", "video/3gpp");
    e.content_length = Some("12a".to_string());
    let f = build_format(&e, "u".to_string());
    assert_eq!(f.format_id, "-5");
    assert_eq!(f.quality, "medium");
    assert_eq!(f.filesize, None);
    assert_eq!(f.ext, "unknown");
}

#[test]
fn ciphered_formats_wait_for_the_player_script_then_resolve() {
    let data = StreamingData {
        formats: vec![direct(18, "https://v/18", "video/mp4; codecs=\"avc1, mp4a\"")],
        adaptive_formats: vec![
            ciphered(251, "s=abcdef&url=https%3A%2F%2Fx%2Fy%3Fa%3Db"),
            StreamFormat { url: None, signature_cipher: None, ..direct(1, "", "video/mp4") },
        ],
    };
    let mut cache = SignatureCache::new();
    assert!(matches!(extract_formats(&data, &cache, ID), Ok(FormatsStep::NeedPlayerScript)));
    cache.learn_from_script(ID, REVERSING_PLAYER);
    match extract_formats(&data, &cache, ID) {
        Ok(FormatsStep::Done(fs)) => {
            assert_eq!(fs.len(), 2);
            assert_eq!(fs[0].format_id, "18");
            assert_eq!(fs[0].url, "https://v/18");
            assert_eq!(fs[1].format_id, "251");
            assert_eq!(fs[1].url, "https://x/y?a=b&sig=fedcba");
            assert_eq!(fs[1].ext, "webm");
            assert_eq!(fs[1].acodec, Some("opus".to_string()));
            assert_eq!(fs[1].filesize, Some(777));
        }
        _ => panic!("expected resolved formats"),
    }
}

#[test]
fn cipher_without_signature_fails_before_any_fetch() {
    let data = StreamingData {
        formats: vec![],
        adaptive_formats: vec![ciphered(140, "url=https%3A%2F%2Fx")],
    };
    let cache = SignatureCache::new();
    assert!(matches!(extract_formats(&data, &cache, ID), Err(YouTubeError::ExtractError(_))));
    let data = StreamingData { formats: vec![], adaptive_formats: vec![ciphered(140, "s=abc")] };
    assert!(matches!(extract_formats(&data, &cache, ID), Err(YouTubeError::ExtractError(_))));
}

fn details(length: &str, views: &str) -> VideoDetails {
    VideoDetails {
        video_id: ID.to_string(),
        title: "Test: Video".to_string(),
        length_seconds: length.to_string(),
        short_description: "desc".to_string(),
        thumbnails: vec!["small".to_string(), "large".to_string()],
        view_count: views.to_string(),
        author: "Test/User ".to_string(),
    }
}

#[test]
fn media_info_is_assembled_and_sanitized() {
    let m = assemble_media_info(&details("212", "1000"), vec![]).unwrap();
    assert_eq!(m.id, ID);
    assert_eq!(m.title, "Test_ Video");
    assert_eq!(m.uploader, Some("Test_User".to_string()));
    assert_eq!(m.description, Some("desc".to_string()));
    assert_eq!(m.duration, Some(212));
    assert_eq!(m.view_count, Some(1000));
    assert_eq!(m.thumbnail, Some("large".to_string()));
    assert_eq!(m.upload_date, None);
}

#[test]
fn media_info_with_non_numeric_counts_is_a_parse_error() {
    assert!(matches!(assemble_media_info(&details("abc", "1"), vec![]), Err(YouTubeError::Parse(_))));
    assert!(matches!(
        assemble_media_info(&details("1", "18446744073709551616"), vec![]),
        Err(YouTubeError::Parse(_))
    ));
}

#[test]
fn error_messages_name_their_kind() {
    assert_eq!(YouTubeError::Network("down".to_string()).message(), "Network error: down");
    assert_eq!(YouTubeError::Parse("bad".to_string()).message(), "Parse error: bad");
    assert_eq!(
        YouTubeError::ExtractError("none".to_string()).message(),
        "Extraction error: none"
    );
}
