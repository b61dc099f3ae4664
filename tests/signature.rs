use mdu::signature::{
    cipher_fields, decode_signature, parse_cipher_params, parse_signature_operations, signed_url,
    SigOp, SignatureCache,
};
use mdu::youtube::{extract_formats, FormatsStep, StreamFormat, StreamingData};

#[test]
fn operations_are_read_from_the_transform() {
    let js = "x;function(a){a=a.split(\"\");var c=a[0];a.splice(0,2);a.reverse();return a.join(\"\")};";
    assert_eq!(parse_signature_operations(js), vec![SigOp::Reverse, SigOp::Splice, SigOp::Swap]);
    let js = "function(a){a=a.split(\"\");a.splice(0,2);return a.join(\"\")}";
    assert_eq!(parse_signature_operations(js), vec![SigOp::Splice]);
}

#[test]
fn scripts_without_a_transform_give_no_operations() {
    assert_eq!(parse_signature_operations("var a=1;"), vec![]);
    assert_eq!(parse_signature_operations("function(a){a=a.split(\"\");a.reverse();"), vec![]);
    let after_return =
        "function(a){a=a.split(\"\");return a.join(\"\")};a.reverse();";
    assert_eq!(parse_signature_operations(after_return), vec![]);
}

#[test]
fn operations_apply_in_order() {
    assert_eq!(decode_signature(&[SigOp::Reverse, SigOp::Splice, SigOp::Swap], "abcdef"), "cdba");
    assert_eq!(decode_signature(&[SigOp::Splice], "ab"), "ab");
    assert_eq!(decode_signature(&[SigOp::Swap], "a"), "a");
    assert_eq!(decode_signature(&[], "xyz"), "xyz");
}

#[test]
fn cipher_parameters_are_split_and_decoded() {
    let params = parse_cipher_params("a=1&b=x%20y&c&d=1=2&e=%2B+");
    assert_eq!(
        params,
        vec![
            ("a".to_string(), "1".to_string()),
            ("b".to_string(), "x y".to_string()),
            ("d".to_string(), "1".to_string()),
            ("e".to_string(), "++".to_string()),
        ]
    );
}

#[test]
fn undecodable_values_are_left_out() {
    assert_eq!(parse_cipher_params("s=%FF&url=u"), vec![("url".to_string(), "u".to_string())]);
}

#[test]
fn cipher_fields_take_the_last_of_each() {
    let params = parse_cipher_params("url=a&s=1&url=b&s=2");
    assert_eq!(cipher_fields(&params).unwrap(), ("b".to_string(), "2".to_string()));
    assert!(cipher_fields(&parse_cipher_params("s=1")).is_err());
    assert!(cipher_fields(&parse_cipher_params("url=a")).is_err());
}

#[test]
fn signed_url_appends_the_signature() {
    assert_eq!(signed_url("https://x/y?a=b", "zz"), "https://x/y?a=b&sig=zz");
}

#[test]
fn cache_lookup_and_insert() {
    let mut cache = SignatureCache::new();
    assert_eq!(cache.lookup("id"), None);
    cache.insert("id", vec![SigOp::Swap]);
    assert_eq!(cache.lookup("id"), Some(vec![SigOp::Swap]));
    cache.insert("id", vec![SigOp::Reverse]);
    assert_eq!(cache.lookup("id"), Some(vec![SigOp::Reverse]));
    assert_eq!(cache.lookup("other"), None);
}

fn ciphered_data() -> StreamingData {
    StreamingData {
        formats: vec![],
        adaptive_formats: vec![StreamFormat {
            itag: 140,
            url: None,
            signature_cipher: Some("url=https%3A%2F%2Fh%2Fp&s=xyz".to_string()),
            mime_type: "audio/mp4".to_string(),
            bitrate: 1,
            content_length: None,
            quality: "q".to_string(),
            quality_label: None,
        }],
    }
}

/// Runs one resolution as a caller would, counting player-script fetches.
fn resolve(cache: &mut SignatureCache, id: &str, fetches: &mut u32) -> Vec<String> {
    let data = ciphered_data();
    loop {
        match extract_formats(&data, cache, id).unwrap() {
            FormatsStep::Done(fs) => return fs.into_iter().map(|f| f.url).collect(),
            FormatsStep::NeedPlayerScript => {
                *fetches += 1;
                cache.learn_from_script(
                    id,
                    "function(a){a=a.split(\"\");a.reverse();return a.join(\"\")}",
                );
            }
        }
    }
}

#[test]
fn repeated_resolutions_fetch_the_player_script_once() {
    let mut cache = SignatureCache::new();
    let mut fetches = 0;
    let first = resolve(&mut cache, "vid", &mut fetches);
    let second = resolve(&mut cache, "vid", &mut fetches);
    assert_eq!(fetches, 1);
    assert_eq!(first, vec!["https://h/p&sig=zyx".to_string()]);
    assert_eq!(first, second);
    resolve(&mut cache, "other", &mut fetches);
    assert_eq!(fetches, 2);
}
