//! The media record returned by extraction, and the naming of output files.

use vstd::prelude::*;
use crate::text::{chars_of, replace, replace_chars, string_of, trim, trim_chars};

verus! {

/// The hosting platform a `MediaInfo` was extracted from.
#[derive(Debug, Clone, Copy, PartialEq, Eq, Structural)]
pub enum Platform {
    YouTube,
}

/// One downloadable stream variant of a video.
#[derive(Debug, Clone)]
pub struct Format {
    /// Identifier of the variant, unique within its `MediaInfo`.
    pub format_id: String,
    /// A directly fetchable link (never a ciphered one).
    pub url: String,
    /// Container extension: `mp4`, `webm` or `unknown`.
    pub ext: String,
    pub quality: String,
    pub format_note: Option<String>,
    /// Size in bytes, where the page states it.
    pub filesize: Option<u64>,
    /// Total bitrate in bits per second, as the page states it.
    pub tbr: Option<i64>,
    pub acodec: Option<String>,
    pub vcodec: Option<String>,
}

/// The normalized description of one video and its stream variants.
#[derive(Debug, Clone)]
pub struct MediaInfo {
    pub id: String,
    pub title: String,
    pub description: Option<String>,
    /// Length in seconds.
    pub duration: Option<u64>,
    pub thumbnail: Option<String>,
    pub formats: Vec<Format>,
    pub upload_date: Option<String>,
    pub uploader: Option<String>,
    pub view_count: Option<u64>,
    pub platform: Platform,
}

/// Options of one download request.
#[derive(Debug, Clone)]
pub struct ProcessingOptions {
    pub convert_to: Option<crate::postprocess::ProcessingType>,
    pub output_template: Option<String>,
    pub quality_preset: Option<String>,
}

/// The outcome of one download, with the last progress sample of its
/// post-processing, if any.
#[derive(Debug, Clone)]
pub struct DownloadResult {
    pub file_path: String,
    pub format: Format,
    pub processed: bool,
    pub processing_info: Option<crate::progress::ProcessingProgress>,
}

pub open spec fn opt_view(o: Option<String>) -> Option<Seq<char>> {
    match o {
        Some(s) => Some(s@),
        None => None,
    }
}

/// The characters that cannot stand in a file name on common file systems.
pub open spec fn is_path_illegal(c: char) -> bool {
    c == '<' || c == '>' || c == ':' || c == '"' || c == '/' || c == '\\' || c == '|' || c
        == '?' || c == '*'
}

/// Each path-illegal character replaced by `_`.
pub open spec fn path_safe(s: Seq<char>) -> Seq<char> {
    s.map_values(|c: char| if is_path_illegal(c) { '_' } else { c })
}

/// `s` made usable as a file name: path-illegal characters replaced by `_`,
/// then surrounding white space removed.
pub open spec fn sanitized(s: Seq<char>) -> Seq<char> {
    trim(path_safe(s))
}

/// `template` with its placeholders filled in, in this order: `%(title)s`
/// (sanitized title), `%(id)s`, `%(ext)s`, then `%(uploader)s` (sanitized)
/// and `%(upload_date)s` where those are known.
pub open spec fn output_path(
    template: Seq<char>,
    title: Seq<char>,
    id: Seq<char>,
    ext: Seq<char>,
    uploader: Option<Seq<char>>,
    upload_date: Option<Seq<char>>,
) -> Seq<char> {
    let a = replace(template, "%(title)s"@, sanitized(title));
    let b = replace(a, "%(id)s"@, id);
    let c = replace(b, "%(ext)s"@, ext);
    let d = match uploader {
        Some(u) => replace(c, "%(uploader)s"@, sanitized(u)),
        None => c,
    };
    match upload_date {
        Some(u) => replace(d, "%(upload_date)s"@, u),
        None => d,
    }
}

pub open spec fn default_output_template() -> Seq<char> {
    "%(title)s.%(ext)s"@
}

/// The output template used when the caller gives none.
pub fn get_default_output_template() -> (r: String)
    ensures
        r@ == default_output_template(),
{
    String::from_str("%(title)s.%(ext)s")
}

fn path_safe_chars(v: &[char]) -> (r: Vec<char>)
    ensures
        r@ == path_safe(v@),
{
    let mut r: Vec<char> = Vec::new();
    let mut i: usize = 0;
    while i < v.len()
        invariant
            i <= v@.len(),
            r@ == path_safe(v@.take(i as int)),
        decreases v@.len() - i,
    {
        let c = v[i];
        let d = if c == '<' || c == '>' || c == ':' || c == '"' || c == '/' || c == '\\' || c
            == '|' || c == '?' || c == '*' {
            '_'
        } else {
            c
        };
        r.push(d);
        assert(path_safe(v@.take(i + 1)) =~= path_safe(v@.take(i as int)).push(d));
        i = i + 1;
    }
    assert(v@.take(v@.len() as int) =~= v@);
    r
}

fn sanitized_chars(v: &[char]) -> (r: Vec<char>)
    ensures
        r@ == sanitized(v@),
{
    let safe = path_safe_chars(v);
    trim_chars(&safe)
}

/// `filename` with the characters `<>:"/\|?*` replaced by `_` and
/// surrounding white space removed.
pub fn sanitize_filename(filename: &str) -> (r: String)
    ensures
        r@ == sanitized(filename@),
{
    let v = chars_of(filename);
    let s = sanitized_chars(&v);
    string_of(&s)
}

fn replace_placeholder(v: &[char], placeholder: &str, value: &[char]) -> (r: Vec<char>)
    requires
        placeholder@.len() > 0,
    ensures
        r@ == replace(v@, placeholder@, value@),
{
    let p = chars_of(placeholder);
    replace_chars(v, &p, value)
}

/// The output file name for `format` of `info`, following `template`.
pub fn format_output_path(template: &str, info: &MediaInfo, format: &Format) -> (r: String)
    ensures
        r@ == output_path(
            template@,
            info.title@,
            info.id@,
            format.ext@,
            opt_view(info.uploader),
            opt_view(info.upload_date),
        ),
{
    proof {
        reveal_strlit("%(title)s");
        reveal_strlit("%(id)s");
        reveal_strlit("%(ext)s");
        reveal_strlit("%(uploader)s");
        reveal_strlit("%(upload_date)s");
    }
    let t = chars_of(template);
    let title = sanitized_chars(&chars_of(info.title.as_str()));
    let mut out = replace_placeholder(&t, "%(title)s", &title);
    out = replace_placeholder(&out, "%(id)s", &chars_of(info.id.as_str()));
    out = replace_placeholder(&out, "%(ext)s", &chars_of(format.ext.as_str()));
    match &info.uploader {
        Some(u) => {
            let name = sanitized_chars(&chars_of(u.as_str()));
            out = replace_placeholder(&out, "%(uploader)s", &name);
        },
        None => {},
    }
    match &info.upload_date {
        Some(d) => {
            out = replace_placeholder(&out, "%(upload_date)s", &chars_of(d.as_str()));
        },
        None => {},
    }
    string_of(&out)
}

} // verus!
