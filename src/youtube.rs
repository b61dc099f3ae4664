//! Extraction from the video-hosting site: locating the video identifier, the
//! embedded player data and the player script, and assembling `MediaInfo`.

use vstd::prelude::*;
use crate::text::{
    append_chars, chars_of, find_chars, find_from, is_white, is_white_char, occurs_at,
    slice_of, starts_with, string_of, matches_at, split, split_chars, trim, trim_chars,
    signed_decimal, push_signed_decimal, skip_white, skip_white_at, u64_text, parse_u64,
};
use crate::processing::{Format, MediaInfo, Platform, opt_view, sanitized, sanitize_filename};
use crate::signature::{
    ops_of_script, SigOp, SignatureCache, apply_ops, cipher_fields, decode_signature, param_value, params_of,
    parse_cipher_params, signed_url, signed_url_of,
};

verus! {

/// Why an extraction failed.
#[derive(Debug, Clone)]
pub enum YouTubeError {
    /// The host could not be reached or the transfer failed.
    Network(String),
    /// The page or its embedded data did not have the expected structure.
    Parse(String),
    /// Something the extraction needs was not found: a video identifier, the
    /// fields of a ciphered URL, the player script's location.
    ExtractError(String),
}

/// The description of an error: its kind, then its detail.
pub open spec fn error_message(e: YouTubeError) -> Seq<char> {
    match e {
        YouTubeError::Network(d) => "Network error: "@ + d@,
        YouTubeError::Parse(d) => "Parse error: "@ + d@,
        YouTubeError::ExtractError(d) => "Extraction error: "@ + d@,
    }
}

impl YouTubeError {
    /// A human-readable description of the error.
    pub fn message(&self) -> (r: String)
        ensures
            r@ == error_message(*self),
    {
        let (head, detail) = match self {
            YouTubeError::Network(e) => ("Network error: ", e),
            YouTubeError::Parse(e) => ("Parse error: ", e),
            YouTubeError::ExtractError(e) => ("Extraction error: ", e),
        };
        let mut v = chars_of(head);
        append_chars(&mut v, &chars_of(detail.as_str()));
        string_of(&v)
    }
}

// ---------------------------------------------------------------------------
// Video identifiers

/// A character that can stand in a video identifier.
pub open spec fn is_id_char(c: char) -> bool {
    ('0' <= c && c <= '9') || ('A' <= c && c <= 'Z') || ('a' <= c && c <= 'z') || c == '_'
        || c == '-'
}

/// Length of a video identifier.
pub const ID_LEN: usize = 11;

/// Eleven identifier characters start at `i`.
pub open spec fn id_at(s: Seq<char>, i: int) -> bool {
    0 <= i && i + 11 <= s.len() && forall|k: int| i <= k < i + 11 ==> is_id_char(#[trigger] s[k])
}

/// An identifier may end before `j`: `j` is the end of `s`, or `s[j]` is one
/// of `&`, `?`, `/` or white space.
pub open spec fn id_may_end(s: Seq<char>, j: int) -> bool {
    j == s.len() || (0 <= j < s.len() && (s[j] == '&' || s[j] == '?' || s[j] == '/' || is_white(
        s[j],
    )))
}

/// An identifier, properly ended, starts at `i`.
pub open spec fn id_follows(s: Seq<char>, i: int) -> bool {
    id_at(s, i) && id_may_end(s, i + 11)
}

/// Where the identifier starts, for the first of the prefixes `alts[k..]` that
/// occurs at `p` and is followed by an identifier.
pub open spec fn alt_match_at(s: Seq<char>, alts: Seq<Seq<char>>, p: int, k: int) -> Option<int>
    decreases alts.len() - k,
{
    if k < 0 || k >= alts.len() {
        None
    } else if occurs_at(s, alts[k], p) && id_follows(s, p + alts[k].len()) {
        Some(p + alts[k].len())
    } else {
        alt_match_at(s, alts, p, k + 1)
    }
}

/// Leftmost-first search: the identifier's start for the earliest position
/// `p` or later at which one of `alts` followed by an identifier occurs.
pub open spec fn first_alt_match(s: Seq<char>, alts: Seq<Seq<char>>, p: int) -> Option<int>
    decreases s.len() - p,
{
    if p < 0 || p > s.len() {
        None
    } else if alt_match_at(s, alts, p, 0) is Some {
        alt_match_at(s, alts, p, 0)
    } else if p == s.len() {
        None
    } else {
        first_alt_match(s, alts, p + 1)
    }
}

/// The prefixes of the first pattern: a `v=` query parameter or a path segment.
pub open spec fn query_prefixes() -> Seq<Seq<char>> {
    seq!["v="@, "/"@]
}

/// The prefixes of the second pattern: embed, v and shorts paths.
pub open spec fn path_prefixes() -> Seq<Seq<char>> {
    seq!["embed/"@, "v/"@, "shorts/"@]
}

/// Where the identifier starts in `s`, by the first of the three patterns that
/// matches: query or path prefix, embed/v/shorts prefix, or `s` being exactly
/// one identifier.
pub open spec fn video_id_start(s: Seq<char>) -> Option<int> {
    match first_alt_match(s, query_prefixes(), 0) {
        Some(j) => Some(j),
        None => match first_alt_match(s, path_prefixes(), 0) {
            Some(j) => Some(j),
            None => if s.len() == 11 && id_at(s, 0) {
                Some(0)
            } else {
                None
            },
        },
    }
}

/// The video identifier named by the URL or identifier `s`.
pub open spec fn video_id_of(s: Seq<char>) -> Option<Seq<char>> {
    match video_id_start(s) {
        Some(j) => Some(s.subrange(j, j + 11)),
        None => None,
    }
}

proof fn lemma_alt_match_ends(s: Seq<char>, alts: Seq<Seq<char>>, p: int, k: int)
    ensures
        alt_match_at(s, alts, p, k) matches Some(j) ==> id_follows(s, j),
    decreases alts.len() - k,
{
    if 0 <= k < alts.len() {
        lemma_alt_match_ends(s, alts, p, k + 1);
    }
}

proof fn lemma_first_alt_match_ends(s: Seq<char>, alts: Seq<Seq<char>>, p: int)
    ensures
        first_alt_match(s, alts, p) matches Some(j) ==> id_follows(s, j),
    decreases s.len() - p,
{
    lemma_alt_match_ends(s, alts, p, 0);
    if 0 <= p < s.len() {
        lemma_first_alt_match_ends(s, alts, p + 1);
    }
}

fn is_id_char_exec(c: char) -> (r: bool)
    ensures
        r == is_id_char(c),
{
    ('0' <= c && c <= '9') || ('A' <= c && c <= 'Z') || ('a' <= c && c <= 'z') || c == '_' || c
        == '-'
}

fn id_follows_exec(v: &[char], i: usize) -> (r: bool)
    ensures
        r == id_follows(v@, i as int),
{
    if i > v.len() || v.len() - i < ID_LEN {
        return false;
    }
    let mut k: usize = i;
    let end: usize = i + ID_LEN;
    while k < end
        invariant
            i + 11 <= v@.len(),
            end == i + 11,
            i <= k <= i + 11,
            forall|m: int| i <= m < k ==> is_id_char(#[trigger] v@[m]),
        decreases i + 11 - k,
    {
        if !is_id_char_exec(v[k]) {
            return false;
        }
        k = k + 1;
    }
    let j = i + ID_LEN;
    j == v.len() || v[j] == '&' || v[j] == '?' || v[j] == '/' || is_white_char(v[j])
}

fn alt_match_at_exec(v: &[char], alts: &Vec<Vec<char>>, p: usize) -> (r: Option<usize>)
    requires
        p <= v@.len(),
    ensures
        r matches Some(j) ==> alt_match_at(v@, alts@.map_values(|a: Vec<char>| a@), p as int, 0)
            == Some(j as int),
        r is None ==> alt_match_at(v@, alts@.map_values(|a: Vec<char>| a@), p as int, 0) is None,
{
    let ghost a = alts@.map_values(|a: Vec<char>| a@);
    let mut k: usize = 0;
    while k < alts.len()
        invariant
            k <= alts@.len(),
            p <= v@.len(),
            a == alts@.map_values(|a: Vec<char>| a@),
            alt_match_at(v@, a, p as int, 0) == alt_match_at(v@, a, p as int, k as int),
        decreases alts@.len() - k,
    {
        let alt = &alts[k];
        assert(a[k as int] == alt@);
        if alt.len() <= v.len() - p && matches_at(v, alt.as_slice(), p) && id_follows_exec(
            v,
            p + alt.len(),
        ) {
            return Some(p + alt.len());
        }
        k = k + 1;
    }
    None
}

fn first_alt_match_exec(v: &[char], alts: &Vec<Vec<char>>) -> (r: Option<usize>)
    ensures
        r matches Some(j) ==> first_alt_match(v@, alts@.map_values(|a: Vec<char>| a@), 0) == Some(
            j as int,
        ),
        r is None ==> first_alt_match(v@, alts@.map_values(|a: Vec<char>| a@), 0) is None,
{
    let ghost a = alts@.map_values(|a: Vec<char>| a@);
    let mut p: usize = 0;
    loop
        invariant
            p <= v@.len(),
            a == alts@.map_values(|a: Vec<char>| a@),
            first_alt_match(v@, a, 0) == first_alt_match(v@, a, p as int),
        decreases v@.len() - p,
    {
        match alt_match_at_exec(v, alts, p) {
            Some(j) => {
                return Some(j);
            },
            None => {},
        }
        if p == v.len() {
            return None;
        }
        p = p + 1;
    }
}

fn prefixes_of(a: &str, b: &str, c: Option<&str>) -> (r: Vec<Vec<char>>)
    ensures
        r@.map_values(|x: Vec<char>| x@) == (match c {
            Some(c) => seq![a@, b@, c@],
            None => seq![a@, b@],
        }),
{
    let mut r: Vec<Vec<char>> = Vec::new();
    r.push(chars_of(a));
    r.push(chars_of(b));
    match c {
        Some(c) => {
            r.push(chars_of(c));
        },
        None => {},
    }
    assert(r@.map_values(|x: Vec<char>| x@) =~= (match c {
        Some(c) => seq![a@, b@, c@],
        None => seq![a@, b@],
    }));
    r
}

/// The 11-character video identifier named by `url`, which may be a watch URL
/// (`watch?v=ID`), an embed, v or shorts path, or a bare identifier.
pub fn extract_video_id(url: &str) -> (r: Result<String, YouTubeError>)
    ensures
        r matches Ok(id) ==> video_id_of(url@) == Some(id@),
        r matches Err(e) ==> video_id_of(url@) is None && e is ExtractError,
{
    let v = chars_of(url);
    let query = prefixes_of("v=", "/", None);
    let paths = prefixes_of("embed/", "v/", Some("shorts/"));
    let start = match first_alt_match_exec(&v, &query) {
        Some(j) => Some(j),
        None => match first_alt_match_exec(&v, &paths) {
            Some(j) => Some(j),
            None => if v.len() == ID_LEN && id_follows_exec(&v, 0) {
                Some(0)
            } else {
                None
            },
        },
    };
    proof {
        lemma_first_alt_match_ends(v@, query_prefixes(), 0);
        lemma_first_alt_match_ends(v@, path_prefixes(), 0);
    }
    match start {
        Some(j) => {
            assert(video_id_start(v@) == Some(j as int));
            let n: usize = v.len();
            assert(j + 11 <= n);
            Ok(string_of(&slice_of(&v, j, j + ID_LEN)))
        },
        None => Err(YouTubeError::ExtractError(String::from_str("Could not extract valid video ID"))),
    }
}

// ---------------------------------------------------------------------------
// Pages

pub open spec fn watch_url_of(id: Seq<char>) -> Seq<char> {
    "https://www.youtube.com/watch?v="@ + id
}

/// The watch page's address for the video `id`.
pub fn watch_url(id: &str) -> (r: String)
    ensures
        r@ == watch_url_of(id@),
{
    let mut v = chars_of("https://www.youtube.com/watch?v=");
    append_chars(&mut v, &chars_of(id));
    string_of(&v)
}

pub open spec fn player_data_marker() -> Seq<char> {
    "ytInitialPlayerResponse = "@
}

pub open spec fn player_data_end() -> Seq<char> {
    "};"@
}

/// The embedded player data of a watch page: the text after the first
/// assignment marker up to the first `};` that follows it, closed with `}`.
pub open spec fn player_data_of(page: Seq<char>) -> Option<Seq<char>> {
    match find_from(page, player_data_marker(), 0) {
        None => None,
        Some(st) => {
            let js = st + player_data_marker().len();
            match find_from(page, player_data_end(), js) {
                None => None,
                Some(e) => Some(page.subrange(js, e).push('}')),
            }
        },
    }
}

/// Slices the JSON text of the embedded player data out of a watch page.
pub fn slice_player_response(page: &str) -> (r: Result<String, YouTubeError>)
    ensures
        r matches Ok(j) ==> player_data_of(page@) == Some(j@),
        r matches Err(e) ==> player_data_of(page@) is None && e is Parse,
{
    let v = chars_of(page);
    let marker = chars_of("ytInitialPlayerResponse = ");
    let start = match find_chars(&v, &marker, 0) {
        Some(i) => i,
        None => {
            return Err(YouTubeError::Parse(String::from_str("Could not find start of player data")));
        },
    };
    let n: usize = v.len();
    assert(start + marker@.len() <= n);
    let json_start = start + marker.len();
    let end = match find_chars(&v, &chars_of("};"), json_start) {
        Some(e) => e,
        None => {
            return Err(YouTubeError::Parse(String::from_str("Could not find end of player data")));
        },
    };
    let mut json = slice_of(&v, json_start, end);
    json.push('}');
    Ok(string_of(&json))
}

pub open spec fn is_quote(c: char) -> bool {
    c == '"' || c == '\''
}

/// The first index at or after `j` that holds a quote, or the end.
pub open spec fn quote_from(s: Seq<char>, j: int) -> int
    decreases s.len() - j,
{
    if 0 <= j < s.len() && !is_quote(s[j]) {
        quote_from(s, j + 1)
    } else {
        j
    }
}

pub open spec fn player_key() -> Seq<char> {
    "PLAYER_JS_URL"@
}

/// The bounds of the quoted player path of a `"PLAYER_JS_URL" : "path"`
/// entry (either quote kind, white space around the colon) starting at `p`.
pub open spec fn player_entry_at(s: Seq<char>, p: int) -> Option<(int, int)> {
    if 0 <= p && p + 15 <= s.len() && is_quote(s[p]) && s.subrange(p + 1, p + 14) == player_key()
        && is_quote(s[p + 14]) {
        let a = skip_white(s, p + 15);
        if 0 <= a < s.len() && s[a] == ':' {
            let b = skip_white(s, a + 1);
            if 0 <= b < s.len() && is_quote(s[b]) {
                let e = quote_from(s, b + 1);
                if b + 1 < e < s.len() {
                    Some((b + 1, e))
                } else {
                    None
                }
            } else {
                None
            }
        } else {
            None
        }
    } else {
        None
    }
}

/// The first player entry at or after `p`.
pub open spec fn first_player_entry(s: Seq<char>, p: int) -> Option<(int, int)>
    decreases s.len() - p,
{
    if p < 0 || p >= s.len() {
        None
    } else if player_entry_at(s, p) is Some {
        player_entry_at(s, p)
    } else {
        first_player_entry(s, p + 1)
    }
}

/// The player script's address named by a watch page: the path of its first
/// player entry, made absolute on the site's host unless it starts with `http`.
pub open spec fn player_url_of(page: Seq<char>) -> Option<Seq<char>> {
    match first_player_entry(page, 0) {
        Some((a, e)) => {
            let path = page.subrange(a, e);
            Some(
                if starts_with(path, "http"@) {
                    path
                } else {
                    "https://www.youtube.com"@ + path
                },
            )
        },
        None => None,
    }
}

fn is_quote_exec(c: char) -> (r: bool)
    ensures
        r == is_quote(c),
{
    c == '"' || c == '\''
}

fn quote_from_exec(v: &[char], j: usize) -> (r: usize)
    requires
        j <= v@.len(),
    ensures
        r == quote_from(v@, j as int),
        j <= r <= v@.len(),
{
    let mut k: usize = j;
    while k < v.len() && !is_quote_exec(v[k])
        invariant
            j <= k <= v@.len(),
            quote_from(v@, j as int) == quote_from(v@, k as int),
        decreases v@.len() - k,
    {
        k = k + 1;
    }
    k
}

fn player_entry_at_exec(v: &[char], key: &[char], p: usize) -> (r: Option<(usize, usize)>)
    requires
        key@ == player_key(),
        p < v@.len(),
    ensures
        r matches Some((a, e)) ==> player_entry_at(v@, p as int) == Some((a as int, e as int)),
        r is None ==> player_entry_at(v@, p as int) is None,
{
    proof {
        reveal_strlit("PLAYER_JS_URL");
    }
    if v.len() - p < 15 || !is_quote_exec(v[p]) || !matches_at(v, key, p + 1) || !is_quote_exec(
        v[p + 14],
    ) {
        return None;
    }
    let a = skip_white_at(v, p + 15);
    if a >= v.len() || v[a] != ':' {
        return None;
    }
    let b = skip_white_at(v, a + 1);
    if b >= v.len() || !is_quote_exec(v[b]) {
        return None;
    }
    let e = quote_from_exec(v, b + 1);
    if b + 1 < e && e < v.len() {
        Some((b + 1, e))
    } else {
        None
    }
}

/// The player script's address named by `page`.
pub fn find_player_url(page: &str) -> (r: Result<String, YouTubeError>)
    ensures
        r matches Ok(u) ==> player_url_of(page@) == Some(u@),
        r matches Err(e) ==> player_url_of(page@) is None && e is ExtractError,
{
    let v = chars_of(page);
    let key = chars_of("PLAYER_JS_URL");
    let mut p: usize = 0;
    while p < v.len()
        invariant
            p <= v@.len(),
            v@ == page@,
            key@ == player_key(),
            first_player_entry(v@, 0) == first_player_entry(v@, p as int),
        decreases v@.len() - p,
    {
        match player_entry_at_exec(&v, &key, p) {
            Some((a, e)) => {
                assert(first_player_entry(v@, p as int) == Some((a as int, e as int)));
                let path = slice_of(&v, a, e);
                let http = chars_of("http");
                if matches_at(&path, &http, 0) {
                    return Ok(string_of(&path));
                } else {
                    let mut full = chars_of("https://www.youtube.com");
                    append_chars(&mut full, &path);
                    return Ok(string_of(&full));
                }
            },
            None => {},
        }
        p = p + 1;
    }
    Err(YouTubeError::ExtractError(String::from_str("Could not find player URL")))
}

// ---------------------------------------------------------------------------
// MIME types

pub open spec fn codecs_marker() -> Seq<char> {
    "codecs=\""@
}

/// The first index at or after `j` that holds `"`, or the end.
pub open spec fn dquote_from(s: Seq<char>, j: int) -> int
    decreases s.len() - j,
{
    if 0 <= j < s.len() && s[j] != '"' {
        dquote_from(s, j + 1)
    } else {
        j
    }
}

/// The bounds of a non-empty `codecs="..."` parameter value starting at `p`.
pub open spec fn codecs_at(s: Seq<char>, p: int) -> Option<(int, int)> {
    if occurs_at(s, codecs_marker(), p) {
        let b = p + 8;
        let e = dquote_from(s, b);
        if b < e < s.len() {
            Some((b, e))
        } else {
            None
        }
    } else {
        None
    }
}

/// The first `codecs="..."` parameter at or after `p`.
pub open spec fn first_codecs(s: Seq<char>, p: int) -> Option<(int, int)>
    decreases s.len() - p,
{
    if p < 0 || p >= s.len() {
        None
    } else if codecs_at(s, p) is Some {
        codecs_at(s, p)
    } else {
        first_codecs(s, p + 1)
    }
}

/// The (audio, video) codecs that a MIME type names: a video type with two
/// codecs gives (second, first), with one codec (none, it); an audio type
/// with one codec gives (it, none); anything else gives neither. Codecs are
/// the comma-separated pieces of the `codecs="..."` parameter, trimmed.
pub open spec fn mime_codecs(mime: Seq<char>) -> (Option<Seq<char>>, Option<Seq<char>>) {
    match first_codecs(mime, 0) {
        None => (None, None),
        Some((b, e)) => {
            let l = split(mime.subrange(b, e), ',').map_values(|x: Seq<char>| trim(x));
            if starts_with(mime, "video/"@) {
                if l.len() == 2 {
                    (Some(l[1]), Some(l[0]))
                } else if l.len() == 1 {
                    (None, Some(l[0]))
                } else {
                    (None, None)
                }
            } else if starts_with(mime, "audio/"@) {
                if l.len() == 1 {
                    (Some(l[0]), None)
                } else {
                    (None, None)
                }
            } else {
                (None, None)
            }
        },
    }
}

/// The container extension of a MIME type.
pub open spec fn ext_of_mime(mime: Seq<char>) -> Seq<char> {
    if starts_with(mime, "video/mp4"@) || starts_with(mime, "audio/mp4"@) {
        "mp4"@
    } else if starts_with(mime, "video/webm"@) || starts_with(mime, "audio/webm"@) {
        "webm"@
    } else {
        "unknown"@
    }
}

fn starts_with_text(v: &[char], t: &str) -> (r: bool)
    ensures
        r == starts_with(v@, t@),
{
    matches_at(v, &chars_of(t), 0)
}

fn dquote_from_exec(v: &[char], j: usize) -> (r: usize)
    requires
        j <= v@.len(),
    ensures
        r == dquote_from(v@, j as int),
        j <= r <= v@.len(),
{
    let mut k: usize = j;
    while k < v.len() && v[k] != '"'
        invariant
            j <= k <= v@.len(),
            dquote_from(v@, j as int) == dquote_from(v@, k as int),
        decreases v@.len() - k,
    {
        k = k + 1;
    }
    k
}

fn first_codecs_exec(v: &[char]) -> (r: Option<(usize, usize)>)
    ensures
        r matches Some((b, e)) ==> first_codecs(v@, 0) == Some((b as int, e as int)) && b <= e
            <= v@.len(),
        r is None ==> first_codecs(v@, 0) is None,
{
    proof {
        reveal_strlit("codecs=\"");
    }
    let marker = chars_of("codecs=\"");
    let mut p: usize = 0;
    while p < v.len()
        invariant
            p <= v@.len(),
            marker@ == codecs_marker(),
            marker@.len() == 8,
            first_codecs(v@, 0) == first_codecs(v@, p as int),
        decreases v@.len() - p,
    {
        if matches_at(v, &marker, p) {
            let b = p + 8;
            let e = dquote_from_exec(v, b);
            if b < e && e < v.len() {
                return Some((b, e));
            }
        }
        p = p + 1;
    }
    None
}

fn trimmed_string(v: &[char]) -> (r: String)
    ensures
        r@ == trim(v@),
{
    string_of(&trim_chars(v))
}

/// The (audio, video) codecs named by `mime`.
pub fn parse_mime_type(mime: &str) -> (r: (Option<String>, Option<String>))
    ensures
        (opt_view(r.0), opt_view(r.1)) == mime_codecs(mime@),
{
    let v = chars_of(mime);
    let (b, e) = match first_codecs_exec(&v) {
        Some(be) => be,
        None => {
            return (None, None);
        },
    };
    let pieces = split_chars(&slice_of(&v, b, e), ',');
    let ghost l = split(v@.subrange(b as int, e as int), ',').map_values(|x: Seq<char>| trim(x));
    assert(l.len() == pieces@.len());
    if starts_with_text(&v, "video/") {
        if pieces.len() == 2 {
            assert(l[0] == trim(pieces@[0]@) && l[1] == trim(pieces@[1]@));
            (Some(trimmed_string(&pieces[1])), Some(trimmed_string(&pieces[0])))
        } else if pieces.len() == 1 {
            assert(l[0] == trim(pieces@[0]@));
            (None, Some(trimmed_string(&pieces[0])))
        } else {
            (None, None)
        }
    } else if starts_with_text(&v, "audio/") {
        if pieces.len() == 1 {
            assert(l[0] == trim(pieces@[0]@));
            (Some(trimmed_string(&pieces[0])), None)
        } else {
            (None, None)
        }
    } else {
        (None, None)
    }
}

/// The container extension of `mime`: `mp4`, `webm` or `unknown`.
pub fn get_extension_from_mime(mime: &str) -> (r: String)
    ensures
        r@ == ext_of_mime(mime@),
{
    let v = chars_of(mime);
    if starts_with_text(&v, "video/mp4") || starts_with_text(&v, "audio/mp4") {
        String::from_str("mp4")
    } else if starts_with_text(&v, "video/webm") || starts_with_text(&v, "audio/webm") {
        String::from_str("webm")
    } else {
        String::from_str("unknown")
    }
}

// ---------------------------------------------------------------------------
// Player data

/// One stream variant as the embedded player data describes it.
#[derive(Debug, Clone)]
pub struct StreamFormat {
    pub itag: i32,
    /// A direct link, where the variant has one.
    pub url: Option<String>,
    /// The ciphered parameter blob, where the variant has no direct link.
    pub signature_cipher: Option<String>,
    pub mime_type: String,
    pub bitrate: i32,
    pub content_length: Option<String>,
    pub quality: String,
    pub quality_label: Option<String>,
}

/// The progressive and adaptive variant lists of the player data.
#[derive(Debug, Clone)]
pub struct StreamingData {
    pub formats: Vec<StreamFormat>,
    pub adaptive_formats: Vec<StreamFormat>,
}

/// The descriptive part of the player data.
#[derive(Debug, Clone)]
pub struct VideoDetails {
    pub video_id: String,
    pub title: String,
    pub length_seconds: String,
    pub short_description: String,
    /// Thumbnail addresses, smallest first.
    pub thumbnails: Vec<String>,
    pub view_count: String,
    pub author: String,
}

/// All variants, progressive ones first.
pub open spec fn all_entries(data: StreamingData) -> Seq<StreamFormat> {
    data.formats@ + data.adaptive_formats@
}

/// The blob of a variant that has only a ciphered link.
pub open spec fn needs_cipher(e: StreamFormat) -> bool {
    e.url is None && e.signature_cipher is Some
}

/// The blob carries both a base URL and a signature.
pub open spec fn cipher_ok(c: Seq<char>) -> bool {
    param_value(params_of(c), "url"@) is Some && param_value(params_of(c), "s"@) is Some
}

/// The link of a variant once `ops` decipher its signature: the direct link,
/// or the blob's base URL signed with its transformed signature; none for a
/// variant with neither.
pub open spec fn entry_url(e: StreamFormat, ops: Seq<SigOp>) -> Option<Seq<char>> {
    match e.url {
        Some(u) => Some(u@),
        None => match e.signature_cipher {
            Some(c) => {
                let ps = params_of(c@);
                Some(
                    signed_url_of(
                        param_value(ps, "url"@).unwrap(),
                        apply_ops(ops, param_value(ps, "s"@).unwrap()),
                    ),
                )
            },
            None => None,
        },
    }
}

/// The first variant at or after `i` at which the walk over the variants
/// cannot go on: one whose blob lacks a field, or, where no operations are
/// cached yet, one that needs them.
pub open spec fn first_stop(es: Seq<StreamFormat>, cached: bool, i: int) -> Option<int>
    decreases es.len() - i,
{
    if i < 0 || i >= es.len() {
        None
    } else if needs_cipher(es[i]) && (!cipher_ok(es[i].signature_cipher.unwrap()@) || !cached) {
        Some(i)
    } else {
        first_stop(es, cached, i + 1)
    }
}

/// How many of the first `i` variants have a link.
pub open spec fn kept_before(es: Seq<StreamFormat>, ops: Seq<SigOp>, i: int) -> nat
    decreases i,
{
    if i <= 0 {
        0
    } else {
        kept_before(es, ops, i - 1) + if entry_url(es[i - 1], ops) is Some {
            1nat
        } else {
            0nat
        }
    }
}

/// `f` is the `Format` assembled from the variant `e` with link `url`.
pub open spec fn format_of(f: Format, e: StreamFormat, url: Seq<char>) -> bool {
    &&& f.format_id@ == signed_decimal(e.itag as int)
    &&& f.url@ == url
    &&& f.ext@ == ext_of_mime(e.mime_type@)
    &&& f.quality@ == (match e.quality_label {
        Some(q) => q@,
        None => e.quality@,
    })
    &&& opt_view(f.format_note) == Some(e.quality@)
    &&& f.filesize == (match e.content_length {
        Some(c) => u64_text(c@),
        None => None,
    })
    &&& f.tbr == Some(e.bitrate as i64)
    &&& (opt_view(f.acodec), opt_view(f.vcodec)) == mime_codecs(e.mime_type@)
}

/// `fs` holds, in order, one `Format` for each variant of `es` that has a link.
pub open spec fn formats_of(fs: Seq<Format>, es: Seq<StreamFormat>, ops: Seq<SigOp>) -> bool {
    &&& fs.len() == kept_before(es, ops, es.len() as int)
    &&& forall|i: int|
        0 <= i < es.len() ==> (#[trigger] entry_url(es[i], ops) matches Some(u) ==> format_of(
            fs[kept_before(es, ops, i) as int],
            es[i],
            u,
        ))
}

/// The operations cached for `id`, none where there are none.
pub open spec fn cached_ops(cache: Map<Seq<char>, Seq<SigOp>>, id: Seq<char>) -> Seq<SigOp> {
    if cache.contains_key(id) {
        cache[id]
    } else {
        Seq::empty()
    }
}

/// Where the walk over a video's variants ended.
#[derive(Debug)]
pub enum FormatsStep {
    /// Every variant was resolved.
    Done(Vec<Format>),
    /// A ciphered variant needs the operations of the video's player script,
    /// which the cache does not hold yet: fetch it, record it with
    /// `SignatureCache::learn_from_script`, and walk again.
    NeedPlayerScript,
}

/// The `Format` of the variant `e` with link `url`.
pub fn build_format(e: &StreamFormat, url: String) -> (f: Format)
    ensures
        format_of(f, *e, url@),
{
    let mut id: Vec<char> = Vec::new();
    push_signed_decimal(&mut id, e.itag as i128);
    assert(id@ =~= signed_decimal(e.itag as int));
    let (acodec, vcodec) = parse_mime_type(e.mime_type.as_str());
    let quality = match &e.quality_label {
        Some(q) => q.clone(),
        None => e.quality.clone(),
    };
    let filesize = match &e.content_length {
        Some(c) => parse_u64(&chars_of(c.as_str())),
        None => None,
    };
    Format {
        format_id: string_of(&id),
        url,
        ext: get_extension_from_mime(e.mime_type.as_str()),
        quality,
        format_note: Some(e.quality.clone()),
        filesize,
        tbr: Some(e.bitrate as i64),
        acodec,
        vcodec,
    }
}

proof fn lemma_kept_before_grows(es: Seq<StreamFormat>, ops: Seq<SigOp>, k: int, i: int)
    requires
        0 <= k < i,
        entry_url(es[k], ops) is Some,
    ensures
        kept_before(es, ops, k) + 1 <= kept_before(es, ops, i),
    decreases i - k,
{
    if k + 1 < i {
        lemma_kept_before_grows(es, ops, k, i - 1);
    }
}

/// Walks the variants of `data`, progressive first, resolving each link:
/// direct links are kept, ciphered ones are deciphered with the operations
/// that `cache` holds for `video_id`, variants with neither are left out.
/// Fails where a blob lacks its base URL or signature; stops with
/// `NeedPlayerScript` at the first ciphered variant while no operations are
/// cached.
pub fn extract_formats(data: &StreamingData, cache: &SignatureCache, video_id: &str) -> (r: Result<
    FormatsStep,
    YouTubeError,
>)
    ensures
        ({
            let es = all_entries(*data);
            let cached = cache@.contains_key(video_id@);
            match first_stop(es, cached, 0) {
                Some(k) => if cipher_ok(es[k].signature_cipher.unwrap()@) {
                    r matches Ok(FormatsStep::NeedPlayerScript) && !cached
                } else {
                    r matches Err(e) && e is ExtractError
                },
                None => r matches Ok(FormatsStep::Done(fs)) && formats_of(
                    fs@,
                    es,
                    cached_ops(cache@, video_id@),
                ),
            }
        }),
{
    let ghost es = all_entries(*data);
    let ghost cached = cache@.contains_key(video_id@);
    let ghost ops_v = cached_ops(cache@, video_id@);
    let ops = cache.lookup(video_id);
    let n1: usize = data.formats.len();
    let n2: usize = data.adaptive_formats.len();
    let mut out: Vec<Format> = Vec::new();
    let mut part: usize = 0;
    let mut j: usize = 0;
    let ghost mut i: int = 0;
    while part < 2
        invariant
            part <= 2,
            n1 == data.formats@.len(),
            n2 == data.adaptive_formats@.len(),
            part == 0 ==> j <= n1 && i == j,
            part == 1 ==> j <= n2 && i == n1 + j,
            part == 2 ==> i == n1 + n2,
            es == all_entries(*data),
            cached == cache@.contains_key(video_id@),
            ops_v == cached_ops(cache@, video_id@),
            ops matches Some(o) ==> cached && o@ == ops_v,
            ops is None ==> !cached,
            first_stop(es, cached, 0) == first_stop(es, cached, i),
            out@.len() == kept_before(es, ops_v, i),
            forall|k: int|
                0 <= k < i ==> (#[trigger] entry_url(es[k], ops_v) matches Some(u) ==> format_of(
                    out@[kept_before(es, ops_v, k) as int],
                    es[k],
                    u,
                )),
        decreases es.len() - i + 2 - part,
    {
        if part == 0 && j == n1 {
            part = 1;
            j = 0;
            continue;
        }
        if part == 1 && j == n2 {
            part = 2;
            continue;
        }
        let e = if part == 0 {
            &data.formats[j]
        } else {
            &data.adaptive_formats[j]
        };
        assert(*e == es[i]);
        let url: Option<String> = match &e.url {
            Some(u) => Some(u.clone()),
            None => match &e.signature_cipher {
                Some(c) => {
                    let params = parse_cipher_params(c.as_str());
                    match cipher_fields(&params) {
                        Err(err) => {
                            assert(first_stop(es, cached, i) == Some(i));
                            return Err(err);
                        },
                        Ok((base, sig)) => match &ops {
                            None => {
                                assert(first_stop(es, cached, i) == Some(i));
                                return Ok(FormatsStep::NeedPlayerScript);
                            },
                            Some(o) => {
                                let decoded = decode_signature(o.as_slice(), sig.as_str());
                                Some(signed_url(base.as_str(), decoded.as_str()))
                            },
                        },
                    }
                },
                None => None,
            },
        };
        assert(opt_view(url) == entry_url(es[i], ops_v));
        let ghost before = out@;
        match url {
            Some(u) => {
                let f = build_format(e, u);
                out.push(f);
                assert(out@[kept_before(es, ops_v, i) as int] == f);
            },
            None => {},
        }
        assert forall|k: int|
            0 <= k < i + 1 implies (#[trigger] entry_url(es[k], ops_v) matches Some(u)
            ==> format_of(out@[kept_before(es, ops_v, k) as int], es[k], u)) by {
            if k < i && entry_url(es[k], ops_v) is Some {
                lemma_kept_before_grows(es, ops_v, k, i);
                assert(out@[kept_before(es, ops_v, k) as int] == before[kept_before(
                    es,
                    ops_v,
                    k,
                ) as int]);
            }
        }
        j = j + 1;
        proof {
            i = i + 1;
        }
    }
    Ok(FormatsStep::Done(out))
}

/// The address of the largest thumbnail, empty where there is none.
pub open spec fn thumbnail_of(thumbnails: Seq<String>) -> Seq<char> {
    if thumbnails.len() == 0 {
        Seq::empty()
    } else {
        thumbnails.last()@
    }
}

/// `m` is the record assembled from `d` and `formats`.
pub open spec fn media_info_of(m: MediaInfo, d: VideoDetails, formats: Seq<Format>) -> bool {
    &&& m.id@ == d.video_id@
    &&& m.title@ == sanitized(d.title@)
    &&& opt_view(m.description) == Some(d.short_description@)
    &&& m.duration == u64_text(d.length_seconds@)
    &&& opt_view(m.thumbnail) == Some(thumbnail_of(d.thumbnails@))
    &&& m.formats@ == formats
    &&& m.upload_date is None
    &&& opt_view(m.uploader) == Some(sanitized(d.author@))
    &&& m.view_count == u64_text(d.view_count@)
    &&& m.platform == Platform::YouTube
}

/// The `MediaInfo` of a video from its details and resolved formats; title
/// and uploader are sanitized for use in file names. Fails where the length
/// or the view count is not a number.
pub fn assemble_media_info(details: &VideoDetails, formats: Vec<Format>) -> (r: Result<
    MediaInfo,
    YouTubeError,
>)
    ensures
        r matches Ok(m) ==> media_info_of(m, *details, formats@),
        r is Err <==> u64_text(details.length_seconds@) is None || u64_text(
            details.view_count@,
        ) is None,
        r matches Err(e) ==> e is Parse,
{
    let duration = match parse_u64(&chars_of(details.length_seconds.as_str())) {
        Some(d) => d,
        None => {
            return Err(YouTubeError::Parse(String::from_str("Invalid video length")));
        },
    };
    let views = match parse_u64(&chars_of(details.view_count.as_str())) {
        Some(v) => v,
        None => {
            return Err(YouTubeError::Parse(String::from_str("Invalid view count")));
        },
    };
    let thumbnail = if details.thumbnails.len() == 0 {
        String::new()
    } else {
        details.thumbnails[details.thumbnails.len() - 1].clone()
    };
    Ok(
        MediaInfo {
            id: details.video_id.clone(),
            title: sanitize_filename(details.title.as_str()),
            description: Some(details.short_description.clone()),
            duration: Some(duration),
            thumbnail: Some(thumbnail),
            formats,
            upload_date: None,
            uploader: Some(sanitize_filename(details.author.as_str())),
            view_count: Some(views),
            platform: Platform::YouTube,
        },
    )
}

// ---------------------------------------------------------------------------
// Laws

proof fn lemma_first_alt_match_skips(s: Seq<char>, alts: Seq<Seq<char>>, p: int, q: int)
    requires
        0 <= p <= q <= s.len(),
        forall|t: int| p <= t < q ==> (#[trigger] alt_match_at(s, alts, t, 0)) is None,
    ensures
        first_alt_match(s, alts, p) == first_alt_match(s, alts, q),
    decreases q - p,
{
    if p < q {
        assert(alt_match_at(s, alts, p, 0) is None);
        lemma_first_alt_match_skips(s, alts, p + 1, q);
    }
}

proof fn lemma_watch_url_names_id(id: Seq<char>)
    requires
        id.len() == 11,
        forall|k: int| 0 <= k < 11 ==> is_id_char(#[trigger] id[k]),
    ensures
        video_id_of("https://www.youtube.com/watch?v="@ + id) == Some(id),
{
    reveal_strlit("https://www.youtube.com/watch?v=");
    reveal_strlit("v=");
    reveal_strlit("/");
    reveal_with_fuel(alt_match_at, 3);
    let s = "https://www.youtube.com/watch?v="@ + id;
    let q = query_prefixes();
    assert(s.len() == 32 + 11);
    assert forall|k: int| 32 <= k < s.len() implies is_id_char(#[trigger] s[k]) by {
        assert(s[k] == id[k - 32]);
    }
    assert(s[0] == 'h');
    assert(s.subrange(0int, 0int + 1)[0] == s[0]);
    assert(0 + 2 <= s.len() ==> s.subrange(0int, 0int + 2)[0] == s[0]);
    assert(alt_match_at(s, q, 0, 0) is None);
    assert(s[1] == 't');
    assert(s.subrange(1int, 1int + 1)[0] == s[1]);
    assert(1 + 2 <= s.len() ==> s.subrange(1int, 1int + 2)[0] == s[1]);
    assert(alt_match_at(s, q, 1, 0) is None);
    assert(s[2] == 't');
    assert(s.subrange(2int, 2int + 1)[0] == s[2]);
    assert(2 + 2 <= s.len() ==> s.subrange(2int, 2int + 2)[0] == s[2]);
    assert(alt_match_at(s, q, 2, 0) is None);
    assert(s[3] == 'p');
    assert(s.subrange(3int, 3int + 1)[0] == s[3]);
    assert(3 + 2 <= s.len() ==> s.subrange(3int, 3int + 2)[0] == s[3]);
    assert(alt_match_at(s, q, 3, 0) is None);
    assert(s[4] == 's');
    assert(s.subrange(4int, 4int + 1)[0] == s[4]);
    assert(4 + 2 <= s.len() ==> s.subrange(4int, 4int + 2)[0] == s[4]);
    assert(alt_match_at(s, q, 4, 0) is None);
    assert(s[5] == ':');
    assert(s.subrange(5int, 5int + 1)[0] == s[5]);
    assert(5 + 2 <= s.len() ==> s.subrange(5int, 5int + 2)[0] == s[5]);
    assert(alt_match_at(s, q, 5, 0) is None);
    assert(s[6] == '/');
    assert(s[7] == '/');
    assert(s.subrange(6int, 6int + 1)[0] == s[6]);
    assert(6 + 2 <= s.len() ==> s.subrange(6int, 6int + 2)[0] == s[6]);
    assert(alt_match_at(s, q, 6, 0) is None);
    assert(s[7] == '/');
    assert(s[11] == '.');
    assert(s.subrange(7int, 7int + 1)[0] == s[7]);
    assert(7 + 2 <= s.len() ==> s.subrange(7int, 7int + 2)[0] == s[7]);
    assert(alt_match_at(s, q, 7, 0) is None);
    assert(s[8] == 'w');
    assert(s.subrange(8int, 8int + 1)[0] == s[8]);
    assert(8 + 2 <= s.len() ==> s.subrange(8int, 8int + 2)[0] == s[8]);
    assert(alt_match_at(s, q, 8, 0) is None);
    assert(s[9] == 'w');
    assert(s.subrange(9int, 9int + 1)[0] == s[9]);
    assert(9 + 2 <= s.len() ==> s.subrange(9int, 9int + 2)[0] == s[9]);
    assert(alt_match_at(s, q, 9, 0) is None);
    assert(s[10] == 'w');
    assert(s.subrange(10int, 10int + 1)[0] == s[10]);
    assert(10 + 2 <= s.len() ==> s.subrange(10int, 10int + 2)[0] == s[10]);
    assert(alt_match_at(s, q, 10, 0) is None);
    assert(s[11] == '.');
    assert(s.subrange(11int, 11int + 1)[0] == s[11]);
    assert(11 + 2 <= s.len() ==> s.subrange(11int, 11int + 2)[0] == s[11]);
    assert(alt_match_at(s, q, 11, 0) is None);
    assert(s[12] == 'y');
    assert(s.subrange(12int, 12int + 1)[0] == s[12]);
    assert(12 + 2 <= s.len() ==> s.subrange(12int, 12int + 2)[0] == s[12]);
    assert(alt_match_at(s, q, 12, 0) is None);
    assert(s[13] == 'o');
    assert(s.subrange(13int, 13int + 1)[0] == s[13]);
    assert(13 + 2 <= s.len() ==> s.subrange(13int, 13int + 2)[0] == s[13]);
    assert(alt_match_at(s, q, 13, 0) is None);
    assert(s[14] == 'u');
    assert(s.subrange(14int, 14int + 1)[0] == s[14]);
    assert(14 + 2 <= s.len() ==> s.subrange(14int, 14int + 2)[0] == s[14]);
    assert(alt_match_at(s, q, 14, 0) is None);
    assert(s[15] == 't');
    assert(s.subrange(15int, 15int + 1)[0] == s[15]);
    assert(15 + 2 <= s.len() ==> s.subrange(15int, 15int + 2)[0] == s[15]);
    assert(alt_match_at(s, q, 15, 0) is None);
    assert(s[16] == 'u');
    assert(s.subrange(16int, 16int + 1)[0] == s[16]);
    assert(16 + 2 <= s.len() ==> s.subrange(16int, 16int + 2)[0] == s[16]);
    assert(alt_match_at(s, q, 16, 0) is None);
    assert(s[17] == 'b');
    assert(s.subrange(17int, 17int + 1)[0] == s[17]);
    assert(17 + 2 <= s.len() ==> s.subrange(17int, 17int + 2)[0] == s[17]);
    assert(alt_match_at(s, q, 17, 0) is None);
    assert(s[18] == 'e');
    assert(s.subrange(18int, 18int + 1)[0] == s[18]);
    assert(18 + 2 <= s.len() ==> s.subrange(18int, 18int + 2)[0] == s[18]);
    assert(alt_match_at(s, q, 18, 0) is None);
    assert(s[19] == '.');
    assert(s.subrange(19int, 19int + 1)[0] == s[19]);
    assert(19 + 2 <= s.len() ==> s.subrange(19int, 19int + 2)[0] == s[19]);
    assert(alt_match_at(s, q, 19, 0) is None);
    assert(s[20] == 'c');
    assert(s.subrange(20int, 20int + 1)[0] == s[20]);
    assert(20 + 2 <= s.len() ==> s.subrange(20int, 20int + 2)[0] == s[20]);
    assert(alt_match_at(s, q, 20, 0) is None);
    assert(s[21] == 'o');
    assert(s.subrange(21int, 21int + 1)[0] == s[21]);
    assert(21 + 2 <= s.len() ==> s.subrange(21int, 21int + 2)[0] == s[21]);
    assert(alt_match_at(s, q, 21, 0) is None);
    assert(s[22] == 'm');
    assert(s.subrange(22int, 22int + 1)[0] == s[22]);
    assert(22 + 2 <= s.len() ==> s.subrange(22int, 22int + 2)[0] == s[22]);
    assert(alt_match_at(s, q, 22, 0) is None);
    assert(s[23] == '/');
    assert(s[29] == '?');
    assert(s.subrange(23int, 23int + 1)[0] == s[23]);
    assert(23 + 2 <= s.len() ==> s.subrange(23int, 23int + 2)[0] == s[23]);
    assert(alt_match_at(s, q, 23, 0) is None);
    assert(s[24] == 'w');
    assert(s.subrange(24int, 24int + 1)[0] == s[24]);
    assert(24 + 2 <= s.len() ==> s.subrange(24int, 24int + 2)[0] == s[24]);
    assert(alt_match_at(s, q, 24, 0) is None);
    assert(s[25] == 'a');
    assert(s.subrange(25int, 25int + 1)[0] == s[25]);
    assert(25 + 2 <= s.len() ==> s.subrange(25int, 25int + 2)[0] == s[25]);
    assert(alt_match_at(s, q, 25, 0) is None);
    assert(s[26] == 't');
    assert(s.subrange(26int, 26int + 1)[0] == s[26]);
    assert(26 + 2 <= s.len() ==> s.subrange(26int, 26int + 2)[0] == s[26]);
    assert(alt_match_at(s, q, 26, 0) is None);
    assert(s[27] == 'c');
    assert(s.subrange(27int, 27int + 1)[0] == s[27]);
    assert(27 + 2 <= s.len() ==> s.subrange(27int, 27int + 2)[0] == s[27]);
    assert(alt_match_at(s, q, 27, 0) is None);
    assert(s[28] == 'h');
    assert(s.subrange(28int, 28int + 1)[0] == s[28]);
    assert(28 + 2 <= s.len() ==> s.subrange(28int, 28int + 2)[0] == s[28]);
    assert(alt_match_at(s, q, 28, 0) is None);
    assert(s[29] == '?');
    assert(s.subrange(29int, 29int + 1)[0] == s[29]);
    assert(29 + 2 <= s.len() ==> s.subrange(29int, 29int + 2)[0] == s[29]);
    assert(alt_match_at(s, q, 29, 0) is None);
    lemma_first_alt_match_skips(s, q, 0, 30);
    assert(s.subrange(30int, 32int) =~= "v="@);
    assert(id_follows(s, 32));
    assert(alt_match_at(s, q, 30, 0) == Some(32int));
    assert(s.subrange(32int, 32int + 11) =~= id);
}

proof fn lemma_embed_url_names_id(id: Seq<char>)
    requires
        id.len() == 11,
        forall|k: int| 0 <= k < 11 ==> is_id_char(#[trigger] id[k]),
    ensures
        video_id_of("https://www.youtube.com/embed/"@ + id) == Some(id),
{
    reveal_strlit("https://www.youtube.com/embed/");
    reveal_strlit("v=");
    reveal_strlit("/");
    reveal_with_fuel(alt_match_at, 3);
    let s = "https://www.youtube.com/embed/"@ + id;
    let q = query_prefixes();
    assert(s.len() == 30 + 11);
    assert forall|k: int| 30 <= k < s.len() implies is_id_char(#[trigger] s[k]) by {
        assert(s[k] == id[k - 30]);
    }
    assert(s[0] == 'h');
    assert(s.subrange(0int, 0int + 1)[0] == s[0]);
    assert(0 + 2 <= s.len() ==> s.subrange(0int, 0int + 2)[0] == s[0]);
    assert(alt_match_at(s, q, 0, 0) is None);
    assert(s[1] == 't');
    assert(s.subrange(1int, 1int + 1)[0] == s[1]);
    assert(1 + 2 <= s.len() ==> s.subrange(1int, 1int + 2)[0] == s[1]);
    assert(alt_match_at(s, q, 1, 0) is None);
    assert(s[2] == 't');
    assert(s.subrange(2int, 2int + 1)[0] == s[2]);
    assert(2 + 2 <= s.len() ==> s.subrange(2int, 2int + 2)[0] == s[2]);
    assert(alt_match_at(s, q, 2, 0) is None);
    assert(s[3] == 'p');
    assert(s.subrange(3int, 3int + 1)[0] == s[3]);
    assert(3 + 2 <= s.len() ==> s.subrange(3int, 3int + 2)[0] == s[3]);
    assert(alt_match_at(s, q, 3, 0) is None);
    assert(s[4] == 's');
    assert(s.subrange(4int, 4int + 1)[0] == s[4]);
    assert(4 + 2 <= s.len() ==> s.subrange(4int, 4int + 2)[0] == s[4]);
    assert(alt_match_at(s, q, 4, 0) is None);
    assert(s[5] == ':');
    assert(s.subrange(5int, 5int + 1)[0] == s[5]);
    assert(5 + 2 <= s.len() ==> s.subrange(5int, 5int + 2)[0] == s[5]);
    assert(alt_match_at(s, q, 5, 0) is None);
    assert(s[6] == '/');
    assert(s[7] == '/');
    assert(s.subrange(6int, 6int + 1)[0] == s[6]);
    assert(6 + 2 <= s.len() ==> s.subrange(6int, 6int + 2)[0] == s[6]);
    assert(alt_match_at(s, q, 6, 0) is None);
    assert(s[7] == '/');
    assert(s[11] == '.');
    assert(s.subrange(7int, 7int + 1)[0] == s[7]);
    assert(7 + 2 <= s.len() ==> s.subrange(7int, 7int + 2)[0] == s[7]);
    assert(alt_match_at(s, q, 7, 0) is None);
    assert(s[8] == 'w');
    assert(s.subrange(8int, 8int + 1)[0] == s[8]);
    assert(8 + 2 <= s.len() ==> s.subrange(8int, 8int + 2)[0] == s[8]);
    assert(alt_match_at(s, q, 8, 0) is None);
    assert(s[9] == 'w');
    assert(s.subrange(9int, 9int + 1)[0] == s[9]);
    assert(9 + 2 <= s.len() ==> s.subrange(9int, 9int + 2)[0] == s[9]);
    assert(alt_match_at(s, q, 9, 0) is None);
    assert(s[10] == 'w');
    assert(s.subrange(10int, 10int + 1)[0] == s[10]);
    assert(10 + 2 <= s.len() ==> s.subrange(10int, 10int + 2)[0] == s[10]);
    assert(alt_match_at(s, q, 10, 0) is None);
    assert(s[11] == '.');
    assert(s.subrange(11int, 11int + 1)[0] == s[11]);
    assert(11 + 2 <= s.len() ==> s.subrange(11int, 11int + 2)[0] == s[11]);
    assert(alt_match_at(s, q, 11, 0) is None);
    assert(s[12] == 'y');
    assert(s.subrange(12int, 12int + 1)[0] == s[12]);
    assert(12 + 2 <= s.len() ==> s.subrange(12int, 12int + 2)[0] == s[12]);
    assert(alt_match_at(s, q, 12, 0) is None);
    assert(s[13] == 'o');
    assert(s.subrange(13int, 13int + 1)[0] == s[13]);
    assert(13 + 2 <= s.len() ==> s.subrange(13int, 13int + 2)[0] == s[13]);
    assert(alt_match_at(s, q, 13, 0) is None);
    assert(s[14] == 'u');
    assert(s.subrange(14int, 14int + 1)[0] == s[14]);
    assert(14 + 2 <= s.len() ==> s.subrange(14int, 14int + 2)[0] == s[14]);
    assert(alt_match_at(s, q, 14, 0) is None);
    assert(s[15] == 't');
    assert(s.subrange(15int, 15int + 1)[0] == s[15]);
    assert(15 + 2 <= s.len() ==> s.subrange(15int, 15int + 2)[0] == s[15]);
    assert(alt_match_at(s, q, 15, 0) is None);
    assert(s[16] == 'u');
    assert(s.subrange(16int, 16int + 1)[0] == s[16]);
    assert(16 + 2 <= s.len() ==> s.subrange(16int, 16int + 2)[0] == s[16]);
    assert(alt_match_at(s, q, 16, 0) is None);
    assert(s[17] == 'b');
    assert(s.subrange(17int, 17int + 1)[0] == s[17]);
    assert(17 + 2 <= s.len() ==> s.subrange(17int, 17int + 2)[0] == s[17]);
    assert(alt_match_at(s, q, 17, 0) is None);
    assert(s[18] == 'e');
    assert(s.subrange(18int, 18int + 1)[0] == s[18]);
    assert(18 + 2 <= s.len() ==> s.subrange(18int, 18int + 2)[0] == s[18]);
    assert(alt_match_at(s, q, 18, 0) is None);
    assert(s[19] == '.');
    assert(s.subrange(19int, 19int + 1)[0] == s[19]);
    assert(19 + 2 <= s.len() ==> s.subrange(19int, 19int + 2)[0] == s[19]);
    assert(alt_match_at(s, q, 19, 0) is None);
    assert(s[20] == 'c');
    assert(s.subrange(20int, 20int + 1)[0] == s[20]);
    assert(20 + 2 <= s.len() ==> s.subrange(20int, 20int + 2)[0] == s[20]);
    assert(alt_match_at(s, q, 20, 0) is None);
    assert(s[21] == 'o');
    assert(s.subrange(21int, 21int + 1)[0] == s[21]);
    assert(21 + 2 <= s.len() ==> s.subrange(21int, 21int + 2)[0] == s[21]);
    assert(alt_match_at(s, q, 21, 0) is None);
    assert(s[22] == 'm');
    assert(s.subrange(22int, 22int + 1)[0] == s[22]);
    assert(22 + 2 <= s.len() ==> s.subrange(22int, 22int + 2)[0] == s[22]);
    assert(alt_match_at(s, q, 22, 0) is None);
    assert(s[23] == '/');
    assert(s[29] == '/');
    assert(s.subrange(23int, 23int + 1)[0] == s[23]);
    assert(23 + 2 <= s.len() ==> s.subrange(23int, 23int + 2)[0] == s[23]);
    assert(alt_match_at(s, q, 23, 0) is None);
    assert(s[24] == 'e');
    assert(s.subrange(24int, 24int + 1)[0] == s[24]);
    assert(24 + 2 <= s.len() ==> s.subrange(24int, 24int + 2)[0] == s[24]);
    assert(alt_match_at(s, q, 24, 0) is None);
    assert(s[25] == 'm');
    assert(s.subrange(25int, 25int + 1)[0] == s[25]);
    assert(25 + 2 <= s.len() ==> s.subrange(25int, 25int + 2)[0] == s[25]);
    assert(alt_match_at(s, q, 25, 0) is None);
    assert(s[26] == 'b');
    assert(s.subrange(26int, 26int + 1)[0] == s[26]);
    assert(26 + 2 <= s.len() ==> s.subrange(26int, 26int + 2)[0] == s[26]);
    assert(alt_match_at(s, q, 26, 0) is None);
    assert(s[27] == 'e');
    assert(s.subrange(27int, 27int + 1)[0] == s[27]);
    assert(27 + 2 <= s.len() ==> s.subrange(27int, 27int + 2)[0] == s[27]);
    assert(alt_match_at(s, q, 27, 0) is None);
    assert(s[28] == 'd');
    assert(s.subrange(28int, 28int + 1)[0] == s[28]);
    assert(28 + 2 <= s.len() ==> s.subrange(28int, 28int + 2)[0] == s[28]);
    assert(alt_match_at(s, q, 28, 0) is None);
    lemma_first_alt_match_skips(s, q, 0, 29);
    assert(s[29] == '/');
    assert(s.subrange(29int, 30int) =~= "/"@);
    assert(id_follows(s, 30));
    assert(alt_match_at(s, q, 29, 0) == Some(30int));
    assert(s.subrange(30int, 30int + 11) =~= id);
}

proof fn lemma_shorts_url_names_id(id: Seq<char>)
    requires
        id.len() == 11,
        forall|k: int| 0 <= k < 11 ==> is_id_char(#[trigger] id[k]),
    ensures
        video_id_of("https://www.youtube.com/shorts/"@ + id) == Some(id),
{
    reveal_strlit("https://www.youtube.com/shorts/");
    reveal_strlit("v=");
    reveal_strlit("/");
    reveal_with_fuel(alt_match_at, 3);
    let s = "https://www.youtube.com/shorts/"@ + id;
    let q = query_prefixes();
    assert(s.len() == 31 + 11);
    assert forall|k: int| 31 <= k < s.len() implies is_id_char(#[trigger] s[k]) by {
        assert(s[k] == id[k - 31]);
    }
    assert(s[0] == 'h');
    assert(s.subrange(0int, 0int + 1)[0] == s[0]);
    assert(0 + 2 <= s.len() ==> s.subrange(0int, 0int + 2)[0] == s[0]);
    assert(alt_match_at(s, q, 0, 0) is None);
    assert(s[1] == 't');
    assert(s.subrange(1int, 1int + 1)[0] == s[1]);
    assert(1 + 2 <= s.len() ==> s.subrange(1int, 1int + 2)[0] == s[1]);
    assert(alt_match_at(s, q, 1, 0) is None);
    assert(s[2] == 't');
    assert(s.subrange(2int, 2int + 1)[0] == s[2]);
    assert(2 + 2 <= s.len() ==> s.subrange(2int, 2int + 2)[0] == s[2]);
    assert(alt_match_at(s, q, 2, 0) is None);
    assert(s[3] == 'p');
    assert(s.subrange(3int, 3int + 1)[0] == s[3]);
    assert(3 + 2 <= s.len() ==> s.subrange(3int, 3int + 2)[0] == s[3]);
    assert(alt_match_at(s, q, 3, 0) is None);
    assert(s[4] == 's');
    assert(s.subrange(4int, 4int + 1)[0] == s[4]);
    assert(4 + 2 <= s.len() ==> s.subrange(4int, 4int + 2)[0] == s[4]);
    assert(alt_match_at(s, q, 4, 0) is None);
    assert(s[5] == ':');
    assert(s.subrange(5int, 5int + 1)[0] == s[5]);
    assert(5 + 2 <= s.len() ==> s.subrange(5int, 5int + 2)[0] == s[5]);
    assert(alt_match_at(s, q, 5, 0) is None);
    assert(s[6] == '/');
    assert(s[7] == '/');
    assert(s.subrange(6int, 6int + 1)[0] == s[6]);
    assert(6 + 2 <= s.len() ==> s.subrange(6int, 6int + 2)[0] == s[6]);
    assert(alt_match_at(s, q, 6, 0) is None);
    assert(s[7] == '/');
    assert(s[11] == '.');
    assert(s.subrange(7int, 7int + 1)[0] == s[7]);
    assert(7 + 2 <= s.len() ==> s.subrange(7int, 7int + 2)[0] == s[7]);
    assert(alt_match_at(s, q, 7, 0) is None);
    assert(s[8] == 'w');
    assert(s.subrange(8int, 8int + 1)[0] == s[8]);
    assert(8 + 2 <= s.len() ==> s.subrange(8int, 8int + 2)[0] == s[8]);
    assert(alt_match_at(s, q, 8, 0) is None);
    assert(s[9] == 'w');
    assert(s.subrange(9int, 9int + 1)[0] == s[9]);
    assert(9 + 2 <= s.len() ==> s.subrange(9int, 9int + 2)[0] == s[9]);
    assert(alt_match_at(s, q, 9, 0) is None);
    assert(s[10] == 'w');
    assert(s.subrange(10int, 10int + 1)[0] == s[10]);
    assert(10 + 2 <= s.len() ==> s.subrange(10int, 10int + 2)[0] == s[10]);
    assert(alt_match_at(s, q, 10, 0) is None);
    assert(s[11] == '.');
    assert(s.subrange(11int, 11int + 1)[0] == s[11]);
    assert(11 + 2 <= s.len() ==> s.subrange(11int, 11int + 2)[0] == s[11]);
    assert(alt_match_at(s, q, 11, 0) is None);
    assert(s[12] == 'y');
    assert(s.subrange(12int, 12int + 1)[0] == s[12]);
    assert(12 + 2 <= s.len() ==> s.subrange(12int, 12int + 2)[0] == s[12]);
    assert(alt_match_at(s, q, 12, 0) is None);
    assert(s[13] == 'o');
    assert(s.subrange(13int, 13int + 1)[0] == s[13]);
    assert(13 + 2 <= s.len() ==> s.subrange(13int, 13int + 2)[0] == s[13]);
    assert(alt_match_at(s, q, 13, 0) is None);
    assert(s[14] == 'u');
    assert(s.subrange(14int, 14int + 1)[0] == s[14]);
    assert(14 + 2 <= s.len() ==> s.subrange(14int, 14int + 2)[0] == s[14]);
    assert(alt_match_at(s, q, 14, 0) is None);
    assert(s[15] == 't');
    assert(s.subrange(15int, 15int + 1)[0] == s[15]);
    assert(15 + 2 <= s.len() ==> s.subrange(15int, 15int + 2)[0] == s[15]);
    assert(alt_match_at(s, q, 15, 0) is None);
    assert(s[16] == 'u');
    assert(s.subrange(16int, 16int + 1)[0] == s[16]);
    assert(16 + 2 <= s.len() ==> s.subrange(16int, 16int + 2)[0] == s[16]);
    assert(alt_match_at(s, q, 16, 0) is None);
    assert(s[17] == 'b');
    assert(s.subrange(17int, 17int + 1)[0] == s[17]);
    assert(17 + 2 <= s.len() ==> s.subrange(17int, 17int + 2)[0] == s[17]);
    assert(alt_match_at(s, q, 17, 0) is None);
    assert(s[18] == 'e');
    assert(s.subrange(18int, 18int + 1)[0] == s[18]);
    assert(18 + 2 <= s.len() ==> s.subrange(18int, 18int + 2)[0] == s[18]);
    assert(alt_match_at(s, q, 18, 0) is None);
    assert(s[19] == '.');
    assert(s.subrange(19int, 19int + 1)[0] == s[19]);
    assert(19 + 2 <= s.len() ==> s.subrange(19int, 19int + 2)[0] == s[19]);
    assert(alt_match_at(s, q, 19, 0) is None);
    assert(s[20] == 'c');
    assert(s.subrange(20int, 20int + 1)[0] == s[20]);
    assert(20 + 2 <= s.len() ==> s.subrange(20int, 20int + 2)[0] == s[20]);
    assert(alt_match_at(s, q, 20, 0) is None);
    assert(s[21] == 'o');
    assert(s.subrange(21int, 21int + 1)[0] == s[21]);
    assert(21 + 2 <= s.len() ==> s.subrange(21int, 21int + 2)[0] == s[21]);
    assert(alt_match_at(s, q, 21, 0) is None);
    assert(s[22] == 'm');
    assert(s.subrange(22int, 22int + 1)[0] == s[22]);
    assert(22 + 2 <= s.len() ==> s.subrange(22int, 22int + 2)[0] == s[22]);
    assert(alt_match_at(s, q, 22, 0) is None);
    assert(s[23] == '/');
    assert(s[30] == '/');
    assert(s.subrange(23int, 23int + 1)[0] == s[23]);
    assert(23 + 2 <= s.len() ==> s.subrange(23int, 23int + 2)[0] == s[23]);
    assert(alt_match_at(s, q, 23, 0) is None);
    assert(s[24] == 's');
    assert(s.subrange(24int, 24int + 1)[0] == s[24]);
    assert(24 + 2 <= s.len() ==> s.subrange(24int, 24int + 2)[0] == s[24]);
    assert(alt_match_at(s, q, 24, 0) is None);
    assert(s[25] == 'h');
    assert(s.subrange(25int, 25int + 1)[0] == s[25]);
    assert(25 + 2 <= s.len() ==> s.subrange(25int, 25int + 2)[0] == s[25]);
    assert(alt_match_at(s, q, 25, 0) is None);
    assert(s[26] == 'o');
    assert(s.subrange(26int, 26int + 1)[0] == s[26]);
    assert(26 + 2 <= s.len() ==> s.subrange(26int, 26int + 2)[0] == s[26]);
    assert(alt_match_at(s, q, 26, 0) is None);
    assert(s[27] == 'r');
    assert(s.subrange(27int, 27int + 1)[0] == s[27]);
    assert(27 + 2 <= s.len() ==> s.subrange(27int, 27int + 2)[0] == s[27]);
    assert(alt_match_at(s, q, 27, 0) is None);
    assert(s[28] == 't');
    assert(s.subrange(28int, 28int + 1)[0] == s[28]);
    assert(28 + 2 <= s.len() ==> s.subrange(28int, 28int + 2)[0] == s[28]);
    assert(alt_match_at(s, q, 28, 0) is None);
    assert(s[29] == 's');
    assert(s.subrange(29int, 29int + 1)[0] == s[29]);
    assert(29 + 2 <= s.len() ==> s.subrange(29int, 29int + 2)[0] == s[29]);
    assert(alt_match_at(s, q, 29, 0) is None);
    lemma_first_alt_match_skips(s, q, 0, 30);
    assert(s[30] == '/');
    assert(s.subrange(30int, 31int) =~= "/"@);
    assert(id_follows(s, 31));
    assert(alt_match_at(s, q, 30, 0) == Some(31int));
    assert(s.subrange(31int, 31int + 11) =~= id);
}

proof fn lemma_bare_id_names_id(id: Seq<char>)
    requires
        id.len() == 11,
        forall|k: int| 0 <= k < 11 ==> is_id_char(#[trigger] id[k]),
    ensures
        video_id_of(id) == Some(id),
{
    reveal_strlit("v=");
    reveal_strlit("/");
    reveal_strlit("embed/");
    reveal_strlit("v/");
    reveal_strlit("shorts/");
    reveal_with_fuel(alt_match_at, 4);
    let q = query_prefixes();
    let r = path_prefixes();
    assert forall|t: int| 0 <= t < 12 implies (#[trigger] alt_match_at(id, q, t, 0)) is None by {
        if t < 11 {
            assert(is_id_char(id[t]));
        }
        if t + 1 < 11 {
            assert(is_id_char(id[t + 1]));
        }
    }
    assert forall|t: int| 0 <= t < 12 implies (#[trigger] alt_match_at(id, r, t, 0)) is None by {
        if t + 1 < 11 {
            assert(is_id_char(id[t + 1]));
        }
        if t + 5 < 11 {
            assert(is_id_char(id[t + 5]));
        }
        if t + 6 < 11 {
            assert(is_id_char(id[t + 6]));
        }
    }
    lemma_first_alt_match_skips(id, q, 0, 11);
    lemma_first_alt_match_skips(id, r, 0, 11);
    assert(alt_match_at(id, q, 11, 0) is None);
    assert(alt_match_at(id, r, 11, 0) is None);
    assert(id.subrange(0, 11) =~= id);
}

/// Every accepted shape of address yields the identifier it carries: a watch
/// URL with a `v=` parameter, an embed URL, a shorts URL, and the bare
/// identifier itself.
pub proof fn lemma_url_shapes_yield_id(id: Seq<char>)
    requires
        id.len() == 11,
        forall|k: int| 0 <= k < 11 ==> is_id_char(#[trigger] id[k]),
    ensures
        video_id_of("https://www.youtube.com/watch?v="@ + id) == Some(id),
        video_id_of("https://www.youtube.com/embed/"@ + id) == Some(id),
        video_id_of("https://www.youtube.com/shorts/"@ + id) == Some(id),
        video_id_of(id) == Some(id),
{
    lemma_watch_url_names_id(id);
    lemma_embed_url_names_id(id);
    lemma_shorts_url_names_id(id);
    lemma_bare_id_names_id(id);
}

/// Whether a walk over the variants `es` asks for the player script, given
/// whether the cache holds the video's operations.
pub open spec fn asks_for_script(es: Seq<StreamFormat>, cached: bool) -> bool {
    first_stop(es, cached, 0) matches Some(k) && cipher_ok(es[k].signature_cipher.unwrap()@)
}

proof fn lemma_cached_walk_never_asks(es: Seq<StreamFormat>, i: int)
    ensures
        first_stop(es, true, i) matches Some(k) ==> !cipher_ok(es[k].signature_cipher.unwrap()@),
    decreases es.len() - i,
{
    if 0 <= i < es.len() {
        lemma_cached_walk_never_asks(es, i + 1);
    }
}

/// The player script of a video is fetched at most once per cache: a walk
/// asks for it only while the cache lacks the video's operations, and once
/// they are recorded (`learn_from_script`), no later walk over the same
/// video's variants, in this resolution or a following one, asks again.
pub proof fn lemma_player_script_fetched_once(
    cache: Map<Seq<char>, Seq<SigOp>>,
    id: Seq<char>,
    js: Seq<char>,
    first: Seq<StreamFormat>,
    second: Seq<StreamFormat>,
)
    ensures
        asks_for_script(first, cache.contains_key(id)) ==> !cache.contains_key(id),
        ({
            let learned = cache.insert(id, ops_of_script(js));
            &&& learned.contains_key(id)
            &&& cached_ops(learned, id) == ops_of_script(js)
            &&& !asks_for_script(first, learned.contains_key(id))
            &&& !asks_for_script(second, learned.contains_key(id))
        }),
{
    lemma_cached_walk_never_asks(first, 0);
    lemma_cached_walk_never_asks(second, 0);
    if cache.contains_key(id) {
        lemma_cached_walk_never_asks(first, 0);
    }
}

} // verus!
