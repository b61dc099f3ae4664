//! Deciphering of signature-protected stream URLs, with a per-video cache of
//! the transform operations derived from the player script.

use vstd::prelude::*;
use crate::text::{
    append_chars, chars_of, contains, find_chars, find_from, split, split_chars, string_of,
    slice_of,
};
use crate::youtube::YouTubeError;
use crate::processing::opt_view;

verus! {

/// One string transform of the signature scheme.
#[derive(Debug, Clone, Copy, PartialEq, Eq, Structural)]
pub enum SigOp {
    /// Reverse the characters.
    Reverse,
    /// Drop the first two characters (when there are more than two).
    Splice,
    /// Swap the first two characters (when there are at least two).
    Swap,
}

pub open spec fn apply_op(op: SigOp, s: Seq<char>) -> Seq<char> {
    match op {
        SigOp::Reverse => s.reverse(),
        SigOp::Splice => if s.len() > 2 {
            s.skip(2)
        } else {
            s
        },
        SigOp::Swap => if s.len() > 1 {
            s.update(0, s[1]).update(1, s[0])
        } else {
            s
        },
    }
}

/// `s` transformed by each of `ops`, first to last.
pub open spec fn apply_ops(ops: Seq<SigOp>, s: Seq<char>) -> Seq<char>
    decreases ops.len(),
{
    if ops.len() == 0 {
        s
    } else {
        apply_op(ops.last(), apply_ops(ops.drop_last(), s))
    }
}

pub open spec fn transform_start() -> Seq<char> {
    "function(a){a=a.split(\"\");"@
}

pub open spec fn transform_end() -> Seq<char> {
    "return a.join(\"\")"@
}

/// The body of the player script's signature transform: the text after the
/// first transform header, up to the next header or the end of the script,
/// and there up to the first `return a.join("")`.
pub open spec fn transform_code(js: Seq<char>) -> Option<Seq<char>> {
    match find_from(js, transform_start(), 0) {
        None => None,
        Some(h) => {
            let b = h + transform_start().len();
            let piece_end = match find_from(js, transform_start(), b) {
                Some(n) => n,
                None => js.len() as int,
            };
            let piece = js.subrange(b, piece_end);
            match find_from(piece, transform_end(), 0) {
                None => None,
                Some(e) => Some(piece.take(e)),
            }
        },
    }
}

/// The operations named by a transform body, in the fixed order reverse,
/// splice, swap, each present when its telltale text occurs in the body.
pub open spec fn ops_of_code(code: Seq<char>) -> Seq<SigOp> {
    let a = if contains(code, "reverse()"@) {
        seq![SigOp::Reverse]
    } else {
        Seq::empty()
    };
    let b = if contains(code, "splice("@) {
        a.push(SigOp::Splice)
    } else {
        a
    };
    if contains(code, "var c=a[0]"@) {
        b.push(SigOp::Swap)
    } else {
        b
    }
}

/// The operations derived from a player script: none where it has no
/// recognizable transform.
pub open spec fn ops_of_script(js: Seq<char>) -> Seq<SigOp> {
    match transform_code(js) {
        Some(code) => ops_of_code(code),
        None => Seq::empty(),
    }
}

fn contains_text(v: &[char], t: &str) -> (r: bool)
    ensures
        r == contains(v@, t@),
{
    find_chars(v, &chars_of(t), 0).is_some()
}

/// The signature operations that the player script `js` performs.
pub fn parse_signature_operations(js: &str) -> (r: Vec<SigOp>)
    ensures
        r@ == ops_of_script(js@),
{
    let v = chars_of(js);
    let header = chars_of("function(a){a=a.split(\"\");");
    let mut ops: Vec<SigOp> = Vec::new();
    let h = match find_chars(&v, &header, 0) {
        Some(h) => h,
        None => {
            return ops;
        },
    };
    let n: usize = v.len();
    assert(h + header@.len() <= n);
    let b = h + header.len();
    let piece_end = match find_chars(&v, &header, b) {
        Some(e) => e,
        None => v.len(),
    };
    let piece = slice_of(&v, b, piece_end);
    let e = match find_chars(&piece, &chars_of("return a.join(\"\")"), 0) {
        Some(e) => e,
        None => {
            return ops;
        },
    };
    let code = slice_of(&piece, 0, e);
    assert(code@ == piece@.take(e as int));
    if contains_text(&code, "reverse()") {
        ops.push(SigOp::Reverse);
    }
    if contains_text(&code, "splice(") {
        ops.push(SigOp::Splice);
    }
    if contains_text(&code, "var c=a[0]") {
        ops.push(SigOp::Swap);
    }
    assert(ops@ =~= ops_of_code(code@));
    ops
}

fn apply_op_exec(op: SigOp, v: &mut Vec<char>)
    ensures
        final(v)@ == apply_op(op, old(v)@),
{
    match op {
        SigOp::Reverse => {
            let mut r: Vec<char> = Vec::new();
            let mut i: usize = v.len();
            while i > 0
                invariant
                    i <= v@.len(),
                    r@ == v@.skip(i as int).reverse(),
                decreases i,
            {
                i = i - 1;
                r.push(v[i]);
                assert(r@ =~= v@.skip(i as int).reverse());
            }
            assert(v@.skip(0) =~= v@);
            *v = r;
        },
        SigOp::Splice => {
            if v.len() > 2 {
                let r = slice_of(v, 2, v.len());
                *v = r;
            }
        },
        SigOp::Swap => {
            if v.len() > 1 {
                let a = v[0];
                let b = v[1];
                v.set(0, b);
                v.set(1, a);
            }
        },
    }
}

/// `signature` transformed by `ops`, first to last.
pub fn decode_signature(ops: &[SigOp], signature: &str) -> (r: String)
    ensures
        r@ == apply_ops(ops@, signature@),
{
    let mut v = chars_of(signature);
    let mut i: usize = 0;
    while i < ops.len()
        invariant
            i <= ops@.len(),
            v@ == apply_ops(ops@.take(i as int), signature@),
        decreases ops@.len() - i,
    {
        assert(ops@.take(i + 1).drop_last() =~= ops@.take(i as int));
        apply_op_exec(ops[i], &mut v);
        i = i + 1;
    }
    assert(ops@.take(ops@.len() as int) =~= ops@);
    string_of(&v)
}

// ---------------------------------------------------------------------------
// Ciphered parameter blobs

/// What `urlencoding::decode` makes of `s`: the percent-decoded text, or
/// `None` where the decoded bytes are not UTF-8.
pub uninterp spec fn percent_decoded(s: Seq<char>) -> Option<Seq<char>>;

/// Relies on `urlencoding::decode`: percent-decodes `s` (`+` stays as it
/// is), failing where the bytes are not UTF-8; text without `%` comes back
/// unchanged.
#[verifier::external_body]
fn url_decode(s: &str) -> (r: Option<String>)
    ensures
        opt_view(r) == percent_decoded(s@),
        !s@.contains('%') ==> opt_view(r) == Some(s@),
{
    match urlencoding::decode(s) {
        Ok(d) => Some(d.into_owned()),
        Err(_) => None,
    }
}

/// The key and decoded value of one `key=value` piece of a parameter blob:
/// the text before the first `=`, and the decoded text between it and the
/// next `=`; none where there is no `=` or the value does not decode.
pub open spec fn param_of(piece: Seq<char>) -> Option<(Seq<char>, Seq<char>)> {
    let parts = split(piece, '=');
    if parts.len() < 2 {
        None
    } else {
        match percent_decoded(parts[1]) {
            Some(d) => Some((parts[0], d)),
            None => None,
        }
    }
}

/// The parameters of the pieces, in order, pieces without one left out.
pub open spec fn params_of_pieces(pieces: Seq<Seq<char>>) -> Seq<(Seq<char>, Seq<char>)>
    decreases pieces.len(),
{
    if pieces.len() == 0 {
        Seq::empty()
    } else {
        let init = params_of_pieces(pieces.drop_last());
        match param_of(pieces.last()) {
            Some(p) => init.push(p),
            None => init,
        }
    }
}

/// The parameters of an `&`-separated blob.
pub open spec fn params_of(cipher: Seq<char>) -> Seq<(Seq<char>, Seq<char>)> {
    params_of_pieces(split(cipher, '&'))
}

pub open spec fn params_view(p: Seq<(String, String)>) -> Seq<(Seq<char>, Seq<char>)> {
    p.map_values(|kv: (String, String)| (kv.0@, kv.1@))
}

/// The value of the last parameter named `key`.
pub open spec fn param_value(params: Seq<(Seq<char>, Seq<char>)>, key: Seq<char>) -> Option<
    Seq<char>,
>
    decreases params.len(),
{
    if params.len() == 0 {
        None
    } else if params.last().0 == key {
        Some(params.last().1)
    } else {
        param_value(params.drop_last(), key)
    }
}

/// The parameters of the blob `cipher`, in order, each value decoded.
pub fn parse_cipher_params(cipher: &str) -> (r: Vec<(String, String)>)
    ensures
        params_view(r@) == params_of(cipher@),
{
    let v = chars_of(cipher);
    let pieces = split_chars(&v, '&');
    let ghost pv = pieces@.map_values(|x: Vec<char>| x@);
    let mut out: Vec<(String, String)> = Vec::new();
    let mut i: usize = 0;
    assert(pv.take(0) =~= Seq::<Seq<char>>::empty());
    while i < pieces.len()
        invariant
            i <= pieces@.len(),
            pv == pieces@.map_values(|x: Vec<char>| x@),
            pv == split(cipher@, '&'),
            params_view(out@) == params_of_pieces(pv.take(i as int)),
        decreases pieces@.len() - i,
    {
        let parts = split_chars(&pieces[i], '=');
        let ghost parts_v = parts@.map_values(|x: Vec<char>| x@);
        assert(pv.take(i + 1).drop_last() =~= pv.take(i as int));
        assert(pv.take(i + 1).last() == pieces@[i as int]@);
        if parts.len() >= 2 {
            assert(parts_v[1] == parts@[1]@);
            let value = string_of(&parts[1]);
            match url_decode(value.as_str()) {
                Some(d) => {
                    let key = string_of(&parts[0]);
                    let ghost before = params_view(out@);
                    out.push((key, d));
                    assert(params_view(out@) =~= before.push((parts_v[0], d@)));
                },
                None => {},
            }
        }
        i = i + 1;
    }
    assert(pv.take(pieces@.len() as int) =~= pv);
    out
}

fn param_value_exec(params: &Vec<(String, String)>, key: &str) -> (r: Option<String>)
    ensures
        r matches Some(s) ==> param_value(params_view(params@), key@) == Some(s@),
        r is None ==> param_value(params_view(params@), key@) is None,
{
    let ghost pv = params_view(params@);
    let k = String::from_str(key);
    let mut i: usize = params.len();
    assert(pv.take(pv.len() as int) =~= pv);
    while i > 0
        invariant
            i <= params@.len(),
            pv == params_view(params@),
            k@ == key@,
            param_value(pv, key@) == param_value(pv.take(i as int), key@),
        decreases i,
    {
        let ghost t = pv.take(i as int);
        assert(t.drop_last() =~= pv.take(i - 1));
        assert(t.last() == (params@[i - 1].0@, params@[i - 1].1@));
        if params[i - 1].0 == k {
            return Some(params[i - 1].1.clone());
        }
        i = i - 1;
    }
    None
}

/// The base URL and the ciphered signature carried by decoded parameters:
/// the last `url` and the last `s`. Fails where either is missing.
pub fn cipher_fields(params: &Vec<(String, String)>) -> (r: Result<(String, String), YouTubeError>)
    ensures
        r matches Ok((u, s)) ==> param_value(params_view(params@), "url"@) == Some(u@)
            && param_value(params_view(params@), "s"@) == Some(s@),
        r matches Err(e) ==> e is ExtractError && (param_value(params_view(params@), "url"@) is None
            || param_value(params_view(params@), "s"@) is None),
{
    let url = match param_value_exec(params, "url") {
        Some(u) => u,
        None => {
            return Err(YouTubeError::ExtractError(String::from_str("No URL found in cipher")));
        },
    };
    let s = match param_value_exec(params, "s") {
        Some(s) => s,
        None => {
            return Err(
                YouTubeError::ExtractError(String::from_str("No signature found in cipher")),
            );
        },
    };
    Ok((url, s))
}

/// `url` with the deciphered signature appended as its `sig` parameter.
pub open spec fn signed_url_of(url: Seq<char>, sig: Seq<char>) -> Seq<char> {
    url + "&sig="@ + sig
}

pub fn signed_url(url: &str, sig: &str) -> (r: String)
    ensures
        r@ == signed_url_of(url@, sig@),
{
    let mut v = chars_of(url);
    append_chars(&mut v, &chars_of("&sig="));
    append_chars(&mut v, &chars_of(sig));
    string_of(&v)
}

// ---------------------------------------------------------------------------
// The per-video cache of operations

/// The map that a list of entries describes, a later entry for a key
/// superseding an earlier one.
pub open spec fn entries_map(e: Seq<(Seq<char>, Seq<SigOp>)>) -> Map<Seq<char>, Seq<SigOp>>
    decreases e.len(),
{
    if e.len() == 0 {
        Map::empty()
    } else {
        entries_map(e.drop_last()).insert(e.last().0, e.last().1)
    }
}

/// Operation lists derived from player scripts, keyed by video identifier.
/// Lives as long as its owner; callers that share it serialize access.
pub struct SignatureCache {
    entries: Vec<(String, Vec<SigOp>)>,
}

impl View for SignatureCache {
    type V = Map<Seq<char>, Seq<SigOp>>;

    closed spec fn view(&self) -> Map<Seq<char>, Seq<SigOp>> {
        entries_map(self.entries@.map_values(|e: (String, Vec<SigOp>)| (e.0@, e.1@)))
    }
}

fn copy_ops(ops: &Vec<SigOp>) -> (r: Vec<SigOp>)
    ensures
        r@ == ops@,
{
    let mut r: Vec<SigOp> = Vec::new();
    let mut i: usize = 0;
    while i < ops.len()
        invariant
            i <= ops@.len(),
            r@ == ops@.take(i as int),
        decreases ops@.len() - i,
    {
        r.push(ops[i]);
        assert(ops@.take(i + 1) =~= ops@.take(i as int).push(ops@[i as int]));
        i = i + 1;
    }
    assert(ops@.take(ops@.len() as int) =~= ops@);
    r
}

impl SignatureCache {
    /// An empty cache.
    pub fn new() -> (r: SignatureCache)
        ensures
            r@ == Map::<Seq<char>, Seq<SigOp>>::empty(),
    {
        let r = SignatureCache { entries: Vec::new() };
        assert(r.entries@.map_values(|e: (String, Vec<SigOp>)| (e.0@, e.1@)) =~= Seq::empty());
        r
    }

    /// The operations cached for `video_id`.
    pub fn lookup(&self, video_id: &str) -> (r: Option<Vec<SigOp>>)
        ensures
            r matches Some(ops) ==> self@.contains_key(video_id@) && self@[video_id@] == ops@,
            r is None ==> !self@.contains_key(video_id@),
    {
        let ghost ev = self.entries@.map_values(|e: (String, Vec<SigOp>)| (e.0@, e.1@));
        let k = String::from_str(video_id);
        let mut i: usize = self.entries.len();
        assert(ev.take(ev.len() as int) =~= ev);
        while i > 0
            invariant
                i <= self.entries@.len(),
                ev == self.entries@.map_values(|e: (String, Vec<SigOp>)| (e.0@, e.1@)),
                k@ == video_id@,
                entries_map(ev).contains_key(k@) == entries_map(ev.take(i as int)).contains_key(
                    k@,
                ),
                entries_map(ev).contains_key(k@) ==> entries_map(ev)[k@] == entries_map(
                    ev.take(i as int),
                )[k@],
            decreases i,
        {
            let ghost t = ev.take(i as int);
            assert(t.drop_last() =~= ev.take(i - 1));
            assert(t.last() == ev[i - 1]);
            if self.entries[i - 1].0 == k {
                return Some(copy_ops(&self.entries[i - 1].1));
            }
            i = i - 1;
        }
        assert(ev.take(0) =~= Seq::<(Seq<char>, Seq<SigOp>)>::empty());
        None
    }

    /// Records `ops` as the operations for `video_id`.
    pub fn insert(&mut self, video_id: &str, ops: Vec<SigOp>)
        ensures
            final(self)@ == old(self)@.insert(video_id@, ops@),
    {
        let ghost ev = self.entries@.map_values(|e: (String, Vec<SigOp>)| (e.0@, e.1@));
        let ghost entry = (video_id@, ops@);
        self.entries.push((String::from_str(video_id), ops));
        let ghost nv = self.entries@.map_values(|e: (String, Vec<SigOp>)| (e.0@, e.1@));
        assert(nv.drop_last() =~= ev);
        assert(nv.last() == entry);
    }

    /// Derives the operations from the player script `js` of `video_id`'s
    /// page, records them, and returns them.
    pub fn learn_from_script(&mut self, video_id: &str, js: &str) -> (r: Vec<SigOp>)
        ensures
            r@ == ops_of_script(js@),
            final(self)@ == old(self)@.insert(video_id@, r@),
    {
        let ops = parse_signature_operations(js);
        let r = copy_ops(&ops);
        self.insert(video_id, ops);
        r
    }
}

} // verus!
