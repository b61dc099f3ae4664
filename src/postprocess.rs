//! Post-processing requests, and the checks made on their paths.

use vstd::prelude::*;
use crate::text::{chars_of, split, split_chars, string_of, slice_of};

verus! {

/// Target of an audio extraction.
#[derive(Debug, Clone, Copy, PartialEq, Eq, Structural)]
pub enum AudioFormat {
    Mp3,
    Aac,
    Opus,
    /// Keep the audio stream as it is.
    Copy,
}

/// What to do with a downloaded file.
#[derive(Debug, Clone)]
pub enum ProcessingType {
    /// Re-encode the video with the named preset.
    VideoConversion { preset_name: String },
    /// Extract the audio, re-encoded to `format` at `quality` where given.
    AudioExtraction { format: AudioFormat, quality: Option<i32> },
}

/// One post-processing request, consumed once.
#[derive(Debug, Clone)]
pub struct ProcessingTask {
    pub input_path: String,
    pub output_path: String,
    pub processing_type: ProcessingType,
}

/// What `str::to_lowercase` makes of `s`.
pub uninterp spec fn lower_of(s: Seq<char>) -> Seq<char>;

/// Relies on `str::to_lowercase`: the lowercase mapping of each character,
/// which depends on the characters alone.
#[verifier::external_body]
fn lowercase(s: &str) -> (r: String)
    ensures
        r@ == lower_of(s@),
{
    s.to_lowercase()
}

/// The last component of a `/`-separated path, empty and `.` pieces skipped.
pub open spec fn last_component(pieces: Seq<Seq<char>>) -> Option<Seq<char>>
    decreases pieces.len(),
{
    if pieces.len() == 0 {
        None
    } else if pieces.last().len() == 0 || pieces.last() == "."@ {
        last_component(pieces.drop_last())
    } else {
        Some(pieces.last())
    }
}

/// The file name of a path, as `Path::file_name` gives it on Unix: none for
/// a path without components or ending in `..`.
pub open spec fn file_name_of(path: Seq<char>) -> Option<Seq<char>> {
    match last_component(split(path, '/')) {
        Some(c) => if c == ".."@ {
            None
        } else {
            Some(c)
        },
        None => None,
    }
}

/// The index of the last `.` of `s` before `i`.
pub open spec fn last_dot(s: Seq<char>, i: int) -> Option<int>
    decreases i,
{
    if i <= 0 || i > s.len() {
        None
    } else if s[i - 1] == '.' {
        Some(i - 1)
    } else {
        last_dot(s, i - 1)
    }
}

/// The extension of a path, as `Path::extension` gives it: the file name's
/// text after its last `.`, where that dot is not the first character.
pub open spec fn extension_of(path: Seq<char>) -> Option<Seq<char>> {
    match file_name_of(path) {
        Some(name) => match last_dot(name, name.len() as int) {
            Some(k) => if k > 0 {
                Some(name.skip(k + 1))
            } else {
                None
            },
            None => None,
        },
        None => None,
    }
}

fn is_dot_piece(piece: &Vec<char>) -> (r: bool)
    ensures
        r == (piece@ == "."@),
{
    proof {
        reveal_strlit(".");
    }
    let r = piece.len() == 1 && piece[0] == '.';
    if r {
        assert(piece@ =~= "."@);
    }
    r
}

fn is_dotdot_piece(piece: &Vec<char>) -> (r: bool)
    ensures
        r == (piece@ == ".."@),
{
    proof {
        reveal_strlit("..");
    }
    let r = piece.len() == 2 && piece[0] == '.' && piece[1] == '.';
    if r {
        assert(piece@ =~= ".."@);
    }
    r
}

fn last_component_index(pieces: &Vec<Vec<char>>) -> (r: Option<usize>)
    ensures
        match last_component(pieces@.map_values(|x: Vec<char>| x@)) {
            Some(c) => r matches Some(i) && i < pieces@.len() && pieces@[i as int]@ == c,
            None => r is None,
        },
{
    let ghost pv = pieces@.map_values(|x: Vec<char>| x@);
    let mut i: usize = pieces.len();
    assert(pv.take(pv.len() as int) =~= pv);
    while i > 0
        invariant
            i <= pieces@.len(),
            pv == pieces@.map_values(|x: Vec<char>| x@),
            last_component(pv) == last_component(pv.take(i as int)),
        decreases i,
    {
        let ghost t = pv.take(i as int);
        assert(t.drop_last() =~= pv.take(i - 1));
        assert(t.last() == pieces@[i - 1]@);
        if pieces[i - 1].len() > 0 && !is_dot_piece(&pieces[i - 1]) {
            return Some(i - 1);
        }
        i = i - 1;
    }
    assert(pv.take(0) =~= Seq::<Seq<char>>::empty());
    None
}

fn last_dot_exec(v: &Vec<char>) -> (r: Option<usize>)
    ensures
        match last_dot(v@, v@.len() as int) {
            Some(k) => r matches Some(j) && j == k && j < v@.len(),
            None => r is None,
        },
{
    let mut k: usize = v.len();
    while k > 0
        invariant
            k <= v@.len(),
            last_dot(v@, v@.len() as int) == last_dot(v@, k as int),
        decreases k,
    {
        if v[k - 1] == '.' {
            return Some(k - 1);
        }
        k = k - 1;
    }
    None
}

/// The extension of `path`, as it is written.
pub fn raw_file_extension(path: &str) -> (r: Option<String>)
    ensures
        match extension_of(path@) {
            Some(e) => r matches Some(x) && x@ == e,
            None => r is None,
        },
{
    let v = chars_of(path);
    let pieces = split_chars(&v, '/');
    let i = match last_component_index(&pieces) {
        Some(i) => i,
        None => {
            return None;
        },
    };
    let name = &pieces[i];
    if is_dotdot_piece(name) {
        return None;
    }
    match last_dot_exec(name) {
        Some(k) => if k > 0 {
            let n: usize = name.len();
            assert(k < n);
            let e = slice_of(name, k + 1, name.len());
            assert(e@ =~= name@.skip(k + 1));
            Some(string_of(&e))
        } else {
            None
        },
        None => None,
    }
}

/// The extension of `path`, in lower case.
pub fn get_file_extension(path: &str) -> (r: Option<String>)
    ensures
        match extension_of(path@) {
            Some(e) => r matches Some(x) && x@ == lower_of(e),
            None => r is None,
        },
{
    match raw_file_extension(path) {
        Some(e) => Some(lowercase(e.as_str())),
        None => None,
    }
}

/// Whether an output path may be written: its directory, where it has one
/// (`parent_exists` is `None` where it has none), must exist, and the file
/// itself must not.
pub fn validate_output_path(parent_exists: Option<bool>, exists: bool) -> (r: Result<(), String>)
    ensures
        r is Ok <==> parent_exists != Some(false) && !exists,
        parent_exists == Some(false) ==> (r matches Err(m) && m@ == "Output directory does not exist"@),
        parent_exists != Some(false) && exists ==> (r matches Err(m) && m@
            == "Output file already exists"@),
{
    match parent_exists {
        Some(false) => Err(String::from_str("Output directory does not exist")),
        _ => if exists {
            Err(String::from_str("Output file already exists"))
        } else {
            Ok(())
        },
    }
}

} // verus!
