//! Progress samples parsed from the encoder's diagnostic output, and the
//! decisions taken while a transcode streams them.

use vstd::prelude::*;
use crate::text::{
    all_digits, chars_of, contains, digits_end, digits_end_at, digits_value, find_chars,
    is_white, is_white_char, matches_at, occurs_at, parse_digits, parse_u64, skip_white,
    skip_white_at, slice_of, string_of, u64_text, word_end, word_end_at,
};

verus! {

/// One snapshot of an in-flight transcode.
#[derive(Debug, Clone)]
pub struct ProcessingProgress {
    /// Frames encoded so far.
    pub frame: u64,
    /// Encoding rate in frames per second, as the encoder wrote it.
    pub fps: String,
    /// Quality factor, as the encoder wrote it.
    pub q: String,
    /// Encoded size, as the encoder wrote it (e.g. `512kB`).
    pub size: String,
    /// Elapsed media time, in hundredths of a second.
    pub time_centis: u64,
    /// Output bitrate, as the encoder wrote it.
    pub bitrate: String,
    /// Encoding speed multiplier, as the encoder wrote it (e.g. `1.02x`).
    pub speed: String,
    /// Share of the media done, in hundredths of a percent (5000 is 50%).
    pub progress_hundredths: u64,
}

// ---------------------------------------------------------------------------
// Fields of a diagnostic line

/// `key=` starts at `i`, at the start of the line or after white space.
pub open spec fn key_at(s: Seq<char>, key: Seq<char>, i: int) -> bool {
    occurs_at(s, key.push('='), i) && (i == 0 || is_white(s[i - 1]))
}

/// The first index at or after `i` where `key=` starts a token.
pub open spec fn find_key(s: Seq<char>, key: Seq<char>, i: int) -> Option<int>
    decreases s.len() - i,
{
    if i < 0 || i >= s.len() {
        None
    } else if key_at(s, key, i) {
        Some(i)
    } else {
        find_key(s, key, i + 1)
    }
}

/// The value of the first `key=value` token of a line: the non-blank text
/// after `=`, white space right after `=` skipped; none where the key is
/// absent or its value empty.
pub open spec fn field_value(s: Seq<char>, key: Seq<char>) -> Option<Seq<char>> {
    match find_key(s, key, 0) {
        None => None,
        Some(i) => {
            let a = skip_white(s, i + key.len() + 1);
            let e = word_end(s, a);
            if a < e {
                Some(s.subrange(a, e))
            } else {
                None
            }
        },
    }
}

/// A clock `H:MM:SS.cc` (one or more hour digits) starting at `j`, in
/// hundredths of a second; what follows it is not looked at.
pub open spec fn clock_at(s: Seq<char>, j: int) -> Option<nat> {
    let h = digits_end(s, j);
    if 0 <= j < h && h + 9 <= s.len() && s[h] == ':' && all_digits(s.subrange(h + 1, h + 3))
        && s[h + 3] == ':' && all_digits(s.subrange(h + 4, h + 6)) && s[h + 6] == '.'
        && all_digits(s.subrange(h + 7, h + 9)) {
        let hours = digits_value(s.subrange(j, h));
        let minutes = digits_value(s.subrange(h + 1, h + 3));
        let seconds = digits_value(s.subrange(h + 4, h + 6));
        let centis = digits_value(s.subrange(h + 7, h + 9));
        Some(((hours * 60 + minutes) * 60 + seconds) * 100 + centis)
    } else {
        None
    }
}

/// `clock_at`, where the time fits in 64 bits.
pub open spec fn clock_at_u64(s: Seq<char>, j: int) -> Option<u64> {
    match clock_at(s, j) {
        Some(c) => if c <= u64::MAX {
            Some(c as u64)
        } else {
            None
        },
        None => None,
    }
}

pub open spec fn frame_marker() -> Seq<char> {
    "frame="@
}

/// `value` if present, else the default `d`.
pub open spec fn text_or(value: Option<Seq<char>>, d: Seq<char>) -> Seq<char> {
    match value {
        Some(v) => v,
        None => d,
    }
}

/// Share done, in hundredths of a percent: `elapsed / duration * 100`,
/// capped at `u64::MAX`; zero for a zero duration.
pub open spec fn progress_of(elapsed: u64, duration: u64) -> u64 {
    if duration == 0 {
        0
    } else if (elapsed as int * 10000) / (duration as int) > u64::MAX {
        u64::MAX
    } else {
        ((elapsed as int * 10000) / (duration as int)) as u64
    }
}

/// The elapsed time of a line: the clock of its `time` field, zero where
/// there is none.
pub open spec fn line_time(line: Seq<char>) -> u64 {
    match field_value(line, "time"@) {
        Some(t) => match clock_at_u64(t, 0) {
            Some(c) => c,
            None => 0,
        },
        None => 0,
    }
}

/// `p` is the sample parsed from `line` against a media duration of
/// `duration` hundredths of a second. Fields that the line lacks keep their
/// neutral defaults: zero, `N/A`, and `0.0x` for the speed.
pub open spec fn sample_of(p: ProcessingProgress, line: Seq<char>, duration: u64) -> bool {
    &&& p.frame == (match field_value(line, "frame"@) {
        Some(f) => match u64_text(f) {
            Some(n) => n,
            None => 0,
        },
        None => 0,
    })
    &&& p.fps@ == text_or(field_value(line, "fps"@), "N/A"@)
    &&& p.q@ == text_or(field_value(line, "q"@), "N/A"@)
    &&& p.size@ == text_or(field_value(line, "size"@), "N/A"@)
    &&& p.time_centis == line_time(line)
    &&& p.bitrate@ == text_or(field_value(line, "bitrate"@), "N/A"@)
    &&& p.speed@ == text_or(field_value(line, "speed"@), "0.0x"@)
    &&& p.progress_hundredths == progress_of(line_time(line), duration)
}

fn key_at_exec(v: &[char], key_eq: &[char], i: usize) -> (r: bool)
    requires
        i < v@.len(),
    ensures
        r == (occurs_at(v@, key_eq@, i as int) && (i == 0 || is_white(v@[i - 1]))),
{
    matches_at(v, key_eq, i) && (i == 0 || is_white_char(v[i - 1]))
}

fn field_value_exec(v: &[char], key: &str) -> (r: Option<Vec<char>>)
    ensures
        r matches Some(x) ==> field_value(v@, key@) == Some(x@),
        r is None ==> field_value(v@, key@) is None,
{
    let mut key_eq = chars_of(key);
    key_eq.push('=');
    let mut i: usize = 0;
    while i < v.len()
        invariant
            i <= v@.len(),
            key_eq@ == key@.push('='),
            find_key(v@, key@, 0) == find_key(v@, key@, i as int),
        decreases v@.len() - i,
    {
        if key_at_exec(v, &key_eq, i) {
            assert(find_key(v@, key@, i as int) == Some(i as int));
            let n: usize = v.len();
            assert(i + key_eq@.len() <= n);
            let a = skip_white_at(v, i + key_eq.len());
            let e = word_end_at(v, a);
            if a < e {
                return Some(slice_of(v, a, e));
            } else {
                return None;
            }
        }
        i = i + 1;
    }
    None
}

fn two_digits(v: &[char], j: usize) -> (r: Option<u64>)
    requires
        j + 2 <= v@.len(),
    ensures
        r matches Some(n) ==> all_digits(v@.subrange(j as int, j + 2)) && n == digits_value(
            v@.subrange(j as int, j + 2),
        ),
        r is None ==> !all_digits(v@.subrange(j as int, j + 2)),
{
    let n: usize = v.len();
    assert(j + 2 <= n);
    let d = slice_of(v, j, j + 2);
    if !('0' <= d[0] && d[0] <= '9' && '0' <= d[1] && d[1] <= '9') {
        assert(!all_digits(d@) ) by {
            if !('0' <= d@[0] && d@[0] <= '9') {
                assert(!crate::text::is_digit(d@[0]));
            } else {
                assert(!crate::text::is_digit(d@[1]));
            }
        }
        return None;
    }
    assert(all_digits(d@));
    reveal_with_fuel(digits_value, 3);
    assert(d@.drop_last() =~= seq![d@[0]]);
    assert(d@.drop_last().drop_last() =~= Seq::<char>::empty());
    Some((d[0] as u32 - '0' as u32) as u64 * 10 + (d[1] as u32 - '0' as u32) as u64)
}

/// The clock starting at `j` of `v`, in hundredths of a second.
pub fn clock_at_exec(v: &[char], j: usize) -> (r: Option<u64>)
    requires
        j <= v@.len(),
    ensures
        r == clock_at_u64(v@, j as int),
{
    let h = digits_end_at(v, j);
    if !(j < h && v.len() - h >= 9 && v[h] == ':' && v[h + 3] == ':' && v[h + 6] == '.') {
        return None;
    }
    let minutes = match two_digits(v, h + 1) {
        Some(n) => n,
        None => {
            return None;
        },
    };
    let seconds = match two_digits(v, h + 4) {
        Some(n) => n,
        None => {
            return None;
        },
    };
    let centis = match two_digits(v, h + 7) {
        Some(n) => n,
        None => {
            return None;
        },
    };
    let hours = parse_digits(&slice_of(v, j, h));
    let ghost hv = digits_value(v@.subrange(j as int, h as int));
    let ghost total: nat = (((hv * 60 + minutes) * 60 + seconds) * 100 + centis) as nat;
    assert(clock_at(v@, j as int) == Some(total));
    match hours {
        None => {
            assert(total > u64::MAX) by (nonlinear_arith)
                requires
                    hv > u64::MAX,
                    total == ((hv * 60 + minutes) * 60 + seconds) * 100 + centis,
            ;
            None
        },
        Some(hn) => {
            let t: u128 = ((hn as u128 * 60 + minutes as u128) * 60 + seconds as u128) * 100
                + centis as u128;
            if t > u64::MAX as u128 {
                None
            } else {
                Some(t as u64)
            }
        },
    }
}

fn text_or_exec(value: Option<Vec<char>>, d: &str) -> (r: String)
    ensures
        r@ == text_or(
            match value {
                Some(x) => Some(x@),
                None => None,
            },
            d@,
        ),
{
    match value {
        Some(x) => string_of(&x),
        None => String::from_str(d),
    }
}

/// Share done, in hundredths of a percent.
pub fn progress_hundredths(elapsed: u64, duration: u64) -> (r: u64)
    ensures
        r == progress_of(elapsed, duration),
{
    if duration == 0 {
        return 0;
    }
    let scaled: u128 = elapsed as u128 * 10000;
    let q: u128 = scaled / duration as u128;
    if q > u64::MAX as u128 {
        u64::MAX
    } else {
        q as u64
    }
}

/// Parses encoder diagnostic lines into progress samples, against the total
/// media duration learned by the probe.
pub struct ProgressParser {
    /// Total media duration, in hundredths of a second.
    pub duration_centis: u64,
}

impl ProgressParser {
    pub fn new(duration_centis: u64) -> (r: ProgressParser)
        ensures
            r.duration_centis == duration_centis,
    {
        ProgressParser { duration_centis }
    }

    /// The progress sample of `line`; none for a line without `frame=`.
    pub fn parse(&self, line: &str) -> (r: Option<ProcessingProgress>)
        ensures
            r is None <==> !crate::text::contains(line@, frame_marker()),
            r matches Some(p) ==> sample_of(p, line@, self.duration_centis),
    {
        let v = chars_of(line);
        if find_chars(&v, &chars_of("frame="), 0).is_none() {
            return None;
        }
        let frame = match field_value_exec(&v, "frame") {
            Some(f) => match parse_u64(&f) {
                Some(n) => n,
                None => 0,
            },
            None => 0,
        };
        let time = match field_value_exec(&v, "time") {
            Some(t) => match clock_at_exec(&t, 0) {
                Some(c) => c,
                None => 0,
            },
            None => 0,
        };
        Some(
            ProcessingProgress {
                frame,
                fps: text_or_exec(field_value_exec(&v, "fps"), "N/A"),
                q: text_or_exec(field_value_exec(&v, "q"), "N/A"),
                size: text_or_exec(field_value_exec(&v, "size"), "N/A"),
                time_centis: time,
                bitrate: text_or_exec(field_value_exec(&v, "bitrate"), "N/A"),
                speed: text_or_exec(field_value_exec(&v, "speed"), "0.0x"),
                progress_hundredths: progress_hundredths(time, self.duration_centis),
            },
        )
    }
}

} // verus!
