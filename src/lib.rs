//! Media acquisition core: resolving a video page into its downloadable
//! stream variants (deciphering signature-protected links on the way), and
//! driving an external encoder with structured progress reporting.
//!
//! Everything here is pure: fetching pages, running the encoder and reading
//! its output are left to the caller, who hands the results in.

pub mod text;
pub mod processing;
pub mod postprocess;
pub mod progress;
pub mod youtube;
pub mod signature;
pub mod ffmpeg;
pub mod directory;
pub mod services;
pub mod downloadmanager;

use vstd::prelude::*;
use crate::text::{append_chars, chars_of, string_of};

verus! {

pub open spec fn greeting(name: Seq<char>) -> Seq<char> {
    "Hello, "@ + name + "! You've been greeted from Rust!"@
}

/// The greeting shown to `name`.
pub fn greet(name: &str) -> (r: String)
    ensures
        r@ == greeting(name@),
{
    let mut v = chars_of("Hello, ");
    append_chars(&mut v, &chars_of(name));
    append_chars(&mut v, &chars_of("! You've been greeted from Rust!"));
    string_of(&v)
}

} // verus!
