//! The external encoder: codec tables, the argument lists of each kind of
//! invocation, the catalog of codecs and presets, and the handling of what
//! the encoder reports back.

use vstd::prelude::*;
use crate::postprocess::{AudioFormat, ProcessingTask, ProcessingType};
use crate::progress::clock_at_u64;
use crate::text::{
    append_chars, chars_of, occurs_at, push_signed_decimal, signed_decimal,
    string_of,
};

verus! {

/// The encoders a preset can target.
#[derive(Debug, Clone, Copy, PartialEq, Eq, Structural)]
pub enum VideoCodec {
    /// Software H.264.
    X264,
    /// NVIDIA H.264.
    H264Nvenc,
    /// AMD H.264.
    H264Amf,
    /// NVIDIA HEVC.
    HevcNvenc,
    /// AMD HEVC.
    HevcAmf,
    /// SVT-AV1.
    SvtAv1,
}

/// The compression format an encoder produces.
#[derive(Debug, Clone, Copy, PartialEq, Eq, Structural)]
pub enum CodecId {
    H264,
    Hevc,
    Av1,
}

pub open spec fn codec_id_of(c: VideoCodec) -> CodecId {
    match c {
        VideoCodec::X264 | VideoCodec::H264Nvenc | VideoCodec::H264Amf => CodecId::H264,
        VideoCodec::HevcNvenc | VideoCodec::HevcAmf => CodecId::Hevc,
        VideoCodec::SvtAv1 => CodecId::Av1,
    }
}

/// The encoder's name on the encoder's command line.
pub open spec fn encoder_name(c: VideoCodec) -> Seq<char> {
    match c {
        VideoCodec::X264 => "libx264"@,
        VideoCodec::H264Nvenc => "h264_nvenc"@,
        VideoCodec::H264Amf => "h264_amf"@,
        VideoCodec::HevcNvenc => "hevc_nvenc"@,
        VideoCodec::HevcAmf => "hevc_amf"@,
        VideoCodec::SvtAv1 => "libsvtav1"@,
    }
}

/// The codec's own name, as presets are labelled.
pub open spec fn codec_label(c: VideoCodec) -> Seq<char> {
    match c {
        VideoCodec::X264 => "X264"@,
        VideoCodec::H264Nvenc => "H264Nvenc"@,
        VideoCodec::H264Amf => "H264Amf"@,
        VideoCodec::HevcNvenc => "HevcNvenc"@,
        VideoCodec::HevcAmf => "HevcAmf"@,
        VideoCodec::SvtAv1 => "SvtAv1"@,
    }
}

pub open spec fn pair(k: &str, v: &str) -> (Seq<char>, Seq<char>) {
    (k@, v@)
}

/// The options every encoding with the codec starts from.
pub open spec fn default_options(c: VideoCodec) -> Seq<(Seq<char>, Seq<char>)> {
    match c {
        VideoCodec::X264 => seq![pair("preset", "medium"), pair("tune", "film"), pair("crf", "23")],
        VideoCodec::H264Nvenc | VideoCodec::HevcNvenc => seq![
            pair("preset", "p4"),
            pair("tune", "hq"),
            pair("rc", "vbr"),
            pair("cq", "23"),
        ],
        VideoCodec::H264Amf | VideoCodec::HevcAmf => seq![
            pair("usage", "transcoding"),
            pair("quality", "quality"),
            pair("rc", "vbr_lat"),
            pair("qp_i", "23"),
            pair("qp_p", "25"),
        ],
        VideoCodec::SvtAv1 => seq![pair("preset", "8"), pair("crf", "30"), pair("svtav1-params", "tune=0")],
    }
}

pub open spec fn static_pairs_view(v: Seq<(&'static str, &'static str)>) -> Seq<(Seq<char>, Seq<char>)> {
    v.map_values(|p: (&'static str, &'static str)| (p.0@, p.1@))
}

pub open spec fn pairs_view(v: Seq<(String, String)>) -> Seq<(Seq<char>, Seq<char>)> {
    v.map_values(|p: (String, String)| (p.0@, p.1@))
}

impl VideoCodec {
    pub fn get_codec_id(&self) -> (r: CodecId)
        ensures
            r == codec_id_of(*self),
    {
        match self {
            VideoCodec::X264 | VideoCodec::H264Nvenc | VideoCodec::H264Amf => CodecId::H264,
            VideoCodec::HevcNvenc | VideoCodec::HevcAmf => CodecId::Hevc,
            VideoCodec::SvtAv1 => CodecId::Av1,
        }
    }

    pub fn get_encoder_name(&self) -> (r: &'static str)
        ensures
            r@ == encoder_name(*self),
    {
        match self {
            VideoCodec::X264 => "libx264",
            VideoCodec::H264Nvenc => "h264_nvenc",
            VideoCodec::H264Amf => "h264_amf",
            VideoCodec::HevcNvenc => "hevc_nvenc",
            VideoCodec::HevcAmf => "hevc_amf",
            VideoCodec::SvtAv1 => "libsvtav1",
        }
    }

    /// The codec's own name.
    pub fn label(&self) -> (r: &'static str)
        ensures
            r@ == codec_label(*self),
    {
        match self {
            VideoCodec::X264 => "X264",
            VideoCodec::H264Nvenc => "H264Nvenc",
            VideoCodec::H264Amf => "H264Amf",
            VideoCodec::HevcNvenc => "HevcNvenc",
            VideoCodec::HevcAmf => "HevcAmf",
            VideoCodec::SvtAv1 => "SvtAv1",
        }
    }

    pub fn get_default_options(&self) -> (r: Vec<(&'static str, &'static str)>)
        ensures
            static_pairs_view(r@) == default_options(*self),
    {
        let r = match self {
            VideoCodec::X264 => vec![("preset", "medium"), ("tune", "film"), ("crf", "23")],
            VideoCodec::H264Nvenc | VideoCodec::HevcNvenc => vec![
                ("preset", "p4"),
                ("tune", "hq"),
                ("rc", "vbr"),
                ("cq", "23"),
            ],
            VideoCodec::H264Amf | VideoCodec::HevcAmf => vec![
                ("usage", "transcoding"),
                ("quality", "quality"),
                ("rc", "vbr_lat"),
                ("qp_i", "23"),
                ("qp_p", "25"),
            ],
            VideoCodec::SvtAv1 => vec![("preset", "8"), ("crf", "30"), ("svtav1-params", "tune=0")],
        };
        assert(static_pairs_view(r@) =~= default_options(*self));
        r
    }
}

/// A named, reusable bundle of target codec and encoder options.
#[derive(Debug, Clone)]
pub struct EncoderPreset {
    pub name: String,
    pub codec: VideoCodec,
    pub width: Option<i32>,
    pub height: Option<i32>,
    /// Target video bitrate in bits per second.
    pub bitrate: Option<i64>,
    /// Encoder options applied after the codec's defaults, so that they win.
    pub options: Vec<(String, String)>,
}

/// Why an encoder operation failed.
#[derive(Debug, Clone)]
pub enum FFmpegError {
    /// The encoder executable could not be found.
    NotFound(String),
    /// The encoder does not offer the requested codec.
    CodecNotFound(String),
    /// The request names something that does not exist (a preset).
    InvalidInput(String),
    /// The encoder exited unsuccessfully, with this status code if any.
    ProcessFailure(Option<i32>),
    /// The input's duration could not be learned, so progress cannot be
    /// reported.
    ProgressError(String),
    /// Reading from or starting the encoder failed.
    IOError(String),
}

pub open spec fn strings_view(v: Seq<String>) -> Seq<Seq<char>> {
    v.map_values(|s: String| s@)
}

/// `-key value` for each option, in order.
pub open spec fn option_flags(opts: Seq<(Seq<char>, Seq<char>)>) -> Seq<Seq<char>>
    decreases opts.len(),
{
    if opts.len() == 0 {
        Seq::empty()
    } else {
        option_flags(opts.drop_last()) + seq![seq!['-'] + opts.last().0, opts.last().1]
    }
}

/// A target dimension for the scale filter; `-1` keeps the aspect ratio.
pub open spec fn dimension_text(d: Option<i32>) -> Seq<char> {
    match d {
        Some(n) => signed_decimal(n as int),
        None => "-1"@,
    }
}

pub open spec fn scale_flags(w: Option<i32>, h: Option<i32>) -> Seq<Seq<char>> {
    if w is None && h is None {
        Seq::empty()
    } else {
        seq!["-vf"@, "scale="@ + dimension_text(w) + ":"@ + dimension_text(h)]
    }
}

pub open spec fn bitrate_flags(b: Option<i64>) -> Seq<Seq<char>> {
    match b {
        Some(n) => seq!["-b:v"@, signed_decimal(n as int)],
        None => Seq::empty(),
    }
}

/// The arguments of a video conversion: no banner, overwrite, the input,
/// the encoder with its default options and then the preset's, an optional
/// scale filter and bitrate, audio copied, the output last.
pub open spec fn video_args_of(input: Seq<char>, output: Seq<char>, p: EncoderPreset) -> Seq<
    Seq<char>,
> {
    seq!["-hide_banner"@, "-y"@, "-i"@, input, "-c:v"@, encoder_name(p.codec)] + option_flags(
        default_options(p.codec),
    ) + option_flags(pairs_view(p.options@)) + scale_flags(p.width, p.height) + bitrate_flags(
        p.bitrate,
    ) + seq!["-c:a"@, "copy"@, output]
}

pub open spec fn audio_codec_name(f: AudioFormat) -> Seq<char> {
    match f {
        AudioFormat::Mp3 => "libmp3lame"@,
        AudioFormat::Aac => "aac"@,
        AudioFormat::Opus => "libopus"@,
        AudioFormat::Copy => "copy"@,
    }
}

/// The arguments of an audio conversion: no video, the format's audio
/// encoder, the quality where one is given and the stream is re-encoded.
pub open spec fn audio_args_of(
    input: Seq<char>,
    output: Seq<char>,
    f: AudioFormat,
    quality: Option<i32>,
) -> Seq<Seq<char>> {
    seq!["-hide_banner"@, "-y"@, "-i"@, input, "-vn"@, "-c:a"@, audio_codec_name(f)] + (match quality {
        Some(q) => if f != AudioFormat::Copy {
            seq!["-q:a"@, signed_decimal(q as int)]
        } else {
            Seq::empty()
        },
        None => Seq::empty(),
    }) + seq![output]
}

/// The arguments of the probe that reports the input's duration.
pub open spec fn probe_args_of(input: Seq<char>) -> Seq<Seq<char>> {
    seq!["-hide_banner"@, "-i"@, input]
}

/// The arguments that ask the encoder executable about one encoder.
pub open spec fn encoder_check_args_of(name: Seq<char>) -> Seq<Seq<char>> {
    seq!["-hide_banner"@, "-h"@, "encoder="@ + name]
}

fn push_arg(args: &mut Vec<String>, s: &str)
    ensures
        strings_view(final(args)@) == strings_view(old(args)@).push(s@),
{
    let ghost before = strings_view(args@);
    args.push(String::from_str(s));
    assert(strings_view(args@) =~= before.push(s@));
}

fn push_arg_chars(args: &mut Vec<String>, v: &[char])
    ensures
        strings_view(final(args)@) == strings_view(old(args)@).push(v@),
{
    let ghost before = strings_view(args@);
    args.push(string_of(v));
    assert(strings_view(args@) =~= before.push(v@));
}

fn push_option_flag(args: &mut Vec<String>, key: &str, value: &str)
    ensures
        strings_view(final(args)@) == strings_view(old(args)@) + seq![seq!['-'] + key@, value@],
{
    let mut k: Vec<char> = Vec::new();
    k.push('-');
    append_chars(&mut k, &chars_of(key));
    push_arg_chars(args, &k);
    push_arg(args, value);
    assert(k@ =~= seq!['-'] + key@);
    assert(strings_view(final(args)@) =~= strings_view(old(args)@) + seq![seq!['-'] + key@, value@]);
}

fn push_default_flags(args: &mut Vec<String>, opts: &Vec<(&'static str, &'static str)>)
    ensures
        strings_view(final(args)@) == strings_view(old(args)@) + option_flags(static_pairs_view(opts@)),
{
    let ghost ov = static_pairs_view(opts@);
    let mut i: usize = 0;
    assert(ov.take(0) =~= Seq::<(Seq<char>, Seq<char>)>::empty());
    assert(strings_view(args@) =~= strings_view(old(args)@) + option_flags(ov.take(0)));
    while i < opts.len()
        invariant
            i <= opts@.len(),
            ov == static_pairs_view(opts@),
            strings_view(args@) == strings_view(old(args)@) + option_flags(ov.take(i as int)),
        decreases opts@.len() - i,
    {
        let (k, v) = opts[i];
        push_option_flag(args, k, v);
        assert(ov.take(i + 1).drop_last() =~= ov.take(i as int));
        assert(ov.take(i + 1).last() == (k@, v@));
        assert(strings_view(args@) =~= strings_view(old(args)@) + option_flags(ov.take(i + 1)));
        i = i + 1;
    }
    assert(ov.take(opts@.len() as int) =~= ov);
}

fn push_preset_flags(args: &mut Vec<String>, opts: &Vec<(String, String)>)
    ensures
        strings_view(final(args)@) == strings_view(old(args)@) + option_flags(pairs_view(opts@)),
{
    let ghost ov = pairs_view(opts@);
    let mut i: usize = 0;
    assert(ov.take(0) =~= Seq::<(Seq<char>, Seq<char>)>::empty());
    assert(strings_view(args@) =~= strings_view(old(args)@) + option_flags(ov.take(0)));
    while i < opts.len()
        invariant
            i <= opts@.len(),
            ov == pairs_view(opts@),
            strings_view(args@) == strings_view(old(args)@) + option_flags(ov.take(i as int)),
        decreases opts@.len() - i,
    {
        push_option_flag(args, opts[i].0.as_str(), opts[i].1.as_str());
        assert(ov.take(i + 1).drop_last() =~= ov.take(i as int));
        assert(ov.take(i + 1).last() == (opts@[i as int].0@, opts@[i as int].1@));
        assert(strings_view(args@) =~= strings_view(old(args)@) + option_flags(ov.take(i + 1)));
        i = i + 1;
    }
    assert(ov.take(opts@.len() as int) =~= ov);
}

fn dimension_chars(d: Option<i32>) -> (r: Vec<char>)
    ensures
        r@ == dimension_text(d),
{
    match d {
        Some(n) => {
            let mut v: Vec<char> = Vec::new();
            push_signed_decimal(&mut v, n as i128);
            assert(v@ =~= signed_decimal(n as int));
            v
        },
        None => chars_of("-1"),
    }
}

fn signed_chars(n: i128) -> (r: Vec<char>)
    requires
        n > i128::MIN,
    ensures
        r@ == signed_decimal(n as int),
{
    let mut v: Vec<char> = Vec::new();
    push_signed_decimal(&mut v, n);
    assert(v@ =~= signed_decimal(n as int));
    v
}

/// The external encoder, by the path of its executable.
pub struct FFmpeg {
    pub executable: String,
}

/// Whether the encoder executable reported `name` among its encoders.
pub open spec fn has_encoder(supported: Seq<Seq<char>>, name: Seq<char>) -> bool {
    supported.contains(name)
}

/// The catalog's codecs that the executable offers, in catalog order: the
/// software encoders, then each vendor's H.264 encoder, followed by its HEVC
/// encoder only where the H.264 one is there.
pub open spec fn available_codecs_of(supported: Seq<Seq<char>>) -> Seq<VideoCodec> {
    let a = if has_encoder(supported, "libx264"@) {
        seq![VideoCodec::X264]
    } else {
        Seq::empty()
    };
    let b = if has_encoder(supported, "libsvtav1"@) {
        a.push(VideoCodec::SvtAv1)
    } else {
        a
    };
    let c = if has_encoder(supported, "h264_nvenc"@) {
        if has_encoder(supported, "hevc_nvenc"@) {
            b.push(VideoCodec::H264Nvenc).push(VideoCodec::HevcNvenc)
        } else {
            b.push(VideoCodec::H264Nvenc)
        }
    } else {
        b
    };
    if has_encoder(supported, "h264_amf"@) {
        if has_encoder(supported, "hevc_amf"@) {
            c.push(VideoCodec::H264Amf).push(VideoCodec::HevcAmf)
        } else {
            c.push(VideoCodec::H264Amf)
        }
    } else {
        c
    }
}

/// The label of the preset tiers: 0 high quality, 1 balanced, 2 fast.
pub open spec fn tier_label(tier: int) -> Seq<char> {
    if tier == 0 {
        " High Quality"@
    } else if tier == 1 {
        " Balanced"@
    } else {
        " Fast"@
    }
}

/// The options of a catalog preset.
pub open spec fn tier_options(c: VideoCodec, tier: int) -> Seq<(Seq<char>, Seq<char>)> {
    match c {
        VideoCodec::X264 => if tier == 0 {
            seq![pair("preset", "slow"), pair("crf", "18")]
        } else if tier == 1 {
            seq![pair("preset", "medium"), pair("crf", "23")]
        } else {
            seq![pair("preset", "veryfast"), pair("crf", "28")]
        },
        VideoCodec::H264Nvenc | VideoCodec::HevcNvenc => if tier == 0 {
            seq![pair("preset", "p7"), pair("rc", "vbr"), pair("cq", "18")]
        } else if tier == 1 {
            seq![pair("preset", "p4"), pair("rc", "vbr"), pair("cq", "23")]
        } else {
            seq![pair("preset", "p2"), pair("rc", "vbr"), pair("cq", "28")]
        },
        VideoCodec::H264Amf | VideoCodec::HevcAmf => if tier == 0 {
            seq![pair("quality", "quality"), pair("qp_i", "18"), pair("qp_p", "20")]
        } else if tier == 1 {
            seq![pair("quality", "balanced"), pair("qp_i", "23"), pair("qp_p", "25")]
        } else {
            seq![pair("quality", "speed"), pair("qp_i", "28"), pair("qp_p", "30")]
        },
        VideoCodec::SvtAv1 => if tier == 0 {
            seq![pair("preset", "4"), pair("crf", "25")]
        } else if tier == 1 {
            seq![pair("preset", "8"), pair("crf", "30")]
        } else {
            seq![pair("preset", "12"), pair("crf", "35")]
        },
    }
}

/// `p` is the catalog preset of tier `tier` for `c`.
pub open spec fn catalog_preset(p: EncoderPreset, c: VideoCodec, tier: int) -> bool {
    &&& p.name@ == codec_label(c) + tier_label(tier)
    &&& p.codec == c
    &&& p.width is None
    &&& p.height is None
    &&& p.bitrate is None
    &&& pairs_view(p.options@) == tier_options(c, tier)
}

fn opt(k: &str, v: &str) -> (r: (String, String))
    ensures
        (r.0@, r.1@) == pair(k, v),
{
    (String::from_str(k), String::from_str(v))
}

fn tier_preset(c: VideoCodec, tier: usize) -> (p: EncoderPreset)
    requires
        tier < 3,
    ensures
        catalog_preset(p, c, tier as int),
{
    let options: Vec<(String, String)> = match c {
        VideoCodec::X264 => if tier == 0 {
            vec![opt("preset", "slow"), opt("crf", "18")]
        } else if tier == 1 {
            vec![opt("preset", "medium"), opt("crf", "23")]
        } else {
            vec![opt("preset", "veryfast"), opt("crf", "28")]
        },
        VideoCodec::H264Nvenc | VideoCodec::HevcNvenc => if tier == 0 {
            vec![opt("preset", "p7"), opt("rc", "vbr"), opt("cq", "18")]
        } else if tier == 1 {
            vec![opt("preset", "p4"), opt("rc", "vbr"), opt("cq", "23")]
        } else {
            vec![opt("preset", "p2"), opt("rc", "vbr"), opt("cq", "28")]
        },
        VideoCodec::H264Amf | VideoCodec::HevcAmf => if tier == 0 {
            vec![opt("quality", "quality"), opt("qp_i", "18"), opt("qp_p", "20")]
        } else if tier == 1 {
            vec![opt("quality", "balanced"), opt("qp_i", "23"), opt("qp_p", "25")]
        } else {
            vec![opt("quality", "speed"), opt("qp_i", "28"), opt("qp_p", "30")]
        },
        VideoCodec::SvtAv1 => if tier == 0 {
            vec![opt("preset", "4"), opt("crf", "25")]
        } else if tier == 1 {
            vec![opt("preset", "8"), opt("crf", "30")]
        } else {
            vec![opt("preset", "12"), opt("crf", "35")]
        },
    };
    assert(pairs_view(options@) =~= tier_options(c, tier as int));
    let mut name = chars_of(c.label());
    let suffix = if tier == 0 {
        " High Quality"
    } else if tier == 1 {
        " Balanced"
    } else {
        " Fast"
    };
    append_chars(&mut name, &chars_of(suffix));
    EncoderPreset {
        name: string_of(&name),
        codec: c,
        width: None,
        height: None,
        bitrate: None,
        options,
    }
}

fn contains_string(v: &Vec<String>, name: &str) -> (r: bool)
    ensures
        r == has_encoder(strings_view(v@), name@),
{
    let k = String::from_str(name);
    let ghost sv = strings_view(v@);
    let mut i: usize = 0;
    while i < v.len()
        invariant
            i <= v@.len(),
            k@ == name@,
            sv == strings_view(v@),
            forall|j: int| 0 <= j < i ==> sv[j] != name@,
        decreases v@.len() - i,
    {
        if v[i] == k {
            assert(sv[i as int] == name@);
            return true;
        }
        i = i + 1;
    }
    assert(!sv.contains(name@));
    false
}

impl FFmpeg {
    /// The encoder at `executable`, as located by the caller; `NotFound`
    /// where it could not be located.
    pub fn new(executable: Option<String>) -> (r: Result<FFmpeg, FFmpegError>)
        ensures
            executable matches Some(e) ==> (r matches Ok(f) && f.executable == e),
            executable is None ==> r matches Err(FFmpegError::NotFound(_)),
    {
        match executable {
            Some(e) => Ok(FFmpeg { executable: e }),
            None => Err(FFmpegError::NotFound(String::from_str("encoder executable not found"))),
        }
    }

    /// The arguments converting `input` to `output` with `preset`.
    pub fn video_args(&self, input: &str, output: &str, preset: &EncoderPreset) -> (r: Vec<
        String,
    >)
        ensures
            strings_view(r@) == video_args_of(input@, output@, *preset),
    {
        let mut args: Vec<String> = Vec::new();
        push_arg(&mut args, "-hide_banner");
        push_arg(&mut args, "-y");
        push_arg(&mut args, "-i");
        push_arg(&mut args, input);
        push_arg(&mut args, "-c:v");
        push_arg(&mut args, preset.codec.get_encoder_name());
        let ghost head = strings_view(args@);
        let defaults = preset.codec.get_default_options();
        push_default_flags(&mut args, &defaults);
        push_preset_flags(&mut args, &preset.options);
        let ghost mid = strings_view(args@);
        if preset.width.is_some() || preset.height.is_some() {
            push_arg(&mut args, "-vf");
            let mut scale = chars_of("scale=");
            append_chars(&mut scale, &dimension_chars(preset.width));
            append_chars(&mut scale, &chars_of(":"));
            append_chars(&mut scale, &dimension_chars(preset.height));
            push_arg_chars(&mut args, &scale);
        }
        assert(strings_view(args@) =~= mid + scale_flags(preset.width, preset.height));
        let ghost mid2 = strings_view(args@);
        match preset.bitrate {
            Some(b) => {
                push_arg(&mut args, "-b:v");
                push_arg_chars(&mut args, &signed_chars(b as i128));
            },
            None => {},
        }
        assert(strings_view(args@) =~= mid2 + bitrate_flags(preset.bitrate));
        let ghost mid3 = strings_view(args@);
        push_arg(&mut args, "-c:a");
        push_arg(&mut args, "copy");
        push_arg(&mut args, output);
        assert(strings_view(args@) =~= mid3 + seq!["-c:a"@, "copy"@, output@]);
        assert(head =~= seq!["-hide_banner"@, "-y"@, "-i"@, input@, "-c:v"@, encoder_name(preset.codec)]);
        args
    }

    /// The arguments converting the audio of `input` to `format`.
    pub fn audio_args(&self, input: &str, output: &str, format: AudioFormat, quality: Option<i32>) -> (r: Vec<String>)
        ensures
            strings_view(r@) == audio_args_of(input@, output@, format, quality),
    {
        let mut args: Vec<String> = Vec::new();
        push_arg(&mut args, "-hide_banner");
        push_arg(&mut args, "-y");
        push_arg(&mut args, "-i");
        push_arg(&mut args, input);
        push_arg(&mut args, "-vn");
        push_arg(&mut args, "-c:a");
        let codec = match format {
            AudioFormat::Mp3 => "libmp3lame",
            AudioFormat::Aac => "aac",
            AudioFormat::Opus => "libopus",
            AudioFormat::Copy => "copy",
        };
        push_arg(&mut args, codec);
        let ghost head = strings_view(args@);
        match quality {
            Some(q) => {
                if format != AudioFormat::Copy {
                    push_arg(&mut args, "-q:a");
                    push_arg_chars(&mut args, &signed_chars(q as i128));
                }
            },
            None => {},
        }
        assert(head =~= seq!["-hide_banner"@, "-y"@, "-i"@, input@, "-vn"@, "-c:a"@, audio_codec_name(format)]);
        let ghost q = match quality {
            Some(q) => if format != AudioFormat::Copy {
                seq!["-q:a"@, signed_decimal(q as int)]
            } else {
                Seq::<Seq<char>>::empty()
            },
            None => Seq::<Seq<char>>::empty(),
        };
        assert(strings_view(args@) =~= head + q);
        let ghost mid = strings_view(args@);
        push_arg(&mut args, output);
        assert(strings_view(args@) =~= head + q + seq![output@]);
        args
    }

    /// The arguments copying the audio stream of `input` as it is.
    pub fn extract_audio_args(&self, input: &str, output: &str) -> (r: Vec<String>)
        ensures
            strings_view(r@) == audio_args_of(input@, output@, AudioFormat::Copy, None),
    {
        self.audio_args(input, output, AudioFormat::Copy, None)
    }

    /// The arguments of the probe that reports the duration of `input`.
    pub fn probe_args(&self, input: &str) -> (r: Vec<String>)
        ensures
            strings_view(r@) == probe_args_of(input@),
    {
        let mut args: Vec<String> = Vec::new();
        push_arg(&mut args, "-hide_banner");
        push_arg(&mut args, "-i");
        push_arg(&mut args, input);
        assert(strings_view(args@) =~= probe_args_of(input@));
        args
    }

    /// The arguments asking whether the encoder `name` is available.
    pub fn encoder_check_args(&self, name: &str) -> (r: Vec<String>)
        ensures
            strings_view(r@) == encoder_check_args_of(name@),
    {
        let mut args: Vec<String> = Vec::new();
        push_arg(&mut args, "-hide_banner");
        push_arg(&mut args, "-h");
        let mut e = chars_of("encoder=");
        append_chars(&mut e, &chars_of(name));
        push_arg_chars(&mut args, &e);
        assert(strings_view(args@) =~= encoder_check_args_of(name@));
        args
    }

    /// The catalog's codecs among the encoders `supported` that the
    /// executable reported.
    pub fn get_available_codecs(&self, supported: &Vec<String>) -> (r: Vec<VideoCodec>)
        ensures
            r@ == available_codecs_of(strings_view(supported@)),
    {
        let mut available: Vec<VideoCodec> = Vec::new();
        if contains_string(supported, "libx264") {
            available.push(VideoCodec::X264);
        }
        if contains_string(supported, "libsvtav1") {
            available.push(VideoCodec::SvtAv1);
        }
        if contains_string(supported, "h264_nvenc") {
            available.push(VideoCodec::H264Nvenc);
            if contains_string(supported, "hevc_nvenc") {
                available.push(VideoCodec::HevcNvenc);
            }
        }
        if contains_string(supported, "h264_amf") {
            available.push(VideoCodec::H264Amf);
            if contains_string(supported, "hevc_amf") {
                available.push(VideoCodec::HevcAmf);
            }
        }
        assert(available@ =~= available_codecs_of(strings_view(supported@)));
        available
    }

    /// Three catalog presets (high quality, balanced, fast) for each
    /// available codec, in the order of `get_available_codecs`.
    pub fn get_default_presets(&self, supported: &Vec<String>) -> (r: Vec<EncoderPreset>)
        ensures
            ({
                let cs = available_codecs_of(strings_view(supported@));
                &&& r@.len() == 3 * cs.len()
                &&& forall|i: int, t: int|
                    0 <= i < cs.len() && 0 <= t < 3 ==> catalog_preset(
                        #[trigger] r@[3 * i + t],
                        cs[i],
                        t,
                    )
            }),
    {
        let codecs = self.get_available_codecs(supported);
        let mut presets: Vec<EncoderPreset> = Vec::new();
        let mut i: usize = 0;
        while i < codecs.len()
            invariant
                i <= codecs@.len(),
                codecs@.len() <= 6,
                presets@.len() == 3 * i,
                forall|k: int, t: int|
                    0 <= k < i && 0 <= t < 3 ==> catalog_preset(
                        #[trigger] presets@[3 * k + t],
                        codecs@[k],
                        t,
                    ),
            decreases codecs@.len() - i,
        {
            let c = codecs[i];
            let ghost before = presets@;
            presets.push(tier_preset(c, 0));
            presets.push(tier_preset(c, 1));
            presets.push(tier_preset(c, 2));
            assert forall|k: int, t: int|
                0 <= k < i + 1 && 0 <= t < 3 implies catalog_preset(
                #[trigger] presets@[3 * k + t],
                codecs@[k],
                t,
            ) by {
                if k < i {
                    assert(presets@[3 * k + t] == before[3 * k + t]);
                }
            }
            i = i + 1;
        }
        presets
    }
}

// ---------------------------------------------------------------------------
// What the encoder reports

pub open spec fn duration_marker() -> Seq<char> {
    "Duration: "@
}

/// The first `Duration: H:MM:SS.cc` at or after `i` in the probe's output,
/// in hundredths of a second.
pub open spec fn duration_from(s: Seq<char>, i: int) -> Option<u64>
    decreases s.len() - i,
{
    if i < 0 || i >= s.len() {
        None
    } else if occurs_at(s, duration_marker(), i) && clock_at_u64(s, i + 10) is Some {
        clock_at_u64(s, i + 10)
    } else {
        duration_from(s, i + 1)
    }
}

/// The media duration that the probe's diagnostic `text` reports, in
/// hundredths of a second; `ProgressError` where it reports none.
pub fn probe_duration(text: &str) -> (r: Result<u64, FFmpegError>)
    ensures
        r matches Ok(d) ==> duration_from(text@, 0) == Some(d),
        r matches Err(e) ==> duration_from(text@, 0) is None && e is ProgressError,
{
    proof {
        reveal_strlit("Duration: ");
    }
    let v = chars_of(text);
    let marker = chars_of("Duration: ");
    let mut i: usize = 0;
    while i < v.len()
        invariant
            i <= v@.len(),
            v@ == text@,
            marker@ == duration_marker(),
            marker@.len() == 10,
            duration_from(v@, 0) == duration_from(v@, i as int),
        decreases v@.len() - i,
    {
        if crate::text::matches_at(&v, &marker, i) {
            match crate::progress::clock_at_exec(&v, i + 10) {
                Some(d) => {
                    return Ok(d);
                },
                None => {},
            }
        }
        i = i + 1;
    }
    Err(FFmpegError::ProgressError(String::from_str("could not determine the input duration")))
}

/// The result of a finished encoder run: success, or `ProcessFailure` with
/// the exit status code.
pub fn exit_outcome(success: bool, code: Option<i32>) -> (r: Result<(), FFmpegError>)
    ensures
        success ==> r is Ok,
        !success ==> (r matches Err(FFmpegError::ProcessFailure(c)) && c == code),
{
    if success {
        Ok(())
    } else {
        Err(FFmpegError::ProcessFailure(code))
    }
}

/// What became of one progress sample handed to the caller's channel.
#[derive(Debug, Clone, Copy, PartialEq, Eq, Structural)]
pub enum SendOutcome {
    Sent,
    /// The channel was full; the sample was dropped.
    Full,
    /// The receiver has gone away.
    Closed,
}

/// Whether to keep streaming progress after a send: a slow consumer only
/// loses samples, a vanished one ends the streaming (not the encoding).
pub fn keep_streaming(o: SendOutcome) -> (r: bool)
    ensures
        r <==> o != SendOutcome::Closed,
{
    match o {
        SendOutcome::Closed => false,
        _ => true,
    }
}

/// The index of the first of `presets[i..]` named `name`.
pub open spec fn first_named(presets: Seq<EncoderPreset>, name: Seq<char>, i: int) -> Option<int>
    decreases presets.len() - i,
{
    if i < 0 || i >= presets.len() {
        None
    } else if presets[i].name@ == name {
        Some(i)
    } else {
        first_named(presets, name, i + 1)
    }
}

/// `a` and `b` describe the same preset.
pub open spec fn same_preset(a: EncoderPreset, b: EncoderPreset) -> bool {
    &&& a.name@ == b.name@
    &&& a.codec == b.codec
    &&& a.width == b.width
    &&& a.height == b.height
    &&& a.bitrate == b.bitrate
    &&& pairs_view(a.options@) == pairs_view(b.options@)
}

/// The first preset named `name` among `presets`.
pub fn find_preset(presets: &Vec<EncoderPreset>, name: &str) -> (r: Option<EncoderPreset>)
    ensures
        match first_named(presets@, name@, 0) {
            Some(i) => r matches Some(p) && same_preset(p, presets@[i]),
            None => r is None,
        },
{
    let k = String::from_str(name);
    let mut i: usize = 0;
    while i < presets.len()
        invariant
            i <= presets@.len(),
            k@ == name@,
            first_named(presets@, name@, 0) == first_named(presets@, name@, i as int),
        decreases presets@.len() - i,
    {
        if presets[i].name == k {
            let p = &presets[i];
            return Some(
                EncoderPreset {
                    name: p.name.clone(),
                    codec: p.codec,
                    width: p.width,
                    height: p.height,
                    bitrate: p.bitrate,
                    options: copy_pairs(&p.options),
                },
            );
        }
        i = i + 1;
    }
    None
}

fn copy_pairs(v: &Vec<(String, String)>) -> (r: Vec<(String, String)>)
    ensures
        pairs_view(r@) == pairs_view(v@),
{
    let mut r: Vec<(String, String)> = Vec::new();
    let mut i: usize = 0;
    while i < v.len()
        invariant
            i <= v@.len(),
            pairs_view(r@) == pairs_view(v@.take(i as int)),
        decreases v@.len() - i,
    {
        let ghost before = r@;
        let a = v[i].0.clone();
        let b = v[i].1.clone();
        r.push((a, b));
        assert(v@.take(i + 1) =~= v@.take(i as int).push(v@[i as int]));
        assert(r@ =~= before.push((a, b)));
        assert(a@ == v@[i as int].0@);
        assert(b@ == v@[i as int].1@);
        assert(pairs_view(before.push((a, b))) =~= pairs_view(before).push((a@, b@)));
        assert(pairs_view(v@.take(i + 1)) =~= pairs_view(v@.take(i as int)).push((a@, b@)));
        i = i + 1;
    }
    assert(v@.take(v@.len() as int) =~= v@);
    r
}

/// The encoder arguments that carry out `task`: a video conversion with the
/// first of `presets` bearing the task's preset name (`InvalidInput` where
/// none does), or an audio extraction.
pub fn task_args(ffmpeg: &FFmpeg, task: &ProcessingTask, presets: &Vec<EncoderPreset>) -> (r: Result<
    Vec<String>,
    FFmpegError,
>)
    ensures
        match task.processing_type {
            ProcessingType::VideoConversion { preset_name } => match first_named(
                presets@,
                preset_name@,
                0,
            ) {
                Some(i) => r matches Ok(args) && strings_view(args@) == video_args_of(
                    task.input_path@,
                    task.output_path@,
                    presets@[i],
                ),
                None => r matches Err(e) && e is InvalidInput,
            },
            ProcessingType::AudioExtraction { format, quality } => r matches Ok(args)
                && strings_view(args@) == audio_args_of(
                task.input_path@,
                task.output_path@,
                format,
                quality,
            ),
        },
{
    match &task.processing_type {
        ProcessingType::VideoConversion { preset_name } => {
            match find_preset(presets, preset_name.as_str()) {
                Some(p) => Ok(ffmpeg.video_args(task.input_path.as_str(), task.output_path.as_str(), &p)),
                None => Err(FFmpegError::InvalidInput(String::from_str("unknown preset"))),
            }
        },
        ProcessingType::AudioExtraction { format, quality } => {
            Ok(ffmpeg.audio_args(task.input_path.as_str(), task.output_path.as_str(), *format, *quality))
        },
    }
}

} // verus!
