//! Planning an encode: checking the output format, naming the output, and the
//! FFmpeg arguments for the video (rate control per encoder family, presets,
//! encoder parameters), the audio and the output.
use vstd::prelude::*;
use crate::args::{
    arg_views, decimal_string, kbps, kbps_string, owned, peak_bitrate, buffer_size, push_arg,
    push_string, vbv_buffer, vbv_peak,
};
use crate::text::{
    append_str, decimal, ends_with, push_decimal, push_signed, signed_decimal, starts_with,
    str_ends_with, str_is, str_starts_with, string_of,
};

verus! {

/// The part of a `CompressOptions` that planning reads (everything but the
/// frame rate and the target size).
pub struct EncodeOptions {
    pub codec: String,
    pub codec_name: String,
    pub crf: u32,
    pub quality_mode: String,
    pub gpu_gameplay_mode: String,
    pub container: String,
    pub algorithm: String,
    pub size_name: String,
    pub allocation_mode: String,
    pub preset: String,
    pub svt_preset: u32,
}

pub open spec fn is_av1(codec: Seq<char>) -> bool {
    starts_with(codec, "av1_"@) || codec == "libsvtav1"@
}

/// Why an output format is refused: a container other than MP4 and WebM, or
/// WebM with an encoder that is not AV1.
pub open spec fn format_error(container: Seq<char>, codec: Seq<char>) -> Option<Seq<char>> {
    if container != "mp4"@ && container != "webm"@ {
        Some("Unsupported output container"@)
    } else if container == "webm"@ && !is_av1(codec) {
        Some("WebM is available for AV1 encoders; choose MP4 for H.264 or H.265"@)
    } else {
        None
    }
}

/// Accepts MP4 for every encoder and WebM for the AV1 encoders.
pub fn check_output_format(container: &str, codec: &str) -> (r: Result<(), String>)
    ensures
        r is Ok <==> format_error(container@, codec@) is None,
        r matches Err(e) ==> format_error(container@, codec@) == Some(e@),
{
    if !str_is(container, "mp4") && !str_is(container, "webm") {
        return Err(owned("Unsupported output container"));
    }
    let av1 = str_starts_with(codec, "av1_") || str_is(codec, "libsvtav1");
    if str_is(container, "webm") && !av1 {
        return Err(owned("WebM is available for AV1 encoders; choose MP4 for H.264 or H.265"));
    }
    Ok(())
}

/// The rate-control interface an encoder is driven through.
#[derive(PartialEq, Eq, Structural, Clone, Copy, Debug)]
pub enum EncoderFamily {
    Svt,
    Nvenc,
    Amf,
    Qsv,
    Software,
}

pub open spec fn family_of(codec: Seq<char>) -> EncoderFamily {
    if codec == "libsvtav1"@ {
        EncoderFamily::Svt
    } else if ends_with(codec, "_nvenc"@) {
        EncoderFamily::Nvenc
    } else if ends_with(codec, "_amf"@) {
        EncoderFamily::Amf
    } else if ends_with(codec, "_qsv"@) {
        EncoderFamily::Qsv
    } else {
        EncoderFamily::Software
    }
}

pub fn encoder_family(codec: &str) -> (r: EncoderFamily)
    ensures
        r == family_of(codec@),
{
    if str_is(codec, "libsvtav1") {
        EncoderFamily::Svt
    } else if str_ends_with(codec, "_nvenc") {
        EncoderFamily::Nvenc
    } else if str_ends_with(codec, "_amf") {
        EncoderFamily::Amf
    } else if str_ends_with(codec, "_qsv") {
        EncoderFamily::Qsv
    } else {
        EncoderFamily::Software
    }
}

/// The encoders that run a two-pass fixed-size encode and accept custom
/// scene allocation: x264, x265 and SVT-AV1.
pub open spec fn is_two_pass_codec(codec: Seq<char>) -> bool {
    codec == "libx264"@ || codec == "libx265"@ || codec == "libsvtav1"@
}

pub fn two_pass_codec(codec: &str) -> (r: bool)
    ensures
        r == is_two_pass_codec(codec@),
{
    str_is(codec, "libx264") || str_is(codec, "libx265") || str_is(codec, "libsvtav1")
}

/// The encoders that take bitrate zones: x264 and x265.
pub open spec fn takes_zones(codec: Seq<char>) -> bool {
    codec == "libx264"@ || codec == "libx265"@
}

pub fn zones_supported(codec: &str) -> (r: bool)
    ensures
        r == takes_zones(codec@),
{
    str_is(codec, "libx264") || str_is(codec, "libx265")
}

/// A fixed-size encode with x264, x265 or SVT-AV1 runs two passes.
pub fn uses_two_pass(algorithm: &str, codec: &str) -> (r: bool)
    ensures
        r == (algorithm@ == "fixed"@ && is_two_pass_codec(codec@)),
{
    str_is(algorithm, "fixed") && two_pass_codec(codec)
}

/// The quality part of an output name: `crf<N>` for quality-based encodes,
/// the size name otherwise.
pub open spec fn quality_label(algorithm: Seq<char>, crf: u32, size_name: Seq<char>) -> Seq<char> {
    if algorithm == "dynamic"@ {
        "crf"@ + decimal(crf as nat)
    } else {
        size_name
    }
}

pub fn quality_name(algorithm: &str, crf: u32, size_name: &str) -> (r: String)
    ensures
        r@ == quality_label(algorithm@, crf, size_name@),
{
    if str_is(algorithm, "dynamic") {
        let mut v: Vec<char> = Vec::new();
        append_str(&mut v, "crf");
        push_decimal(&mut v, crf as u64);
        string_of(v.as_slice())
    } else {
        owned(size_name)
    }
}

/// `stem-codec-resolution-fps-quality.container`.
pub open spec fn output_name(
    stem: Seq<char>,
    codec_name: Seq<char>,
    resolution_name: Seq<char>,
    fps_name: Seq<char>,
    quality: Seq<char>,
    container: Seq<char>,
) -> Seq<char> {
    stem + seq!['-'] + codec_name + seq!['-'] + resolution_name + seq!['-'] + fps_name + seq!['-'] + quality
        + seq!['.'] + container
}

pub fn output_file_name(
    stem: &str,
    codec_name: &str,
    resolution_name: &str,
    fps_name: &str,
    quality: &str,
    container: &str,
) -> (r: String)
    ensures
        r@ == output_name(stem@, codec_name@, resolution_name@, fps_name@, quality@, container@),
{
    let mut v: Vec<char> = Vec::new();
    append_str(&mut v, stem);
    v.push('-');
    append_str(&mut v, codec_name);
    v.push('-');
    append_str(&mut v, resolution_name);
    v.push('-');
    append_str(&mut v, fps_name);
    v.push('-');
    append_str(&mut v, quality);
    v.push('.');
    append_str(&mut v, container);
    proof {
        assert(v@ =~= output_name(stem@, codec_name@, resolution_name@, fps_name@, quality@, container@));
    }
    string_of(v.as_slice())
}

/// 10-bit output for SVT-AV1, 8-bit 4:2:0 otherwise.
pub open spec fn pixel_format_of(codec: Seq<char>) -> Seq<char> {
    if codec == "libsvtav1"@ { "yuv420p10le"@ } else { "yuv420p"@ }
}

pub fn video_pixel_format(codec: &str) -> (r: String)
    ensures
        r@ == pixel_format_of(codec@),
{
    if str_is(codec, "libsvtav1") { owned("yuv420p10le") } else { owned("yuv420p") }
}

/// The H.264 High profile for H.264 encoders, Main for the others.
pub open spec fn profile_of(codec: Seq<char>) -> Seq<char> {
    if codec == "libx264"@ || starts_with(codec, "h264_"@) { "high"@ } else { "main"@ }
}

pub fn video_profile(codec: &str) -> (r: String)
    ensures
        r@ == profile_of(codec@),
{
    if str_is(codec, "libx264") || str_starts_with(codec, "h264_") { owned("high") } else { owned("main") }
}

/// The speed preset in each family's vocabulary: NVENC `p4`-`p7`, AMF
/// `balanced`/`quality`, SVT-AV1 its number (at most 13), the x264/x265 name
/// otherwise.
pub open spec fn preset_for(family: EncoderFamily, preset: Seq<char>, svt_preset: u32) -> Seq<char> {
    match family {
        EncoderFamily::Nvenc => if preset == "slow"@ {
            "p5"@
        } else if preset == "slower"@ {
            "p6"@
        } else if preset == "veryslow"@ {
            "p7"@
        } else {
            "p4"@
        },
        EncoderFamily::Amf => if preset == "medium"@ { "balanced"@ } else { "quality"@ },
        EncoderFamily::Svt => decimal((if svt_preset < 13 { svt_preset } else { 13 }) as nat),
        _ => preset,
    }
}

pub fn mapped_preset(family: EncoderFamily, preset: &str, svt_preset: u32) -> (r: String)
    ensures
        r@ == preset_for(family, preset@, svt_preset),
{
    match family {
        EncoderFamily::Nvenc => if str_is(preset, "slow") {
            owned("p5")
        } else if str_is(preset, "slower") {
            owned("p6")
        } else if str_is(preset, "veryslow") {
            owned("p7")
        } else {
            owned("p4")
        },
        EncoderFamily::Amf => if str_is(preset, "medium") { owned("balanced") } else { owned("quality") },
        EncoderFamily::Svt => decimal_string((if svt_preset < 13 { svt_preset } else { 13 }) as u64),
        _ => owned(preset),
    }
}

/// The keyframe interval: ten seconds of frames (`tenfold_fps` is the frame
/// rate times ten, rounded), kept within 120..=600.
pub open spec fn gop_length(tenfold_fps: u32) -> u32 {
    if tenfold_fps < 120 { 120 } else if tenfold_fps > 600 { 600 } else { tenfold_fps }
}

pub fn keyframe_interval(tenfold_fps: u32) -> (r: u32)
    ensures
        r == gop_length(tenfold_fps),
{
    if tenfold_fps < 120 { 120 } else if tenfold_fps > 600 { 600 } else { tenfold_fps }
}

/// Whether a file gets the constant-quality probe encode before its scene
/// weights are set: fixed-size x264 and x265 encodes in probe mode. SVT-AV1
/// always uses the lightweight motion analysis, and hardware encoders use
/// their own lookahead instead of zones.
pub open spec fn probe_encode_for(algorithm: Seq<char>, allocation_mode: Seq<char>, codec: Seq<char>) -> bool {
    algorithm == "fixed"@ && allocation_mode == "probe"@ && takes_zones(codec)
}

pub fn runs_quality_probe(algorithm: &str, allocation_mode: &str, codec: &str) -> (r: bool)
    ensures
        r == probe_encode_for(algorithm@, allocation_mode@, codec@),
{
    str_is(algorithm, "fixed") && str_is(allocation_mode, "probe") && zones_supported(codec)
}

/// A fixed-size encode cannot go on with a budget of zero or less.
pub open spec fn budget_message(bitrate: int) -> Seq<char> {
    "Bitrate "@ + signed_decimal(bitrate) + " kbps — clip too short for target size?"@
}

pub fn bitrate_error(algorithm: &str, bitrate: i64) -> (r: Option<String>)
    ensures
        r is Some <==> (algorithm@ == "fixed"@ && bitrate <= 0),
        r matches Some(m) ==> m@ == budget_message(bitrate as int),
{
    if str_is(algorithm, "fixed") && bitrate <= 0 {
        let mut v: Vec<char> = Vec::new();
        append_str(&mut v, "Bitrate ");
        push_signed(&mut v, bitrate);
        append_str(&mut v, " kbps — clip too short for target size?");
        proof {
            assert(v@ =~= budget_message(bitrate as int));
        }
        Some(string_of(v.as_slice()))
    } else {
        None
    }
}

// ── Video arguments ──────────────────────────────────────────────────────────

/// Input, stream mapping (first video stream, first audio stream if any,
/// metadata and chapters), filter chain, codec, pixel format, profile, BT.709
/// colour tags and the keyframe interval.
pub open spec fn base_args(input: Seq<char>, vf: Seq<char>, codec: Seq<char>, gop: u32) -> Seq<Seq<char>> {
    seq![
        "-hide_banner"@, "-i"@, input, "-map"@, "0:v:0"@, "-map"@, "0:a:0?"@, "-map_metadata"@, "0"@,
        "-map_chapters"@, "0"@, "-vf"@, vf, "-c:v"@, codec, "-pix_fmt"@, pixel_format_of(codec),
        "-profile:v"@, profile_of(codec), "-colorspace"@, "bt709"@, "-color_primaries"@, "bt709"@,
        "-color_trc"@, "bt709"@, "-g"@, decimal(gop as nat)
    ]
}

/// AMF takes its preset as `-quality`, the others as `-preset`.
pub open spec fn preset_args(family: EncoderFamily, preset: Seq<char>, svt_preset: u32) -> Seq<Seq<char>> {
    seq![
        if family == EncoderFamily::Amf { "-quality"@ } else { "-preset"@ },
        preset_for(family, preset, svt_preset)
    ]
}

/// Rate control of a fixed-size encode: the average bitrate; a peak rate and
/// buffer for all but SVT-AV1 (which rejects them); and, for single-pass
/// hardware encoders, their VBR mode with the tested gameplay tuning.
pub open spec fn fixed_rate_args(family: EncoderFamily, two_pass: bool, bitrate: int, gameplay_mode: Seq<char>) -> Seq<Seq<char>> {
    let average = seq!["-b:v"@, kbps(bitrate)];
    let vbv = if family != EncoderFamily::Svt {
        seq!["-maxrate"@, kbps(vbv_peak(bitrate)), "-bufsize"@, kbps(vbv_buffer(bitrate))]
    } else {
        seq![]
    };
    let hardware = if two_pass {
        seq![]
    } else {
        match family {
            EncoderFamily::Nvenc => seq!["-rc"@, "vbr"@] + if gameplay_mode == "nvenc_aq"@ {
                seq![
                    "-multipass"@, "fullres"@, "-spatial-aq"@, "1"@, "-temporal-aq"@, "1"@,
                    "-aq-strength"@, "8"@, "-rc-lookahead"@, "32"@
                ]
            } else {
                seq![]
            },
            EncoderFamily::Amf => seq!["-rc"@, "vbr_peak"@] + if gameplay_mode == "amf_preanalysis"@ {
                seq![
                    "-preanalysis"@, "true"@, "-pa_high_motion_quality_boost_mode"@, "auto"@,
                    "-pa_taq_mode"@, "2"@
                ]
            } else {
                seq![]
            },
            EncoderFamily::Qsv => if gameplay_mode == "qsv_extbrc"@ {
                seq![
                    "-extbrc"@, "1"@, "-look_ahead_depth"@, "40"@, "-adaptive_i"@, "1"@,
                    "-adaptive_b"@, "1"@
                ]
            } else {
                seq![]
            },
            _ => seq![],
        }
    };
    average + vbv + hardware
}

/// Rate control of a quality-based encode at quality `q` (the CRF, at most 51).
pub open spec fn quality_args(family: EncoderFamily, codec: Seq<char>, crf: u32, quality_mode: Seq<char>) -> Seq<Seq<char>> {
    let q = decimal((if crf < 51 { crf } else { 51 }) as nat);
    match family {
        EncoderFamily::Nvenc => seq!["-rc"@, "vbr"@, "-cq"@, q, "-b:v"@, "0"@],
        EncoderFamily::Amf => if quality_mode == "amf_qvbr"@ {
            seq!["-rc"@, "qvbr"@, "-qvbr_quality_level"@, q]
        } else {
            seq!["-rc"@, "cqp"@, "-qp_i"@, q, "-qp_p"@, q] + if codec != "hevc_amf"@ {
                seq!["-qp_b"@, q]
            } else {
                seq![]
            }
        },
        EncoderFamily::Qsv => seq!["-global_quality"@, q],
        _ => seq!["-crf"@, q],
    }
}

/// SVT-AV1 parameters: visual-quality tune, variance boost of strength 2, AQ
/// mode 2 and an AC bias of 1.0, with VBR rate control for fixed-size encodes.
pub open spec fn svt_args(family: EncoderFamily, fixed: bool) -> Seq<Seq<char>> {
    if family == EncoderFamily::Svt {
        seq![
            "-svtav1-params"@,
            (if fixed { "rc=1:"@ } else { seq![] }) + "tune=0:enable-variance-boost=1:variance-boost-strength=2:aq-mode=2:ac-bias=1.0"@
        ]
    } else {
        seq![]
    }
}

pub open spec fn zones_suffix(zones: Option<Seq<char>>) -> Seq<char> {
    match zones {
        Some(z) => ":zones="@ + z,
        None => seq![],
    }
}

/// x264 and x265 adaptive-quantisation (and, for x264, psychovisual) tuning,
/// with the bitrate zones when there are any.
pub open spec fn x26x_args(codec: Seq<char>, zones: Option<Seq<char>>) -> Seq<Seq<char>> {
    if codec == "libx264"@ {
        seq!["-x264-params"@, "aq-mode=3:aq-strength=0.8:psy-rd=1.0,0.15"@ + zones_suffix(zones)]
    } else if codec == "libx265"@ {
        seq!["-x265-params"@, "aq-mode=3"@ + zones_suffix(zones)]
    } else {
        seq![]
    }
}

pub open spec fn zones_view(zones: Option<&str>) -> Option<Seq<char>> {
    match zones {
        Some(z) => Some(z@),
        None => None,
    }
}

/// All video arguments of an encode, before any two-pass, audio and output
/// arguments.
pub open spec fn video_args_for(
    o: EncodeOptions,
    input: Seq<char>,
    vf: Seq<char>,
    gop: u32,
    bitrate: int,
    zones: Option<Seq<char>>,
) -> Seq<Seq<char>> {
    let family = family_of(o.codec@);
    let fixed = o.algorithm@ == "fixed"@;
    let two_pass = fixed && is_two_pass_codec(o.codec@);
    base_args(input, vf, o.codec@, gop) + preset_args(family, o.preset@, o.svt_preset) + (if fixed {
        fixed_rate_args(family, two_pass, bitrate, o.gpu_gameplay_mode@)
    } else {
        quality_args(family, o.codec@, o.crf, o.quality_mode@)
    }) + svt_args(family, fixed) + x26x_args(o.codec@, zones)
}

fn push_base_args(args: &mut Vec<String>, input: &str, vf: &str, codec: &str, gop: u32)
    ensures
        arg_views(final(args)@) == arg_views(old(args)@) + base_args(input@, vf@, codec@, gop),
{
    push_arg(args, "-hide_banner");
    push_arg(args, "-i");
    push_arg(args, input);
    push_arg(args, "-map");
    push_arg(args, "0:v:0");
    push_arg(args, "-map");
    push_arg(args, "0:a:0?");
    push_arg(args, "-map_metadata");
    push_arg(args, "0");
    push_arg(args, "-map_chapters");
    push_arg(args, "0");
    push_arg(args, "-vf");
    push_arg(args, vf);
    push_arg(args, "-c:v");
    push_arg(args, codec);
    push_arg(args, "-pix_fmt");
    push_string(args, video_pixel_format(codec));
    push_arg(args, "-profile:v");
    push_string(args, video_profile(codec));
    push_arg(args, "-colorspace");
    push_arg(args, "bt709");
    push_arg(args, "-color_primaries");
    push_arg(args, "bt709");
    push_arg(args, "-color_trc");
    push_arg(args, "bt709");
    push_arg(args, "-g");
    push_string(args, decimal_string(gop as u64));
    proof {
        assert(arg_views(args@) =~= arg_views(old(args)@) + base_args(input@, vf@, codec@, gop));
    }
}

fn push_fixed_rate_args(args: &mut Vec<String>, family: EncoderFamily, two_pass: bool, bitrate: i64, gameplay_mode: &str)
    requires
        -(i64::MAX / 2) <= bitrate <= i64::MAX / 2,
    ensures
        arg_views(final(args)@) == arg_views(old(args)@) + fixed_rate_args(family, two_pass, bitrate as int, gameplay_mode@),
{
    let ghost start = arg_views(args@);
    push_arg(args, "-b:v");
    push_string(args, kbps_string(bitrate));
    let ghost after_average = arg_views(args@);
    if family != EncoderFamily::Svt {
        push_arg(args, "-maxrate");
        push_string(args, kbps_string(peak_bitrate(bitrate)));
        push_arg(args, "-bufsize");
        push_string(args, kbps_string(buffer_size(bitrate)));
    }
    let ghost after_vbv = arg_views(args@);
    if !two_pass {
        match family {
            EncoderFamily::Nvenc => {
                push_arg(args, "-rc");
                push_arg(args, "vbr");
                if str_is(gameplay_mode, "nvenc_aq") {
                    push_arg(args, "-multipass");
                    push_arg(args, "fullres");
                    push_arg(args, "-spatial-aq");
                    push_arg(args, "1");
                    push_arg(args, "-temporal-aq");
                    push_arg(args, "1");
                    push_arg(args, "-aq-strength");
                    push_arg(args, "8");
                    push_arg(args, "-rc-lookahead");
                    push_arg(args, "32");
                }
            },
            EncoderFamily::Amf => {
                push_arg(args, "-rc");
                push_arg(args, "vbr_peak");
                if str_is(gameplay_mode, "amf_preanalysis") {
                    push_arg(args, "-preanalysis");
                    push_arg(args, "true");
                    push_arg(args, "-pa_high_motion_quality_boost_mode");
                    push_arg(args, "auto");
                    push_arg(args, "-pa_taq_mode");
                    push_arg(args, "2");
                }
            },
            EncoderFamily::Qsv => {
                if str_is(gameplay_mode, "qsv_extbrc") {
                    push_arg(args, "-extbrc");
                    push_arg(args, "1");
                    push_arg(args, "-look_ahead_depth");
                    push_arg(args, "40");
                    push_arg(args, "-adaptive_i");
                    push_arg(args, "1");
                    push_arg(args, "-adaptive_b");
                    push_arg(args, "1");
                }
            },
            _ => {},
        }
    }
    proof {
        let average = seq!["-b:v"@, kbps(bitrate as int)];
        assert(after_average =~= start + average);
        let vbv = if family != EncoderFamily::Svt {
            seq!["-maxrate"@, kbps(vbv_peak(bitrate as int)), "-bufsize"@, kbps(vbv_buffer(bitrate as int))]
        } else {
            seq![]
        };
        assert(after_vbv =~= after_average + vbv);
        assert(arg_views(args@) =~= start + fixed_rate_args(family, two_pass, bitrate as int, gameplay_mode@));
    }
}

fn push_quality_args(args: &mut Vec<String>, family: EncoderFamily, codec: &str, crf: u32, quality_mode: &str)
    ensures
        arg_views(final(args)@) == arg_views(old(args)@) + quality_args(family, codec@, crf, quality_mode@),
{
    let ghost start = arg_views(args@);
    let q = if crf < 51 { crf } else { 51 };
    match family {
        EncoderFamily::Nvenc => {
            push_arg(args, "-rc");
            push_arg(args, "vbr");
            push_arg(args, "-cq");
            push_string(args, decimal_string(q as u64));
            push_arg(args, "-b:v");
            push_arg(args, "0");
        },
        EncoderFamily::Amf => {
            if str_is(quality_mode, "amf_qvbr") {
                push_arg(args, "-rc");
                push_arg(args, "qvbr");
                push_arg(args, "-qvbr_quality_level");
                push_string(args, decimal_string(q as u64));
            } else {
                push_arg(args, "-rc");
                push_arg(args, "cqp");
                push_arg(args, "-qp_i");
                push_string(args, decimal_string(q as u64));
                push_arg(args, "-qp_p");
                push_string(args, decimal_string(q as u64));
                if !str_is(codec, "hevc_amf") {
                    push_arg(args, "-qp_b");
                    push_string(args, decimal_string(q as u64));
                }
            }
        },
        EncoderFamily::Qsv => {
            push_arg(args, "-global_quality");
            push_string(args, decimal_string(q as u64));
        },
        _ => {
            push_arg(args, "-crf");
            push_string(args, decimal_string(q as u64));
        },
    }
    proof {
        assert(arg_views(args@) =~= start + quality_args(family, codec@, crf, quality_mode@));
    }
}

fn push_svt_args(args: &mut Vec<String>, family: EncoderFamily, fixed: bool)
    ensures
        arg_views(final(args)@) == arg_views(old(args)@) + svt_args(family, fixed),
{
    let ghost start = arg_views(args@);
    if family == EncoderFamily::Svt {
        let mut p: Vec<char> = Vec::new();
        if fixed {
            append_str(&mut p, "rc=1:");
        }
        append_str(&mut p, "tune=0:enable-variance-boost=1:variance-boost-strength=2:aq-mode=2:ac-bias=1.0");
        proof {
            assert(p@ =~= (if fixed { "rc=1:"@ } else { seq![] }) + "tune=0:enable-variance-boost=1:variance-boost-strength=2:aq-mode=2:ac-bias=1.0"@);
        }
        push_arg(args, "-svtav1-params");
        push_string(args, string_of(p.as_slice()));
    }
    proof {
        assert(arg_views(args@) =~= start + svt_args(family, fixed));
    }
}

fn push_x26x_args(args: &mut Vec<String>, codec: &str, zones: Option<&str>)
    ensures
        arg_views(final(args)@) == arg_views(old(args)@) + x26x_args(codec@, zones_view(zones)),
{
    let ghost start = arg_views(args@);
    let x264 = str_is(codec, "libx264");
    let x265 = str_is(codec, "libx265");
    if x264 || x265 {
        let mut p: Vec<char> = Vec::new();
        if x264 {
            append_str(&mut p, "aq-mode=3:aq-strength=0.8:psy-rd=1.0,0.15");
        } else {
            append_str(&mut p, "aq-mode=3");
        }
        let ghost head = p@;
        match zones {
            Some(z) => {
                append_str(&mut p, ":zones=");
                append_str(&mut p, z);
            },
            None => {},
        }
        proof {
            assert(p@ =~= head + zones_suffix(zones_view(zones)));
        }
        push_arg(args, if x264 { "-x264-params" } else { "-x265-params" });
        push_string(args, string_of(p.as_slice()));
    }
    proof {
        assert(arg_views(args@) =~= start + x26x_args(codec@, zones_view(zones)));
    }
}

/// The video arguments of an encode (see `video_args_for`): `vf` is the filter
/// chain, `tenfold_fps` the output frame rate times ten (rounded), `bitrate` the
/// average in kbps for fixed-size encodes and `zones` the x264/x265 bitrate
/// zones.
pub fn video_args(
    o: &EncodeOptions,
    input: &str,
    vf: &str,
    tenfold_fps: u32,
    bitrate: i64,
    zones: Option<&str>,
) -> (r: Vec<String>)
    requires
        -(i64::MAX / 2) <= bitrate <= i64::MAX / 2,
    ensures
        arg_views(r@) == video_args_for(*o, input@, vf@, gop_length(tenfold_fps), bitrate as int, zones_view(zones)),
{
    let mut args: Vec<String> = Vec::new();
    let codec = o.codec.as_str();
    let family = encoder_family(codec);
    let fixed = str_is(o.algorithm.as_str(), "fixed");
    let two_pass = fixed && two_pass_codec(codec);
    push_base_args(&mut args, input, vf, codec, keyframe_interval(tenfold_fps));
    push_arg(&mut args, if family == EncoderFamily::Amf { "-quality" } else { "-preset" });
    push_string(&mut args, mapped_preset(family, o.preset.as_str(), o.svt_preset));
    let ghost after_preset = arg_views(args@);
    if fixed {
        push_fixed_rate_args(&mut args, family, two_pass, bitrate, o.gpu_gameplay_mode.as_str());
    } else {
        push_quality_args(&mut args, family, codec, o.crf, o.quality_mode.as_str());
    }
    push_svt_args(&mut args, family, fixed);
    push_x26x_args(&mut args, codec, zones);
    proof {
        assert(arg_views(args@) =~= video_args_for(*o, input@, vf@, gop_length(tenfold_fps), bitrate as int, zones_view(zones)));
    }
    args
}

// ── Audio, output and analysis-pass arguments ────────────────────────────────

/// Audio at `audio_kbps`: Opus for WebM, AAC otherwise, 48 kHz, at most two
/// channels; nothing for a source without audio.
pub open spec fn audio_args_for(container: Seq<char>, channels: u32, audio_kbps: u32) -> Seq<Seq<char>> {
    if channels > 0 {
        seq![
            "-c:a"@, if container == "webm"@ { "libopus"@ } else { "aac"@ }, "-b:a"@, kbps(audio_kbps as int),
            "-ar"@, "48000"@, "-ac"@, decimal((if channels < 2 { channels } else { 2 }) as nat)
        ]
    } else {
        seq![]
    }
}

/// The end of an output pass: fast-start MP4s, progress on standard output,
/// constant frame rate, overwrite, and the output path.
pub open spec fn output_args_for(container: Seq<char>, out_path: Seq<char>) -> Seq<Seq<char>> {
    (if container == "mp4"@ { seq!["-movflags"@, "+faststart"@] } else { seq![] }) + seq![
        "-progress"@, "pipe:1"@, "-nostats"@, "-fps_mode"@, "cfr"@, "-y"@, out_path
    ]
}

/// The end of a two-pass analysis pass: audio copied (so that both passes read
/// the same streams), progress, constant frame rate, and no output file.
pub open spec fn analysis_args_for(windows: bool) -> Seq<Seq<char>> {
    seq![
        "-c:a"@, "copy"@, "-progress"@, "pipe:1"@, "-nostats"@, "-fps_mode"@, "cfr"@, "-y"@, "-f"@,
        "null"@, if windows { "NUL"@ } else { "/dev/null"@ }
    ]
}

pub fn audio_args(container: &str, channels: u32, audio_kbps: u32) -> (r: Vec<String>)
    ensures
        arg_views(r@) == audio_args_for(container@, channels, audio_kbps),
{
    let mut args: Vec<String> = Vec::new();
    if channels > 0 {
        push_arg(&mut args, "-c:a");
        push_arg(&mut args, if str_is(container, "webm") { "libopus" } else { "aac" });
        push_arg(&mut args, "-b:a");
        push_string(&mut args, kbps_string(audio_kbps as i64));
        push_arg(&mut args, "-ar");
        push_arg(&mut args, "48000");
        push_arg(&mut args, "-ac");
        push_string(&mut args, decimal_string((if channels < 2 { channels } else { 2 }) as u64));
    }
    proof {
        assert(arg_views(args@) =~= audio_args_for(container@, channels, audio_kbps));
    }
    args
}

pub fn output_args(container: &str, out_path: &str) -> (r: Vec<String>)
    ensures
        arg_views(r@) == output_args_for(container@, out_path@),
{
    let mut args: Vec<String> = Vec::new();
    if str_is(container, "mp4") {
        push_arg(&mut args, "-movflags");
        push_arg(&mut args, "+faststart");
    }
    push_arg(&mut args, "-progress");
    push_arg(&mut args, "pipe:1");
    push_arg(&mut args, "-nostats");
    push_arg(&mut args, "-fps_mode");
    push_arg(&mut args, "cfr");
    push_arg(&mut args, "-y");
    push_arg(&mut args, out_path);
    proof {
        assert(arg_views(args@) =~= output_args_for(container@, out_path@));
    }
    args
}

pub fn analysis_pass_args(windows: bool) -> (r: Vec<String>)
    ensures
        arg_views(r@) == analysis_args_for(windows),
{
    let mut args: Vec<String> = Vec::new();
    push_arg(&mut args, "-c:a");
    push_arg(&mut args, "copy");
    push_arg(&mut args, "-progress");
    push_arg(&mut args, "pipe:1");
    push_arg(&mut args, "-nostats");
    push_arg(&mut args, "-fps_mode");
    push_arg(&mut args, "cfr");
    push_arg(&mut args, "-y");
    push_arg(&mut args, "-f");
    push_arg(&mut args, "null");
    push_arg(&mut args, if windows { "NUL" } else { "/dev/null" });
    proof {
        assert(arg_views(args@) =~= analysis_args_for(windows));
    }
    args
}

// ── Laws ─────────────────────────────────────────────────────────────────────

/// WebM output is accepted only for AV1 encoders; MP4 for every encoder.
pub proof fn lemma_webm_only_for_av1(codec: Seq<char>)
    ensures
        format_error("webm"@, codec) is None ==> is_av1(codec),
        format_error("mp4"@, codec) is None,
{
    reveal_strlit("mp4");
    reveal_strlit("webm");
    assert("mp4"@.len() == 3);
    assert("webm"@.len() == 4);
    assert("mp4"@ != "webm"@);
}

/// Fixed-size encodes with peak control ask for the average bitrate and allow
/// peaks, with a buffer, of 200% of it; SVT-AV1's two-pass average-bitrate path
/// gets the average alone.
pub proof fn lemma_fixed_size_peaks(family: EncoderFamily, two_pass: bool, bitrate: int, gameplay_mode: Seq<char>)
    ensures
        family != EncoderFamily::Svt ==> fixed_rate_args(family, two_pass, bitrate, gameplay_mode).take(6) == seq![
            "-b:v"@, kbps(bitrate), "-maxrate"@, kbps(2 * bitrate), "-bufsize"@, kbps(2 * bitrate)
        ],
        fixed_rate_args(EncoderFamily::Svt, true, bitrate, gameplay_mode) == seq!["-b:v"@, kbps(bitrate)],
{
    if family != EncoderFamily::Svt {
        assert(fixed_rate_args(family, two_pass, bitrate, gameplay_mode).take(6) =~= seq![
            "-b:v"@, kbps(bitrate), "-maxrate"@, kbps(2 * bitrate), "-bufsize"@, kbps(2 * bitrate)
        ]);
    }
    assert(fixed_rate_args(EncoderFamily::Svt, true, bitrate, gameplay_mode) =~= seq!["-b:v"@, kbps(bitrate)]);
}

/// Every fixed-size encode with x264, x265 or SVT-AV1 runs two passes, so none
/// of them receives a hardware rate-control mode.
pub proof fn lemma_software_fixed_size_is_two_pass(codec: Seq<char>)
    requires
        is_two_pass_codec(codec),
    ensures
        family_of(codec) == EncoderFamily::Svt || family_of(codec) == EncoderFamily::Software,
{
    reveal_strlit("libx264");
    reveal_strlit("libx265");
    reveal_strlit("libsvtav1");
    reveal_strlit("_nvenc");
    reveal_strlit("_amf");
    reveal_strlit("_qsv");
    if codec == "libx264"@ || codec == "libx265"@ {
        assert(!ends_with(codec, "_nvenc"@)) by {
            if ends_with(codec, "_nvenc"@) {
                assert(codec.skip(codec.len() - 6)[0] == '_');
            }
        }
        assert(!ends_with(codec, "_amf"@)) by {
            if ends_with(codec, "_amf"@) {
                assert(codec.skip(codec.len() - 4)[0] == '_');
            }
        }
        assert(!ends_with(codec, "_qsv"@)) by {
            if ends_with(codec, "_qsv"@) {
                assert(codec.skip(codec.len() - 4)[0] == '_');
            }
        }
    }
}

/// SVT-AV1 always takes the lightweight analysis (no probe encode) and ends
/// its video arguments with `tune=0`, variance boost 2, AQ mode 2 and AC bias
/// 1.0, after `rc=1` for fixed-size encodes.
pub proof fn lemma_svt_av1_defaults(
    o: EncodeOptions,
    input: Seq<char>,
    vf: Seq<char>,
    gop: u32,
    bitrate: int,
    zones: Option<Seq<char>>,
    allocation_mode: Seq<char>,
)
    requires
        o.codec@ == "libsvtav1"@,
    ensures
        !probe_encode_for(o.algorithm@, allocation_mode, o.codec@),
        ({
            let a = video_args_for(o, input, vf, gop, bitrate, zones);
            &&& a[a.len() - 2] == "-svtav1-params"@
            &&& a.last() == (if o.algorithm@ == "fixed"@ { "rc=1:"@ } else { seq![] })
                + "tune=0:enable-variance-boost=1:variance-boost-strength=2:aq-mode=2:ac-bias=1.0"@
        }),
{
    reveal_strlit("libx264");
    reveal_strlit("libx265");
    reveal_strlit("libsvtav1");
    assert(family_of(o.codec@) == EncoderFamily::Svt);
    assert("libsvtav1"@.len() == 9 && "libx264"@.len() == 7 && "libx265"@.len() == 7);
    assert(o.codec@ != "libx264"@ && o.codec@ != "libx265"@);
    let a = video_args_for(o, input, vf, gop, bitrate, zones);
    let s = svt_args(EncoderFamily::Svt, o.algorithm@ == "fixed"@);
    assert(x26x_args(o.codec@, zones) == Seq::<Seq<char>>::empty());
    assert(a =~= a.take(a.len() - 2) + s);
}

/// x264 and x265 end their video arguments with their parameter flag and their
/// adaptive-quantisation settings, followed by `:zones=` and the zones whenever
/// zones are given.
pub proof fn lemma_zones_reach_x264_and_x265(
    o: EncodeOptions,
    input: Seq<char>,
    vf: Seq<char>,
    gop: u32,
    bitrate: int,
    zones: Option<Seq<char>>,
)
    requires
        o.codec@ == "libx264"@ || o.codec@ == "libx265"@,
    ensures
        ({
            let a = video_args_for(o, input, vf, gop, bitrate, zones);
            let tail = match zones {
                Some(z) => ":zones="@ + z,
                None => Seq::<char>::empty(),
            };
            &&& a.len() >= 2
            &&& o.codec@ == "libx264"@ ==> a[a.len() - 2] == "-x264-params"@ && a.last()
                == "aq-mode=3:aq-strength=0.8:psy-rd=1.0,0.15"@ + tail
            &&& o.codec@ == "libx265"@ ==> a[a.len() - 2] == "-x265-params"@ && a.last() == "aq-mode=3"@ + tail
        }),
{
    reveal_strlit("libx264");
    reveal_strlit("libx265");
    reveal_strlit("libsvtav1");
    assert("libsvtav1"@.len() == 9 && "libx264"@.len() == 7 && "libx265"@.len() == 7);
    assert("libx264"@[6] == '4' && "libx265"@[6] == '5');
    lemma_software_fixed_size_is_two_pass(o.codec@);
    assert(o.codec@ != "libsvtav1"@);
    assert(family_of(o.codec@) == EncoderFamily::Software);
    let a = video_args_for(o, input, vf, gop, bitrate, zones);
    let x = x26x_args(o.codec@, zones);
    assert(svt_args(EncoderFamily::Software, o.algorithm@ == "fixed"@) == Seq::<Seq<char>>::empty());
    assert(x.len() == 2);
    assert(a =~= a.take(a.len() - 2) + x);
    if o.codec@ == "libx265"@ {
        assert(o.codec@ != "libx264"@);
    }
}

/// An encoder's family follows its name: SVT-AV1 is `libsvtav1`; names
/// ending in `_nvenc`, `_amf` and `_qsv` are NVENC, AMF and QSV; every other
/// name (x264, x265) is a software encoder.
pub proof fn lemma_encoder_families(codec: Seq<char>)
    ensures
        (family_of(codec) == EncoderFamily::Svt) == (codec == "libsvtav1"@),
        codec != "libsvtav1"@ && ends_with(codec, "_nvenc"@) ==> family_of(codec) == EncoderFamily::Nvenc,
        codec != "libsvtav1"@ && ends_with(codec, "_amf"@) ==> family_of(codec) == EncoderFamily::Amf,
        codec != "libsvtav1"@ && ends_with(codec, "_qsv"@) ==> family_of(codec) == EncoderFamily::Qsv,
        codec != "libsvtav1"@ && !ends_with(codec, "_nvenc"@) && !ends_with(codec, "_amf"@) && !ends_with(codec, "_qsv"@)
            ==> family_of(codec) == EncoderFamily::Software,
{
    reveal_strlit("_nvenc");
    reveal_strlit("_amf");
    reveal_strlit("_qsv");
    if ends_with(codec, "_amf"@) || ends_with(codec, "_qsv"@) {
        assert(codec.last() == codec.skip(codec.len() - 4)[3]);
        if ends_with(codec, "_nvenc"@) {
            assert(codec.last() == codec.skip(codec.len() - 6)[5]);
        }
    }
    if ends_with(codec, "_qsv"@) && ends_with(codec, "_amf"@) {
        assert(codec.last() == codec.skip(codec.len() - 4)[3]);
    }
}

/// The layout of an encode's video arguments: input and mapping, filter chain,
/// codec, pixel format (10-bit for SVT-AV1), profile (High for H.264), BT.709
/// tags and the keyframe interval; then the speed preset in the family's
/// vocabulary; then rate control: for a fixed-size encode the average, twice
/// it as peak and buffer for all but SVT-AV1, and VBR for NVENC and
/// peak-constrained VBR for AMF; for a quality encode the family's quality
/// mode at the CRF (at most 51).
pub proof fn lemma_video_args_layout(
    o: EncodeOptions,
    input: Seq<char>,
    vf: Seq<char>,
    gop: u32,
    bitrate: int,
    zones: Option<Seq<char>>,
)
    ensures
        ({
            let a = video_args_for(o, input, vf, gop, bitrate, zones);
            let c = o.codec@;
            let f = family_of(c);
            let fixed = o.algorithm@ == "fixed"@;
            let q = decimal((if o.crf < 51 { o.crf } else { 51 }) as nat);
            let p = o.preset@;
            &&& a.len() >= 31
            &&& a.take(27) == seq![
                "-hide_banner"@, "-i"@, input, "-map"@, "0:v:0"@, "-map"@, "0:a:0?"@, "-map_metadata"@, "0"@,
                "-map_chapters"@, "0"@, "-vf"@, vf, "-c:v"@, c, "-pix_fmt"@,
                if c == "libsvtav1"@ { "yuv420p10le"@ } else { "yuv420p"@ }, "-profile:v"@,
                if c == "libx264"@ || starts_with(c, "h264_"@) { "high"@ } else { "main"@ }, "-colorspace"@, "bt709"@,
                "-color_primaries"@, "bt709"@, "-color_trc"@, "bt709"@, "-g"@, decimal(gop as nat)
            ]
            &&& a[27] == (if f == EncoderFamily::Amf { "-quality"@ } else { "-preset"@ })
            &&& a[28] == (match f {
                EncoderFamily::Nvenc => if p == "slow"@ {
                    "p5"@
                } else if p == "slower"@ {
                    "p6"@
                } else if p == "veryslow"@ {
                    "p7"@
                } else {
                    "p4"@
                },
                EncoderFamily::Amf => if p == "medium"@ { "balanced"@ } else { "quality"@ },
                EncoderFamily::Svt => decimal((if o.svt_preset < 13 { o.svt_preset } else { 13 }) as nat),
                _ => p,
            })
            &&& fixed ==> a.subrange(29, 31) == seq!["-b:v"@, signed_decimal(bitrate) + "k"@]
            &&& fixed && f != EncoderFamily::Svt ==> a.len() >= 35 && a.subrange(31, 35) == seq![
                "-maxrate"@, signed_decimal(2 * bitrate) + "k"@, "-bufsize"@, signed_decimal(2 * bitrate) + "k"@
            ]
            &&& fixed && f == EncoderFamily::Nvenc ==> a.len() >= 37 && a.subrange(35, 37) == seq!["-rc"@, "vbr"@]
            &&& fixed && f == EncoderFamily::Amf ==> a.len() >= 37 && a.subrange(35, 37) == seq!["-rc"@, "vbr_peak"@]
            &&& !fixed && f == EncoderFamily::Nvenc ==> a.len() >= 35 && a.subrange(29, 35) == seq![
                "-rc"@, "vbr"@, "-cq"@, q, "-b:v"@, "0"@
            ]
            &&& !fixed && f == EncoderFamily::Qsv ==> a.subrange(29, 31) == seq!["-global_quality"@, q]
            &&& !fixed && (f == EncoderFamily::Software || f == EncoderFamily::Svt) ==> a.subrange(29, 31) == seq![
                "-crf"@, q
            ]
            &&& !fixed && f == EncoderFamily::Amf && o.quality_mode@ == "amf_qvbr"@ ==> a.len() >= 33 && a.subrange(29, 33)
                == seq!["-rc"@, "qvbr"@, "-qvbr_quality_level"@, q]
            &&& !fixed && f == EncoderFamily::Amf && o.quality_mode@ != "amf_qvbr"@ ==> a.len() >= 35 && a.subrange(29, 35)
                == seq!["-rc"@, "cqp"@, "-qp_i"@, q, "-qp_p"@, q]
        }),
{
    let a = video_args_for(o, input, vf, gop, bitrate, zones);
    let c = o.codec@;
    let f = family_of(c);
    let fixed = o.algorithm@ == "fixed"@;
    let two_pass = fixed && is_two_pass_codec(c);
    if is_two_pass_codec(c) {
        lemma_software_fixed_size_is_two_pass(c);
    }
    let b = base_args(input, vf, c, gop);
    let pr = preset_args(f, o.preset@, o.svt_preset);
    let rc = if fixed {
        fixed_rate_args(f, two_pass, bitrate, o.gpu_gameplay_mode@)
    } else {
        quality_args(f, c, o.crf, o.quality_mode@)
    };
    let rest = svt_args(f, fixed) + x26x_args(c, zones);
    assert(a =~= b + pr + rc + rest);
    assert(b.len() == 27);
    assert(rc.len() >= 2);
    assert(a.take(27) =~= b);
    assert(a[27] == pr[0] && a[28] == pr[1]);
    assert(a.subrange(29, 31) =~= rc.subrange(0, 2));
    if rc.len() >= 4 {
        assert(a.subrange(29, 33) =~= rc.subrange(0, 4));
    }
    if rc.len() >= 6 {
        assert(a.subrange(29, 35) =~= rc.subrange(0, 6));
        assert(a.subrange(31, 35) =~= rc.subrange(2, 6));
    }
    if rc.len() >= 8 {
        assert(a.subrange(35, 37) =~= rc.subrange(6, 8));
    }
}

/// Audio is encoded only when the source has it: Opus for WebM and AAC
/// otherwise, at the given rate, 48 kHz, and at most two channels. An output
/// encode ends with fast start (MP4 only), progress on standard output,
/// constant frame rate, overwrite and the output path as its last argument; an
/// analysis pass copies the audio and writes to the null device.
pub proof fn lemma_audio_and_output(container: Seq<char>, channels: u32, audio_kbps: u32, out_path: Seq<char>, windows: bool)
    ensures
        channels == 0 ==> audio_args_for(container, channels, audio_kbps) == Seq::<Seq<char>>::empty(),
        channels > 0 ==> audio_args_for(container, channels, audio_kbps) == seq![
            "-c:a"@, if container == "webm"@ { "libopus"@ } else { "aac"@ }, "-b:a"@, decimal(audio_kbps as nat) + "k"@,
            "-ar"@, "48000"@, "-ac"@, if channels >= 2 { "2"@ } else { "1"@ }
        ],
        output_args_for(container, out_path).last() == out_path,
        output_args_for(container, out_path).len() == (if container == "mp4"@ { 9int } else { 7int }),
        container == "mp4"@ ==> output_args_for(container, out_path).take(2) == seq!["-movflags"@, "+faststart"@],
        output_args_for(container, out_path).skip(output_args_for(container, out_path).len() - 7) == seq![
            "-progress"@, "pipe:1"@, "-nostats"@, "-fps_mode"@, "cfr"@, "-y"@, out_path
        ],
        analysis_args_for(windows).take(2) == seq!["-c:a"@, "copy"@],
        analysis_args_for(windows).last() == (if windows { "NUL"@ } else { "/dev/null"@ }),
{
    if channels > 0 {
        let n: nat = (if channels < 2 { channels } else { 2 }) as nat;
        assert(decimal(n) == seq![(n + 48) as char]);
        reveal_strlit("2");
        reveal_strlit("1");
        assert(seq![(n + 48) as char] =~= (if channels >= 2 { "2"@ } else { "1"@ }));
    }
    let o = output_args_for(container, out_path);
    let tail = seq!["-progress"@, "pipe:1"@, "-nostats"@, "-fps_mode"@, "cfr"@, "-y"@, out_path];
    assert(o.skip(o.len() - 7) =~= tail);
    if container == "mp4"@ {
        assert(o.take(2) =~= seq!["-movflags"@, "+faststart"@]);
    }
}

/// Output names join the stem, encoder, resolution, frame rate and quality
/// with `-`, then `.` and the container; the quality is `crf<N>` for quality
/// encodes and the size preset's name otherwise. A fixed-size encode with a
/// budget below 1 kbps is refused with a message that gives the budget.
/// (The keyframe interval is stated by `lemma_keyframe_interval`.)
pub proof fn lemma_names_and_budget_message(
    stem: Seq<char>,
    codec_name: Seq<char>,
    resolution_name: Seq<char>,
    fps_name: Seq<char>,
    quality: Seq<char>,
    container: Seq<char>,
    algorithm: Seq<char>,
    crf: u32,
    size_name: Seq<char>,
    bitrate: int,
)
    ensures
        output_name(stem, codec_name, resolution_name, fps_name, quality, container) == stem + "-"@ + codec_name + "-"@
            + resolution_name + "-"@ + fps_name + "-"@ + quality + "."@ + container,
        quality_label(algorithm, crf, size_name) == (if algorithm == "dynamic"@ {
            "crf"@ + decimal(crf as nat)
        } else {
            size_name
        }),
        budget_message(bitrate) == "Bitrate "@ + (if bitrate < 0 { "-"@ + decimal((-bitrate) as nat) } else { decimal(bitrate as nat) })
            + " kbps — clip too short for target size?"@,
{
    reveal_strlit("-");
    reveal_strlit(".");
    assert(output_name(stem, codec_name, resolution_name, fps_name, quality, container) =~= stem + "-"@ + codec_name + "-"@
        + resolution_name + "-"@ + fps_name + "-"@ + quality + "."@ + container);
    if bitrate < 0 {
        assert(seq!['-'] =~= "-"@);
    }
}

/// The keyframe interval is ten seconds of frames, but never below 120 nor
/// above 600 frames.
pub proof fn lemma_keyframe_interval(tenfold_fps: u32)
    ensures
        120 <= gop_length(tenfold_fps) <= 600,
        120 <= tenfold_fps <= 600 ==> gop_length(tenfold_fps) == tenfold_fps,
        tenfold_fps < 120 ==> gop_length(tenfold_fps) == 120,
        tenfold_fps > 600 ==> gop_length(tenfold_fps) == 600,
{
}

} // verus!
