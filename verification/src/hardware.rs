//! Which encoders this machine can use: the candidate encoders, the test
//! encodes that decide it, and the entry reported for each encoder that works.
use vstd::prelude::*;
use crate::args::{arg_views, extend_args, owned, push_arg};
use crate::gpu::{gpu_for_family, gpu_label};
use crate::text::str_is;

verus! {

/// An encoder that may be available: FFmpeg codec, the short name used in
/// output names, the label shown, and its family (`software`, `nvenc`, `amf`
/// or `qsv`).
pub struct EncoderCandidate {
    pub codec: String,
    pub codec_name: String,
    pub label: String,
    pub family: String,
}

/// An encoder that passed its tests.
pub struct HardwareEncoder {
    pub codec: String,
    pub codec_name: String,
    pub label: String,
    pub family: String,
    pub gpu: String,
    pub quality_mode: String,
    pub gameplay_mode: String,
}

pub open spec fn candidate_view(c: EncoderCandidate) -> (Seq<char>, Seq<char>, Seq<char>, Seq<char>) {
    (c.codec@, c.codec_name@, c.label@, c.family@)
}

/// SVT-AV1, then H.264, H.265 and AV1 for each of NVENC, AMF and QSV.
pub open spec fn candidate_table() -> Seq<(Seq<char>, Seq<char>, Seq<char>, Seq<char>)> {
    seq![
        ("libsvtav1"@, "svt-av1"@, "SVT-AV1"@, "software"@),
        ("h264_nvenc"@, "h264-nvenc"@, "H.264 (NVENC)"@, "nvenc"@),
        ("hevc_nvenc"@, "h265-nvenc"@, "H.265 (NVENC)"@, "nvenc"@),
        ("av1_nvenc"@, "av1-nvenc"@, "AV1 (NVENC)"@, "nvenc"@),
        ("h264_amf"@, "h264-amf"@, "H.264 (AMF)"@, "amf"@),
        ("hevc_amf"@, "h265-amf"@, "H.265 (AMF)"@, "amf"@),
        ("av1_amf"@, "av1-amf"@, "AV1 (AMF)"@, "amf"@),
        ("h264_qsv"@, "h264-qsv"@, "H.264 (QSV)"@, "qsv"@),
        ("hevc_qsv"@, "h265-qsv"@, "H.265 (QSV)"@, "qsv"@),
        ("av1_qsv"@, "av1-qsv"@, "AV1 (QSV)"@, "qsv"@)
    ]
}

fn candidate(codec: &str, codec_name: &str, label: &str, family: &str) -> (r: EncoderCandidate)
    ensures
        candidate_view(r) == (codec@, codec_name@, label@, family@),
{
    EncoderCandidate { codec: owned(codec), codec_name: owned(codec_name), label: owned(label), family: owned(family) }
}

/// The encoders to test, in order (see `candidate_table`).
pub fn encoder_candidates() -> (r: Vec<EncoderCandidate>)
    ensures
        r@.map_values(|c: EncoderCandidate| candidate_view(c)) == candidate_table(),
{
    let mut v: Vec<EncoderCandidate> = Vec::new();
    v.push(candidate("libsvtav1", "svt-av1", "SVT-AV1", "software"));
    v.push(candidate("h264_nvenc", "h264-nvenc", "H.264 (NVENC)", "nvenc"));
    v.push(candidate("hevc_nvenc", "h265-nvenc", "H.265 (NVENC)", "nvenc"));
    v.push(candidate("av1_nvenc", "av1-nvenc", "AV1 (NVENC)", "nvenc"));
    v.push(candidate("h264_amf", "h264-amf", "H.264 (AMF)", "amf"));
    v.push(candidate("hevc_amf", "h265-amf", "H.265 (AMF)", "amf"));
    v.push(candidate("av1_amf", "av1-amf", "AV1 (AMF)", "amf"));
    v.push(candidate("h264_qsv", "h264-qsv", "H.264 (QSV)", "qsv"));
    v.push(candidate("hevc_qsv", "h265-qsv", "H.265 (QSV)", "qsv"));
    v.push(candidate("av1_qsv", "av1-qsv", "AV1 (QSV)", "qsv"));
    proof {
        assert(v@.map_values(|c: EncoderCandidate| candidate_view(c)) =~= candidate_table());
    }
    v
}

/// The pixel format of a test encode: 10-bit for SVT-AV1, NV12 otherwise.
pub open spec fn test_pixel_format_of(codec: Seq<char>) -> Seq<char> {
    if codec == "libsvtav1"@ { "yuv420p10le"@ } else { "nv12"@ }
}

pub fn test_pixel_format(codec: &str) -> (r: String)
    ensures
        r@ == test_pixel_format_of(codec@),
{
    if str_is(codec, "libsvtav1") { owned("yuv420p10le") } else { owned("nv12") }
}

/// A one-frame test encode of a black 640x360 source with the given encoder,
/// pixel format and extra options, written nowhere.
pub open spec fn test_args_for(codec: Seq<char>, pixel_format: Seq<char>, extra: Seq<Seq<char>>) -> Seq<Seq<char>> {
    seq![
        "-hide_banner"@, "-loglevel"@, "error"@, "-f"@, "lavfi"@, "-i"@, "color=black:s=640x360:r=30"@,
        "-frames:v"@, "1"@, "-an"@, "-c:v"@, codec, "-pix_fmt"@, pixel_format
    ] + extra + seq!["-f"@, "null"@, "-"@]
}

pub fn encoder_test_args(codec: &str, pixel_format: &str, extra: Vec<String>) -> (r: Vec<String>)
    ensures
        arg_views(r@) == test_args_for(codec@, pixel_format@, arg_views(extra@)),
{
    let mut args: Vec<String> = Vec::new();
    push_arg(&mut args, "-hide_banner");
    push_arg(&mut args, "-loglevel");
    push_arg(&mut args, "error");
    push_arg(&mut args, "-f");
    push_arg(&mut args, "lavfi");
    push_arg(&mut args, "-i");
    push_arg(&mut args, "color=black:s=640x360:r=30");
    push_arg(&mut args, "-frames:v");
    push_arg(&mut args, "1");
    push_arg(&mut args, "-an");
    push_arg(&mut args, "-c:v");
    push_arg(&mut args, codec);
    push_arg(&mut args, "-pix_fmt");
    push_arg(&mut args, pixel_format);
    let ghost head = arg_views(args@);
    extend_args(&mut args, extra);
    let ghost mid = arg_views(args@);
    push_arg(&mut args, "-f");
    push_arg(&mut args, "null");
    push_arg(&mut args, "-");
    proof {
        assert(arg_views(args@) =~= mid + seq!["-f"@, "null"@, "-"@]);
    }
    args
}

/// The options of the quality-mode test: constant-quality VBR for NVENC,
/// QVBR for AMF, ICQ for QSV, CRF otherwise (all at quality 24).
pub open spec fn quality_test_for(family: Seq<char>) -> Seq<Seq<char>> {
    if family == "nvenc"@ {
        seq!["-rc"@, "vbr"@, "-cq"@, "24"@, "-b:v"@, "0"@]
    } else if family == "amf"@ {
        seq!["-rc"@, "qvbr"@, "-qvbr_quality_level"@, "24"@]
    } else if family == "qsv"@ {
        seq!["-global_quality"@, "24"@]
    } else {
        seq!["-crf"@, "24"@]
    }
}

pub fn quality_test_args(family: &str) -> (r: Vec<String>)
    ensures
        arg_views(r@) == quality_test_for(family@),
{
    let mut a: Vec<String> = Vec::new();
    if str_is(family, "nvenc") {
        push_arg(&mut a, "-rc");
        push_arg(&mut a, "vbr");
        push_arg(&mut a, "-cq");
        push_arg(&mut a, "24");
        push_arg(&mut a, "-b:v");
        push_arg(&mut a, "0");
    } else if str_is(family, "amf") {
        push_arg(&mut a, "-rc");
        push_arg(&mut a, "qvbr");
        push_arg(&mut a, "-qvbr_quality_level");
        push_arg(&mut a, "24");
    } else if str_is(family, "qsv") {
        push_arg(&mut a, "-global_quality");
        push_arg(&mut a, "24");
    } else {
        push_arg(&mut a, "-crf");
        push_arg(&mut a, "24");
    }
    proof {
        assert(arg_views(a@) =~= quality_test_for(family@));
    }
    a
}

/// Constant-QP options tried for AMF encoders whose driver rejects QVBR.
pub open spec fn amf_fallback_for() -> Seq<Seq<char>> {
    seq!["-rc"@, "cqp"@, "-qp_i"@, "24"@, "-qp_p"@, "24"@]
}

pub fn amf_fallback_args() -> (r: Vec<String>)
    ensures
        arg_views(r@) == amf_fallback_for(),
{
    let mut a: Vec<String> = Vec::new();
    push_arg(&mut a, "-rc");
    push_arg(&mut a, "cqp");
    push_arg(&mut a, "-qp_i");
    push_arg(&mut a, "24");
    push_arg(&mut a, "-qp_p");
    push_arg(&mut a, "24");
    proof {
        assert(arg_views(a@) =~= amf_fallback_for());
    }
    a
}

/// The fallback is tried when an AMF encoder initialises but rejects QVBR.
pub open spec fn fallback_needed(family: Seq<char>, base_ok: bool, quality_ok: bool) -> bool {
    base_ok && family == "amf"@ && !quality_ok
}

pub fn needs_amf_fallback(family: &str, base_ok: bool, quality_ok: bool) -> (r: bool)
    ensures
        r == fallback_needed(family@, base_ok, quality_ok),
{
    base_ok && str_is(family, "amf") && !quality_ok
}

/// The options of the gameplay-tuning test: a 500k VBR with lookahead and
/// adaptive quantisation for NVENC, pre-analysis for AMF, extended bitrate
/// control for QSV; nothing for software encoders.
pub open spec fn gameplay_test_for(family: Seq<char>) -> Seq<Seq<char>> {
    let rates = seq!["-b:v"@, "500k"@, "-maxrate"@, "625k"@, "-bufsize"@, "1000k"@];
    if family == "nvenc"@ {
        rates + seq![
            "-rc"@, "vbr"@, "-multipass"@, "fullres"@, "-spatial-aq"@, "1"@, "-temporal-aq"@, "1"@,
            "-aq-strength"@, "8"@, "-rc-lookahead"@, "32"@
        ]
    } else if family == "amf"@ {
        rates + seq![
            "-rc"@, "vbr_peak"@, "-preanalysis"@, "true"@, "-pa_high_motion_quality_boost_mode"@, "auto"@,
            "-pa_taq_mode"@, "2"@
        ]
    } else if family == "qsv"@ {
        rates + seq![
            "-extbrc"@, "1"@, "-look_ahead_depth"@, "40"@, "-adaptive_i"@, "1"@, "-adaptive_b"@, "1"@
        ]
    } else {
        seq![]
    }
}

pub fn gameplay_test_args(family: &str) -> (r: Vec<String>)
    ensures
        arg_views(r@) == gameplay_test_for(family@),
{
    let mut a: Vec<String> = Vec::new();
    let nvenc = str_is(family, "nvenc");
    let amf = str_is(family, "amf");
    let qsv = str_is(family, "qsv");
    if nvenc || amf || qsv {
        push_arg(&mut a, "-b:v");
        push_arg(&mut a, "500k");
        push_arg(&mut a, "-maxrate");
        push_arg(&mut a, "625k");
        push_arg(&mut a, "-bufsize");
        push_arg(&mut a, "1000k");
    }
    if nvenc {
        push_arg(&mut a, "-rc");
        push_arg(&mut a, "vbr");
        push_arg(&mut a, "-multipass");
        push_arg(&mut a, "fullres");
        push_arg(&mut a, "-spatial-aq");
        push_arg(&mut a, "1");
        push_arg(&mut a, "-temporal-aq");
        push_arg(&mut a, "1");
        push_arg(&mut a, "-aq-strength");
        push_arg(&mut a, "8");
        push_arg(&mut a, "-rc-lookahead");
        push_arg(&mut a, "32");
    } else if amf {
        push_arg(&mut a, "-rc");
        push_arg(&mut a, "vbr_peak");
        push_arg(&mut a, "-preanalysis");
        push_arg(&mut a, "true");
        push_arg(&mut a, "-pa_high_motion_quality_boost_mode");
        push_arg(&mut a, "auto");
        push_arg(&mut a, "-pa_taq_mode");
        push_arg(&mut a, "2");
    } else if qsv {
        push_arg(&mut a, "-extbrc");
        push_arg(&mut a, "1");
        push_arg(&mut a, "-look_ahead_depth");
        push_arg(&mut a, "40");
        push_arg(&mut a, "-adaptive_i");
        push_arg(&mut a, "1");
        push_arg(&mut a, "-adaptive_b");
        push_arg(&mut a, "1");
    }
    proof {
        assert(arg_views(a@) =~= gameplay_test_for(family@));
    }
    a
}

/// The quality mode an encoder is used in: the family's native mode, or
/// AMF's constant-QP fallback when that was needed.
pub open spec fn quality_mode_of(family: Seq<char>, fallback: bool) -> Seq<char> {
    if fallback {
        "amf_quality_fallback"@
    } else if family == "nvenc"@ {
        "nvenc_cqvbr"@
    } else if family == "amf"@ {
        "amf_qvbr"@
    } else if family == "qsv"@ {
        "qsv_icq"@
    } else {
        "crf"@
    }
}

/// The gameplay mode: `native` for software encoders, the family's tuned mode
/// when its test passed, `internal` otherwise.
pub open spec fn gameplay_mode_of(family: Seq<char>, tuned_ok: bool) -> Seq<char> {
    if family == "software"@ {
        "native"@
    } else if tuned_ok {
        if family == "nvenc"@ {
            "nvenc_aq"@
        } else if family == "amf"@ {
            "amf_preanalysis"@
        } else if family == "qsv"@ {
            "qsv_extbrc"@
        } else {
            "internal"@
        }
    } else {
        "internal"@
    }
}

/// The entry for a tested encoder. `quality_ok` is the result of the
/// quality-mode test, `fallback_ok` that of the AMF fallback when it was run,
/// and `tuned_ok` whether the gameplay test ran and passed. An encoder is
/// usable when it initialised and a quality mode works.
pub open spec fn probe_outcome(
    c: (Seq<char>, Seq<char>, Seq<char>, Seq<char>),
    gpus: Seq<Seq<char>>,
    base_ok: bool,
    quality_ok: bool,
    fallback_ok: Option<bool>,
    tuned_ok: bool,
) -> Option<(Seq<char>, Seq<char>, Seq<char>, Seq<char>, Seq<char>, Seq<char>, Seq<char>)> {
    let fallback = fallback_needed(c.3, base_ok, quality_ok) && fallback_ok is Some;
    let quality = if fallback { fallback_ok->0 } else { quality_ok };
    if base_ok && quality {
        Some((c.0, c.1, c.2, c.3, gpu_label(gpus, c.3), quality_mode_of(c.3, fallback), gameplay_mode_of(c.3, tuned_ok)))
    } else {
        None
    }
}

pub open spec fn encoder_view(e: HardwareEncoder) -> (Seq<char>, Seq<char>, Seq<char>, Seq<char>, Seq<char>, Seq<char>, Seq<char>) {
    (e.codec@, e.codec_name@, e.label@, e.family@, e.gpu@, e.quality_mode@, e.gameplay_mode@)
}

/// The reported entry for a candidate after its tests (see `probe_outcome`).
pub fn probe_result(
    c: &EncoderCandidate,
    gpus: &[String],
    base_ok: bool,
    quality_ok: bool,
    fallback_ok: Option<bool>,
    tuned_ok: bool,
) -> (r: Option<HardwareEncoder>)
    ensures
        match r {
            Some(e) => probe_outcome(candidate_view(*c), arg_views(gpus@), base_ok, quality_ok, fallback_ok, tuned_ok)
                == Some(encoder_view(e)),
            None => probe_outcome(candidate_view(*c), arg_views(gpus@), base_ok, quality_ok, fallback_ok, tuned_ok)
                is None,
        },
{
    let family = c.family.as_str();
    let fallback = needs_amf_fallback(family, base_ok, quality_ok) && fallback_ok.is_some();
    let quality = if fallback {
        match fallback_ok { Some(b) => b, None => false }
    } else {
        quality_ok
    };
    if !(base_ok && quality) {
        return None;
    }
    let quality_mode = if fallback {
        owned("amf_quality_fallback")
    } else if str_is(family, "nvenc") {
        owned("nvenc_cqvbr")
    } else if str_is(family, "amf") {
        owned("amf_qvbr")
    } else if str_is(family, "qsv") {
        owned("qsv_icq")
    } else {
        owned("crf")
    };
    let gameplay_mode = if str_is(family, "software") {
        owned("native")
    } else if tuned_ok {
        if str_is(family, "nvenc") {
            owned("nvenc_aq")
        } else if str_is(family, "amf") {
            owned("amf_preanalysis")
        } else if str_is(family, "qsv") {
            owned("qsv_extbrc")
        } else {
            owned("internal")
        }
    } else {
        owned("internal")
    };
    Some(HardwareEncoder {
        codec: owned(c.codec.as_str()),
        codec_name: owned(c.codec_name.as_str()),
        label: owned(c.label.as_str()),
        family: owned(family),
        gpu: gpu_for_family(gpus, family),
        quality_mode,
        gameplay_mode,
    })
}

/// An encoder is listed only after it initialised in a real test encode and a
/// quality mode (its own, or AMF's fallback) passed its test as well.
pub proof fn lemma_listed_only_when_tested(
    c: (Seq<char>, Seq<char>, Seq<char>, Seq<char>),
    gpus: Seq<Seq<char>>,
    base_ok: bool,
    quality_ok: bool,
    fallback_ok: Option<bool>,
    tuned_ok: bool,
)
    ensures
        probe_outcome(c, gpus, base_ok, quality_ok, fallback_ok, tuned_ok) is Some ==> base_ok && (quality_ok
            || fallback_ok == Some(true)),
        !base_ok ==> probe_outcome(c, gpus, base_ok, quality_ok, fallback_ok, tuned_ok) is None,
{
}

// ── Order of the tests ───────────────────────────────────────────────────────

/// The test encodes run for a candidate.
#[derive(PartialEq, Eq, Structural, Clone, Copy, Debug)]
pub enum ProbeTest {
    Base,
    Quality,
    AmfFallback,
    Gameplay,
}

/// The results of the tests run so far for a candidate (`None`: not run).
#[derive(Clone, Copy)]
pub struct ProbeRecord {
    pub base: Option<bool>,
    pub quality: Option<bool>,
    pub fallback: Option<bool>,
    pub tuned: Option<bool>,
}

/// The next test to run: the plain test first; the quality-mode test only
/// once that passed; AMF's fallback only when its quality mode failed; the
/// gameplay test for hardware encoders that passed the plain test; then none.
pub open spec fn next_test_for(family: Seq<char>, t: ProbeRecord) -> Option<ProbeTest> {
    if t.base is None {
        Some(ProbeTest::Base)
    } else if t.base == Some(true) && t.quality is None {
        Some(ProbeTest::Quality)
    } else if fallback_needed(family, t.base == Some(true), t.quality == Some(true)) && t.fallback is None {
        Some(ProbeTest::AmfFallback)
    } else if family != "software"@ && t.base == Some(true) && t.tuned is None {
        Some(ProbeTest::Gameplay)
    } else {
        None
    }
}

pub fn next_probe_test(family: &str, t: ProbeRecord) -> (r: Option<ProbeTest>)
    ensures
        r == next_test_for(family@, t),
{
    let base_ok = match t.base {
        Some(b) => b,
        None => false,
    };
    let quality_ok = match t.quality {
        Some(b) => b,
        None => false,
    };
    if t.base.is_none() {
        Some(ProbeTest::Base)
    } else if base_ok && t.quality.is_none() {
        Some(ProbeTest::Quality)
    } else if needs_amf_fallback(family, base_ok, quality_ok) && t.fallback.is_none() {
        Some(ProbeTest::AmfFallback)
    } else if !str_is(family, "software") && base_ok && t.tuned.is_none() {
        Some(ProbeTest::Gameplay)
    } else {
        None
    }
}

/// The options a test adds to the plain test encode.
pub open spec fn test_options(test: ProbeTest, family: Seq<char>) -> Seq<Seq<char>> {
    match test {
        ProbeTest::Base => seq![],
        ProbeTest::Quality => quality_test_for(family),
        ProbeTest::AmfFallback => amf_fallback_for(),
        ProbeTest::Gameplay => gameplay_test_for(family),
    }
}

pub fn probe_test_args(test: ProbeTest, family: &str) -> (r: Vec<String>)
    ensures
        arg_views(r@) == test_options(test, family@),
{
    match test {
        ProbeTest::Base => {
            let v: Vec<String> = Vec::new();
            proof {
                assert(arg_views(v@) =~= Seq::<Seq<char>>::empty());
            }
            v
        },
        ProbeTest::Quality => quality_test_args(family),
        ProbeTest::AmfFallback => amf_fallback_args(),
        ProbeTest::Gameplay => gameplay_test_args(family),
    }
}

/// The record after `test` ended with `ok`.
pub open spec fn recorded(t: ProbeRecord, test: ProbeTest, ok: bool) -> ProbeRecord {
    match test {
        ProbeTest::Base => ProbeRecord { base: Some(ok), ..t },
        ProbeTest::Quality => ProbeRecord { quality: Some(ok), ..t },
        ProbeTest::AmfFallback => ProbeRecord { fallback: Some(ok), ..t },
        ProbeTest::Gameplay => ProbeRecord { tuned: Some(ok), ..t },
    }
}

pub fn record_probe_test(t: ProbeRecord, test: ProbeTest, ok: bool) -> (r: ProbeRecord)
    ensures
        r == recorded(t, test, ok),
{
    match test {
        ProbeTest::Base => ProbeRecord { base: Some(ok), ..t },
        ProbeTest::Quality => ProbeRecord { quality: Some(ok), ..t },
        ProbeTest::AmfFallback => ProbeRecord { fallback: Some(ok), ..t },
        ProbeTest::Gameplay => ProbeRecord { tuned: Some(ok), ..t },
    }
}

/// The reported entry once the tests are done: a test that did not run counts
/// as failed, and the fallback is passed on only when it ran.
pub fn probe_record_result(c: &EncoderCandidate, gpus: &[String], t: ProbeRecord) -> (r: Option<HardwareEncoder>)
    ensures
        match r {
            Some(e) => probe_outcome(candidate_view(*c), arg_views(gpus@), t.base == Some(true), t.quality == Some(true), t.fallback, t.tuned == Some(true))
                == Some(encoder_view(e)),
            None => probe_outcome(candidate_view(*c), arg_views(gpus@), t.base == Some(true), t.quality == Some(true), t.fallback, t.tuned == Some(true))
                is None,
        },
{
    let base_ok = match t.base {
        Some(b) => b,
        None => false,
    };
    let quality_ok = match t.quality {
        Some(b) => b,
        None => false,
    };
    let tuned_ok = match t.tuned {
        Some(b) => b,
        None => false,
    };
    probe_result(c, gpus, base_ok, quality_ok, t.fallback, tuned_ok)
}

/// Tests follow the plain test: the quality-mode and gameplay tests run only
/// after it passed, AMF's fallback only after its quality mode failed, no test
/// runs twice, and a software encoder gets no gameplay test.
pub proof fn lemma_tests_follow_the_plain_test(family: Seq<char>, t: ProbeRecord)
    ensures
        next_test_for(family, t) == Some(ProbeTest::Quality) ==> t.base == Some(true) && t.quality is None,
        next_test_for(family, t) == Some(ProbeTest::AmfFallback) ==> t.base == Some(true) && family == "amf"@ && t.quality
            == Some(false) && t.fallback is None,
        next_test_for(family, t) == Some(ProbeTest::Gameplay) ==> t.base == Some(true) && family != "software"@ && t.tuned is None,
        next_test_for(family, t) == Some(ProbeTest::Base) ==> t.base is None,
{
}

/// Testing ends after at most four tests: starting from no results, each
/// recorded test fills a result that was missing, and once the plain test has
/// run the quality test is settled as run or not needed.
pub proof fn lemma_each_test_runs_once(family: Seq<char>, t: ProbeRecord, ok: bool)
    ensures
        next_test_for(family, t) matches Some(test) ==> missing(recorded(t, test, ok)) == missing(t) - 1,
{
}

/// The number of results not yet recorded.
pub open spec fn missing(t: ProbeRecord) -> int {
    (if t.base is None { 1int } else { 0 }) + (if t.quality is None { 1int } else { 0 }) + (if t.fallback is None {
        1int
    } else {
        0
    }) + (if t.tuned is None { 1int } else { 0 })
}

/// What a listed encoder reports, given its tests: its own codec, names and
/// family; the constant-QP fallback as its quality mode exactly when it is an
/// AMF encoder whose QVBR test failed and whose fallback test passed, and
/// otherwise its family's own quality mode (`nvenc_cqvbr`, `amf_qvbr`,
/// `qsv_icq`, `crf`); and as gameplay mode `native` for software encoders, the
/// family's tuned mode when the gameplay test passed, and `internal` otherwise.
pub proof fn lemma_reported_modes(
    c: (Seq<char>, Seq<char>, Seq<char>, Seq<char>),
    gpus: Seq<Seq<char>>,
    base_ok: bool,
    quality_ok: bool,
    fallback_ok: Option<bool>,
    tuned_ok: bool,
)
    ensures
        base_ok && (quality_ok || (c.3 == "amf"@ && fallback_ok == Some(true))) <==> probe_outcome(
            c,
            gpus,
            base_ok,
            quality_ok,
            fallback_ok,
            tuned_ok,
        ) is Some,
        probe_outcome(c, gpus, base_ok, quality_ok, fallback_ok, tuned_ok) matches Some(e) ==> {
            &&& e.0 == c.0 && e.1 == c.1 && e.2 == c.2 && e.3 == c.3
            &&& e.5 == (if !quality_ok {
                "amf_quality_fallback"@
            } else if c.3 == "nvenc"@ {
                "nvenc_cqvbr"@
            } else if c.3 == "amf"@ {
                "amf_qvbr"@
            } else if c.3 == "qsv"@ {
                "qsv_icq"@
            } else {
                "crf"@
            })
            &&& e.6 == (if c.3 == "software"@ {
                "native"@
            } else if tuned_ok && c.3 == "nvenc"@ {
                "nvenc_aq"@
            } else if tuned_ok && c.3 == "amf"@ {
                "amf_preanalysis"@
            } else if tuned_ok && c.3 == "qsv"@ {
                "qsv_extbrc"@
            } else {
                "internal"@
            })
        },
{
}

/// The candidates: SVT-AV1 (a software encoder) first, then H.264, H.265 and
/// AV1 for NVENC, AMF and QSV in that order; each hardware codec is named
/// `<h264|hevc|av1>_<family>` and shown as `<H.264|H.265|AV1> (<FAMILY>)`.
pub proof fn lemma_candidate_order()
    ensures
        candidate_table().len() == 10,
        candidate_table()[0] == ("libsvtav1"@, "svt-av1"@, "SVT-AV1"@, "software"@),
        forall|i: int| 1 <= i < 10 ==> {
            let c = #[trigger] candidate_table()[i];
            let fam = seq!["nvenc"@, "amf"@, "qsv"@][(i - 1) / 3];
            let up = seq!["NVENC"@, "AMF"@, "QSV"@][(i - 1) / 3];
            let codec = seq!["h264"@, "hevc"@, "av1"@][(i - 1) % 3];
            let short = seq!["h264"@, "h265"@, "av1"@][(i - 1) % 3];
            let shown = seq!["H.264"@, "H.265"@, "AV1"@][(i - 1) % 3];
            &&& c.3 == fam
            &&& c.0 == codec + "_"@ + fam
            &&& c.1 == short + "-"@ + fam
            &&& c.2 == shown + " ("@ + up + ")"@
        },
{
    reveal_strlit("_");
    reveal_strlit("-");
    reveal_strlit(" (");
    reveal_strlit(")");
    reveal_strlit("nvenc");
    reveal_strlit("amf");
    reveal_strlit("qsv");
    reveal_strlit("NVENC");
    reveal_strlit("AMF");
    reveal_strlit("QSV");
    reveal_strlit("h264");
    reveal_strlit("hevc");
    reveal_strlit("av1");
    reveal_strlit("h265");
    reveal_strlit("H.264");
    reveal_strlit("H.265");
    reveal_strlit("AV1");
    reveal_strlit("h264_nvenc");
    reveal_strlit("hevc_nvenc");
    reveal_strlit("av1_nvenc");
    reveal_strlit("h264_amf");
    reveal_strlit("hevc_amf");
    reveal_strlit("av1_amf");
    reveal_strlit("h264_qsv");
    reveal_strlit("hevc_qsv");
    reveal_strlit("av1_qsv");
    reveal_strlit("h264-nvenc");
    reveal_strlit("h265-nvenc");
    reveal_strlit("av1-nvenc");
    reveal_strlit("h264-amf");
    reveal_strlit("h265-amf");
    reveal_strlit("av1-amf");
    reveal_strlit("h264-qsv");
    reveal_strlit("h265-qsv");
    reveal_strlit("av1-qsv");
    reveal_strlit("H.264 (NVENC)");
    reveal_strlit("H.265 (NVENC)");
    reveal_strlit("AV1 (NVENC)");
    reveal_strlit("H.264 (AMF)");
    reveal_strlit("H.265 (AMF)");
    reveal_strlit("AV1 (AMF)");
    reveal_strlit("H.264 (QSV)");
    reveal_strlit("H.265 (QSV)");
    reveal_strlit("AV1 (QSV)");
    let t = candidate_table();
    assert forall|i: int| 1 <= i < 10 implies {
        let c = #[trigger] t[i];
        let fam = seq!["nvenc"@, "amf"@, "qsv"@][(i - 1) / 3];
        let up = seq!["NVENC"@, "AMF"@, "QSV"@][(i - 1) / 3];
        let codec = seq!["h264"@, "hevc"@, "av1"@][(i - 1) % 3];
        let short = seq!["h264"@, "h265"@, "av1"@][(i - 1) % 3];
        let shown = seq!["H.264"@, "H.265"@, "AV1"@][(i - 1) % 3];
        &&& c.3 == fam
        &&& c.0 == codec + "_"@ + fam
        &&& c.1 == short + "-"@ + fam
        &&& c.2 == shown + " ("@ + up + ")"@
    } by {
        let c = t[i];
        let fam = seq!["nvenc"@, "amf"@, "qsv"@][(i - 1) / 3];
        let up = seq!["NVENC"@, "AMF"@, "QSV"@][(i - 1) / 3];
        let codec = seq!["h264"@, "hevc"@, "av1"@][(i - 1) % 3];
        let short = seq!["h264"@, "h265"@, "av1"@][(i - 1) % 3];
        let shown = seq!["H.264"@, "H.265"@, "AV1"@][(i - 1) % 3];
        assert(c.0 =~= codec + "_"@ + fam);
        assert(c.1 =~= short + "-"@ + fam);
        assert(c.2 =~= shown + " ("@ + up + ")"@);
    }
}

/// Test encodes are one black frame encoded with the candidate's codec and
/// pixel format (10-bit for SVT-AV1, NV12 for the others) and written
/// nowhere, with each test's options in between; the quality test asks for
/// quality 24 in the family's quality mode.
pub proof fn lemma_test_encodes(codec: Seq<char>, family: Seq<char>, extra: Seq<Seq<char>>)
    ensures
        test_pixel_format_of(codec) == (if codec == "libsvtav1"@ { "yuv420p10le"@ } else { "nv12"@ }),
        ({
            let a = test_args_for(codec, test_pixel_format_of(codec), extra);
            &&& a.len() == 17 + extra.len()
            &&& a[11] == codec
            &&& a[13] == test_pixel_format_of(codec)
            &&& a.subrange(14, 14 + extra.len() as int) == extra
            &&& a.skip(14 + extra.len() as int) == seq!["-f"@, "null"@, "-"@]
        }),
        quality_test_for(family) == (if family == "nvenc"@ {
            seq!["-rc"@, "vbr"@, "-cq"@, "24"@, "-b:v"@, "0"@]
        } else if family == "amf"@ {
            seq!["-rc"@, "qvbr"@, "-qvbr_quality_level"@, "24"@]
        } else if family == "qsv"@ {
            seq!["-global_quality"@, "24"@]
        } else {
            seq!["-crf"@, "24"@]
        }),
{
    let a = test_args_for(codec, test_pixel_format_of(codec), extra);
    assert(a.subrange(14, 14 + extra.len() as int) =~= extra);
    assert(a.skip(14 + extra.len() as int) =~= seq!["-f"@, "null"@, "-"@]);
}

/// The gameplay test of a hardware family asks for 500k with peaks of 625k and
/// a 1000k buffer before its tuning options, and software encoders get none;
/// AMF's fallback asks for constant QP 24 on I and P frames.
pub proof fn lemma_gameplay_and_fallback_tests(family: Seq<char>)
    ensures
        (family == "nvenc"@ || family == "amf"@ || family == "qsv"@) ==> gameplay_test_for(family).take(6) == seq![
            "-b:v"@, "500k"@, "-maxrate"@, "625k"@, "-bufsize"@, "1000k"@
        ],
        family == "nvenc"@ ==> gameplay_test_for(family).skip(6).take(2) == seq!["-rc"@, "vbr"@],
        family == "amf"@ ==> gameplay_test_for(family).skip(6).take(2) == seq!["-rc"@, "vbr_peak"@],
        !(family == "nvenc"@ || family == "amf"@ || family == "qsv"@) ==> gameplay_test_for(family) == Seq::<Seq<char>>::empty(),
        amf_fallback_for() == seq!["-rc"@, "cqp"@, "-qp_i"@, "24"@, "-qp_p"@, "24"@],
{
    reveal_strlit("nvenc");
    reveal_strlit("amf");
    reveal_strlit("qsv");
    assert("nvenc"@.len() == 5 && "amf"@.len() == 3 && "amf"@[0] != "qsv"@[0]);
    let g = gameplay_test_for(family);
    if family == "nvenc"@ || family == "amf"@ || family == "qsv"@ {
        assert(g.take(6) =~= seq!["-b:v"@, "500k"@, "-maxrate"@, "625k"@, "-bufsize"@, "1000k"@]);
    }
    if family == "nvenc"@ {
        assert(g.skip(6).take(2) =~= seq!["-rc"@, "vbr"@]);
    }
    if family == "amf"@ {
        assert(g.skip(6).take(2) =~= seq!["-rc"@, "vbr_peak"@]);
    }
}

} // verus!
