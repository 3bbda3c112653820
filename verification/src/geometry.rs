//! Frame geometry: display orientation, resolution boxes, downscaling that keeps
//! the aspect ratio, and the resolutions that an encode chooses among.
use vstd::prelude::*;
use crate::text::{chars_eq, chars_of};
use crate::args::owned;

verus! {

/// Width and height as displayed: a rotation of 90 degrees modulo 180
/// (90, 270, -90, ...) swaps them.
pub open spec fn displayed(width: u32, height: u32, rotation_degrees: int) -> (u32, u32) {
    if rotation_degrees % 180 == 90 {
        (height, width)
    } else {
        (width, height)
    }
}

/// The dimensions of a frame as shown, given the rotation recorded in its
/// metadata, in whole degrees.
pub fn display_dimensions(width: u32, height: u32, rotation_degrees: i32) -> (r: (u32, u32))
    ensures
        r == displayed(width, height, rotation_degrees as int),
{
    // 2_160_000_000 is a multiple of 180 that lifts every i32 above zero.
    let lifted: u64 = ((rotation_degrees as i64) + 2_160_000_000i64) as u64;
    let normalized = lifted % 180;
    proof {
        assert(lifted as int == rotation_degrees as int + 180 * 12_000_000);
        vstd::arithmetic::div_mod::lemma_mod_multiples_vanish(
            12_000_000,
            rotation_degrees as int,
            180,
        );
    }
    if normalized == 90 {
        (height, width)
    } else {
        (width, height)
    }
}

/// The box for a resolution given in landscape form, turned on its side for a
/// portrait (taller than wide) source.
pub open spec fn oriented(source_width: u32, source_height: u32, landscape_width: u32, landscape_height: u32) -> (u32, u32) {
    if source_height > source_width {
        (landscape_height, landscape_width)
    } else {
        (landscape_width, landscape_height)
    }
}

pub fn oriented_resolution_box(
    source_width: u32,
    source_height: u32,
    landscape_width: u32,
    landscape_height: u32,
) -> (r: (u32, u32))
    ensures
        r == oriented(source_width, source_height, landscape_width, landscape_height),
{
    if source_height > source_width {
        (landscape_height, landscape_width)
    } else {
        (landscape_width, landscape_height)
    }
}

/// The scale factor `min(box_width / source_width, box_height / source_height, 1)`
/// as a fraction `(numerator, denominator)`; a ratio over a zero side does not
/// bound the scale.
pub open spec fn scale_fraction(sw: int, sh: int, bw: int, bh: int) -> (int, int) {
    let (n1, d1) = if sw > 0 && bw < sw { (bw, sw) } else { (1int, 1int) };
    if sh > 0 && bh * d1 < n1 * sh {
        (bh, sh)
    } else {
        (n1, d1)
    }
}

/// A length rounded down to an even number, and at least 2.
pub open spec fn even_length(v: int) -> int {
    (if v < 2 { 2 } else { v }) / 2 * 2
}

/// The frame size after fitting a `sw`x`sh` source into a `bw`x`bh` box without
/// upscaling: both sides multiplied by the scale factor, rounded down to even.
/// The factor is an exact fraction, so a side whose scaled length is a whole
/// number keeps that length. A floating-point computation of the same product
/// can land just below it and round down to the even number under it: 1074x604
/// fitted into 960x540 gives 960x538 here, and 958x538 when the product is
/// computed in `f64`.
pub open spec fn scaled(sw: u32, sh: u32, bw: u32, bh: u32) -> (u32, u32) {
    let (n, d) = scale_fraction(sw as int, sh as int, bw as int, bh as int);
    (even_length(sw * n / d) as u32, even_length(sh * n / d) as u32)
}

fn even_u32(v: u64) -> (r: u32)
    requires
        v <= u32::MAX,
    ensures
        r == even_length(v as int),
{
    let m = if v < 2 { 2 } else { v };
    (m / 2 * 2) as u32
}

/// Fits a source into a box without upscaling (see `scaled`).
pub fn scaled_dimensions(source_width: u32, source_height: u32, box_width: u32, box_height: u32) -> (r: (u32, u32))
    ensures
        r == scaled(source_width, source_height, box_width, box_height),
{
    let sw = source_width as u64;
    let sh = source_height as u64;
    let bw = box_width as u64;
    let bh = box_height as u64;
    let (n1, d1): (u64, u64) = if sw > 0 && bw < sw { (bw, sw) } else { (1, 1) };
    assert(bh * d1 <= 0xffff_ffff * 0xffff_ffffu64) by (nonlinear_arith)
        requires bh <= 0xffff_ffff, d1 <= 0xffff_ffff;
    assert(n1 * sh <= 0xffff_ffff * 0xffff_ffffu64) by (nonlinear_arith)
        requires n1 <= 0xffff_ffff, sh <= 0xffff_ffff;
    let (n, d): (u64, u64) = if sh > 0 && bh * d1 < n1 * sh { (bh, sh) } else { (n1, d1) };
    proof {
        assert((n as int, d as int) == scale_fraction(sw as int, sh as int, bw as int, bh as int));
        assert(n1 <= d1 && d1 > 0);
        if sh > 0 && bh * d1 < n1 * sh {
            assert(bh < sh) by (nonlinear_arith)
                requires bh * d1 < n1 * sh, n1 <= d1, d1 > 0;
        }
        assert(n <= d);
    }
    assert(sw * n <= 0xffff_ffff * 0xffff_ffffu64) by (nonlinear_arith)
        requires sw <= 0xffff_ffff, n <= 0xffff_ffff;
    assert(sh * n <= 0xffff_ffff * 0xffff_ffffu64) by (nonlinear_arith)
        requires sh <= 0xffff_ffff, n <= 0xffff_ffff;
    let w = sw * n / d;
    let h = sh * n / d;
    assert(w <= sw && h <= sh) by (nonlinear_arith)
        requires w as int == (sw * n) as int / (d as int), h as int == (sh * n) as int / (d as int), n <= d, d > 0;
    (even_u32(w), even_u32(h))
}

/// An output size that an encode may choose: the box handed to the scaler
/// (none for the source size), a display name, and the frame size that results.
pub struct ResolutionCandidate {
    pub width: Option<u32>,
    pub height: Option<u32>,
    pub name: String,
    pub rendered_width: u32,
    pub rendered_height: u32,
}

pub struct CandidateView {
    pub width: Option<u32>,
    pub height: Option<u32>,
    pub name: Seq<char>,
    pub rendered_width: u32,
    pub rendered_height: u32,
}

impl View for ResolutionCandidate {
    type V = CandidateView;

    open spec fn view(&self) -> CandidateView {
        CandidateView {
            width: self.width,
            height: self.height,
            name: self.name@,
            rendered_width: self.rendered_width,
            rendered_height: self.rendered_height,
        }
    }
}

pub open spec fn candidate_views(v: Seq<ResolutionCandidate>) -> Seq<CandidateView> {
    v.map_values(|c: ResolutionCandidate| c@)
}

pub open spec fn has_rendered_size(cs: Seq<CandidateView>, w: u32, h: u32) -> bool {
    exists|i: int| 0 <= i < cs.len() && cs[i].rendered_width == w && cs[i].rendered_height == h
}

/// A preset added to the list unless an earlier entry already renders at the
/// same size.
pub open spec fn with_preset(cs: Seq<CandidateView>, sw: u32, sh: u32, lw: u32, lh: u32, name: Seq<char>) -> Seq<CandidateView> {
    let (bw, bh) = oriented(sw, sh, lw, lh);
    let (rw, rh) = scaled(sw, sh, bw, bh);
    if has_rendered_size(cs, rw, rh) {
        cs
    } else {
        cs.push(CandidateView { width: Some(bw), height: Some(bh), name, rendered_width: rw, rendered_height: rh })
    }
}

/// Automatic resolution: the source size first, then 1440p, 1080p, 720p and
/// 540p fitted to the source, each only when it renders at a new size.
pub open spec fn auto_candidates(sw: u32, sh: u32) -> Seq<CandidateView> {
    let original = seq![CandidateView { width: None, height: None, name: "original"@, rendered_width: sw, rendered_height: sh }];
    with_preset(
        with_preset(
            with_preset(with_preset(original, sw, sh, 2560, 1440, "1440p"@), sw, sh, 1920, 1080, "1080p"@),
            sw,
            sh,
            1280,
            720,
            "720p"@,
        ),
        sw,
        sh,
        960,
        540,
        "540p"@,
    )
}

/// The resolutions that an encode chooses among, for a resolution mode of
/// `auto` (the automatic list), `scale` (one box, 1920x1080 by default) or
/// anything else (the source size).
pub open spec fn resolution_choices(
    res_mode: Seq<char>,
    res_w: Option<u32>,
    res_h: Option<u32>,
    resolution_name: Seq<char>,
    sw: u32,
    sh: u32,
) -> Seq<CandidateView> {
    if res_mode == "auto"@ {
        auto_candidates(sw, sh)
    } else if res_mode == "scale"@ {
        let lw = match res_w { Some(w) => w, None => 1920u32 };
        let lh = match res_h { Some(h) => h, None => 1080u32 };
        let (bw, bh) = oriented(sw, sh, lw, lh);
        let (rw, rh) = scaled(sw, sh, bw, bh);
        seq![CandidateView { width: Some(bw), height: Some(bh), name: resolution_name, rendered_width: rw, rendered_height: rh }]
    } else {
        seq![CandidateView { width: None, height: None, name: resolution_name, rendered_width: sw, rendered_height: sh }]
    }
}

fn has_rendered(cs: &Vec<ResolutionCandidate>, w: u32, h: u32) -> (r: bool)
    ensures
        r == has_rendered_size(candidate_views(cs@), w, h),
{
    let mut i: usize = 0;
    while i < cs.len()
        invariant
            i <= cs.len(),
            forall|j: int| 0 <= j < i ==> !(candidate_views(cs@)[j].rendered_width == w && candidate_views(cs@)[j].rendered_height == h),
        decreases cs.len() - i,
    {
        if cs[i].rendered_width == w && cs[i].rendered_height == h {
            proof {
                assert(candidate_views(cs@)[i as int].rendered_width == w);
            }
            return true;
        }
        i += 1;
    }
    false
}

fn add_preset(cs: &mut Vec<ResolutionCandidate>, sw: u32, sh: u32, lw: u32, lh: u32, name: &str)
    ensures
        candidate_views(final(cs)@) == with_preset(candidate_views(old(cs)@), sw, sh, lw, lh, name@),
{
    let (bw, bh) = oriented_resolution_box(sw, sh, lw, lh);
    let (rw, rh) = scaled_dimensions(sw, sh, bw, bh);
    if !has_rendered(cs, rw, rh) {
        let c = ResolutionCandidate {
            width: Some(bw),
            height: Some(bh),
            name: owned(name),
            rendered_width: rw,
            rendered_height: rh,
        };
        let ghost cv = c@;
        cs.push(c);
        proof {
            assert(candidate_views(cs@) =~= candidate_views(old(cs)@).push(cv));
        }
    }
}

/// The candidate resolutions of an encode (see `resolution_choices`).
pub fn resolution_candidates(
    res_mode: &str,
    res_w: Option<u32>,
    res_h: Option<u32>,
    resolution_name: &str,
    source_width: u32,
    source_height: u32,
) -> (r: Vec<ResolutionCandidate>)
    ensures
        candidate_views(r@) == resolution_choices(res_mode@, res_w, res_h, resolution_name@, source_width, source_height),
{
    let mode = chars_of(res_mode);
    let mut cs: Vec<ResolutionCandidate> = Vec::new();
    if chars_eq(mode.as_slice(), chars_of("auto").as_slice()) {
        cs.push(ResolutionCandidate {
            width: None,
            height: None,
            name: owned("original"),
            rendered_width: source_width,
            rendered_height: source_height,
        });
        proof {
            assert(candidate_views(cs@) =~= seq![CandidateView { width: None, height: None, name: "original"@, rendered_width: source_width, rendered_height: source_height }]);
        }
        add_preset(&mut cs, source_width, source_height, 2560, 1440, "1440p");
        add_preset(&mut cs, source_width, source_height, 1920, 1080, "1080p");
        add_preset(&mut cs, source_width, source_height, 1280, 720, "720p");
        add_preset(&mut cs, source_width, source_height, 960, 540, "540p");
    } else if chars_eq(mode.as_slice(), chars_of("scale").as_slice()) {
        let lw = match res_w { Some(w) => w, None => 1920 };
        let lh = match res_h { Some(h) => h, None => 1080 };
        let (bw, bh) = oriented_resolution_box(source_width, source_height, lw, lh);
        let (rw, rh) = scaled_dimensions(source_width, source_height, bw, bh);
        let c = ResolutionCandidate {
            width: Some(bw),
            height: Some(bh),
            name: owned(resolution_name),
            rendered_width: rw,
            rendered_height: rh,
        };
        let ghost cv = c@;
        cs.push(c);
        proof {
            assert(candidate_views(cs@) =~= seq![cv]);
        }
    } else {
        let c = ResolutionCandidate {
            width: None,
            height: None,
            name: owned(resolution_name),
            rendered_width: source_width,
            rendered_height: source_height,
        };
        let ghost cv = c@;
        cs.push(c);
        proof {
            assert(candidate_views(cs@) =~= seq![cv]);
        }
    }
    cs
}

// ── Laws ─────────────────────────────────────────────────────────────────────

/// A rotation by half a turn more or less shows the frame the same way.
pub proof fn lemma_half_turn_changes_nothing(width: u32, height: u32, rotation: int)
    ensures
        displayed(width, height, rotation + 180) == displayed(width, height, rotation),
        displayed(width, height, rotation - 180) == displayed(width, height, rotation),
{
    vstd::arithmetic::div_mod::lemma_mod_multiples_vanish(1, rotation, 180);
    vstd::arithmetic::div_mod::lemma_mod_multiples_vanish(-1, rotation, 180);
}

/// For rotations in whole quarter turns, one more quarter turn swaps the
/// displayed width and height.
pub proof fn lemma_quarter_turn_swaps(width: u32, height: u32, rotation: int)
    requires
        rotation % 90 == 0,
    ensures
        displayed(width, height, rotation + 90) == (displayed(width, height, rotation).1, displayed(width, height, rotation).0),
{
    vstd::arithmetic::div_mod::lemma_fundamental_div_mod(rotation, 180);
    vstd::arithmetic::div_mod::lemma_fundamental_div_mod(rotation + 90, 180);
    let q = rotation / 180;
    let m = rotation % 180;
    assert(m == 0 || m == 90) by {
        vstd::arithmetic::div_mod::lemma_fundamental_div_mod(rotation, 90);
        vstd::arithmetic::div_mod::lemma_mod_mod(rotation, 90, 2);
    }
    if m == 0 {
        vstd::arithmetic::div_mod::lemma_fundamental_div_mod_converse(rotation + 90, 180, q, 90);
    } else {
        vstd::arithmetic::div_mod::lemma_fundamental_div_mod_converse(rotation + 90, 180, q + 1, 0);
    }
}

proof fn lemma_even_length(v: int)
    ensures
        even_length(v) % 2 == 0,
        even_length(v) >= 2,
        even_length(v) <= (if v < 2 { 2 } else { v }),
{
}

proof fn lemma_scale_at_most_one(sw: int, sh: int, bw: int, bh: int)
    requires
        0 <= sw,
        0 <= sh,
        0 <= bw,
        0 <= bh,
    ensures
        0 <= scale_fraction(sw, sh, bw, bh).0 <= scale_fraction(sw, sh, bw, bh).1,
        scale_fraction(sw, sh, bw, bh).1 > 0,
{
    let (n1, d1) = if sw > 0 && bw < sw { (bw, sw) } else { (1int, 1int) };
    if sh > 0 && bh * d1 < n1 * sh {
        assert(bh < sh) by (nonlinear_arith)
            requires bh * d1 < n1 * sh, n1 <= d1, d1 > 0, bh >= 0, sh > 0;
    }
}

/// Scaled sizes are even, at least 2, and never larger than the source (or 2,
/// for a side shorter than that).
pub proof fn lemma_scaled_is_even_and_no_larger(sw: u32, sh: u32, bw: u32, bh: u32)
    ensures
        scaled(sw, sh, bw, bh).0 % 2 == 0,
        scaled(sw, sh, bw, bh).1 % 2 == 0,
        2 <= scaled(sw, sh, bw, bh).0 <= (if sw < 2 { 2 } else { sw }),
        2 <= scaled(sw, sh, bw, bh).1 <= (if sh < 2 { 2 } else { sh }),
{
    let (n, d) = scale_fraction(sw as int, sh as int, bw as int, bh as int);
    lemma_scale_at_most_one(sw as int, sh as int, bw as int, bh as int);
    assert(sw * n / d <= sw && sh * n / d <= sh && sw * n / d >= 0 && sh * n / d >= 0) by (nonlinear_arith)
        requires 0 <= n <= d, d > 0, sw >= 0, sh >= 0;
    lemma_even_length(sw * n / d);
    lemma_even_length(sh * n / d);
}

/// A source with both sides non-zero, fitted into a box of at least 2x2,
/// ends up inside the box.
pub proof fn lemma_scaled_fits_box(sw: u32, sh: u32, bw: u32, bh: u32)
    requires
        sw > 0,
        sh > 0,
        bw >= 2,
        bh >= 2,
    ensures
        scaled(sw, sh, bw, bh).0 <= bw,
        scaled(sw, sh, bw, bh).1 <= bh,
{
    let (n1, d1) = if bw < sw { (bw as int, sw as int) } else { (1int, 1int) };
    let (n, d) = scale_fraction(sw as int, sh as int, bw as int, bh as int);
    assert(n1 * sw <= bw * d1) by (nonlinear_arith)
        requires (n1 == bw && d1 == sw) || (n1 == 1 && d1 == 1 && bw >= sw);
    if bh * d1 < n1 * sh {
        assert(sw * bh <= bw * sh) by (nonlinear_arith)
            requires bh * d1 < n1 * sh, n1 * sw <= bw * d1, d1 > 0, sw > 0, bh >= 0;
        assert(n == bh && d == sh);
        assert(sw * n <= bw * d && sh * n <= bh * d) by (nonlinear_arith)
            requires sw * bh <= bw * sh, n == bh, d == sh;
    } else {
        assert(sh * n1 <= bh * d1) by (nonlinear_arith)
            requires !(bh * d1 < n1 * sh);
        assert(n == n1 && d == d1);
        assert(sw * n <= bw * d && sh * n <= bh * d) by (nonlinear_arith)
            requires n1 * sw <= bw * d1, sh * n1 <= bh * d1, n == n1, d == d1;
    }
    assert(sw * n / d <= bw && sh * n / d <= bh) by (nonlinear_arith)
        requires sw * n <= bw * d, sh * n <= bh * d, d > 0, n >= 0;
    lemma_even_length(sw * n / d);
    lemma_even_length(sh * n / d);
}

pub open spec fn distinct_sizes(cs: Seq<CandidateView>) -> bool {
    forall|i: int, j: int| 0 <= i < j < cs.len() ==> !(cs[i].rendered_width == cs[j].rendered_width
        && cs[i].rendered_height == cs[j].rendered_height)
}

pub open spec fn no_larger_than(cs: Seq<CandidateView>, sw: u32, sh: u32) -> bool {
    forall|i: int| 0 <= i < cs.len() ==> cs[i].rendered_width <= sw && cs[i].rendered_height <= sh
}

proof fn lemma_with_preset(cs: Seq<CandidateView>, sw: u32, sh: u32, lw: u32, lh: u32, name: Seq<char>)
    requires
        distinct_sizes(cs),
        sw >= 2,
        sh >= 2,
        no_larger_than(cs, sw, sh),
        cs.len() > 0,
    ensures
        distinct_sizes(with_preset(cs, sw, sh, lw, lh, name)),
        no_larger_than(with_preset(cs, sw, sh, lw, lh, name), sw, sh),
        with_preset(cs, sw, sh, lw, lh, name)[0] == cs[0],
{
    let (bw, bh) = oriented(sw, sh, lw, lh);
    lemma_scaled_is_even_and_no_larger(sw, sh, bw, bh);
    let r = with_preset(cs, sw, sh, lw, lh, name);
    assert(r[0] == cs[0]);
}

/// Automatic resolution offers the source size first, never offers a size
/// larger than the source, and never offers the same rendered size twice.
pub proof fn lemma_auto_candidates(sw: u32, sh: u32)
    requires
        sw >= 2,
        sh >= 2,
    ensures
        auto_candidates(sw, sh)[0] == (CandidateView {
            width: None,
            height: None,
            name: "original"@,
            rendered_width: sw,
            rendered_height: sh,
        }),
        distinct_sizes(auto_candidates(sw, sh)),
        no_larger_than(auto_candidates(sw, sh), sw, sh),
{
    let c0 = seq![CandidateView { width: None, height: None, name: "original"@, rendered_width: sw, rendered_height: sh }];
    let c1 = with_preset(c0, sw, sh, 2560, 1440, "1440p"@);
    let c2 = with_preset(c1, sw, sh, 1920, 1080, "1080p"@);
    let c3 = with_preset(c2, sw, sh, 1280, 720, "720p"@);
    lemma_with_preset(c0, sw, sh, 2560, 1440, "1440p"@);
    lemma_with_preset(c1, sw, sh, 1920, 1080, "1080p"@);
    lemma_with_preset(c2, sw, sh, 1280, 720, "720p"@);
    lemma_with_preset(c3, sw, sh, 960, 540, "540p"@);
}

/// Whatever the resolution mode, no candidate renders larger than a source of
/// at least 2x2.
pub proof fn lemma_candidates_never_upscale(
    res_mode: Seq<char>,
    res_w: Option<u32>,
    res_h: Option<u32>,
    resolution_name: Seq<char>,
    sw: u32,
    sh: u32,
)
    requires
        sw >= 2,
        sh >= 2,
    ensures
        no_larger_than(resolution_choices(res_mode, res_w, res_h, resolution_name, sw, sh), sw, sh),
{
    if res_mode == "auto"@ {
        lemma_auto_candidates(sw, sh);
    } else if res_mode == "scale"@ {
        let lw = match res_w { Some(w) => w, None => 1920u32 };
        let lh = match res_h { Some(h) => h, None => 1080u32 };
        let (bw, bh) = oriented(sw, sh, lw, lh);
        lemma_scaled_is_even_and_no_larger(sw, sh, bw, bh);
    }
}

/// `c` is the entry for a landscape preset `lw`x`lh` named `name`: its box is
/// the preset, turned on its side (`lh`x`lw`) for a portrait source, and its
/// size is the source fitted into that box.
pub open spec fn preset_entry(c: CandidateView, sw: u32, sh: u32, lw: u32, lh: u32, name: Seq<char>) -> bool {
    let bw = if sh > sw { lh } else { lw };
    let bh = if sh > sw { lw } else { lh };
    &&& c.width == Some(bw)
    &&& c.height == Some(bh)
    &&& c.name == name
    &&& (c.rendered_width, c.rendered_height) == scaled(sw, sh, bw, bh)
}

pub open spec fn auto_preset_entry(c: CandidateView, sw: u32, sh: u32) -> bool {
    ||| preset_entry(c, sw, sh, 2560, 1440, "1440p"@)
    ||| preset_entry(c, sw, sh, 1920, 1080, "1080p"@)
    ||| preset_entry(c, sw, sh, 1280, 720, "720p"@)
    ||| preset_entry(c, sw, sh, 960, 540, "540p"@)
}

proof fn lemma_with_preset_entries(cs: Seq<CandidateView>, sw: u32, sh: u32, lw: u32, lh: u32, name: Seq<char>)
    requires
        cs.len() >= 1,
        forall|i: int| 1 <= i < cs.len() ==> auto_preset_entry(#[trigger] cs[i], sw, sh),
        (lw == 2560 && lh == 1440 && name == "1440p"@) || (lw == 1920 && lh == 1080 && name == "1080p"@) || (lw == 1280
            && lh == 720 && name == "720p"@) || (lw == 960 && lh == 540 && name == "540p"@),
    ensures
        with_preset(cs, sw, sh, lw, lh, name).len() >= 1,
        with_preset(cs, sw, sh, lw, lh, name)[0] == cs[0],
        forall|i: int| 1 <= i < with_preset(cs, sw, sh, lw, lh, name).len() ==> auto_preset_entry(
            #[trigger] with_preset(cs, sw, sh, lw, lh, name)[i],
            sw,
            sh,
        ),
        forall|w: u32, h: u32| has_rendered_size(cs, w, h) ==> has_rendered_size(with_preset(cs, sw, sh, lw, lh, name), w, h),
        has_rendered_size(
            with_preset(cs, sw, sh, lw, lh, name),
            scaled(sw, sh, oriented(sw, sh, lw, lh).0, oriented(sw, sh, lw, lh).1).0,
            scaled(sw, sh, oriented(sw, sh, lw, lh).0, oriented(sw, sh, lw, lh).1).1,
        ),
{
    let r = with_preset(cs, sw, sh, lw, lh, name);
    let (bw, bh) = oriented(sw, sh, lw, lh);
    let (rw, rh) = scaled(sw, sh, bw, bh);
    if !has_rendered_size(cs, rw, rh) {
        assert(r[r.len() - 1].rendered_width == rw && r[r.len() - 1].rendered_height == rh);
        assert forall|i: int| 1 <= i < r.len() implies auto_preset_entry(#[trigger] r[i], sw, sh) by {
            if i < cs.len() {
                assert(r[i] == cs[i]);
            }
        }
        assert forall|w: u32, h: u32| has_rendered_size(cs, w, h) implies has_rendered_size(r, w, h) by {
            let k = choose|k: int| 0 <= k < cs.len() && cs[k].rendered_width == w && cs[k].rendered_height == h;
            assert(r[k] == cs[k]);
        }
    }
}

/// Automatic resolution: after the source size, every entry is one of the
/// 1440p, 1080p, 720p and 540p presets, with its box turned portrait for a
/// portrait source and the source fitted into that box; and every preset's
/// fitted size is offered (by that preset or an earlier entry of that size).
pub proof fn lemma_auto_presets(sw: u32, sh: u32)
    ensures
        auto_candidates(sw, sh).len() >= 1,
        forall|i: int| 1 <= i < auto_candidates(sw, sh).len() ==> auto_preset_entry(#[trigger] auto_candidates(sw, sh)[i], sw, sh),
        sh > sw ==> forall|i: int| 1 <= i < auto_candidates(sw, sh).len() ==> {
            let c = #[trigger] auto_candidates(sw, sh)[i];
            c.width matches Some(w) && c.height matches Some(h) && w < h
        },
        has_rendered_size(auto_candidates(sw, sh), scaled(sw, sh, oriented(sw, sh, 2560, 1440).0, oriented(sw, sh, 2560, 1440).1).0,
            scaled(sw, sh, oriented(sw, sh, 2560, 1440).0, oriented(sw, sh, 2560, 1440).1).1),
        has_rendered_size(auto_candidates(sw, sh), scaled(sw, sh, oriented(sw, sh, 1920, 1080).0, oriented(sw, sh, 1920, 1080).1).0,
            scaled(sw, sh, oriented(sw, sh, 1920, 1080).0, oriented(sw, sh, 1920, 1080).1).1),
        has_rendered_size(auto_candidates(sw, sh), scaled(sw, sh, oriented(sw, sh, 1280, 720).0, oriented(sw, sh, 1280, 720).1).0,
            scaled(sw, sh, oriented(sw, sh, 1280, 720).0, oriented(sw, sh, 1280, 720).1).1),
        has_rendered_size(auto_candidates(sw, sh), scaled(sw, sh, oriented(sw, sh, 960, 540).0, oriented(sw, sh, 960, 540).1).0,
            scaled(sw, sh, oriented(sw, sh, 960, 540).0, oriented(sw, sh, 960, 540).1).1),
{
    let c0 = seq![CandidateView { width: None, height: None, name: "original"@, rendered_width: sw, rendered_height: sh }];
    let c1 = with_preset(c0, sw, sh, 2560, 1440, "1440p"@);
    let c2 = with_preset(c1, sw, sh, 1920, 1080, "1080p"@);
    let c3 = with_preset(c2, sw, sh, 1280, 720, "720p"@);
    lemma_with_preset_entries(c0, sw, sh, 2560, 1440, "1440p"@);
    lemma_with_preset_entries(c1, sw, sh, 1920, 1080, "1080p"@);
    lemma_with_preset_entries(c2, sw, sh, 1280, 720, "720p"@);
    lemma_with_preset_entries(c3, sw, sh, 960, 540, "540p"@);
}

/// Scale mode offers one entry: the requested box (1920x1080 when a side is
/// not given), turned portrait for a portrait source, with the given name and
/// the source fitted into it. Any other mode but `auto` offers the source size.
pub proof fn lemma_manual_resolutions(
    res_mode: Seq<char>,
    res_w: Option<u32>,
    res_h: Option<u32>,
    resolution_name: Seq<char>,
    sw: u32,
    sh: u32,
)
    ensures
        res_mode == "scale"@ ==> ({
            let lw = match res_w { Some(w) => w, None => 1920u32 };
            let lh = match res_h { Some(h) => h, None => 1080u32 };
            let cs = resolution_choices(res_mode, res_w, res_h, resolution_name, sw, sh);
            cs.len() == 1 && preset_entry(cs[0], sw, sh, lw, lh, resolution_name)
        }),
        res_mode != "scale"@ && res_mode != "auto"@ ==> resolution_choices(res_mode, res_w, res_h, resolution_name, sw, sh) == seq![
            CandidateView { width: None, height: None, name: resolution_name, rendered_width: sw, rendered_height: sh },
        ],
{
    reveal_strlit("scale");
    reveal_strlit("auto");
    assert("scale"@.len() == 5 && "auto"@.len() == 4);
}

/// An unrotated frame is shown as it is, a quarter turn swaps its sides, and a
/// rotation that is not a whole number of quarter turns changes nothing.
pub proof fn lemma_rotation_basics(width: u32, height: u32, rotation: int)
    ensures
        displayed(width, height, 0) == (width, height),
        displayed(width, height, 90) == (height, width),
        displayed(width, height, -90) == (height, width),
        rotation % 90 != 0 ==> displayed(width, height, rotation) == (width, height),
{
    if rotation % 90 != 0 && rotation % 180 == 90 {
        vstd::arithmetic::div_mod::lemma_fundamental_div_mod(rotation, 180);
        vstd::arithmetic::div_mod::lemma_fundamental_div_mod_converse(rotation, 90, 2 * (rotation / 180) + 1, 0);
    }
}

/// Fitting keeps a source that fits the box (rounded down to even sizes of at
/// least 2); otherwise the side that binds becomes the box's side and the
/// other is scaled by the same ratio, each rounded down to even (at least 2).
pub proof fn lemma_scaled_sizes(sw: u32, sh: u32, bw: u32, bh: u32)
    requires
        sw > 0,
        sh > 0,
    ensures
        bw >= sw && bh >= sh ==> scaled(sw, sh, bw, bh) == (
            ((if sw < 2 { 2 } else { sw as int }) / 2 * 2) as u32,
            ((if sh < 2 { 2 } else { sh as int }) / 2 * 2) as u32,
        ),
        bw < sw && bw * sh <= bh * sw ==> scaled(sw, sh, bw, bh) == (
            ((if bw < 2 { 2 } else { bw as int }) / 2 * 2) as u32,
            ((if sh * bw / (sw as int) < 2 { 2 } else { sh * bw / (sw as int) }) / 2 * 2) as u32,
        ),
        bh < sh && bh * sw < bw * sh ==> scaled(sw, sh, bw, bh) == (
            ((if sw * bh / (sh as int) < 2 { 2 } else { sw * bh / (sh as int) }) / 2 * 2) as u32,
            ((if bh < 2 { 2 } else { bh as int }) / 2 * 2) as u32,
        ),
{
    assert(sw * bw == bw * sw && sh * bh == bh * sh && sh * bw == bw * sh && sw * bh == bh * sw) by (nonlinear_arith);
    vstd::arithmetic::div_mod::lemma_fundamental_div_mod_converse(sw * bw, sw as int, bw as int, 0);
    vstd::arithmetic::div_mod::lemma_fundamental_div_mod_converse(sh * bh, sh as int, bh as int, 0);
    vstd::arithmetic::div_mod::lemma_fundamental_div_mod_converse(sw as int, 1, sw as int, 0);
    vstd::arithmetic::div_mod::lemma_fundamental_div_mod_converse(sh as int, 1, sh as int, 0);
    assert(sw * 1 == sw && sh * 1 == sh);
    if bw < sw && bh * sw < bw * sh {
        assert(bh < sh) by (nonlinear_arith)
            requires bh * sw < bw * sh, bw < sw, sw > 0, bh >= 0;
    }
}

/// A resolution box given in landscape form is turned on its side exactly for
/// a portrait source (taller than wide).
pub proof fn lemma_oriented_box(sw: u32, sh: u32, lw: u32, lh: u32)
    ensures
        sh > sw ==> oriented(sw, sh, lw, lh) == (lh, lw),
        sh <= sw ==> oriented(sw, sh, lw, lh) == (lw, lh),
{
}

} // verus!
