//! Bitrate zones for x264/x265: runs of output frames with a relative bitrate
//! weight, merged where neighbours carry the same weight, and written in the
//! encoders' `zones=` syntax.
use vstd::prelude::*;
use crate::text::{all_digits, append_str, decimal, digit_char, digits_value, join, lemma_decimal_reads_back, push_decimal, string_of};

verus! {

/// Frames `start..=end` encoded at `weight / 20` of the average bitrate.
#[derive(Clone, Copy)]
pub struct Zone {
    pub start: u64,
    pub end: u64,
    pub weight: u64,
}

pub open spec fn well_formed(zs: Seq<Zone>) -> bool {
    forall|i: int| 0 <= i < zs.len() ==> #[trigger] zs[i].start <= zs[i].end
}

/// One zone added after `zs`: it extends the last zone when it has the same
/// weight and starts on the frame right after it, and is appended otherwise.
pub open spec fn merge_step(zs: Seq<Zone>, z: Zone) -> Seq<Zone> {
    if zs.len() > 0 && zs.last().weight == z.weight && zs.last().end + 1 == z.start {
        zs.update(zs.len() - 1, Zone { start: zs.last().start, end: z.end, weight: z.weight })
    } else {
        zs.push(z)
    }
}

pub open spec fn merged(zs: Seq<Zone>) -> Seq<Zone>
    decreases zs.len(),
{
    if zs.len() == 0 {
        seq![]
    } else {
        merge_step(merged(zs.drop_last()), zs.last())
    }
}

/// Frame `f` lies in a zone of weight `w`.
pub open spec fn covers(zs: Seq<Zone>, f: int, w: u64) -> bool {
    exists|i: int| 0 <= i < zs.len() && zs[i].start <= f <= zs[i].end && zs[i].weight == w
}

/// A weight in twentieths written with two decimals (18 is `0.90`).
pub open spec fn weight_text(t: nat) -> Seq<char> {
    let h = 5 * t;
    decimal(h / 100) + seq!['.', digit_char((h % 100) / 10), digit_char(h % 10)]
}

pub open spec fn zone_text(z: Zone) -> Seq<char> {
    decimal(z.start as nat) + ","@ + decimal(z.end as nat) + ",b="@ + weight_text(z.weight as nat)
}

/// Zones in the `start,end,b=weight/...` syntax.
pub open spec fn zones_text(zs: Seq<Zone>) -> Seq<char> {
    join(zs.map_values(|z: Zone| zone_text(z)), "/"@)
}

/// Merges neighbouring zones of equal weight (see `merge_step`).
pub fn merge_zones(zones: &[Zone]) -> (r: Vec<Zone>)
    ensures
        r@ == merged(zones@),
{
    let mut out: Vec<Zone> = Vec::new();
    let mut i: usize = 0;
    while i < zones.len()
        invariant
            i <= zones.len(),
            out@ == merged(zones@.take(i as int)),
        decreases zones.len() - i,
    {
        let z = zones[i];
        proof {
            assert(zones@.take(i + 1).drop_last() =~= zones@.take(i as int));
        }
        let n = out.len();
        if n > 0 && out[n - 1].weight == z.weight && out[n - 1].end < u64::MAX && out[n - 1].end + 1 == z.start {
            let last = out[n - 1];
            out.set(n - 1, Zone { start: last.start, end: z.end, weight: z.weight });
        } else {
            out.push(z);
        }
        i += 1;
    }
    proof {
        assert(zones@.take(zones.len() as int) =~= zones@);
    }
    out
}

fn push_weight(out: &mut Vec<char>, t: u64)
    ensures
        final(out)@ == old(out)@ + weight_text(t as nat),
{
    let h: u128 = 5 * (t as u128);
    let whole = h / 100;
    let frac = h % 100;
    let tens = ((frac / 10) as u8 + 48) as char;
    let ones = ((frac % 10) as u8 + 48) as char;
    proof {
        assert(h % 10 == frac % 10) by (nonlinear_arith)
            requires frac == h % 100, h >= 0;
        assert(tens == digit_char((h % 100 / 10) as nat));
        assert(ones == digit_char((h % 10) as nat));
    }
    let ghost start = out@;
    push_decimal(out, whole as u64);
    out.push('.');
    out.push(tens);
    out.push(ones);
    proof {
        assert(out@ =~= start + weight_text(t as nat));
    }
}

/// Writes zones in the encoders' syntax (see `zones_text`).
pub fn format_zones(zones: &[Zone]) -> (r: String)
    ensures
        r@ == zones_text(zones@),
{
    let mut out: Vec<char> = Vec::new();
    let mut i: usize = 0;
    while i < zones.len()
        invariant
            i <= zones.len(),
            out@ == zones_text(zones@.take(i as int)),
        decreases zones.len() - i,
    {
        let ghost texts = zones@.take(i + 1).map_values(|z: Zone| zone_text(z));
        proof {
            assert(texts.drop_last() =~= zones@.take(i as int).map_values(|z: Zone| zone_text(z)));
            assert(texts.last() == zone_text(zones@[i as int]));
        }
        if i > 0 {
            append_str(&mut out, "/");
        }
        let z = zones[i];
        push_decimal(&mut out, z.start);
        append_str(&mut out, ",");
        push_decimal(&mut out, z.end);
        append_str(&mut out, ",b=");
        push_weight(&mut out, z.weight);
        proof {
            if i > 0 {
                assert(out@ =~= join(texts.drop_last(), "/"@) + "/"@ + texts.last());
            } else {
                assert(out@ =~= texts.last());
            }
        }
        i += 1;
    }
    proof {
        assert(zones@.take(zones.len() as int) =~= zones@);
    }
    string_of(out.as_slice())
}

/// The `zones=` value for per-window frame ranges and weights: neighbouring
/// windows of equal weight merged, then written out.
pub fn zones_argument(zones: &[Zone]) -> (r: String)
    ensures
        r@ == zones_text(merged(zones@)),
{
    let m = merge_zones(zones);
    format_zones(m.as_slice())
}

pub open spec fn in_zone(z: Zone, f: int, w: u64) -> bool {
    z.start <= f <= z.end && z.weight == w
}

proof fn lemma_covers_push(s: Seq<Zone>, z: Zone, f: int, w: u64)
    ensures
        covers(s.push(z), f, w) <==> covers(s, f, w) || in_zone(z, f, w),
{
    let t = s.push(z);
    if covers(t, f, w) {
        let i = choose|i: int| 0 <= i < t.len() && t[i].start <= f <= t[i].end && t[i].weight == w;
        if i < s.len() {
            assert(s[i] == t[i]);
        }
    }
    if covers(s, f, w) {
        let i = choose|i: int| 0 <= i < s.len() && s[i].start <= f <= s[i].end && s[i].weight == w;
        assert(t[i] == s[i]);
    }
    if in_zone(z, f, w) {
        assert(t[s.len() as int] == z);
    }
}

proof fn lemma_covers_split_last(s: Seq<Zone>, f: int, w: u64)
    requires
        s.len() > 0,
    ensures
        covers(s, f, w) <==> covers(s.drop_last(), f, w) || in_zone(s.last(), f, w),
{
    assert(s =~= s.drop_last().push(s.last()));
    lemma_covers_push(s.drop_last(), s.last(), f, w);
}

/// Merging neighbouring zones keeps every zone a non-empty frame range and
/// changes neither which frames are covered nor the weight they are covered
/// with: the `zones=` value gives each output frame the weight of its window.
pub proof fn lemma_merge_preserves_coverage(zs: Seq<Zone>)
    requires
        well_formed(zs),
    ensures
        well_formed(merged(zs)),
        forall|f: int, w: u64| covers(merged(zs), f, w) <==> covers(zs, f, w),
    decreases zs.len(),
{
    if zs.len() > 0 {
        let p = zs.drop_last();
        let z = zs.last();
        assert(well_formed(p)) by {
            assert forall|i: int| 0 <= i < p.len() implies #[trigger] p[i].start <= p[i].end by {
                assert(p[i] == zs[i]);
            }
        }
        lemma_merge_preserves_coverage(p);
        let m = merged(p);
        assert(zs =~= p.push(z));
        assert(z.start <= z.end) by {
            assert(zs[zs.len() - 1] == z);
        }
        if m.len() > 0 && m.last().weight == z.weight && m.last().end + 1 == z.start {
            let l = m.last();
            let nz = Zone { start: l.start, end: z.end, weight: z.weight };
            let r = m.update(m.len() - 1, nz);
            assert(l.start <= l.end) by {
                assert(m[m.len() - 1] == l);
            }
            assert(r.drop_last() =~= m.drop_last());
            assert(r.last() == nz);
            assert(well_formed(r)) by {
                assert forall|i: int| 0 <= i < r.len() implies #[trigger] r[i].start <= r[i].end by {
                    if i < r.len() - 1 {
                        assert(r[i] == m[i]);
                    }
                }
            }
            assert forall|f: int, w: u64| covers(r, f, w) <==> covers(zs, f, w) by {
                lemma_covers_split_last(r, f, w);
                lemma_covers_split_last(m, f, w);
                lemma_covers_push(p, z, f, w);
            }
        } else {
            assert(well_formed(m.push(z))) by {
                assert forall|i: int| 0 <= i < m.push(z).len() implies #[trigger] m.push(z)[i].start <= m.push(z)[i].end by {
                    if i < m.len() {
                        assert(m.push(z)[i] == m[i]);
                    }
                }
            }
            assert forall|f: int, w: u64| covers(m.push(z), f, w) <==> covers(zs, f, w) by {
                lemma_covers_push(m, z, f, w);
                lemma_covers_push(p, z, f, w);
            }
        }
    }
}

/// Merging leaves no neighbours that could still be merged: no zone is
/// directly followed by one of the same weight that starts on the next frame.
pub proof fn lemma_merge_is_complete(zs: Seq<Zone>)
    ensures
        forall|i: int| 0 <= i < merged(zs).len() - 1 ==> !(#[trigger] merged(zs)[i].weight == merged(zs)[i + 1].weight
            && merged(zs)[i].end + 1 == merged(zs)[i + 1].start),
        merged(zs).len() <= zs.len(),
    decreases zs.len(),
{
    if zs.len() > 0 {
        let p = zs.drop_last();
        let z = zs.last();
        lemma_merge_is_complete(p);
        let m = merged(p);
        let r = merged(zs);
        if m.len() > 0 && m.last().weight == z.weight && m.last().end + 1 == z.start {
            assert forall|i: int| 0 <= i < r.len() - 1 implies !(#[trigger] r[i].weight == r[i + 1].weight && r[i].end + 1
                == r[i + 1].start) by {
                assert(r[i] == m[i]);
                if i + 1 < r.len() - 1 {
                    assert(r[i + 1] == m[i + 1]);
                } else {
                    assert(r[i + 1].start == m[i + 1].start && r[i + 1].weight == m[i + 1].weight);
                }
            }
        } else {
            assert forall|i: int| 0 <= i < r.len() - 1 implies !(#[trigger] r[i].weight == r[i + 1].weight && r[i].end + 1
                == r[i + 1].start) by {
                assert(r[i] == m.push(z)[i]);
                if i + 1 < m.len() {
                    assert(r[i + 1] == m[i + 1]);
                    assert(r[i] == m[i]);
                } else {
                    assert(r[i] == m.last());
                    assert(r[i + 1] == z);
                }
            }
        }
    }
}

/// A weight in twentieths is written as a whole part, a `.` and exactly two
/// more digits, which together read as the weight in hundredths (`5 * t`).
pub proof fn lemma_weight_text_reads_back(t: nat)
    ensures
        ({
            let w = weight_text(t);
            let k = w.len();
            &&& k >= 4
            &&& w[k - 3] == '.'
            &&& all_digits(w.take(k - 3))
            &&& all_digits(w.skip(k - 2))
            &&& digits_value(w.take(k - 3)) * 100 + digits_value(w.skip(k - 2)) == 5 * t
        }),
{
    let h = 5 * t;
    let w = weight_text(t);
    let k = w.len();
    lemma_decimal_reads_back(h / 100);
    let d = decimal(h / 100);
    let d1 = digit_char((h % 100) / 10);
    let d2 = digit_char(h % 10);
    assert(w.take(k - 3) =~= d);
    assert(w.skip(k - 2) =~= seq![d1, d2]);
    assert((d1 as u32) == (h % 100) / 10 + 48);
    assert((d2 as u32) == h % 10 + 48);
    let two = seq![d1, d2];
    assert(two.drop_last() =~= seq![d1]);
    assert(seq![d1].drop_last() =~= Seq::<char>::empty());
    assert(digits_value(Seq::<char>::empty()) == 0);
    assert(digits_value(seq![d1]) == (h % 100) / 10);
    assert(two.last() == d2);
    assert(digits_value(two) == digits_value(seq![d1]) * 10 + h % 10);
    assert(((h % 100) / 10) * 10 + h % 10 == h % 100) by (nonlinear_arith);
    assert((h / 100) * 100 + h % 100 == h) by (nonlinear_arith);
}

/// Zones are written one after another, separated by `/`, each as its first
/// frame, a comma, its last frame, `,b=` and its weight.
pub proof fn lemma_zones_text_layout(zs: Seq<Zone>, z: Zone)
    ensures
        zones_text(seq![z]) == decimal(z.start as nat) + ","@ + decimal(z.end as nat) + ",b="@ + weight_text(z.weight as nat),
        zs.len() > 0 ==> zones_text(zs.push(z)) == zones_text(zs) + "/"@ + decimal(z.start as nat) + ","@ + decimal(
            z.end as nat,
        ) + ",b="@ + weight_text(z.weight as nat),
        zones_text(Seq::<Zone>::empty()) == Seq::<char>::empty(),
{
    let f = |z: Zone| zone_text(z);
    assert(seq![z].map_values(f) =~= seq![zone_text(z)]);
    assert(Seq::<Zone>::empty().map_values(f) =~= Seq::<Seq<char>>::empty());
    if zs.len() > 0 {
        assert(zs.push(z).map_values(f).drop_last() =~= zs.map_values(f));
        assert(zs.push(z).map_values(f).len() >= 2);
    }
}

} // verus!
