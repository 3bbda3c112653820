//! Naming the graphics adapters behind a hardware encoder family.
use vstd::prelude::*;
use crate::args::arg_views;
use crate::text::{
    chars_eq, chars_of, contains, contains_chars, join, join_chars, lines,
    lines_of, lower, lower_chars, string_of, trim, trim_chars, views, words, words_of,
};

verus! {

/// Vendor and marketing words left out of a compact adapter name (compared in
/// ASCII lower case).
pub open spec fn is_brand_word(w: Seq<char>) -> bool {
    let l = lower(w);
    ||| l == "amd"@
    ||| l == "radeon"@
    ||| l == "nvidia"@
    ||| l == "geforce"@
    ||| l == "intel"@
    ||| l == "intel(r)"@
    ||| l == "graphics"@
    ||| l == "(tm)"@
    ||| l == "arc"@
    ||| l == "arc(tm)"@
}

pub open spec fn kept_words(ws: Seq<Seq<char>>) -> Seq<Seq<char>>
    decreases ws.len(),
{
    if ws.len() == 0 {
        seq![]
    } else {
        (if is_brand_word(ws[0]) { seq![] } else { seq![ws[0]] }) + kept_words(ws.drop_first())
    }
}

/// An adapter name without its brand words, or the whole name when nothing
/// else is left.
pub open spec fn compact_name(name: Seq<char>) -> Seq<char> {
    let c = join(kept_words(words(name)), " "@);
    if c.len() == 0 { name } else { c }
}

fn is_brand(w: &[char]) -> (r: bool)
    ensures
        r == is_brand_word(w@),
{
    let l = lower_chars(w);
    let s = l.as_slice();
    chars_eq(s, chars_of("amd").as_slice()) || chars_eq(s, chars_of("radeon").as_slice())
        || chars_eq(s, chars_of("nvidia").as_slice()) || chars_eq(s, chars_of("geforce").as_slice())
        || chars_eq(s, chars_of("intel").as_slice()) || chars_eq(s, chars_of("intel(r)").as_slice())
        || chars_eq(s, chars_of("graphics").as_slice()) || chars_eq(s, chars_of("(tm)").as_slice())
        || chars_eq(s, chars_of("arc").as_slice()) || chars_eq(s, chars_of("arc(tm)").as_slice())
}

fn compact_chars(name: &[char]) -> (r: Vec<char>)
    ensures
        r@ == compact_name(name@),
{
    let ws = words_of(name);
    let mut kept: Vec<Vec<char>> = Vec::new();
    let mut i: usize = 0;
    proof {
        assert(views(ws@).skip(0) =~= views(ws@));
    }
    while i < ws.len()
        invariant
            i <= ws.len(),
            views(ws@) == words(name@),
            kept_words(words(name@)) == views(kept@) + kept_words(views(ws@).skip(i as int)),
        decreases ws.len() - i,
    {
        let ghost rest = views(ws@).skip(i as int);
        proof {
            assert(rest[0] == ws@[i as int]@);
            assert(rest.drop_first() =~= views(ws@).skip(i + 1));
        }
        if !is_brand(ws[i].as_slice()) {
            let ghost before = kept@;
            let w = crate::text::copy_range(ws[i].as_slice(), 0, ws[i].len());
            proof {
                assert(w@ =~= ws@[i as int]@);
            }
            kept.push(w);
            proof {
                assert(views(kept@) =~= views(before).push(ws@[i as int]@));
                assert(views(before) + (seq![ws@[i as int]@] + kept_words(views(ws@).skip(i + 1)))
                    =~= views(kept@) + kept_words(views(ws@).skip(i + 1)));
            }
        } else {
            proof {
                assert(Seq::<Seq<char>>::empty() + kept_words(views(ws@).skip(i + 1)) =~= kept_words(views(ws@).skip(i + 1)));
            }
        }
        i += 1;
    }
    proof {
        assert(views(ws@).skip(i as int) =~= Seq::<Seq<char>>::empty());
        assert(views(kept@) + Seq::<Seq<char>>::empty() =~= views(kept@));
    }
    let c = join_chars(&kept, chars_of(" ").as_slice());
    if c.len() == 0 {
        crate::text::copy_range(name, 0, name.len())
    } else {
        c
    }
}

/// A shorter adapter name (see `compact_name`).
pub fn compact_gpu_name(name: &str) -> (r: String)
    ensures
        r@ == compact_name(name@),
{
    let n = chars_of(name);
    let c = compact_chars(n.as_slice());
    proof {
        assert(n@.subrange(0, n@.len() as int) =~= n@);
    }
    string_of(c.as_slice())
}

/// Whether an adapter name belongs to an encoder family: NVIDIA names for
/// `nvenc`, AMD names for `amf`, Intel names for `qsv` (case-insensitive).
pub open spec fn in_family(name: Seq<char>, family: Seq<char>) -> bool {
    let n = lower(name);
    if family == "nvenc"@ {
        contains(n, "nvidia"@) || contains(n, "geforce"@) || contains(n, "quadro"@) || contains(n, "tesla"@)
    } else if family == "amf"@ {
        contains(n, "amd"@) || contains(n, "radeon"@)
    } else if family == "qsv"@ {
        contains(n, "intel"@)
    } else {
        false
    }
}

pub open spec fn family_members(gpus: Seq<Seq<char>>, family: Seq<char>) -> Seq<Seq<char>>
    decreases gpus.len(),
{
    if gpus.len() == 0 {
        seq![]
    } else {
        (if in_family(gpus[0], family) { seq![gpus[0]] } else { seq![] }) + family_members(gpus.drop_first(), family)
    }
}

/// The adapter shown beside an encoder: `CPU` for software encoding, the
/// compact names of the family's adapters joined by ` + `, or
/// `Compatible GPU` when no adapter of the family is known.
pub open spec fn gpu_label(gpus: Seq<Seq<char>>, family: Seq<char>) -> Seq<char> {
    let members = family_members(gpus, family);
    if family == "software"@ {
        "CPU"@
    } else if members.len() == 0 {
        "Compatible GPU"@
    } else {
        join(members.map_values(|m: Seq<char>| compact_name(m)), " + "@)
    }
}

fn in_family_exec(name: &[char], family: &[char]) -> (r: bool)
    ensures
        r == in_family(name@, family@),
{
    let n = lower_chars(name);
    let s = n.as_slice();
    if chars_eq(family, chars_of("nvenc").as_slice()) {
        contains_chars(s, chars_of("nvidia").as_slice()) || contains_chars(s, chars_of("geforce").as_slice())
            || contains_chars(s, chars_of("quadro").as_slice()) || contains_chars(s, chars_of("tesla").as_slice())
    } else if chars_eq(family, chars_of("amf").as_slice()) {
        contains_chars(s, chars_of("amd").as_slice()) || contains_chars(s, chars_of("radeon").as_slice())
    } else if chars_eq(family, chars_of("qsv").as_slice()) {
        contains_chars(s, chars_of("intel").as_slice())
    } else {
        false
    }
}

/// The adapter label of an encoder family (see `gpu_label`).
pub fn gpu_for_family(gpus: &[String], family: &str) -> (r: String)
    ensures
        r@ == gpu_label(arg_views(gpus@), family@),
{
    let f = chars_of(family);
    let mut names: Vec<Vec<char>> = Vec::new();
    let mut i: usize = 0;
    proof {
        assert(arg_views(gpus@).skip(0) =~= arg_views(gpus@));
    }
    while i < gpus.len()
        invariant
            i <= gpus.len(),
            f@ == family@,
            family_members(arg_views(gpus@), family@) == views(names@) + family_members(arg_views(gpus@).skip(i as int), family@),
        decreases gpus.len() - i,
    {
        let ghost rest = arg_views(gpus@).skip(i as int);
        let g = chars_of(gpus[i].as_str());
        proof {
            assert(rest[0] == g@);
            assert(rest.drop_first() =~= arg_views(gpus@).skip(i + 1));
        }
        if in_family_exec(g.as_slice(), f.as_slice()) {
            let ghost before = names@;
            names.push(g);
            proof {
                assert(views(names@) =~= views(before).push(rest[0]));
                assert(views(before) + (seq![rest[0]] + family_members(rest.drop_first(), family@))
                    =~= views(names@) + family_members(rest.drop_first(), family@));
            }
        } else {
            proof {
                assert(Seq::<Seq<char>>::empty() + family_members(rest.drop_first(), family@) =~= family_members(rest.drop_first(), family@));
            }
        }
        i += 1;
    }
    proof {
        assert(arg_views(gpus@).skip(i as int) =~= Seq::<Seq<char>>::empty());
        assert(views(names@) + Seq::<Seq<char>>::empty() =~= views(names@));
    }
    if chars_eq(f.as_slice(), chars_of("software").as_slice()) {
        return String::from_str("CPU");
    }
    if names.len() == 0 {
        return String::from_str("Compatible GPU");
    }
    let mut compacted: Vec<Vec<char>> = Vec::new();
    let mut k: usize = 0;
    while k < names.len()
        invariant
            k <= names.len(),
            views(compacted@) =~= views(names@).take(k as int).map_values(|m: Seq<char>| compact_name(m)),
        decreases names.len() - k,
    {
        let c = compact_chars(names[k].as_slice());
        let ghost before = compacted@;
        compacted.push(c);
        proof {
            assert(views(compacted@) =~= views(before).push(compact_name(names@[k as int]@)));
            assert(views(names@).take(k + 1).map_values(|m: Seq<char>| compact_name(m)) =~= views(names@).take(
                k as int,
            ).map_values(|m: Seq<char>| compact_name(m)).push(compact_name(names@[k as int]@)));
        }
        k += 1;
    }
    proof {
        assert(views(names@).take(names.len() as int) =~= views(names@));
    }
    let joined = join_chars(&compacted, chars_of(" + ").as_slice());
    string_of(joined.as_slice())
}

/// Adapter names listed one per line: each line trimmed, blank lines dropped.
pub open spec fn listed_names(ls: Seq<Seq<char>>) -> Seq<Seq<char>>
    decreases ls.len(),
{
    if ls.len() == 0 {
        seq![]
    } else {
        (if trim(ls[0]).len() > 0 { seq![trim(ls[0])] } else { seq![] }) + listed_names(ls.drop_first())
    }
}

/// The adapter names in the output of a listing command (see `listed_names`).
pub fn gpu_names(output: &str) -> (r: Vec<String>)
    ensures
        arg_views(r@) == listed_names(lines(output@)),
{
    let ls = lines_of(chars_of(output).as_slice());
    let mut out: Vec<String> = Vec::new();
    let mut i: usize = 0;
    proof {
        assert(views(ls@).skip(0) =~= views(ls@));
    }
    while i < ls.len()
        invariant
            i <= ls.len(),
            views(ls@) == lines(output@),
            listed_names(lines(output@)) == arg_views(out@) + listed_names(views(ls@).skip(i as int)),
        decreases ls.len() - i,
    {
        let ghost rest = views(ls@).skip(i as int);
        proof {
            assert(rest[0] == ls@[i as int]@);
            assert(rest.drop_first() =~= views(ls@).skip(i + 1));
        }
        let t = trim_chars(ls[i].as_slice());
        if t.len() > 0 {
            let ghost before = out@;
            let s = string_of(t.as_slice());
            out.push(s);
            proof {
                assert(arg_views(out@) =~= arg_views(before).push(t@));
                assert(arg_views(before) + (seq![t@] + listed_names(rest.drop_first()))
                    =~= arg_views(out@) + listed_names(rest.drop_first()));
            }
        } else {
            proof {
                assert(Seq::<Seq<char>>::empty() + listed_names(rest.drop_first()) =~= listed_names(rest.drop_first()));
            }
        }
        i += 1;
    }
    proof {
        assert(views(ls@).skip(i as int) =~= Seq::<Seq<char>>::empty());
        assert(arg_views(out@) + Seq::<Seq<char>>::empty() =~= arg_views(out@));
    }
    out
}

/// Compact names keep exactly the words that are not brand words, in order:
/// every kept word is a word of the name and no brand word is kept; a name
/// without brand words keeps all its words; a name of brand words only is
/// shown whole. The brand words are `amd`, `radeon`, `nvidia`, `geforce`,
/// `intel`, `intel(r)`, `graphics`, `(tm)`, `arc` and `arc(tm)`, in any case.
pub proof fn lemma_kept_words(ws: Seq<Seq<char>>)
    ensures
        forall|i: int| 0 <= i < kept_words(ws).len() ==> !is_brand_word(#[trigger] kept_words(ws)[i]) && ws.contains(
            kept_words(ws)[i],
        ),
        (forall|i: int| 0 <= i < ws.len() ==> !is_brand_word(#[trigger] ws[i])) ==> kept_words(ws) == ws,
        (forall|i: int| 0 <= i < ws.len() ==> is_brand_word(#[trigger] ws[i])) ==> kept_words(ws).len() == 0,
        forall|w: Seq<char>| #[trigger] is_brand_word(w) <==> {
            let l = lower(w);
            l == "amd"@ || l == "radeon"@ || l == "nvidia"@ || l == "geforce"@ || l == "intel"@ || l == "intel(r)"@
                || l == "graphics"@ || l == "(tm)"@ || l == "arc"@ || l == "arc(tm)"@
        },
    decreases ws.len(),
{
    if ws.len() > 0 {
        let t = ws.drop_first();
        lemma_kept_words(t);
        let k = kept_words(ws);
        let head: Seq<Seq<char>> = if is_brand_word(ws[0]) { seq![] } else { seq![ws[0]] };
        assert(k == head + kept_words(t));
        assert forall|i: int| 0 <= i < k.len() implies !is_brand_word(#[trigger] k[i]) && ws.contains(k[i]) by {
            if i < head.len() {
                assert(k[i] == ws[0]);
            } else {
                assert(k[i] == kept_words(t)[i - head.len()]);
                let j = choose|j: int| 0 <= j < t.len() && t[j] == kept_words(t)[i - head.len()];
                assert(ws[j + 1] == t[j]);
            }
        }
        if forall|i: int| 0 <= i < ws.len() ==> !is_brand_word(#[trigger] ws[i]) {
            assert(!is_brand_word(ws[0]));
            assert forall|i: int| 0 <= i < t.len() implies !is_brand_word(#[trigger] t[i]) by {
                assert(t[i] == ws[i + 1]);
            }
            assert(k =~= seq![ws[0]] + t);
            assert(seq![ws[0]] + t =~= ws);
        }
        if forall|i: int| 0 <= i < ws.len() ==> is_brand_word(#[trigger] ws[i]) {
            assert(is_brand_word(ws[0]));
            assert forall|i: int| 0 <= i < t.len() implies is_brand_word(#[trigger] t[i]) by {
                assert(t[i] == ws[i + 1]);
            }
        }
    }
}

/// Family membership goes by vendor words in any letter case: NVIDIA,
/// GeForce, Quadro or Tesla for NVENC; AMD or Radeon for AMF; Intel for QSV;
/// none for other families. The members are the family's adapters, in order.
pub proof fn lemma_family_members(gpus: Seq<Seq<char>>, family: Seq<char>)
    ensures
        forall|n: Seq<char>| #[trigger] in_family(n, family) <==> {
            let l = lower(n);
            ||| family == "nvenc"@ && (contains(l, "nvidia"@) || contains(l, "geforce"@) || contains(l, "quadro"@) || contains(l, "tesla"@))
            ||| family == "amf"@ && (contains(l, "amd"@) || contains(l, "radeon"@))
            ||| family == "qsv"@ && contains(l, "intel"@)
        },
        forall|i: int| 0 <= i < family_members(gpus, family).len() ==> in_family(#[trigger] family_members(gpus, family)[i], family)
            && gpus.contains(family_members(gpus, family)[i]),
        forall|i: int| 0 <= i < gpus.len() && in_family(#[trigger] gpus[i], family) ==> family_members(gpus, family).contains(gpus[i]),
    decreases gpus.len(),
{
    reveal_strlit("nvenc");
    reveal_strlit("amf");
    reveal_strlit("qsv");
    assert("nvenc"@.len() == 5 && "amf"@.len() == 3 && "qsv"@.len() == 3 && "amf"@[0] == 'a' && "qsv"@[0] == 'q');
    if gpus.len() > 0 {
        let t = gpus.drop_first();
        lemma_family_members(t, family);
        let m = family_members(gpus, family);
        let head: Seq<Seq<char>> = if in_family(gpus[0], family) { seq![gpus[0]] } else { seq![] };
        assert(m == head + family_members(t, family));
        assert forall|i: int| 0 <= i < m.len() implies in_family(#[trigger] m[i], family) && gpus.contains(m[i]) by {
            if i < head.len() {
                assert(m[i] == gpus[0]);
            } else {
                assert(m[i] == family_members(t, family)[i - head.len()]);
                let j = choose|j: int| 0 <= j < t.len() && t[j] == family_members(t, family)[i - head.len()];
                assert(gpus[j + 1] == t[j]);
            }
        }
        assert forall|i: int| 0 <= i < gpus.len() && in_family(#[trigger] gpus[i], family) implies m.contains(gpus[i]) by {
            if i == 0 {
                assert(m[0] == gpus[0]);
            } else {
                assert(gpus[i] == t[i - 1]);
                let j = choose|j: int| 0 <= j < family_members(t, family).len() && family_members(t, family)[j] == t[i - 1];
                assert(m[j + head.len()] == family_members(t, family)[j]);
            }
        }
    }
}

/// The label is `CPU` for software encoding, `Compatible GPU` when no listed
/// adapter belongs to the family, and the compact name of the adapter when
/// exactly one is listed and belongs to it.
pub proof fn lemma_gpu_label_cases(gpus: Seq<Seq<char>>, family: Seq<char>)
    ensures
        family == "software"@ ==> gpu_label(gpus, family) == "CPU"@,
        family != "software"@ && (forall|i: int| 0 <= i < gpus.len() ==> !in_family(#[trigger] gpus[i], family))
            ==> gpu_label(gpus, family) == "Compatible GPU"@,
        family != "software"@ && gpus.len() == 1 && in_family(gpus[0], family) ==> gpu_label(gpus, family) == compact_name(gpus[0]),
{
    lemma_family_members(gpus, family);
    let m = family_members(gpus, family);
    if family != "software"@ && (forall|i: int| 0 <= i < gpus.len() ==> !in_family(#[trigger] gpus[i], family)) {
        if m.len() > 0 {
            let j = choose|j: int| 0 <= j < gpus.len() && gpus[j] == m[0];
            assert(in_family(m[0], family));
            assert(!in_family(gpus[j], family));
        }
    }
    if gpus.len() == 1 && in_family(gpus[0], family) {
        assert(gpus.drop_first() =~= Seq::<Seq<char>>::empty());
        assert(family_members(gpus.drop_first(), family) =~= Seq::<Seq<char>>::empty());
        assert(m == seq![gpus[0]] + family_members(gpus.drop_first(), family));
        assert(m =~= seq![gpus[0]]);
        assert(m.map_values(|n: Seq<char>| compact_name(n)) =~= seq![compact_name(gpus[0])]);
    }
}

/// The listed names are the lines that hold more than white space, trimmed,
/// in order: each one is a non-empty trimmed line, and every such line is
/// listed.
pub proof fn lemma_listed_names(ls: Seq<Seq<char>>)
    ensures
        forall|i: int| 0 <= i < listed_names(ls).len() ==> (#[trigger] listed_names(ls)[i]).len() > 0 && exists|j: int|
            0 <= j < ls.len() && trim(ls[j]) == listed_names(ls)[i],
        forall|j: int| 0 <= j < ls.len() && trim(#[trigger] ls[j]).len() > 0 ==> listed_names(ls).contains(trim(ls[j])),
        listed_names(ls).len() <= ls.len(),
    decreases ls.len(),
{
    if ls.len() > 0 {
        let t = ls.drop_first();
        lemma_listed_names(t);
        let m = listed_names(ls);
        let head: Seq<Seq<char>> = if trim(ls[0]).len() > 0 { seq![trim(ls[0])] } else { seq![] };
        assert(m == head + listed_names(t));
        assert forall|i: int| 0 <= i < m.len() implies (#[trigger] m[i]).len() > 0 && exists|j: int| 0 <= j < ls.len() && trim(ls[j]) == m[i] by {
            if i < head.len() {
                assert(m[i] == trim(ls[0]));
            } else {
                assert(m[i] == listed_names(t)[i - head.len()]);
                let j = choose|j: int| 0 <= j < t.len() && trim(t[j]) == listed_names(t)[i - head.len()];
                assert(ls[j + 1] == t[j]);
            }
        }
        assert forall|j: int| 0 <= j < ls.len() && trim(#[trigger] ls[j]).len() > 0 implies m.contains(trim(ls[j])) by {
            if j == 0 {
                assert(m[0] == trim(ls[0]));
            } else {
                assert(ls[j] == t[j - 1]);
                let k = choose|k: int| 0 <= k < listed_names(t).len() && listed_names(t)[k] == trim(t[j - 1]);
                assert(m[k + head.len()] == listed_names(t)[k]);
            }
        }
    }
}

} // verus!
