//! What is known about the installed FFmpeg: its build identifier and variant,
//! the SVT-AV1 library version it reports, and whether an update is due.
use vstd::prelude::*;
use crate::text::{
    all_digits, decimal, is_digit, is_space, lemma_decimal_reads_back, words_from, chars_of, contains, contains_chars, copy_range, find_chars, first_occurrence, lines, lines_of,
    lower, lower_chars, parse_u32, parse_u32_chars, starts_with, starts_with_chars,
    chars_eq, string_of, trim, trim_chars, views, words, words_of,
};

verus! {

pub open spec fn svt_marker() -> Seq<char> {
    "SVT-AV1 Encoder Lib v"@
}

/// The text after the first SVT-AV1 library banner in `lines`, trimmed; empty
/// when no line holds the banner.
pub open spec fn svt_version_in(ls: Seq<Seq<char>>) -> Seq<char>
    decreases ls.len(),
{
    if ls.len() == 0 {
        seq![]
    } else if contains(ls[0], svt_marker()) {
        let i = choose|i: int| first_occurrence(ls[0], svt_marker(), i);
        trim(ls[0].skip(i + svt_marker().len()))
    } else {
        svt_version_in(ls.drop_first())
    }
}

proof fn lemma_first_occurrence_unique(s: Seq<char>, p: Seq<char>, i: int, j: int)
    requires
        first_occurrence(s, p, i),
        first_occurrence(s, p, j),
    ensures
        i == j,
{
}

/// The SVT-AV1 version that an FFmpeg log reports (the text after
/// `SVT-AV1 Encoder Lib v` on the first line that holds it), or an empty
/// string.
pub fn detect_svt_version(log: &str) -> (r: String)
    ensures
        r@ == svt_version_in(lines(log@)),
{
    let text = chars_of(log);
    let ls = lines_of(text.as_slice());
    let marker = chars_of("SVT-AV1 Encoder Lib v");
    let mut k: usize = 0;
    proof {
        assert(views(ls@).skip(0) =~= views(ls@));
    }
    while k < ls.len()
        invariant
            k <= ls.len(),
            marker@ == svt_marker(),
            svt_version_in(lines(log@)) == svt_version_in(views(ls@).skip(k as int)),
            views(ls@) == lines(log@),
        decreases ls.len() - k,
    {
        let line = &ls[k];
        let ghost rest = views(ls@).skip(k as int);
        proof {
            assert(rest[0] == line@);
            assert(rest.drop_first() =~= views(ls@).skip(k + 1));
        }
        match find_chars(line.as_slice(), marker.as_slice()) {
            Some(i) => {
                proof {
                    let j = choose|j: int| first_occurrence(line@, svt_marker(), j);
                    lemma_first_occurrence_unique(line@, svt_marker(), i as int, j);
                }
                let tail = copy_range(line.as_slice(), i + marker.len(), line.len());
                proof {
                    assert(tail@ =~= line@.skip(i + svt_marker().len()));
                }
                let v = trim_chars(tail.as_slice());
                return string_of(v.as_slice());
            },
            None => {},
        }
        k += 1;
    }
    proof {
        assert(views(ls@).skip(k as int) =~= Seq::<Seq<char>>::empty());
    }
    String::new()
}

/// `s` without any leading `c`.
pub open spec fn strip_leading(s: Seq<char>, c: char) -> Seq<char>
    decreases s.len(),
{
    if s.len() > 0 && s[0] == c {
        strip_leading(s.drop_first(), c)
    } else {
        s
    }
}

/// The part of `s` before the first `c` (all of `s` when there is none).
pub open spec fn before_char(s: Seq<char>, c: char) -> Seq<char>
    decreases s.len(),
{
    if s.len() == 0 {
        seq![]
    } else if s[0] == c {
        seq![]
    } else {
        seq![s[0]] + before_char(s.drop_first(), c)
    }
}

/// The major number of a version such as `v3.1.2` or `2.3.0`: leading `v`s
/// dropped, then the digits before the first dot.
pub open spec fn major_version(version: Seq<char>) -> Option<u32> {
    parse_u32(before_char(strip_leading(version, 'v'), '.'))
}

/// The major number of an SVT-AV1 version (see `major_version`).
pub fn svt_major(version: &str) -> (r: Option<u32>)
    ensures
        r == major_version(version@),
{
    let v = chars_of(version);
    let mut a: usize = 0;
    proof {
        assert(v@.skip(0) =~= v@);
    }
    while a < v.len() && v[a] == 'v'
        invariant
            a <= v.len(),
            strip_leading(v@, 'v') == strip_leading(v@.skip(a as int), 'v'),
            v@ == version@,
        decreases v.len() - a,
    {
        proof {
            assert(v@.skip(a as int).drop_first() =~= v@.skip(a + 1));
        }
        a += 1;
    }
    let ghost stripped = v@.skip(a as int);
    proof {
        assert(strip_leading(stripped, 'v') == stripped);
    }
    let mut b: usize = a;
    proof {
        assert(v@.subrange(a as int, a as int) =~= Seq::<char>::empty());
        assert(v@.skip(a as int) =~= stripped);
    }
    while b < v.len() && v[b] != '.'
        invariant
            a <= b <= v.len(),
            stripped == v@.skip(a as int),
            before_char(stripped, '.') == v@.subrange(a as int, b as int) + before_char(v@.skip(b as int), '.'),
        decreases v.len() - b,
    {
        proof {
            assert(v@.skip(b as int).drop_first() =~= v@.skip(b + 1));
            assert(v@.skip(b as int)[0] == v@[b as int]);
            assert(v@.subrange(a as int, b + 1) =~= v@.subrange(a as int, b as int) + seq![v@[b as int]]);
        }
        b += 1;
    }
    proof {
        if b < v.len() {
            assert(v@.skip(b as int)[0] == '.');
        } else {
            assert(v@.skip(b as int) =~= Seq::<char>::empty());
        }
        assert(before_char(stripped, '.') =~= v@.subrange(a as int, b as int));
    }
    let head = copy_range(v.as_slice(), a, b);
    parse_u32_chars(head.as_slice())
}

/// The first line of a program's output, or an empty string.
pub open spec fn first_line_of(output: Seq<char>) -> Seq<char> {
    if lines(output).len() > 0 { lines(output)[0] } else { seq![] }
}

pub fn first_line(output: &str) -> (r: String)
    ensures
        r@ == first_line_of(output@),
{
    let text = chars_of(output);
    let ls = lines_of(text.as_slice());
    if ls.len() > 0 {
        string_of(ls[0].as_slice())
    } else {
        String::new()
    }
}

/// The build identifier in `ffmpeg -version`'s first line: the first word after
/// `ffmpeg version ` (or the first word of the line when that prefix is absent).
pub open spec fn build_id(version_line: Seq<char>) -> Seq<char> {
    let prefix = "ffmpeg version "@;
    let rest = if starts_with(version_line, prefix) {
        version_line.skip(prefix.len() as int)
    } else {
        version_line
    };
    if words(rest).len() > 0 { words(rest)[0] } else { seq![] }
}

pub fn ffmpeg_build_id(version_line: &str) -> (r: String)
    ensures
        r@ == build_id(version_line@),
{
    let v = chars_of(version_line);
    let prefix = chars_of("ffmpeg version ");
    let rest = if starts_with_chars(v.as_slice(), prefix.as_slice()) {
        copy_range(v.as_slice(), prefix.len(), v.len())
    } else {
        copy_range(v.as_slice(), 0, v.len())
    };
    proof {
        assert(v@.subrange(0, v@.len() as int) =~= v@);
        assert(v@.subrange(prefix@.len() as int, v@.len() as int) =~= v@.skip(prefix@.len() as int));
    }
    let ws = words_of(rest.as_slice());
    if ws.len() > 0 {
        string_of(ws[0].as_slice())
    } else {
        String::new()
    }
}

/// Whether a build identifier names a git snapshot rather than a release.
pub fn is_git_build(build: &str) -> (r: bool)
    ensures
        r == contains(build@, "-git-"@),
{
    let b = chars_of(build);
    let g = chars_of("-git-");
    contains_chars(b.as_slice(), g.as_slice())
}

/// The kind of build that `ffmpeg -version` describes: `full`, `essentials`
/// or `custom`, from the (case-insensitive) build markers in its output.
pub open spec fn variant_of(version_output: Seq<char>) -> Seq<char> {
    let l = lower(version_output);
    if contains(l, "full_build"@) {
        "full"@
    } else if contains(l, "essentials_build"@) {
        "essentials"@
    } else {
        "custom"@
    }
}

pub fn build_variant(version_output: &str) -> (r: String)
    ensures
        r@ == variant_of(version_output@),
{
    let l = lower_chars(chars_of(version_output).as_slice());
    if contains_chars(l.as_slice(), chars_of("full_build").as_slice()) {
        String::from_str("full")
    } else if contains_chars(l.as_slice(), chars_of("essentials_build").as_slice()) {
        String::from_str("essentials")
    } else {
        String::from_str("custom")
    }
}

/// An update is due when a newer release is published (a latest version is
/// known and the installed build does not begin with it) or when the SVT-AV1
/// library is older than major version 4.
pub open spec fn update_due(installed: Seq<char>, latest: Seq<char>, svt_version: Seq<char>) -> bool {
    let online = latest.len() > 0 && !starts_with(installed, latest);
    let old_svt = match major_version(svt_version) {
        Some(m) => m < 4,
        None => false,
    };
    online || old_svt
}

pub fn update_available(installed: &str, latest: &str, svt_version: &str) -> (r: bool)
    ensures
        r == update_due(installed@, latest@, svt_version@),
{
    let l = chars_of(latest);
    let online = l.len() > 0 && !starts_with_chars(chars_of(installed).as_slice(), l.as_slice());
    let old_svt = match svt_major(svt_version) {
        Some(m) => m < 4,
        None => false,
    };
    online || old_svt
}

/// The state of the FFmpeg installation as reported to the interface.
pub struct FfmpegCheck {
    pub ffmpeg_ok: bool,
    pub ffprobe_ok: bool,
    pub ffmpeg_version: String,
    /// `local`, `path` or `missing`.
    pub source: String,
    pub path: String,
    pub build_variant: String,
    pub full_build: bool,
    pub latest_version: String,
    pub svt_version: String,
    pub update_available: bool,
}

/// Assembles the installation report from what was found: the FFmpeg binary
/// (its path and where it was found), whether FFprobe was found, the first line
/// and the whole of `ffmpeg -version`, the latest published version and the
/// SVT-AV1 version.
pub fn ffmpeg_check(
    ffmpeg: Option<(String, String)>,
    ffprobe_ok: bool,
    version: String,
    version_output: &str,
    latest_version: String,
    svt_version: String,
) -> (r: FfmpegCheck)
    ensures
        r.ffmpeg_ok == ffmpeg.is_some(),
        r.ffprobe_ok == ffprobe_ok,
        r.ffmpeg_version@ == version@,
        r.source@ == (match ffmpeg { Some(f) => f.1@, None => "missing"@ }),
        r.path@ == (match ffmpeg { Some(f) => f.0@, None => Seq::<char>::empty() }),
        r.build_variant@ == variant_of(version_output@),
        r.full_build == (variant_of(version_output@) == "full"@),
        r.latest_version@ == latest_version@,
        r.svt_version@ == svt_version@,
        r.update_available == update_due(build_id(version@), latest_version@, svt_version@),
{
    let variant = build_variant(version_output);
    let full = chars_eq(chars_of(variant.as_str()).as_slice(), chars_of("full").as_slice());
    let installed = ffmpeg_build_id(version.as_str());
    let update = update_available(installed.as_str(), latest_version.as_str(), svt_version.as_str());
    let ok = ffmpeg.is_some();
    let (path, source) = match ffmpeg {
        Some((p, s)) => (p, s),
        None => (String::new(), String::from_str("missing")),
    };
    FfmpegCheck {
        ffmpeg_ok: ok,
        ffprobe_ok,
        ffmpeg_version: version,
        source,
        path,
        build_variant: variant,
        full_build: full,
        latest_version,
        svt_version,
        update_available: update,
    }
}

/// An SVT-AV1 library older than major version 4 always calls for an update,
/// whatever the published release.
pub proof fn lemma_old_svt_calls_for_update(installed: Seq<char>, latest: Seq<char>, svt_version: Seq<char>)
    requires
        major_version(svt_version) matches Some(m) && m < 4,
    ensures
        update_due(installed, latest, svt_version),
{
}

/// Without a known latest release and with a current SVT-AV1 library (or none
/// reported), no update is offered.
pub proof fn lemma_no_update_without_reason(installed: Seq<char>, svt_version: Seq<char>)
    requires
        !(major_version(svt_version) matches Some(m) && m < 4),
    ensures
        !update_due(installed, Seq::<char>::empty(), svt_version),
{
}

/// A known latest version that the installed build id does not begin with
/// always makes an update due, whatever the installed id holds (a git
/// snapshot included); one it does begin with makes none due unless the
/// SVT-AV1 library is older than major version 4.
pub proof fn lemma_new_release_calls_for_update(installed: Seq<char>, latest: Seq<char>, svt_version: Seq<char>)
    ensures
        latest.len() > 0 && !(latest.len() <= installed.len() && installed.subrange(0, latest.len() as int) == latest)
            ==> update_due(installed, latest, svt_version),
        latest.len() <= installed.len() && installed.subrange(0, latest.len() as int) == latest && !(major_version(svt_version) matches Some(m) && m < 4)
            ==> !update_due(installed, latest, svt_version),
{
    if latest.len() <= installed.len() {
        assert(installed.subrange(0, latest.len() as int) =~= installed.take(latest.len() as int));
    }
}

proof fn lemma_before_char_of_digits(d: Seq<char>, rest: Seq<char>)
    requires
        all_digits(d),
    ensures
        before_char(d + seq!['.'] + rest, '.') == d,
        before_char(d, '.') == d,
    decreases d.len(),
{
    if d.len() > 0 {
        assert(is_digit(d[0]));
        assert((d + seq!['.'] + rest).drop_first() =~= d.drop_first() + seq!['.'] + rest);
        assert(all_digits(d.drop_first())) by {
            assert forall|i: int| 0 <= i < d.drop_first().len() implies is_digit(#[trigger] d.drop_first()[i]) by {
                assert(d.drop_first()[i] == d[i + 1]);
            }
        }
        lemma_before_char_of_digits(d.drop_first(), rest);
        assert(d =~= seq![d[0]] + d.drop_first());
    } else {
        assert(d + seq!['.'] + rest =~= seq!['.'] + rest);
    }
}

/// A version reads as its leading number, with or without a leading `v` and
/// whatever follows the first dot.
pub proof fn lemma_major_version_reads_the_leading_number(n: u32, rest: Seq<char>)
    ensures
        major_version(decimal(n as nat) + seq!['.'] + rest) == Some(n),
        major_version(seq!['v'] + decimal(n as nat) + seq!['.'] + rest) == Some(n),
        major_version(decimal(n as nat)) == Some(n),
{
    lemma_decimal_reads_back(n as nat);
    let d = decimal(n as nat);
    lemma_before_char_of_digits(d, rest);
    assert(d[0] != 'v') by {
        assert(is_digit(d[0]));
    }
    assert(strip_leading(d + seq!['.'] + rest, 'v') == d + seq!['.'] + rest) by {
        assert((d + seq!['.'] + rest)[0] == d[0]);
    }
    assert(strip_leading(d, 'v') == d);
    let with_v = seq!['v'] + d + seq!['.'] + rest;
    assert(with_v.drop_first() =~= d + seq!['.'] + rest);
    assert(strip_leading(with_v, 'v') == strip_leading(with_v.drop_first(), 'v'));
}

/// The SVT-AV1 version is read from the first line that holds the library's
/// banner `SVT-AV1 Encoder Lib v`: the rest of that line after the banner's
/// first occurrence, trimmed. Without such a line it is empty.
pub proof fn lemma_svt_version_from_first_banner(ls: Seq<Seq<char>>, k: int, i: int)
    requires
        0 <= k < ls.len(),
        first_occurrence(ls[k], "SVT-AV1 Encoder Lib v"@, i),
        forall|j: int| 0 <= j < k ==> !contains(#[trigger] ls[j], "SVT-AV1 Encoder Lib v"@),
    ensures
        svt_version_in(ls) == trim(ls[k].skip(i + "SVT-AV1 Encoder Lib v"@.len())),
    decreases k,
{
    if k == 0 {
        let c = choose|c: int| first_occurrence(ls[0], svt_marker(), c);
        lemma_first_occurrence_unique(ls[0], svt_marker(), c, i);
    } else {
        assert(!contains(ls[0], "SVT-AV1 Encoder Lib v"@));
        assert forall|j: int| 0 <= j < k - 1 implies !contains(#[trigger] ls.drop_first()[j], "SVT-AV1 Encoder Lib v"@) by {
            assert(ls.drop_first()[j] == ls[j + 1]);
        }
        lemma_svt_version_from_first_banner(ls.drop_first(), k - 1, i);
    }
}

/// Without a banner line the SVT-AV1 version is empty.
pub proof fn lemma_no_banner_no_version(ls: Seq<Seq<char>>)
    requires
        forall|j: int| 0 <= j < ls.len() ==> !contains(#[trigger] ls[j], "SVT-AV1 Encoder Lib v"@),
    ensures
        svt_version_in(ls) == Seq::<char>::empty(),
    decreases ls.len(),
{
    if ls.len() > 0 {
        assert(!contains(ls[0], "SVT-AV1 Encoder Lib v"@));
        assert forall|j: int| 0 <= j < ls.len() - 1 implies !contains(#[trigger] ls.drop_first()[j], "SVT-AV1 Encoder Lib v"@) by {
            assert(ls.drop_first()[j] == ls[j + 1]);
        }
        lemma_no_banner_no_version(ls.drop_first());
    }
}

/// The build variant follows the build markers, in any letter case: a full
/// build's marker wins, then the essentials marker; otherwise the build is
/// custom.
pub proof fn lemma_build_variants(out: Seq<char>)
    ensures
        contains(lower(out), "full_build"@) ==> variant_of(out) == "full"@,
        !contains(lower(out), "full_build"@) && contains(lower(out), "essentials_build"@) ==> variant_of(out) == "essentials"@,
        !contains(lower(out), "full_build"@) && !contains(lower(out), "essentials_build"@) ==> variant_of(out) == "custom"@,
{
}

proof fn lemma_first_word(w: Seq<char>, rest: Seq<char>, cur: Seq<char>)
    requires
        cur.len() + w.len() > 0,
        forall|i: int| 0 <= i < w.len() ==> !is_space(#[trigger] w[i]),
    ensures
        words_from(w + seq![' '] + rest, cur) == seq![cur + w] + words_from(rest, seq![]),
    decreases w.len(),
{
    let s = w + seq![' '] + rest;
    if w.len() == 0 {
        assert(s =~= seq![' '] + rest);
        assert(s.drop_first() =~= rest);
        assert(cur + w =~= cur);
    } else {
        assert(s[0] == w[0]);
        assert(!is_space(w[0]));
        assert(s.drop_first() =~= w.drop_first() + seq![' '] + rest);
        assert forall|i: int| 0 <= i < w.drop_first().len() implies !is_space(#[trigger] w.drop_first()[i]) by {
            assert(w.drop_first()[i] == w[i + 1]);
        }
        lemma_first_word(w.drop_first(), rest, cur.push(w[0]));
        assert(cur.push(w[0]) + w.drop_first() =~= cur + w);
    }
}

/// The build identifier of `ffmpeg version <id> <anything>` is `<id>`, for an
/// identifier without white space.
pub proof fn lemma_build_id_is_the_version_word(w: Seq<char>, rest: Seq<char>)
    requires
        w.len() > 0,
        forall|i: int| 0 <= i < w.len() ==> !is_space(#[trigger] w[i]),
    ensures
        build_id("ffmpeg version "@ + w + " "@ + rest) == w,
{
    reveal_strlit("ffmpeg version ");
    reveal_strlit(" ");
    let p = "ffmpeg version "@;
    let line = p + w + " "@ + rest;
    assert(line.take(p.len() as int) =~= p);
    assert(line.skip(p.len() as int) =~= w + seq![' '] + rest);
    lemma_first_word(w, rest, seq![]);
    assert(Seq::<char>::empty() + w =~= w);
}

} // verus!
