//! FFmpeg command lines as lists of arguments: building them, finding a flag,
//! replacing the value that follows it, and the two-pass additions.
use vstd::prelude::*;
use crate::text::{
    append_chars, append_str, chars_eq, chars_of, decimal, decimal_chars, push_decimal, push_signed,
    signed_decimal, string_of,
};

verus! {

/// The texts of a list of arguments.
pub open spec fn arg_views(v: Seq<String>) -> Seq<Seq<char>> {
    v.map_values(|s: String| s@)
}

/// `i` is the first position of `flag` in `args`.
pub open spec fn first_position(args: Seq<Seq<char>>, flag: Seq<char>, i: int) -> bool {
    &&& 0 <= i < args.len()
    &&& args[i] == flag
    &&& forall|j: int| 0 <= j < i ==> args[j] != flag
}

pub open spec fn occurs_in(args: Seq<Seq<char>>, flag: Seq<char>) -> bool {
    exists|i: int| 0 <= i < args.len() && args[i] == flag
}

/// `value` in place of the argument after the first `flag`, when there is one.
pub open spec fn with_value_after(args: Seq<Seq<char>>, flag: Seq<char>, value: Seq<char>) -> Seq<
    Seq<char>,
> {
    if exists|i: int| first_position(args, flag, i) && i + 1 < args.len() {
        let i = choose|i: int| first_position(args, flag, i) && i + 1 < args.len();
        args.update(i + 1, value)
    } else {
        args
    }
}

/// The peak rate allowed around an average `bitrate`: 200% of it.
pub open spec fn vbv_peak(bitrate: int) -> int {
    bitrate * 2
}

/// The rate-control buffer for an average `bitrate`: twice the bitrate.
pub open spec fn vbv_buffer(bitrate: int) -> int {
    bitrate * 2
}

pub fn peak_bitrate(bitrate: i64) -> (r: i64)
    requires
        -(i64::MAX / 2) <= bitrate <= i64::MAX / 2,
    ensures
        r == vbv_peak(bitrate as int),
{
    bitrate * 2
}

pub fn buffer_size(bitrate: i64) -> (r: i64)
    requires
        -(i64::MAX / 2) <= bitrate <= i64::MAX / 2,
    ensures
        r == vbv_buffer(bitrate as int),
{
    bitrate * 2
}

/// A string holding the text of `s`.
pub fn owned(s: &str) -> (r: String)
    ensures
        r@ == s@,
{
    String::from_str(s)
}

pub fn push_arg(args: &mut Vec<String>, s: &str)
    ensures
        arg_views(final(args)@) == arg_views(old(args)@).push(s@),
{
    let a = owned(s);
    args.push(a);
    proof {
        assert(arg_views(args@) =~= arg_views(old(args)@).push(s@));
    }
}

pub fn push_string(args: &mut Vec<String>, s: String)
    ensures
        arg_views(final(args)@) == arg_views(old(args)@).push(s@),
{
    let ghost v = s@;
    args.push(s);
    proof {
        assert(arg_views(args@) =~= arg_views(old(args)@).push(v));
    }
}

/// Appends every argument of `more`.
pub fn extend_args(args: &mut Vec<String>, more: Vec<String>)
    ensures
        arg_views(final(args)@) == arg_views(old(args)@) + arg_views(more@),
{
    let mut more = more;
    let ghost m = arg_views(more@);
    let ghost start = arg_views(args@);
    args.append(&mut more);
    proof {
        assert(arg_views(args@) =~= start + m);
    }
}

/// The decimal text of an unsigned number.
pub fn decimal_string(n: u64) -> (r: String)
    ensures
        r@ == decimal(n as nat),
{
    let v = decimal_chars(n);
    string_of(v.as_slice())
}

/// A bitrate as FFmpeg reads it: the number followed by `k`.
pub open spec fn kbps(n: int) -> Seq<char> {
    signed_decimal(n) + "k"@
}

pub fn kbps_string(n: i64) -> (r: String)
    ensures
        r@ == kbps(n as int),
{
    let mut v: Vec<char> = Vec::new();
    push_signed(&mut v, n);
    append_str(&mut v, "k");
    proof {
        assert(v@ =~= kbps(n as int));
    }
    string_of(v.as_slice())
}

/// The position of the first argument equal to `flag`.
pub fn find_arg(args: &Vec<String>, flag: &str) -> (r: Option<usize>)
    ensures
        r matches Some(i) ==> first_position(arg_views(args@), flag@, i as int),
        r is None ==> !occurs_in(arg_views(args@), flag@),
{
    let f = chars_of(flag);
    let mut i: usize = 0;
    while i < args.len()
        invariant
            i <= args.len(),
            f@ == flag@,
            forall|j: int| 0 <= j < i ==> arg_views(args@)[j] != flag@,
        decreases args.len() - i,
    {
        let a = chars_of(args[i].as_str());
        if chars_eq(a.as_slice(), f.as_slice()) {
            return Some(i);
        }
        i += 1;
    }
    None
}

/// Replaces the value that follows the first `flag`. Returns `false`, leaving
/// the list as it was, when the flag is absent or is the last argument.
pub fn set_ffmpeg_arg(args: &mut Vec<String>, flag: &str, value: String) -> (r: bool)
    ensures
        arg_views(final(args)@) == with_value_after(arg_views(old(args)@), flag@, value@),
        final(args)@.len() == old(args)@.len(),
        r == (exists|i: int| first_position(arg_views(old(args)@), flag@, i) && i + 1 < old(args)@.len()),
{
    let found = find_arg(args, flag);
    match found {
        None => {
            proof {
                assert(!exists|i: int| first_position(arg_views(args@), flag@, i) && i + 1 < args@.len());
            }
            false
        },
        Some(i) => {
            proof {
                assert forall|k: int| first_position(arg_views(args@), flag@, k) implies k == i by {
                    if k < i {
                        assert(arg_views(args@)[k] == flag@);
                    } else if k > i {
                        assert(arg_views(args@)[i as int] == flag@);
                    }
                }
            }
            if i < args.len() - 1 {
                let ghost before = args@;
                let ghost v = value@;
                args.set(i + 1, value);
                proof {
                    assert(arg_views(args@) =~= arg_views(before).update(i + 1, v));
                }
                true
            } else {
                false
            }
        },
    }
}

/// The stats path that x265 is given: forward slashes, and on Windows a
/// backslash after a drive letter so that the colon is not read as a separator.
pub open spec fn x265_stats_path(prefix: Seq<char>, windows: bool) -> Seq<char> {
    let slashed = prefix.map_values(|c: char| if c == '\\' { '/' } else { c });
    if windows && slashed.len() >= 2 && (slashed[0] as u32) < 128 && slashed[1] == ':' {
        slashed.take(1) + seq!['\\'] + slashed.skip(1)
    } else {
        slashed
    }
}

/// The arguments after a two-pass addition for pass `pass` with log prefix `prefix`.
pub open spec fn two_pass_args(
    args: Seq<Seq<char>>,
    codec: Seq<char>,
    pass: u8,
    prefix: Seq<char>,
    windows: bool,
) -> Seq<Seq<char>> {
    if codec == "libx265"@ {
        let addition = ":pass="@ + decimal(pass as nat) + ":stats="@ + x265_stats_path(prefix, windows);
        if exists|i: int| first_position(args, "-x265-params"@, i) && i + 1 < args.len() {
            let i = choose|i: int| first_position(args, "-x265-params"@, i) && i + 1 < args.len();
            args.update(i + 1, args[i + 1] + addition)
        } else {
            args
        }
    } else {
        args + seq!["-pass"@, decimal(pass as nat), "-passlogfile"@, prefix]
    }
}

fn x265_stats_chars(prefix: &str, windows: bool) -> (r: Vec<char>)
    ensures
        r@ == x265_stats_path(prefix@, windows),
{
    let p = chars_of(prefix);
    let mut s: Vec<char> = Vec::new();
    let mut i: usize = 0;
    while i < p.len()
        invariant
            i <= p.len(),
            p@ == prefix@,
            s@ == p@.take(i as int).map_values(|c: char| if c == '\\' { '/' } else { c }),
        decreases p.len() - i,
    {
        let c = p[i];
        s.push(if c == '\\' { '/' } else { c });
        proof {
            assert(p@.take(i + 1).map_values(|c: char| if c == '\\' { '/' } else { c }) =~= p@.take(
                i as int,
            ).map_values(|c: char| if c == '\\' { '/' } else { c }).push(
                if c == '\\' { '/' } else { c },
            ));
        }
        i += 1;
    }
    proof {
        assert(p@.take(p.len() as int) =~= p@);
    }
    if windows && s.len() >= 2 && (s[0] as u32) < 128 && s[1] == ':' {
        s.insert(1, '\\');
        proof {
            let slashed = prefix@.map_values(|c: char| if c == '\\' { '/' } else { c });
            assert(s@ =~= slashed.take(1) + seq!['\\'] + slashed.skip(1));
        }
    }
    s
}

/// Adds the arguments of one pass of a two-pass encode. x265 takes the pass and
/// its stats file inside `-x265-params`; the other encoders take `-pass` and
/// `-passlogfile`.
pub fn add_two_pass_args(args: &mut Vec<String>, codec: &str, pass: u8, prefix: &str, windows: bool)
    ensures
        arg_views(final(args)@) == two_pass_args(arg_views(old(args)@), codec@, pass, prefix@, windows),
{
    let c = chars_of(codec);
    let x265 = chars_of("libx265");
    if chars_eq(c.as_slice(), x265.as_slice()) {
        let stats = x265_stats_chars(prefix, windows);
        let mut addition: Vec<char> = Vec::new();
        append_str(&mut addition, ":pass=");
        push_decimal(&mut addition, pass as u64);
        append_str(&mut addition, ":stats=");
        append_chars(&mut addition, stats.as_slice());
        let ghost add_view = addition@;
        proof {
            assert(add_view =~= ":pass="@ + decimal(pass as nat) + ":stats="@ + x265_stats_path(prefix@, windows));
        }
        match find_arg(args, "-x265-params") {
            Some(i) => {
                proof {
                    assert forall|k: int| first_position(arg_views(args@), "-x265-params"@, k) implies k == i by {
                        if k < i {
                            assert(arg_views(args@)[k] == "-x265-params"@);
                        } else if k > i {
                            assert(arg_views(args@)[i as int] == "-x265-params"@);
                        }
                    }
                }
                if i < args.len() - 1 {
                    let mut params = chars_of(args[i + 1].as_str());
                    append_chars(&mut params, addition.as_slice());
                    let updated = string_of(params.as_slice());
                    let ghost before = args@;
                    args.set(i + 1, updated);
                    proof {
                        assert(arg_views(args@) =~= arg_views(before).update(i + 1, arg_views(before)[i + 1] + add_view));
                    }
                }
            },
            None => {},
        }
    } else {
        let ghost start = arg_views(args@);
        push_arg(args, "-pass");
        push_string(args, decimal_string(pass as u64));
        push_arg(args, "-passlogfile");
        push_arg(args, prefix);
        proof {
            assert(arg_views(args@) =~= start + seq!["-pass"@, decimal(pass as nat), "-passlogfile"@, prefix@]);
        }
    }
}

/// Sets the average bitrate, the peak rate and the buffer (both twice the
/// average) of a fixed-size encode.
pub fn apply_video_bitrate(args: &mut Vec<String>, bitrate: i64)
    requires
        -(i64::MAX / 2) <= bitrate <= i64::MAX / 2,
    ensures
        arg_views(final(args)@) == with_value_after(
            with_value_after(
                with_value_after(arg_views(old(args)@), "-b:v"@, kbps(bitrate as int)),
                "-maxrate"@,
                kbps(vbv_peak(bitrate as int)),
            ),
            "-bufsize"@,
            kbps(vbv_buffer(bitrate as int)),
        ),
{
    let _ = set_ffmpeg_arg(args, "-b:v", kbps_string(bitrate));
    let _ = set_ffmpeg_arg(args, "-maxrate", kbps_string(peak_bitrate(bitrate)));
    let _ = set_ffmpeg_arg(args, "-bufsize", kbps_string(buffer_size(bitrate)));
}

proof fn lemma_first_position_unique(args: Seq<Seq<char>>, flag: Seq<char>, i: int, k: int)
    requires
        first_position(args, flag, i),
        first_position(args, flag, k),
    ensures
        i == k,
{
    if i < k {
        assert(args[i] == flag);
    } else if k < i {
        assert(args[k] == flag);
    }
}

/// Replacing the value of a flag touches nothing else: the list keeps its
/// length, the argument after the first occurrence of the flag becomes the new
/// value (when there is such an argument), and every other argument stays.
pub proof fn lemma_value_update_is_local(args: Seq<Seq<char>>, flag: Seq<char>, value: Seq<char>)
    ensures
        with_value_after(args, flag, value).len() == args.len(),
        forall|i: int| first_position(args, flag, i) && i + 1 < args.len() ==> with_value_after(args, flag, value)[i + 1] == value,
        forall|j: int| 0 <= j < args.len() && !(exists|i: int| first_position(args, flag, i) && j == i + 1)
            ==> with_value_after(args, flag, value)[j] == args[j],
{
    if exists|i: int| first_position(args, flag, i) && i + 1 < args.len() {
        let c = choose|i: int| first_position(args, flag, i) && i + 1 < args.len();
        assert forall|i: int| first_position(args, flag, i) && i + 1 < args.len() implies with_value_after(args, flag, value)[i + 1] == value by {
            lemma_first_position_unique(args, flag, i, c);
        }
    }
}

/// Every encoder but x265 gets the pass and the pass log as four more
/// arguments: `-pass`, the pass number, `-passlogfile` and the prefix.
/// For x265 the list keeps its length and only the value after the first
/// `-x265-params` changes, by `:pass=N:stats=` and the stats path appended
/// (the prefix itself, when it has no backslash and the platform is not
/// Windows).
pub proof fn lemma_two_pass_arguments(args: Seq<Seq<char>>, codec: Seq<char>, pass: u8, prefix: Seq<char>, windows: bool)
    ensures
        codec != "libx265"@ ==> two_pass_args(args, codec, pass, prefix, windows) == args + seq![
            "-pass"@,
            decimal(pass as nat),
            "-passlogfile"@,
            prefix,
        ],
        codec == "libx265"@ ==> two_pass_args(args, codec, pass, prefix, windows).len() == args.len(),
        codec == "libx265"@ ==> forall|i: int| #[trigger] first_position(args, "-x265-params"@, i) && i + 1 < args.len()
            ==> two_pass_args(args, codec, pass, prefix, windows)[i + 1] == args[i + 1] + ":pass="@ + decimal(pass as nat)
            + ":stats="@ + x265_stats_path(prefix, windows),
        codec == "libx265"@ ==> forall|j: int| 0 <= j < args.len() && !(exists|i: int| first_position(args, "-x265-params"@, i) && j
            == i + 1) ==> #[trigger] two_pass_args(args, codec, pass, prefix, windows)[j] == args[j],
        !windows && (forall|k: int| 0 <= k < prefix.len() ==> prefix[k] != '\\') ==> x265_stats_path(prefix, windows) == prefix,
{
    if codec == "libx265"@ {
        if exists|i: int| first_position(args, "-x265-params"@, i) && i + 1 < args.len() {
            let c = choose|i: int| first_position(args, "-x265-params"@, i) && i + 1 < args.len();
            assert forall|i: int| #[trigger] first_position(args, "-x265-params"@, i) && i + 1 < args.len() implies i == c by {
                lemma_first_position_unique(args, "-x265-params"@, i, c);
            }
        }
    }
    if !windows && (forall|k: int| 0 <= k < prefix.len() ==> prefix[k] != '\\') {
        let slashed = prefix.map_values(|c: char| if c == '\\' { '/' } else { c });
        assert(slashed =~= prefix);
    }
}

/// The decimal text of a number below ten is its single digit.
pub proof fn lemma_single_digit(n: nat)
    requires
        n < 10,
    ensures
        decimal(n) == seq![(n + 48) as char],
{
}

proof fn lemma_kbps_ends_in_k(n: int)
    ensures
        kbps(n).last() == 'k',
        kbps(n).len() >= 1,
{
    reveal_strlit("k");
    assert("k"@ == seq!['k']);
}

/// After setting the bitrate of a list that holds `-b:v`, `-maxrate` and
/// `-bufsize` each followed by a value, the value after each is the average,
/// twice the average and twice the average, in kbps; nothing else changes.
pub proof fn lemma_bitrate_values(args: Seq<Seq<char>>, bitrate: int, i: int, j: int, k: int)
    requires
        first_position(args, "-b:v"@, i) && i + 1 < args.len(),
        first_position(args, "-maxrate"@, j) && j + 1 < args.len(),
        first_position(args, "-bufsize"@, k) && k + 1 < args.len(),
        i + 1 != j && i + 1 != k && j + 1 != k && j + 1 != i && k + 1 != i && k + 1 != j,
    ensures
        ({
            let r = with_value_after(
                with_value_after(with_value_after(args, "-b:v"@, kbps(bitrate)), "-maxrate"@, kbps(vbv_peak(bitrate))),
                "-bufsize"@,
                kbps(vbv_buffer(bitrate)),
            );
            &&& r.len() == args.len()
            &&& r[i + 1] == signed_decimal(bitrate) + "k"@
            &&& r[j + 1] == signed_decimal(2 * bitrate) + "k"@
            &&& r[k + 1] == signed_decimal(2 * bitrate) + "k"@
            &&& forall|n: int| 0 <= n < args.len() && n != i + 1 && n != j + 1 && n != k + 1 ==> #[trigger] r[n] == args[n]
        }),
{
    reveal_strlit("-b:v");
    reveal_strlit("-maxrate");
    reveal_strlit("-bufsize");
    assert("-b:v"@.len() == 4 && "-maxrate"@.len() == 8 && "-bufsize"@.len() == 8 && "-maxrate"@[1] != "-bufsize"@[1]);
    assert(i != j && i != k && j != k);
    let r1 = with_value_after(args, "-b:v"@, kbps(bitrate));
    lemma_value_update_is_local(args, "-b:v"@, kbps(bitrate));
    assert(r1[i + 1] == kbps(bitrate));
    assert forall|n: int| 0 <= n < args.len() && n != i + 1 implies #[trigger] r1[n] == args[n] by {
        if exists|p: int| first_position(args, "-b:v"@, p) && n == p + 1 {
            let p = choose|p: int| first_position(args, "-b:v"@, p) && n == p + 1;
            lemma_first_position_unique(args, "-b:v"@, p, i);
        }
    }
    assert(first_position(r1, "-maxrate"@, j)) by {
        assert(r1[j] == args[j]);
        assert forall|m: int| 0 <= m < j implies r1[m] != "-maxrate"@ by {
            if m != i + 1 {
                assert(r1[m] == args[m]);
            } else {
                assert(r1[m] == kbps(bitrate));
                lemma_kbps_ends_in_k(bitrate);
                reveal_strlit("-maxrate");
                assert("-maxrate"@.last() == 'e');
            }
        }
    }
    let r2 = with_value_after(r1, "-maxrate"@, kbps(vbv_peak(bitrate)));
    lemma_value_update_is_local(r1, "-maxrate"@, kbps(vbv_peak(bitrate)));
    assert(r2[j + 1] == kbps(vbv_peak(bitrate)));
    assert forall|n: int| 0 <= n < r1.len() && n != j + 1 implies #[trigger] r2[n] == r1[n] by {
        if exists|p: int| first_position(r1, "-maxrate"@, p) && n == p + 1 {
            let p = choose|p: int| first_position(r1, "-maxrate"@, p) && n == p + 1;
            lemma_first_position_unique(r1, "-maxrate"@, p, j);
        }
    }
    assert(r2[i + 1] == r1[i + 1]);
    assert(r2[i + 1] == kbps(bitrate));
    assert(first_position(r2, "-bufsize"@, k)) by {
        assert(r2[k] == args[k]);
        assert forall|m: int| 0 <= m < k implies r2[m] != "-bufsize"@ by {
            reveal_strlit("-bufsize");
            assert("-bufsize"@.last() == 'e');
            if m == i + 1 {
                assert(r2[m] == kbps(bitrate));
                lemma_kbps_ends_in_k(bitrate);
            } else if m == j + 1 {
                assert(r2[m] == kbps(vbv_peak(bitrate)));
                lemma_kbps_ends_in_k(vbv_peak(bitrate));
            } else {
                assert(r2[m] == args[m]);
            }
        }
    }
    let r3 = with_value_after(r2, "-bufsize"@, kbps(vbv_buffer(bitrate)));
    lemma_value_update_is_local(r2, "-bufsize"@, kbps(vbv_buffer(bitrate)));
    assert(r3[k + 1] == kbps(vbv_buffer(bitrate)));
    assert forall|n: int| 0 <= n < r2.len() && n != k + 1 implies #[trigger] r3[n] == r2[n] by {
        if exists|p: int| first_position(r2, "-bufsize"@, p) && n == p + 1 {
            let p = choose|p: int| first_position(r2, "-bufsize"@, p) && n == p + 1;
            lemma_first_position_unique(r2, "-bufsize"@, p, k);
        }
    }
    assert(r3[i + 1] == r2[i + 1]);
    assert(r3[j + 1] == r2[j + 1]);
    assert(kbps(vbv_peak(bitrate)) == signed_decimal(2 * bitrate) + "k"@);
    assert(kbps(vbv_buffer(bitrate)) == signed_decimal(2 * bitrate) + "k"@);
    assert forall|n: int| 0 <= n < args.len() && n != i + 1 && n != j + 1 && n != k + 1 implies #[trigger] r3[n] == args[n] by {
        assert(r3[n] == r2[n]);
        assert(r2[n] == r1[n]);
        assert(r1[n] == args[n]);
    }
}

} // verus!
