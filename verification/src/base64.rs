//! Standard base64 (RFC 4648 alphabet, `=` padding), used to hand thumbnails
//! to the interface as data URLs.
use vstd::prelude::*;
use crate::args::owned;
use crate::text::{append_chars, chars_of, string_of};

verus! {

/// The character for a 6-bit value: `A`-`Z`, `a`-`z`, `0`-`9`, `+`, `/`.
pub open spec fn alphabet(i: int) -> char {
    if i < 26 {
        (65 + i) as char
    } else if i < 52 {
        (97 + (i - 26)) as char
    } else if i < 62 {
        (48 + (i - 52)) as char
    } else if i == 62 {
        '+'
    } else {
        '/'
    }
}

/// Four output characters for a group of up to three bytes (`n` of them real,
/// the others taken as zero); missing bytes show as `=`.
pub open spec fn group(b0: int, b1: int, b2: int, n: int) -> Seq<char> {
    seq![
        alphabet(b0 / 4),
        alphabet((b0 % 4) * 16 + b1 / 16),
        if n > 1 { alphabet((b1 % 16) * 4 + b2 / 64) } else { '=' },
        if n > 2 { alphabet(b2 % 64) } else { '=' },
    ]
}

pub open spec fn base64(data: Seq<u8>) -> Seq<char>
    decreases data.len(),
{
    if data.len() == 0 {
        seq![]
    } else if data.len() >= 3 {
        group(data[0] as int, data[1] as int, data[2] as int, 3) + base64(data.skip(3))
    } else if data.len() == 2 {
        group(data[0] as int, data[1] as int, 0, 2)
    } else {
        group(data[0] as int, 0, 0, 1)
    }
}

fn alphabet_char(i: u8) -> (c: char)
    requires
        i < 64,
    ensures
        c == alphabet(i as int),
{
    if i < 26 {
        (65 + i) as char
    } else if i < 52 {
        (97 + (i - 26)) as char
    } else if i < 62 {
        (48 + (i - 52)) as char
    } else if i == 62 {
        '+'
    } else {
        '/'
    }
}

/// Base64 text of `data` (see `base64`).
pub fn base64_encode(data: &[u8]) -> (r: String)
    ensures
        r@ == base64(data@),
{
    let mut out: Vec<char> = Vec::new();
    let mut i: usize = 0;
    proof {
        assert(data@.skip(0) =~= data@);
    }
    while i < data.len()
        invariant
            i <= data.len(),
            base64(data@) == out@ + base64(data@.skip(i as int)),
        decreases data.len() - i,
    {
        let n = data.len() - i;
        let b0 = data[i];
        let b1 = if n > 1 { data[i + 1] } else { 0 };
        let b2 = if n > 2 { data[i + 2] } else { 0 };
        let ghost rest = data@.skip(i as int);
        let ghost start = out@;
        out.push(alphabet_char(b0 / 4));
        out.push(alphabet_char((b0 % 4) * 16 + b1 / 16));
        out.push(if n > 1 { alphabet_char((b1 % 16) * 4 + b2 / 64) } else { '=' });
        out.push(if n > 2 { alphabet_char(b2 % 64) } else { '=' });
        proof {
            assert(out@ =~= start + group(b0 as int, b1 as int, b2 as int, if n >= 3 { 3 } else { n as int }));
            assert(rest[0] == b0);
            if n >= 3 {
                assert(rest[1] == b1 && rest[2] == b2);
                assert(rest.skip(3) =~= data@.skip(i + 3));
            } else if n == 2 {
                assert(rest[1] == b1);
                assert(data@.skip(data.len() as int) =~= Seq::<u8>::empty());
            } else {
                assert(data@.skip(data.len() as int) =~= Seq::<u8>::empty());
            }
        }
        i = if n >= 3 { i + 3 } else { data.len() };
    }
    proof {
        assert(data@.skip(i as int) =~= Seq::<u8>::empty());
        assert(out@ + Seq::<char>::empty() =~= out@);
    }
    string_of(out.as_slice())
}

/// Every three input bytes, and a final one or two, become four characters:
/// the text is `4 * ceil(n / 3)` long.
pub proof fn lemma_base64_length(data: Seq<u8>)
    ensures
        base64(data).len() == 4 * ((data.len() + 2) / 3),
    decreases data.len(),
{
    if data.len() >= 3 {
        lemma_base64_length(data.skip(3));
    }
}

/// Padding appears only at the very end: any `=` is one of the last two
/// characters, and it appears exactly when the input length is not a multiple
/// of three.
pub proof fn lemma_base64_padding(data: Seq<u8>)
    ensures
        forall|i: int| 0 <= i < base64(data).len() && base64(data)[i] == '=' ==> i >= base64(data).len() - 2,
        data.len() % 3 == 0 <==> forall|i: int| 0 <= i < base64(data).len() ==> base64(data)[i] != '=',
    decreases data.len(),
{
    lemma_base64_length(data);
    if data.len() >= 3 {
        let g = group(data[0] as int, data[1] as int, data[2] as int, 3);
        let rest = base64(data.skip(3));
        lemma_base64_padding(data.skip(3));
        lemma_alphabet_is_not_padding(data[0] as int / 4);
        lemma_alphabet_is_not_padding((data[0] as int % 4) * 16 + data[1] as int / 16);
        lemma_alphabet_is_not_padding((data[1] as int % 16) * 4 + data[2] as int / 64);
        lemma_alphabet_is_not_padding(data[2] as int % 64);
        assert(base64(data) == g + rest);
        assert forall|i: int| 0 <= i < base64(data).len() && base64(data)[i] == '=' implies i >= base64(data).len() - 2 by {
            if i >= 4 {
                assert(base64(data)[i] == rest[i - 4]);
            }
        }
        if data.len() % 3 == 0 {
            assert forall|i: int| 0 <= i < base64(data).len() implies base64(data)[i] != '=' by {
                if i >= 4 {
                    assert(base64(data)[i] == rest[i - 4]);
                }
            }
        } else {
            let j = choose|j: int| 0 <= j < rest.len() && rest[j] == '=';
            assert(base64(data)[j + 4] == '=');
        }
    } else if data.len() == 2 {
        lemma_alphabet_is_not_padding(data[0] as int / 4);
        lemma_alphabet_is_not_padding((data[0] as int % 4) * 16 + data[1] as int / 16);
        lemma_alphabet_is_not_padding((data[1] as int % 16) * 4);
        assert(base64(data)[3] == '=');
    } else if data.len() == 1 {
        lemma_alphabet_is_not_padding(data[0] as int / 4);
        lemma_alphabet_is_not_padding((data[0] as int % 4) * 16);
        assert(base64(data)[3] == '=');
    }
}

proof fn lemma_alphabet_is_not_padding(i: int)
    requires
        0 <= i < 64,
    ensures
        alphabet(i) != '=',
{
}

/// A PNG thumbnail as a data URL for the interface; an empty image is an error.
pub open spec fn thumbnail_url(png: Seq<u8>) -> Result<Seq<char>, Seq<char>> {
    if png.len() == 0 {
        Err("no output"@)
    } else {
        Ok("data:image/png;base64,"@ + base64(png))
    }
}

pub fn thumbnail_data_url(png: &[u8]) -> (r: Result<String, String>)
    ensures
        match r {
            Ok(s) => thumbnail_url(png@) == Ok::<Seq<char>, Seq<char>>(s@),
            Err(e) => thumbnail_url(png@) == Err::<Seq<char>, Seq<char>>(e@),
        },
{
    if png.len() == 0 {
        return Err(owned("no output"));
    }
    let encoded = base64_encode(png);
    let mut v = chars_of("data:image/png;base64,");
    append_chars(&mut v, chars_of(encoded.as_str()).as_slice());
    Ok(string_of(v.as_slice()))
}

// ── Decoding, and the laws that tie it to encoding ──────────────────────────

/// A character of the base64 alphabet (`=` is not one).
pub open spec fn is_alphabet_char(c: char) -> bool {
    let u = c as u32;
    (65 <= u <= 90) || (97 <= u <= 122) || (48 <= u <= 57) || c == '+' || c == '/'
}

/// The 6-bit value of an alphabet character.
pub open spec fn sextet(c: char) -> int {
    let u = c as u32;
    if 65 <= u <= 90 {
        u - 65
    } else if 97 <= u <= 122 {
        u - 71
    } else if 48 <= u <= 57 {
        u + 4
    } else if c == '+' {
        62
    } else {
        63
    }
}

/// The bytes of one group of four characters, as RFC 4648 decodes them: a `=`
/// in third place leaves one byte, in fourth place two.
pub open spec fn decode_group(g: Seq<char>) -> Seq<u8> {
    let v0 = sextet(g[0]);
    let v1 = sextet(g[1]);
    let v2 = sextet(g[2]);
    let v3 = sextet(g[3]);
    let b0 = (v0 * 4 + v1 / 16) as u8;
    let b1 = ((v1 % 16) * 16 + v2 / 4) as u8;
    let b2 = ((v2 % 4) * 64 + v3) as u8;
    if g[2] == '=' {
        seq![b0]
    } else if g[3] == '=' {
        seq![b0, b1]
    } else {
        seq![b0, b1, b2]
    }
}

/// RFC 4648 decoding of a padded text, group by group.
pub open spec fn base64_decode(s: Seq<char>) -> Seq<u8>
    decreases s.len(),
{
    if s.len() < 4 {
        seq![]
    } else {
        decode_group(s.take(4)) + base64_decode(s.skip(4))
    }
}

proof fn lemma_alphabet_inverse(i: int)
    requires
        0 <= i < 64,
    ensures
        is_alphabet_char(alphabet(i)),
        sextet(alphabet(i)) == i,
        alphabet(i) != '=',
{
}

proof fn lemma_byte_split(b0: u8, b1: u8, b2: u8)
    ensures
        (b0 / 4) * 4 + ((b0 % 4) * 16 + b1 / 16) / 16 == b0,
        (((b0 % 4) * 16 + b1 / 16) % 16) * 16 + ((b1 % 16) * 4 + b2 / 64) / 4 == b1,
        (((b1 % 16) * 4 + b2 / 64) % 4) * 64 + b2 % 64 == b2,
        (b0 % 4) * 16 + b1 / 16 < 64,
        (b1 % 16) * 4 + b2 / 64 < 64,
{
    assert((b0 / 4) * 4 + ((b0 % 4) * 16 + b1 / 16) / 16 == b0) by (bit_vector);
    assert((((b0 % 4) * 16 + b1 / 16) % 16) * 16 + ((b1 % 16) * 4 + b2 / 64) / 4 == b1) by (bit_vector);
    assert((((b1 % 16) * 4 + b2 / 64) % 4) * 64 + b2 % 64 == b2) by (bit_vector);
    assert((b0 % 4) * 16 + b1 / 16 < 64) by (bit_vector);
    assert((b1 % 16) * 4 + b2 / 64 < 64) by (bit_vector);
}

proof fn lemma_group_decodes(b0: u8, b1: u8, b2: u8, n: int)
    requires
        1 <= n <= 3,
        n < 3 ==> b2 == 0,
        n < 2 ==> b1 == 0,
    ensures
        decode_group(group(b0 as int, b1 as int, b2 as int, n)) == seq![b0, b1, b2].take(n),
        forall|i: int| 0 <= i < 4 ==> is_alphabet_char(#[trigger] group(b0 as int, b1 as int, b2 as int, n)[i])
            || group(b0 as int, b1 as int, b2 as int, n)[i] == '=',
{
    lemma_byte_split(b0, b1, b2);
    let i1 = (b0 as int % 4) * 16 + b1 as int / 16;
    let i2 = (b1 as int % 16) * 4 + b2 as int / 64;
    lemma_alphabet_inverse(b0 as int / 4);
    lemma_alphabet_inverse(i1);
    lemma_alphabet_inverse(i2);
    lemma_alphabet_inverse(b2 as int % 64);
    let g = group(b0 as int, b1 as int, b2 as int, n);
    assert(decode_group(g) =~= seq![b0, b1, b2].take(n));
}

/// Encoding then decoding gives the bytes back, and the text holds only
/// alphabet characters and `=`.
pub proof fn lemma_base64_decodes(data: Seq<u8>)
    ensures
        base64_decode(base64(data)) == data,
        forall|i: int| 0 <= i < base64(data).len() ==> is_alphabet_char(#[trigger] base64(data)[i])
            || base64(data)[i] == '=',
    decreases data.len(),
{
    let e = base64(data);
    if data.len() == 0 {
        assert(base64_decode(e) =~= data);
    } else {
        let n = if data.len() >= 3 { 3int } else { data.len() as int };
        let b0 = data[0];
        let b1: u8 = if n > 1 { data[1] } else { 0 };
        let b2: u8 = if n > 2 { data[2] } else { 0 };
        let g = group(b0 as int, b1 as int, b2 as int, n);
        let rest = if n == 3 { data.skip(3) } else { Seq::<u8>::empty() };
        assert(base64(Seq::<u8>::empty()) =~= Seq::<char>::empty());
        assert(e == g + base64(rest));
        lemma_base64_decodes(rest);
        lemma_group_decodes(b0, b1, b2, n);
        assert(e.take(4) =~= g);
        assert(e.skip(4) =~= base64(rest));
        assert(base64_decode(e) == decode_group(g) + base64_decode(base64(rest)));
        assert(seq![b0, b1, b2].take(n) + rest =~= data);
        assert forall|i: int| 0 <= i < e.len() implies is_alphabet_char(#[trigger] e[i]) || e[i] == '=' by {
            if i < 4 {
                assert(e[i] == g[i]);
            } else {
                assert(e[i] == base64(rest)[i - 4]);
            }
        }
    }
}

/// Over whole groups of three bytes, encoding is piecewise: the text of `a`
/// followed by `b` is the text of `a` followed by the text of `b`.
pub proof fn lemma_base64_concatenates(a: Seq<u8>, b: Seq<u8>)
    requires
        a.len() % 3 == 0,
    ensures
        base64(a + b) == base64(a) + base64(b),
    decreases a.len(),
{
    if a.len() == 0 {
        assert(a + b =~= b);
        assert(base64(a) + base64(b) =~= base64(b));
    } else {
        let ab = a + b;
        assert(ab[0] == a[0] && ab[1] == a[1] && ab[2] == a[2]);
        assert(ab.skip(3) =~= a.skip(3) + b);
        lemma_base64_concatenates(a.skip(3), b);
        let g = group(a[0] as int, a[1] as int, a[2] as int, 3);
        assert(base64(ab) == g + base64(a.skip(3) + b));
        assert(base64(a) == g + base64(a.skip(3)));
        assert(g + (base64(a.skip(3)) + base64(b)) =~= (g + base64(a.skip(3))) + base64(b));
    }
}

/// A thumbnail is offered as a PNG data URL whose payload decodes back to the
/// image; an empty image is refused with `no output`.
pub proof fn lemma_thumbnail_url(png: Seq<u8>)
    ensures
        png.len() == 0 ==> thumbnail_url(png) == Err::<Seq<char>, Seq<char>>("no output"@),
        png.len() > 0 ==> (thumbnail_url(png) matches Ok(url) && url.take(22) == "data:image/png;base64,"@ && base64_decode(
            url.skip(22),
        ) == png),
{
    reveal_strlit("data:image/png;base64,");
    if png.len() > 0 {
        let url = "data:image/png;base64,"@ + base64(png);
        assert(url.take(22) =~= "data:image/png;base64,"@);
        assert(url.skip(22) =~= base64(png));
        lemma_base64_decodes(png);
    }
}

} // verus!
