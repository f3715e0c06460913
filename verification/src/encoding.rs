//! Byte encodings: Base64 for image payloads, the cover cache file name
//! (a djb2 hash in hexadecimal) and URL percent-encoding.

use vstd::prelude::*;
use crate::text::string_push;
use vstd::string::StringSliceAdditionalSpecFns;

verus! {

/// The Base64 alphabet symbol for a 6-bit value.
pub open spec fn b64_symbol(v: nat) -> char {
    if v < 26 {
        ((65 + v) as u8) as char
    } else if v < 52 {
        ((97 + (v - 26)) as u8) as char
    } else if v < 62 {
        ((48 + (v - 52)) as u8) as char
    } else if v == 62 {
        '+'
    } else {
        '/'
    }
}

/// The four Base64 characters for a group of one to three bytes, padded
/// with `=`.
pub open spec fn b64_group(g: Seq<u8>) -> Seq<char> {
    let b0 = g[0] as nat;
    let b1 = if g.len() > 1 { g[1] as nat } else { 0nat };
    let b2 = if g.len() > 2 { g[2] as nat } else { 0nat };
    seq![
        b64_symbol(b0 / 4),
        b64_symbol((b0 % 4) * 16 + b1 / 16),
        if g.len() > 1 { b64_symbol((b1 % 16) * 4 + b2 / 64) } else { '=' },
        if g.len() > 2 { b64_symbol(b2 % 64) } else { '=' },
    ]
}

/// Standard padded Base64 of `s`.
pub open spec fn base64(s: Seq<u8>) -> Seq<char>
    decreases s.len(),
{
    if s.len() == 0 {
        Seq::empty()
    } else if s.len() <= 3 {
        b64_group(s)
    } else {
        b64_group(s.take(3)) + base64(s.skip(3))
    }
}

/// The 6-bit value of a Base64 alphabet symbol (0 for any other character).
pub open spec fn b64_value(c: char) -> nat {
    if 'A' <= c && c <= 'Z' {
        (c as int - 65) as nat
    } else if 'a' <= c && c <= 'z' {
        (c as int - 97 + 26) as nat
    } else if '0' <= c && c <= '9' {
        (c as int - 48 + 52) as nat
    } else if c == '+' {
        62
    } else if c == '/' {
        63
    } else {
        0
    }
}

/// The bytes a group of four Base64 characters stands for: three, or fewer
/// where the group ends in padding.
pub open spec fn b64_group_bytes(q: Seq<char>) -> Seq<u8> {
    let v0 = b64_value(q[0]);
    let v1 = b64_value(q[1]);
    let v2 = b64_value(q[2]);
    let v3 = b64_value(q[3]);
    let b0 = (v0 * 4 + v1 / 16) as u8;
    let b1 = ((v1 % 16) * 16 + v2 / 4) as u8;
    let b2 = ((v2 % 4) * 64 + v3) as u8;
    if q[2] == '=' {
        seq![b0]
    } else if q[3] == '=' {
        seq![b0, b1]
    } else {
        seq![b0, b1, b2]
    }
}

/// Standard padded Base64 decoding, four characters at a time.
pub open spec fn base64_decoded(s: Seq<char>) -> Seq<u8>
    decreases s.len(),
{
    if s.len() < 4 {
        Seq::empty()
    } else {
        b64_group_bytes(s.take(4)) + base64_decoded(s.skip(4))
    }
}

proof fn lemma_b64_symbol(v: nat)
    requires
        v < 64,
    ensures
        b64_value(b64_symbol(v)) == v,
        b64_symbol(v) != '=',
{
    if v < 26 {
        assert(((65 + v) as u8) as char as int == 65 + v);
    } else if v < 52 {
        assert(((97 + (v - 26)) as u8) as char as int == 97 + (v - 26));
    } else if v < 62 {
        assert(((48 + (v - 52)) as u8) as char as int == 48 + (v - 52));
    }
}

proof fn lemma_b64_group(g: Seq<u8>)
    requires
        1 <= g.len() <= 3,
    ensures
        b64_group_bytes(b64_group(g)) == g,
        b64_group(g).len() == 4,
{
    let b0 = g[0] as nat;
    let b1 = if g.len() > 1 { g[1] as nat } else { 0nat };
    let b2 = if g.len() > 2 { g[2] as nat } else { 0nat };
    let v0 = b0 / 4;
    let v1 = (b0 % 4) * 16 + b1 / 16;
    let v2 = (b1 % 16) * 4 + b2 / 64;
    let v3 = b2 % 64;
    assert(v0 < 64 && v1 < 64 && v2 < 64 && v3 < 64) by (nonlinear_arith)
        requires b0 < 256, b1 < 256, b2 < 256, v0 == b0 / 4, v1 == (b0 % 4) * 16 + b1 / 16,
            v2 == (b1 % 16) * 4 + b2 / 64, v3 == b2 % 64;
    lemma_b64_symbol(v0);
    lemma_b64_symbol(v1);
    lemma_b64_symbol(v2);
    lemma_b64_symbol(v3);
    assert(v0 * 4 + v1 / 16 == b0 && (v1 % 16) * 16 + v2 / 4 == b1 && (v2 % 4) * 64 + v3 == b2) by (nonlinear_arith)
        requires b0 < 256, b1 < 256, b2 < 256, v0 == b0 / 4, v1 == (b0 % 4) * 16 + b1 / 16,
            v2 == (b1 % 16) * 4 + b2 / 64, v3 == b2 % 64;
    let q = b64_group(g);
    assert(b64_group_bytes(q) =~= g);
}

/// Decoding the standard Base64 of any bytes gives the bytes back, and the
/// text is four characters for every started group of three bytes.
#[verifier::spinoff_prover]
#[verifier::rlimit(40)]
pub proof fn lemma_base64_round_trip(s: Seq<u8>)
    ensures
        base64_decoded(base64(s)) == s,
        base64(s).len() == 4 * ((s.len() + 2) / 3),
    decreases s.len(),
{
    if s.len() == 0 {
    } else if s.len() <= 3 {
        lemma_b64_group(s);
        let e = base64(s);
        assert(e.take(4) =~= e);
        assert(e.skip(4) =~= Seq::<char>::empty());
        assert(base64_decoded(e.skip(4)) =~= Seq::<u8>::empty());
        assert(base64_decoded(e) =~= s);
    } else {
        let head = s.take(3);
        let tail = s.skip(3);
        lemma_b64_group(head);
        lemma_base64_round_trip(tail);
        let g = b64_group(head);
        let e = base64(s);
        assert(e == g + base64(tail));
        assert(e.take(4) =~= g);
        assert(e.skip(4) =~= base64(tail));
        assert(base64_decoded(e) == head + tail);
        assert(head + tail =~= s);
    }
}

/// The characters of a standard Base64 text: alphabet symbols, then `=`
/// padding exactly where the last group of bytes falls short of three.
pub proof fn lemma_base64_padding(s: Seq<u8>)
    ensures
        forall|i: int| 0 <= i < base64(s).len() ==> (#[trigger] base64(s)[i] == '=') == (i >= base64(s).len() - (3 - s.len() % 3) % 3),
    decreases s.len(),
{
    lemma_base64_round_trip(s);
    if s.len() == 0 {
    } else if s.len() <= 3 {
        let b0 = s[0] as nat;
        let b1 = if s.len() > 1 { s[1] as nat } else { 0nat };
        let b2 = if s.len() > 2 { s[2] as nat } else { 0nat };
        assert(b0 / 4 < 64 && (b0 % 4) * 16 + b1 / 16 < 64 && (b1 % 16) * 4 + b2 / 64 < 64 && b2 % 64 < 64) by (nonlinear_arith)
            requires b0 < 256, b1 < 256, b2 < 256;
        lemma_b64_symbol(b0 / 4);
        lemma_b64_symbol((b0 % 4) * 16 + b1 / 16);
        lemma_b64_symbol((b1 % 16) * 4 + b2 / 64);
        lemma_b64_symbol(b2 % 64);
    } else {
        let head = s.take(3);
        let tail = s.skip(3);
        lemma_base64_padding(tail);
        lemma_base64_round_trip(tail);
        let b0 = head[0] as nat;
        let b1 = head[1] as nat;
        let b2 = head[2] as nat;
        assert(b0 / 4 < 64 && (b0 % 4) * 16 + b1 / 16 < 64 && (b1 % 16) * 4 + b2 / 64 < 64 && b2 % 64 < 64) by (nonlinear_arith)
            requires b0 < 256, b1 < 256, b2 < 256;
        lemma_b64_symbol(b0 / 4);
        lemma_b64_symbol((b0 % 4) * 16 + b1 / 16);
        lemma_b64_symbol((b1 % 16) * 4 + b2 / 64);
        lemma_b64_symbol(b2 % 64);
        let g = b64_group(head);
        let e = base64(s);
        assert(e == g + base64(tail));
        assert(tail.len() % 3 == s.len() % 3);
        assert forall|i: int| 0 <= i < e.len() implies (#[trigger] e[i] == '=') == (i >= e.len() - (3 - s.len() % 3) % 3) by {
            if i < 4 {
                assert(e[i] == g[i]);
            } else {
                assert(e[i] == base64(tail)[i - 4]);
            }
        }
    }
}

fn symbol(v: u8) -> (c: char)
    requires
        v < 64,
    ensures
        c == b64_symbol(v as nat),
{
    if v < 26 {
        (65u8 + v) as char
    } else if v < 52 {
        (97u8 + (v - 26)) as char
    } else if v < 62 {
        (48u8 + (v - 52)) as char
    } else if v == 62 {
        '+'
    } else {
        '/'
    }
}

/// Encodes `input` as standard padded Base64.
pub fn b64(input: &[u8]) -> (out: String)
    ensures
        out@ == base64(input@),
{
    let n = input.len();
    let mut out = String::new();
    let mut i: usize = 0;
    assert(input@.skip(0) =~= input@);
    assert(out@ + base64(input@) =~= base64(input@));
    while i < n
        invariant
            n == input@.len(),
            i <= n,
            out@ + base64(input@.skip(i as int)) == base64(input@),
        decreases n - i,
    {
        let rest = n - i;
        let b0 = input[i];
        let b1: u8 = if rest > 1 { input[i + 1] } else { 0 };
        let b2: u8 = if rest > 2 { input[i + 2] } else { 0 };
        let ghost tail = input@.skip(i as int);
        let ghost group = if rest > 3 { tail.take(3) } else { tail };
        assert(group[0] == b0);
        assert(group.len() > 1 ==> group[1] == b1);
        assert(group.len() > 2 ==> group[2] == b2);
        string_push(&mut out, symbol(b0 / 4));
        string_push(&mut out, symbol((b0 % 4) * 16 + b1 / 16));
        if rest > 1 {
            string_push(&mut out, symbol((b1 % 16) * 4 + b2 / 64));
        } else {
            string_push(&mut out, '=');
        }
        if rest > 2 {
            string_push(&mut out, symbol(b2 % 64));
        } else {
            string_push(&mut out, '=');
        }
        let step: usize = if rest > 3 { 3 } else { rest };
        proof {
            if rest > 3 {
                assert(tail.skip(3) =~= input@.skip(i + 3));
            } else {
                assert(input@.skip(i + rest) =~= Seq::<u8>::empty());
            }
        }
        i = i + step;
    }
    assert(input@.skip(n as int) =~= Seq::<u8>::empty());
    out
}

/// The djb2 hash of `s` (start 5381, multiply by 33 and add each byte,
/// wrapping at 64 bits).
pub open spec fn djb2(s: Seq<u8>) -> u64
    decreases s.len(),
{
    if s.len() == 0 {
        5381
    } else {
        vstd::wrapping::u64_specs::wrapping_add(
            vstd::wrapping::u64_specs::wrapping_mul(djb2(s.drop_last()), 33),
            s.last() as u64,
        )
    }
}

/// The lower-case hexadecimal digit for `d` (expected `d < 16`).
pub open spec fn hex_lower(d: nat) -> char {
    if d < 10 {
        ((48 + d) as u8) as char
    } else {
        ((87 + d) as u8) as char
    }
}

/// The last `n` lower-case hexadecimal digits of `h`, zero-padded.
pub open spec fn hex_digits(h: nat, n: nat) -> Seq<char>
    decreases n,
{
    if n == 0 {
        Seq::empty()
    } else {
        hex_digits(h / 16, (n - 1) as nat).push(hex_lower(h % 16))
    }
}

/// The name under which the cover cache stores the image fetched from a URL
/// whose UTF-8 bytes are `url`.
pub open spec fn cover_file_name(url: Seq<u8>) -> Seq<char> {
    hex_digits(djb2(url) as nat, 16) + seq!['.', 'b', 'i', 'n']
}

fn push_hex(out: &mut String, h: u64, n: u64)
    ensures
        final(out)@ == old(out)@ + hex_digits(h as nat, n as nat),
    decreases n,
{
    if n > 0 {
        push_hex(out, h / 16, n - 1);
        let d = (h % 16) as u8;
        let c = if d < 10 { (48u8 + d) as char } else { (87u8 + d) as char };
        string_push(out, c);
        assert(hex_digits(h as nat, n as nat) == hex_digits((h / 16) as nat, (n - 1) as nat).push(hex_lower((h % 16) as nat)));
    } else {
        assert(hex_digits(h as nat, 0) =~= Seq::<char>::empty());
        assert(final(out)@ =~= old(out)@ + hex_digits(h as nat, n as nat));
    }
}

/// The file name for the cached cover of `url`: the djb2 hash of its bytes as
/// sixteen hexadecimal digits, then `.bin`.
pub fn cover_cache_file_name(url: &str) -> (name: String)
    ensures
        name@ == cover_file_name(url.spec_bytes()),
{
    let bytes = url.as_bytes();
    let mut h: u64 = 5381;
    let mut i: usize = 0;
    while i < bytes.len()
        invariant
            bytes@ == url.spec_bytes(),
            i <= bytes.len(),
            h == djb2(bytes@.take(i as int)),
        decreases bytes.len() - i,
    {
        assert(bytes@.take(i + 1).drop_last() =~= bytes@.take(i as int));
        h = h.wrapping_mul(33).wrapping_add(bytes[i] as u64);
        i = i + 1;
    }
    assert(bytes@.take(i as int) =~= bytes@);
    let mut name = String::new();
    push_hex(&mut name, h, 16);
    string_push(&mut name, '.');
    string_push(&mut name, 'b');
    string_push(&mut name, 'i');
    string_push(&mut name, 'n');
    assert(name@ =~= cover_file_name(url.spec_bytes()));
    name
}

/// Bytes that URL percent-encoding leaves as they are: ASCII letters and
/// digits and `-`, `.`, `_`, `~`.
pub open spec fn url_unreserved(b: u8) -> bool {
    ||| 48 <= b <= 57
    ||| 65 <= b <= 90
    ||| 97 <= b <= 122
    ||| b == 45
    ||| b == 46
    ||| b == 95
    ||| b == 126
}

/// The upper-case hexadecimal digit for `d` (expected `d < 16`).
pub open spec fn hex_upper(d: nat) -> char {
    if d < 10 {
        ((48 + d) as u8) as char
    } else {
        ((55 + d) as u8) as char
    }
}

/// Percent-encoding of a byte string: unreserved bytes stay, every other
/// byte becomes `%` and two upper-case hexadecimal digits.
pub open spec fn percent_encoded(bytes: Seq<u8>) -> Seq<char>
    decreases bytes.len(),
{
    if bytes.len() == 0 {
        Seq::empty()
    } else {
        let b = bytes.last();
        percent_encoded(bytes.drop_last()) + if url_unreserved(b) {
            seq![b as char]
        } else {
            seq!['%', hex_upper(b as nat / 16), hex_upper(b as nat % 16)]
        }
    }
}

/// Percent-encodes the UTF-8 bytes of `s` (`urlencoding::encode`): every byte
/// except ASCII letters, digits and `-` `.` `_` `~` becomes `%XX` with
/// upper-case hexadecimal digits.
#[verifier::external_body]
pub(crate) fn url_encode(s: &str) -> (r: String)
    ensures
        r@ == percent_encoded(s.spec_bytes()),
{
    urlencoding::encode(s).into_owned()
}

} // verus!
