//! Bytes as text: percent-encoding, hexadecimal and base64.

use vstd::prelude::*;
use vstd::utf8::*;

verus! {

// -- hexadecimal -------------------------------------------------------------

/// The hexadecimal digit of a number below sixteen, in upper or lower case.
pub open spec fn hex_digit(d: int, upper: bool) -> char {
    if d < 10 {
        (('0' as u32 + d) as u32) as char
    } else if upper {
        (('A' as u32 + d - 10) as u32) as char
    } else {
        (('a' as u32 + d - 10) as u32) as char
    }
}

/// The number that a hexadecimal digit denotes.
pub open spec fn hex_value(c: char) -> int {
    if '0' <= c <= '9' {
        c as u32 - '0' as u32
    } else if 'A' <= c <= 'F' {
        c as u32 - 'A' as u32 + 10
    } else {
        c as u32 - 'a' as u32 + 10
    }
}

fn hex_char(d: u8, upper: bool) -> (r: char)
    requires
        d < 16,
    ensures
        r == hex_digit(d as int, upper),
{
    match d {
        0 => '0',
        1 => '1',
        2 => '2',
        3 => '3',
        4 => '4',
        5 => '5',
        6 => '6',
        7 => '7',
        8 => '8',
        9 => '9',
        10 => if upper { 'A' } else { 'a' },
        11 => if upper { 'B' } else { 'b' },
        12 => if upper { 'C' } else { 'c' },
        13 => if upper { 'D' } else { 'd' },
        14 => if upper { 'E' } else { 'e' },
        _ => if upper { 'F' } else { 'f' },
    }
}

/// Two lower-case hexadecimal digits for each byte.
pub open spec fn hex(bytes: Seq<u8>) -> Seq<char>
    decreases bytes.len(),
{
    if bytes.len() == 0 {
        seq![]
    } else {
        hex(bytes.drop_last()) + seq![
            hex_digit(bytes.last() as int / 16, false),
            hex_digit(bytes.last() as int % 16, false),
        ]
    }
}

pub fn hex_text(bytes: &Vec<u8>) -> (r: String)
    ensures
        r@ == hex(bytes@),
{
    let mut out = String::new();
    let mut i: usize = 0;
    assert(bytes@.take(0) == Seq::<u8>::empty());
    while i < bytes.len()
        invariant
            i <= bytes@.len(),
            out@ == hex(bytes@.take(i as int)),
        decreases bytes@.len() - i,
    {
        let b = bytes[i];
        let ghost before = out@;
        out.push(hex_char(b / 16, false));
        out.push(hex_char(b % 16, false));
        assert(bytes@.take(i + 1).drop_last() == bytes@.take(i as int));
        assert(out@ == before + seq![
            hex_digit(b as int / 16, false),
            hex_digit(b as int % 16, false),
        ]);
        i = i + 1;
    }
    assert(bytes@.take(i as int) == bytes@);
    out
}

/// Each byte is written as two hexadecimal digits in lower case.
pub proof fn hex_is_digits(bytes: Seq<u8>)
    ensures
        hex(bytes).len() == 2 * bytes.len(),
        forall|i: int|
            0 <= i < hex(bytes).len() ==> '0' <= (#[trigger] hex(bytes)[i]) <= '9' || 'a'
                <= hex(bytes)[i] <= 'f',
    decreases bytes.len(),
{
    if bytes.len() > 0 {
        hex_is_digits(bytes.drop_last());
    }
}

// -- percent-encoding ----------------------------------------------------------

/// The bytes that percent-encoding leaves as they are: ASCII letters and digits, `-` and
/// `_`, and with `dots` also `.` and `~`.
pub open spec fn kept(b: u8, dots: bool) -> bool {
    let c = b as char;
    ||| 'A' <= c <= 'Z'
    ||| 'a' <= c <= 'z'
    ||| '0' <= c <= '9'
    ||| c == '-'
    ||| c == '_'
    ||| dots && (c == '.' || c == '~')
}

/// A byte that is kept as the character it is, any other one as `%` and two upper-case
/// hexadecimal digits.
pub open spec fn percent_byte(b: u8, dots: bool) -> Seq<char> {
    if kept(b, dots) {
        seq![b as char]
    } else {
        seq!['%', hex_digit(b as int / 16, true), hex_digit(b as int % 16, true)]
    }
}

pub open spec fn percent(bytes: Seq<u8>, dots: bool) -> Seq<char>
    decreases bytes.len(),
{
    if bytes.len() == 0 {
        seq![]
    } else {
        percent_byte(bytes[0], dots) + percent(bytes.skip(1), dots)
    }
}

/// The bytes that percent-encoded text stands for.
pub open spec fn percent_decode(s: Seq<char>) -> Seq<u8>
    decreases s.len(),
{
    if s.len() == 0 {
        seq![]
    } else if s[0] == '%' && s.len() >= 3 {
        seq![(hex_value(s[1]) * 16 + hex_value(s[2])) as u8] + percent_decode(s.skip(3))
    } else {
        seq![s[0] as u8] + percent_decode(s.skip(1))
    }
}

pub fn percent_text(bytes: &[u8], dots: bool) -> (r: String)
    ensures
        r@ == percent(bytes@, dots),
{
    let mut out = String::new();
    let mut i: usize = 0;
    assert(bytes@.skip(0) == bytes@);
    assert(out@ + percent(bytes@, dots) == percent(bytes@, dots));
    while i < bytes.len()
        invariant
            i <= bytes@.len(),
            out@ + percent(bytes@.skip(i as int), dots) == percent(bytes@, dots),
        decreases bytes@.len() - i,
    {
        let b = bytes[i];
        let ghost before = out@;
        let ghost rest = bytes@.skip(i as int);
        assert(rest[0] == b);
        assert(rest.skip(1) == bytes@.skip(i + 1));
        let c = b as char;
        if ('A' <= c && c <= 'Z') || ('a' <= c && c <= 'z') || ('0' <= c && c <= '9') || c == '-'
            || c == '_' || (dots && (c == '.' || c == '~')) {
            out.push(c);
            assert(out@ == before + percent_byte(b, dots));
        } else {
            out.push('%');
            out.push(hex_char(b / 16, true));
            out.push(hex_char(b % 16, true));
            assert(out@ == before + percent_byte(b, dots));
        }
        assert(before + (percent_byte(b, dots) + percent(rest.skip(1), dots)) == out@ + percent(
            rest.skip(1),
            dots,
        ));
        i = i + 1;
    }
    assert(bytes@.skip(i as int) == Seq::<u8>::empty());
    assert(out@ + percent(Seq::<u8>::empty(), dots) == out@);
    out
}

/// Decoding percent-encoded bytes gives the bytes.
pub proof fn percent_roundtrip(bytes: Seq<u8>, dots: bool)
    ensures
        percent_decode(percent(bytes, dots)) == bytes,
    decreases bytes.len(),
{
    if bytes.len() > 0 {
        let b = bytes[0];
        let head = percent_byte(b, dots);
        let tail = percent(bytes.skip(1), dots);
        percent_roundtrip(bytes.skip(1), dots);
        assert(percent(bytes, dots) == head + tail);
        if kept(b, dots) {
            assert((head + tail).skip(1) == tail);
            assert((head + tail)[0] == b as char);
        } else {
            assert((head + tail).skip(3) == tail);
            let hi = b as int / 16;
            let lo = b as int % 16;
            assert(hex_value(hex_digit(hi, true)) == hi);
            assert(hex_value(hex_digit(lo, true)) == lo);
        }
        assert(seq![b] + bytes.skip(1) == bytes);
    }
}

/// Distinct texts have distinct percent-encodings.
pub proof fn percent_injective(a: Seq<char>, b: Seq<char>, dots: bool)
    requires
        percent(encode_utf8(a), dots) == percent(encode_utf8(b), dots),
    ensures
        a == b,
{
    percent_roundtrip(encode_utf8(a), dots);
    percent_roundtrip(encode_utf8(b), dots);
    encode_utf8_decode_utf8(a);
    encode_utf8_decode_utf8(b);
}

/// Percent-encoded text holds ASCII letters, digits, `-`, `_` and `%` alone, and with
/// `dots` also `.` and `~`.
pub proof fn percent_alphabet(bytes: Seq<u8>, dots: bool)
    ensures
        forall|i: int|
            0 <= i < percent(bytes, dots).len() ==> {
                let c = #[trigger] percent(bytes, dots)[i];
                ||| 'A' <= c <= 'Z'
                ||| 'a' <= c <= 'z'
                ||| '0' <= c <= '9'
                ||| c == '-'
                ||| c == '_'
                ||| c == '%'
                ||| dots && (c == '.' || c == '~')
            },
    decreases bytes.len(),
{
    if bytes.len() > 0 {
        percent_alphabet(bytes.skip(1), dots);
        let head = percent_byte(bytes[0], dots);
        let tail = percent(bytes.skip(1), dots);
        assert forall|i: int| 0 <= i < percent(bytes, dots).len() implies {
            let c = #[trigger] percent(bytes, dots)[i];
            ||| 'A' <= c <= 'Z'
            ||| 'a' <= c <= 'z'
            ||| '0' <= c <= '9'
            ||| c == '-'
            ||| c == '_'
            ||| c == '%'
            ||| dots && (c == '.' || c == '~')
        } by {
            if i < head.len() {
                assert(percent(bytes, dots)[i] == head[i]);
            } else {
                assert(percent(bytes, dots)[i] == tail[i - head.len()]);
            }
        }
    }
}

// -- base64 --------------------------------------------------------------------

/// The character of the standard base64 alphabet for a number below sixty-four.
pub open spec fn sextet_char(n: int) -> char {
    if n < 26 {
        (('A' as u32 + n) as u32) as char
    } else if n < 52 {
        (('a' as u32 + n - 26) as u32) as char
    } else if n < 62 {
        (('0' as u32 + n - 52) as u32) as char
    } else if n == 62 {
        '+'
    } else {
        '/'
    }
}

/// The number that a character of the standard base64 alphabet stands for; 0 for `=`.
pub open spec fn sextet_value(c: char) -> int {
    if 'A' <= c <= 'Z' {
        c as u32 - 'A' as u32
    } else if 'a' <= c <= 'z' {
        c as u32 - 'a' as u32 + 26
    } else if '0' <= c <= '9' {
        c as u32 - '0' as u32 + 52
    } else if c == '+' {
        62
    } else if c == '/' {
        63
    } else {
        0
    }
}

/// Bytes in base64 with the standard alphabet, padded with `=`: four characters for each
/// three bytes.
pub open spec fn base64(bytes: Seq<u8>) -> Seq<char>
    decreases bytes.len(),
{
    if bytes.len() == 0 {
        seq![]
    } else if bytes.len() == 1 {
        let n = bytes[0] as int * 65536;
        seq![sextet_char(n / 262144), sextet_char(n / 4096 % 64), '=', '=']
    } else if bytes.len() == 2 {
        let n = bytes[0] as int * 65536 + bytes[1] as int * 256;
        seq![
            sextet_char(n / 262144),
            sextet_char(n / 4096 % 64),
            sextet_char(n / 64 % 64),
            '=',
        ]
    } else {
        let n = bytes[0] as int * 65536 + bytes[1] as int * 256 + bytes[2] as int;
        seq![
            sextet_char(n / 262144),
            sextet_char(n / 4096 % 64),
            sextet_char(n / 64 % 64),
            sextet_char(n % 64),
        ] + base64(bytes.skip(3))
    }
}

/// The bytes that base64 text stands for.
pub open spec fn base64_decode(s: Seq<char>) -> Seq<u8>
    decreases s.len(),
{
    if s.len() < 4 {
        seq![]
    } else {
        let n = sextet_value(s[0]) * 262144 + sextet_value(s[1]) * 4096 + sextet_value(s[2]) * 64
            + sextet_value(s[3]);
        if s[2] == '=' {
            seq![(n / 65536) as u8]
        } else if s[3] == '=' {
            seq![(n / 65536) as u8, (n / 256 % 256) as u8]
        } else {
            seq![(n / 65536) as u8, (n / 256 % 256) as u8, (n % 256) as u8] + base64_decode(
                s.skip(4),
            )
        }
    }
}

/// `base64::engine::general_purpose::STANDARD.encode`: the standard alphabet of RFC 4648
/// with padding. The bound keeps the text's size within what can be allocated, beyond
/// which the call panics.
#[verifier::external_body]
pub(crate) fn base64_text(bytes: &[u8]) -> (r: String)
    requires
        bytes@.len() <= usize::MAX / 4,
    ensures
        r@ == base64(bytes@),
{
    base64::Engine::encode(&base64::engine::general_purpose::STANDARD, bytes)
}

proof fn sextet_roundtrip(n: int)
    requires
        0 <= n < 64,
    ensures
        sextet_value(sextet_char(n)) == n,
        sextet_char(n) != '=',
{
}

proof fn sextets(b0: int, b1: int, b2: int, n: int)
    requires
        0 <= b0 < 256,
        0 <= b1 < 256,
        0 <= b2 < 256,
        n == b0 * 65536 + b1 * 256 + b2,
    ensures
        0 <= n / 262144 < 64,
        n == n / 262144 * 262144 + n / 4096 % 64 * 4096 + n / 64 % 64 * 64 + n % 64,
        n / 65536 == b0,
        n / 256 % 256 == b1,
        n % 256 == b2,
        b2 == 0 ==> n % 64 == 0,
        b1 == 0 && b2 == 0 ==> n / 64 % 64 == 0,
{
    let (n64, n4096) = (n / 64, n / 4096);
    assert(n4096 == n64 / 64);
    assert(n / 262144 == n4096 / 64);
    assert(n64 == n4096 * 64 + n64 % 64);
    assert(n4096 == n4096 / 64 * 64 + n4096 % 64);
    assert(n == n64 * 64 + n % 64);
    assert(n / 65536 == b0) by {
        assert(0 <= b1 * 256 + b2 < 65536);
    }
    assert(n / 256 == b0 * 256 + b1);
    assert(n / 256 % 256 == b1);
    if b2 == 0 {
        assert(n == (b0 * 1024 + b1 * 4) * 64);
        if b1 == 0 {
            assert(n64 == b0 * 1024);
        }
    }
}

/// Decoding base64 text gives the bytes.
pub proof fn base64_roundtrip(bytes: Seq<u8>)
    ensures
        base64_decode(base64(bytes)) == bytes,
    decreases bytes.len(),
{
    if bytes.len() > 0 {
        let b0 = bytes[0] as int;
        let b1 = if bytes.len() > 1 {
            bytes[1] as int
        } else {
            0
        };
        let b2 = if bytes.len() > 2 {
            bytes[2] as int
        } else {
            0
        };
        let n = b0 * 65536 + b1 * 256 + b2;
        sextets(b0, b1, b2, n);
        let (q0, q1, q2, q3) = (n / 262144, n / 4096 % 64, n / 64 % 64, n % 64);
        sextet_roundtrip(q0);
        sextet_roundtrip(q1);
        sextet_roundtrip(q2);
        sextet_roundtrip(q3);
        let s = base64(bytes);
        assert(s[0] == sextet_char(q0) && s[1] == sextet_char(q1));
        if bytes.len() == 1 {
            assert(s[2] == '=' && s[3] == '=');
            assert(base64_decode(s) == seq![bytes[0]]);
            assert(seq![bytes[0]] == bytes);
        } else if bytes.len() == 2 {
            assert(s[2] == sextet_char(q2) && s[3] == '=');
            assert(base64_decode(s) == seq![bytes[0], bytes[1]]);
            assert(seq![bytes[0], bytes[1]] == bytes);
        } else {
            base64_roundtrip(bytes.skip(3));
            assert(s[2] == sextet_char(q2) && s[3] == sextet_char(q3));
            assert(s.skip(4) == base64(bytes.skip(3)));
            assert(base64_decode(s) == seq![bytes[0], bytes[1], bytes[2]] + bytes.skip(3));
            assert(seq![bytes[0], bytes[1], bytes[2]] + bytes.skip(3) == bytes);
        }
    }
}

// -- digests ---------------------------------------------------------------------

/// The SHA-1 digest of bytes.
pub uninterp spec fn sha1_digest(bytes: Seq<u8>) -> Seq<u8>;

/// `sha1::Sha1::digest`: the digest named by [`sha1_digest`], twenty bytes.
#[verifier::external_body]
pub(crate) fn sha1(bytes: &[u8]) -> (r: Vec<u8>)
    ensures
        r@ == sha1_digest(bytes@),
        r@.len() == 20,
{
    <sha1::Sha1 as sha1::Digest>::digest(bytes).to_vec()
}

// -- laws ------------------------------------------------------------------------------------

/// Each byte is spelled by its two digits, the higher one first.
pub proof fn hex_spells_each_byte(bytes: Seq<u8>, i: int)
    requires
        0 <= i < bytes.len(),
    ensures
        hex(bytes)[2 * i] == "0123456789abcdef"@[bytes[i] as int / 16],
        hex(bytes)[2 * i + 1] == "0123456789abcdef"@[bytes[i] as int % 16],
    decreases bytes.len(),
{
    reveal_strlit("0123456789abcdef");
    hex_is_digits(bytes.drop_last());
    if i < bytes.len() - 1 {
        hex_spells_each_byte(bytes.drop_last(), i);
    }
}

/// Percent-encoding goes byte by byte. ASCII letters, digits, `-` and `_` stay, and `.` and
/// `~` where they are let; any other byte becomes `%` and its two upper-case digits.
pub proof fn percent_goes_byte_by_byte(a: Seq<u8>, b: Seq<u8>, byte: u8, dots: bool)
    ensures
        percent(a + b, dots) == percent(a, dots) + percent(b, dots),
        ({
            let c = byte as char;
            percent(seq![byte], dots) == if ('A' <= c <= 'Z') || ('a' <= c <= 'z') || ('0' <= c
                <= '9') || c == '-' || c == '_' || (dots && (c == '.' || c == '~')) {
                seq![c]
            } else {
                seq![
                    '%',
                    "0123456789ABCDEF"@[byte as int / 16],
                    "0123456789ABCDEF"@[byte as int % 16],
                ]
            }
        }),
    decreases a.len(),
{
    reveal_strlit("0123456789ABCDEF");
    assert(seq![byte].skip(1) == Seq::<u8>::empty());
    assert(percent(seq![byte], dots) == percent_byte(byte, dots) + percent(seq![], dots));
    assert(percent_byte(byte, dots) + Seq::<char>::empty() == percent_byte(byte, dots));
    if a.len() == 0 {
        assert(a + b == b);
        assert(percent(a, dots) + percent(b, dots) == percent(b, dots));
    } else {
        assert((a + b).skip(1) == a.skip(1) + b);
        percent_goes_byte_by_byte(a.skip(1), b, byte, dots);
        let head = percent_byte(a[0], dots);
        assert(head + (percent(a.skip(1), dots) + percent(b, dots)) == head + percent(
            a.skip(1),
            dots,
        ) + percent(b, dots));
    }
}

} // verus!
