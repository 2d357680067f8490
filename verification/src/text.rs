//! Text: numbers in decimal, splitting and joining, trimming and searching.

use vstd::prelude::*;
use vstd::utf8::*;

verus! {

// -- what std does ----------------------------------------------------

/// The characters with the Unicode property `White_Space`.
pub open spec fn white_space(c: char) -> bool {
    ||| '\u{9}' <= c <= '\u{d}'
    ||| c == ' '
    ||| c == '\u{85}'
    ||| c == '\u{a0}'
    ||| c == '\u{1680}'
    ||| '\u{2000}' <= c <= '\u{200a}'
    ||| c == '\u{2028}'
    ||| c == '\u{2029}'
    ||| c == '\u{202f}'
    ||| c == '\u{205f}'
    ||| c == '\u{3000}'
}

/// `char::is_whitespace`: whether the character has the property `White_Space`.
pub assume_specification[ char::is_whitespace ](c: char) -> (r: bool)
    ensures
        r == white_space(c),
;

/// `String::push`: the character is appended.
pub assume_specification[ String::push ](s: &mut String, c: char)
    ensures
        final(s)@ == old(s)@.push(c),
;

/// Text in lower case.
pub uninterp spec fn lowercase(s: Seq<char>) -> Seq<char>;

/// An ASCII letter in lower case; any other character as it is.
pub open spec fn ascii_lower(c: char) -> char {
    if 'A' <= c <= 'Z' {
        ((c as u32 + 32) as u32) as char
    } else {
        c
    }
}

/// `str::to_lowercase`: the text named by [`lowercase`]. On ASCII text it acts on each
/// letter alone.
#[verifier::external_body]
pub(crate) fn to_lowercase(s: &str) -> (r: String)
    ensures
        r@ == lowercase(s@),
        is_ascii_chars(s@) ==> r@ == s@.map_values(|c: char| ascii_lower(c)),
{
    s.to_lowercase()
}

/// Text in quotation marks, as `{:?}` writes it.
pub uninterp spec fn quoted(s: Seq<char>) -> Seq<char>;

/// Printable ASCII characters that `{:?}` leaves as they are.
pub open spec fn plain(c: char) -> bool {
    ' ' <= c <= '~' && c != '"' && c != '\\'
}

/// The `Debug` form of `str`, named by [`quoted`]. Where nothing has to be escaped it is
/// the text between quotation marks.
#[verifier::external_body]
pub(crate) fn quote(s: &str) -> (r: String)
    ensures
        r@ == quoted(s@),
        (forall|i: int| 0 <= i < s@.len() ==> plain(#[trigger] s@[i])) ==> r@ == seq!['"'] + s@
            + seq!['"'],
{
    format!("{s:?}")
}

// -- comparing and copying ----------------------------------------------

pub fn same(a: &str, b: &str) -> (r: bool)
    ensures
        r == (a@ == b@),
{
    a.to_owned() == b.to_owned()
}

/// The characters of a text.
pub fn chars(s: &str) -> (r: Vec<char>)
    ensures
        r@ == s@,
{
    let mut out: Vec<char> = Vec::new();
    for c in it: s.chars()
        invariant
            out@ == s@.take(it.index() as int),
            it.seq() == s@,
    {
        out.push(c);
        assert(s@.take(it.index() + 1) == s@.take(it.index() as int).push(c));
    }
    assert(s@.take(s@.len() as int) == s@);
    out
}

/// The text of the characters from `from` up to `to`.
pub fn text_between(cs: &Vec<char>, from: usize, to: usize) -> (r: String)
    requires
        from <= to <= cs@.len(),
    ensures
        r@ == cs@.subrange(from as int, to as int),
{
    let mut out = String::new();
    let mut i: usize = from;
    while i < to
        invariant
            from <= i <= to <= cs@.len(),
            out@ == cs@.subrange(from as int, i as int),
        decreases to - i,
    {
        out.push(cs[i]);
        assert(cs@.subrange(from as int, i + 1) == cs@.subrange(from as int, i as int).push(
            cs@[i as int],
        ));
        i = i + 1;
    }
    out
}

/// `a` followed by `b`.
pub fn concat2(a: &str, b: &str) -> (r: String)
    ensures
        r@ == a@ + b@,
{
    let mut out = a.to_owned();
    out.append(b);
    out
}

// -- decimal -------------------------------------------------------------

/// The decimal digit of a number below ten.
pub open spec fn digit(d: int) -> char {
    (('0' as u32 + d) as u32) as char
}

/// A number in decimal, without leading zeros.
pub open spec fn decimal(n: nat) -> Seq<char>
    decreases n,
{
    if n < 10 {
        seq![digit(n as int)]
    } else {
        decimal(n / 10).push(digit((n % 10) as int))
    }
}

fn digit_char(d: u64) -> (r: char)
    requires
        d < 10,
    ensures
        r == digit(d as int),
{
    match d {
        0 => '0',
        1 => '1',
        2 => '2',
        3 => '3',
        4 => '4',
        5 => '5',
        6 => '6',
        7 => '7',
        8 => '8',
        _ => '9',
    }
}

pub fn decimal_text(n: u64) -> (r: String)
    ensures
        r@ == decimal(n as nat),
    decreases n,
{
    if n < 10 {
        let mut out = String::new();
        out.push(digit_char(n));
        assert(out@ == seq![digit(n as int)]);
        out
    } else {
        let mut out = decimal_text(n / 10);
        out.push(digit_char(n % 10));
        out
    }
}

/// The number that decimal digits denote.
pub open spec fn decimal_value(s: Seq<char>) -> int
    decreases s.len(),
{
    if s.len() == 0 {
        0
    } else {
        decimal_value(s.drop_last()) * 10 + (s.last() as u32 - '0' as u32)
    }
}

/// Reading a number's decimal text gives the number.
pub proof fn decimal_roundtrip(n: nat)
    ensures
        decimal_value(decimal(n)) == n,
        forall|i: int| 0 <= i < decimal(n).len() ==> '0' <= #[trigger] decimal(n)[i] <= '9',
        decimal(n).len() > 0,
    decreases n,
{
    if n < 10 {
        assert(decimal(n).drop_last() == Seq::<char>::empty());
        assert(decimal_value(Seq::<char>::empty()) == 0);
    } else {
        decimal_roundtrip(n / 10);
        assert(decimal(n).drop_last() == decimal(n / 10));
    }
}

/// The number that `text` writes in decimal: digits, with at most one `+` before them,
/// no greater than `u64::MAX`.
pub open spec fn uint_of(text: Seq<char>) -> Option<u64> {
    let digits = if text.len() > 0 && text[0] == '+' {
        text.skip(1)
    } else {
        text
    };
    if digits.len() > 0 && all_digits(digits) && decimal_value(digits) <= u64::MAX {
        Some(decimal_value(digits) as u64)
    } else {
        None
    }
}

pub open spec fn all_digits(s: Seq<char>) -> bool {
    forall|i: int| 0 <= i < s.len() ==> '0' <= #[trigger] s[i] <= '9'
}

proof fn decimal_value_grows(s: Seq<char>, i: int)
    requires
        all_digits(s),
        0 <= i <= s.len(),
    ensures
        0 <= decimal_value(s.take(i)) <= decimal_value(s),
    decreases s.len(),
{
    if i == s.len() {
        assert(s.take(i) == s);
        if s.len() > 0 {
            decimal_value_grows(s.drop_last(), s.len() - 1);
            assert(s.drop_last().take(s.len() - 1) == s.drop_last());
        }
    } else {
        decimal_value_grows(s.drop_last(), i);
        assert(s.drop_last().take(i) == s.take(i));
        assert(s.last() >= '0');
    }
}

pub fn parse_uint(text: &str) -> (r: Option<u64>)
    ensures
        r == uint_of(text@),
{
    let cs = chars(text);
    let start: usize = if cs.len() > 0 && cs[0] == '+' {
        1
    } else {
        0
    };
    let ghost digits = cs@.skip(start as int);
    assert(cs@.skip(0) == cs@);
    if start == cs.len() {
        return None;
    }
    let mut value: u64 = 0;
    let mut i: usize = start;
    while i < cs.len()
        invariant
            start <= i <= cs@.len(),
            digits == cs@.skip(start as int),
            digits.len() > 0,
            digits == (if text@.len() > 0 && text@[0] == '+' {
                text@.skip(1)
            } else {
                text@
            }),
            forall|k: int| 0 <= k < i - start ==> '0' <= #[trigger] digits[k] <= '9',
            value == decimal_value(digits.take(i - start)),
        decreases cs@.len() - i,
    {
        let c = cs[i];
        assert(digits[i - start] == c);
        if c < '0' || c > '9' {
            assert(!all_digits(digits));
            return None;
        }
        let d: u64 = (c as u32 - '0' as u32) as u64;
        assert(digits.take(i + 1 - start).drop_last() == digits.take(i - start));
        assert(decimal_value(digits.take(i + 1 - start)) == value * 10 + d);
        if value > (u64::MAX - d) / 10 {
            proof {
                if all_digits(digits) {
                    decimal_value_grows(digits, i + 1 - start);
                }
            }
            return None;
        }
        value = value * 10 + d;
        i = i + 1;
    }
    assert(digits.take(digits.len() as int) == digits);
    Some(value)
}

// -- splitting and joining -------------------------------------------------

/// Where `c` first occurs in `s`, the length of `s` if it does not.
pub open spec fn first(s: Seq<char>, c: char) -> nat
    decreases s.len(),
{
    if s.len() == 0 || s[0] == c {
        0
    } else {
        1 + first(s.skip(1), c)
    }
}

/// The pieces of `s` between the occurrences of `c`.
pub open spec fn pieces(s: Seq<char>, c: char) -> Seq<Seq<char>>
    decreases s.len(),
{
    let n = first(s, c) as int;
    if n >= s.len() {
        seq![s]
    } else {
        seq![s.take(n)] + pieces(s.skip(n + 1), c)
    }
}

/// What stands before and after the first `c` of `s`.
pub open spec fn cut(s: Seq<char>, c: char) -> Option<(Seq<char>, Seq<char>)> {
    let n = first(s, c) as int;
    if n < s.len() {
        Some((s.take(n), s.skip(n + 1)))
    } else {
        None
    }
}

/// The parts one after the other, `sep` between each two.
pub open spec fn join(parts: Seq<Seq<char>>, sep: Seq<char>) -> Seq<char>
    decreases parts.len(),
{
    if parts.len() == 0 {
        seq![]
    } else if parts.len() == 1 {
        parts[0]
    } else {
        join(parts.drop_last(), sep) + sep + parts.last()
    }
}

/// The texts of a list.
pub open spec fn texts(list: Seq<String>) -> Seq<Seq<char>> {
    list.map_values(|s: String| s@)
}

fn find(cs: &Vec<char>, from: usize, c: char) -> (r: usize)
    requires
        from <= cs@.len(),
    ensures
        from <= r <= cs@.len(),
        r == from + first(cs@.skip(from as int), c),
{
    let mut i: usize = from;
    while i < cs.len() && cs[i] != c
        invariant
            from <= i <= cs@.len(),
            from + first(cs@.skip(from as int), c) == i + first(cs@.skip(i as int), c),
        decreases cs@.len() - i,
    {
        assert(cs@.skip(i as int)[0] == cs@[i as int]);
        assert(cs@.skip(i as int).skip(1) == cs@.skip(i + 1));
        i = i + 1;
    }
    assert(i < cs.len() ==> cs@.skip(i as int)[0] == cs@[i as int]);
    i
}

pub fn split(s: &str, c: char) -> (r: Vec<String>)
    ensures
        texts(r@) == pieces(s@, c),
{
    let cs = chars(s);
    let mut out: Vec<String> = Vec::new();
    let mut from: usize = 0;
    assert(cs@.skip(0) == cs@);
    assert(texts(out@) + pieces(cs@, c) == pieces(cs@, c));
    loop
        invariant
            from <= cs@.len(),
            cs@ == s@,
            texts(out@) + pieces(cs@.skip(from as int), c) == pieces(s@, c),
        decreases cs@.len() - from,
    {
        let to = find(&cs, from, c);
        let ghost rest = cs@.skip(from as int);
        let ghost before = texts(out@);
        let piece = text_between(&cs, from, to);
        assert(piece@ == rest.take(to - from));
        let ghost p = piece@;
        out.push(piece);
        assert(texts(out@) == before.push(p));
        if to == cs.len() {
            assert(rest.take(to - from) == rest);
            assert(texts(out@) == before + seq![rest]);
            return out;
        }
        assert(rest.skip(to - from + 1) == cs@.skip(to + 1));
        assert(texts(out@) + pieces(cs@.skip(to + 1), c) == before + (seq![p] + pieces(
            cs@.skip(to + 1),
            c,
        )));
        from = to + 1;
    }
}

pub fn split_once(s: &str, c: char) -> (r: Option<(String, String)>)
    ensures
        match r {
            Some(p) => cut(s@, c) == Some((p.0@, p.1@)),
            None => cut(s@, c) is None,
        },
{
    let cs = chars(s);
    assert(cs@.skip(0) == cs@);
    let at = find(&cs, 0, c);
    if at < cs.len() {
        let head = text_between(&cs, 0, at);
        let tail = text_between(&cs, at + 1, cs.len());
        assert(head@ == s@.take(at as int));
        assert(tail@ == s@.skip(at + 1));
        Some((head, tail))
    } else {
        None
    }
}

pub fn join_texts(parts: &Vec<String>, sep: &str) -> (r: String)
    ensures
        r@ == join(texts(parts@), sep@),
{
    let mut out = String::new();
    let mut i: usize = 0;
    let ghost all = texts(parts@);
    assert(all.take(0) == Seq::<Seq<char>>::empty());
    while i < parts.len()
        invariant
            i <= parts@.len(),
            all == texts(parts@),
            out@ == join(all.take(i as int), sep@),
        decreases parts@.len() - i,
    {
        assert(all.take(i + 1).drop_last() == all.take(i as int));
        assert(all.take(i + 1).last() == parts@[i as int]@);
        if i > 0 {
            out.append(sep);
        }
        out.append(parts[i].as_str());
        assert(i == 0 ==> out@ == parts@[0]@);
        i = i + 1;
    }
    assert(all.take(all.len() as int) == all);
    out
}

// -- words and edges --------------------------------------------------------

/// How many characters of `s` stand before its first white space.
pub open spec fn word_len(s: Seq<char>) -> nat
    decreases s.len(),
{
    if s.len() == 0 || white_space(s[0]) {
        0
    } else {
        1 + word_len(s.skip(1))
    }
}

pub proof fn word_len_bound(s: Seq<char>)
    ensures
        word_len(s) <= s.len(),
    decreases s.len(),
{
    if s.len() > 0 && !white_space(s[0]) {
        word_len_bound(s.skip(1));
    }
}

/// The runs of `s` that hold no white space.
pub open spec fn words(s: Seq<char>) -> Seq<Seq<char>>
    decreases s.len(),
{
    if s.len() == 0 {
        seq![]
    } else if white_space(s[0]) {
        words(s.skip(1))
    } else {
        proof {
            word_len_bound(s);
        }
        seq![s.take(word_len(s) as int)] + words(s.skip(word_len(s) as int))
    }
}

/// `s` without the white space it begins with.
pub open spec fn trim_front(s: Seq<char>) -> Seq<char>
    decreases s.len(),
{
    if s.len() > 0 && white_space(s[0]) {
        trim_front(s.skip(1))
    } else {
        s
    }
}

/// `s` without the white space it ends with.
pub open spec fn trim_back(s: Seq<char>) -> Seq<char>
    decreases s.len(),
{
    if s.len() > 0 && white_space(s.last()) {
        trim_back(s.drop_last())
    } else {
        s
    }
}

/// `s` without white space at either end.
pub open spec fn trimmed(s: Seq<char>) -> Seq<char> {
    trim_back(trim_front(s))
}

/// `s` without the `c`s it begins with.
pub open spec fn strip_front(s: Seq<char>, c: char) -> Seq<char>
    decreases s.len(),
{
    if s.len() > 0 && s[0] == c {
        strip_front(s.skip(1), c)
    } else {
        s
    }
}

/// `s` without the `c`s it ends with.
pub open spec fn strip_back(s: Seq<char>, c: char) -> Seq<char>
    decreases s.len(),
{
    if s.len() > 0 && s.last() == c {
        strip_back(s.drop_last(), c)
    } else {
        s
    }
}

proof fn word_len_step(s: Seq<char>, n: int)
    requires
        0 <= n <= s.len(),
        forall|i: int| 0 <= i < n ==> !white_space(#[trigger] s[i]),
        n < s.len() ==> white_space(s[n]),
    ensures
        word_len(s) == n,
    decreases n,
{
    if n > 0 {
        assert forall|i: int| 0 <= i < n - 1 implies !white_space(#[trigger] s.skip(1)[i]) by {
            assert(s.skip(1)[i] == s[i + 1]);
        }
        assert(n < s.len() ==> s.skip(1)[n - 1] == s[n]);
        word_len_step(s.skip(1), n - 1);
    }
}

pub fn split_whitespace(s: &str) -> (r: Vec<String>)
    ensures
        texts(r@) == words(s@),
{
    let cs = chars(s);
    let mut out: Vec<String> = Vec::new();
    let mut i: usize = 0;
    assert(cs@.skip(0) == cs@);
    assert(texts(out@) + words(cs@) == words(cs@));
    while i < cs.len()
        invariant
            i <= cs@.len(),
            texts(out@) + words(cs@.skip(i as int)) == words(s@),
        decreases cs@.len() - i,
    {
        let ghost rest = cs@.skip(i as int);
        assert(rest[0] == cs@[i as int]);
        if cs[i].is_whitespace() {
            assert(rest.skip(1) == cs@.skip(i + 1));
            i = i + 1;
        } else {
            let mut j: usize = i;
            while j < cs.len() && !cs[j].is_whitespace()
                invariant
                    i <= j <= cs@.len(),
                    rest == cs@.skip(i as int),
                    forall|k: int| 0 <= k < j - i ==> !white_space(#[trigger] rest[k]),
                decreases cs@.len() - j,
            {
                assert(rest[j - i] == cs@[j as int]);
                j = j + 1;
            }
            proof {
                assert(j < cs@.len() ==> rest[j - i] == cs@[j as int]);
                word_len_step(rest, j - i);
                if j == i {
                    assert(white_space(rest[0]));
                }
            }
            let ghost before = texts(out@);
            let word = text_between(&cs, i, j);
            let ghost w = word@;
            assert(w == rest.take(j - i));
            out.push(word);
            assert(texts(out@) == before.push(w));
            assert(rest.skip(j - i) == cs@.skip(j as int));
            assert(before.push(w) + words(cs@.skip(j as int)) == before + (seq![w] + words(
                cs@.skip(j as int),
            )));
            i = j;
        }
    }
    assert(cs@.skip(i as int) == Seq::<char>::empty());
    assert(texts(out@) + words(cs@.skip(i as int)) == texts(out@));
    out
}

pub fn trim(s: &str) -> (r: String)
    ensures
        r@ == trimmed(s@),
{
    let cs = chars(s);
    let mut i: usize = 0;
    assert(cs@.skip(0) == cs@);
    while i < cs.len() && cs[i].is_whitespace()
        invariant
            i <= cs@.len(),
            trim_front(cs@.skip(i as int)) == trim_front(s@),
        decreases cs@.len() - i,
    {
        assert(cs@.skip(i as int)[0] == cs@[i as int]);
        assert(cs@.skip(i as int).skip(1) == cs@.skip(i + 1));
        i = i + 1;
    }
    assert(i < cs@.len() ==> cs@.skip(i as int)[0] == cs@[i as int]);
    let mut j: usize = cs.len();
    assert(cs@.subrange(i as int, j as int) == cs@.skip(i as int));
    while j > i && cs[j - 1].is_whitespace()
        invariant
            i <= j <= cs@.len(),
            trim_back(cs@.subrange(i as int, j as int)) == trim_back(trim_front(s@)),
        decreases j - i,
    {
        assert(cs@.subrange(i as int, j as int).last() == cs@[j - 1]);
        assert(cs@.subrange(i as int, j as int).drop_last() == cs@.subrange(i as int, j - 1));
        j = j - 1;
    }
    assert(j > i ==> cs@.subrange(i as int, j as int).last() == cs@[j - 1]);
    text_between(&cs, i, j)
}

pub fn trim_end(s: &str) -> (r: String)
    ensures
        r@ == trim_back(s@),
{
    let cs = chars(s);
    let mut j: usize = cs.len();
    assert(cs@.take(j as int) == cs@);
    while j > 0 && cs[j - 1].is_whitespace()
        invariant
            j <= cs@.len(),
            trim_back(cs@.take(j as int)) == trim_back(s@),
        decreases j,
    {
        assert(cs@.take(j as int).last() == cs@[j - 1]);
        assert(cs@.take(j as int).drop_last() == cs@.take(j - 1));
        j = j - 1;
    }
    assert(j > 0 ==> cs@.take(j as int).last() == cs@[j - 1]);
    let out = text_between(&cs, 0, j);
    assert(out@ == cs@.take(j as int));
    out
}

pub fn trim_start_matches(s: &str, c: char) -> (r: String)
    ensures
        r@ == strip_front(s@, c),
{
    let cs = chars(s);
    let mut i: usize = 0;
    assert(cs@.skip(0) == cs@);
    while i < cs.len() && cs[i] == c
        invariant
            i <= cs@.len(),
            strip_front(cs@.skip(i as int), c) == strip_front(s@, c),
        decreases cs@.len() - i,
    {
        assert(cs@.skip(i as int)[0] == cs@[i as int]);
        assert(cs@.skip(i as int).skip(1) == cs@.skip(i + 1));
        i = i + 1;
    }
    assert(i < cs@.len() ==> cs@.skip(i as int)[0] == cs@[i as int]);
    let out = text_between(&cs, i, cs.len());
    assert(out@ == cs@.skip(i as int));
    out
}

pub fn trim_end_matches(s: &str, c: char) -> (r: String)
    ensures
        r@ == strip_back(s@, c),
{
    let cs = chars(s);
    let mut j: usize = cs.len();
    assert(cs@.take(j as int) == cs@);
    while j > 0 && cs[j - 1] == c
        invariant
            j <= cs@.len(),
            strip_back(cs@.take(j as int), c) == strip_back(s@, c),
        decreases j,
    {
        assert(cs@.take(j as int).last() == cs@[j - 1]);
        assert(cs@.take(j as int).drop_last() == cs@.take(j - 1));
        j = j - 1;
    }
    assert(j > 0 ==> cs@.take(j as int).last() == cs@[j - 1]);
    let out = text_between(&cs, 0, j);
    assert(out@ == cs@.take(j as int));
    out
}

// -- searching ---------------------------------------------------------------

/// `p` occurs in `s`.
pub open spec fn occurs(p: Seq<char>, s: Seq<char>) -> bool {
    exists|i: int| occurs_at(p, s, i)
}

pub open spec fn occurs_at(p: Seq<char>, s: Seq<char>, i: int) -> bool {
    0 <= i && i + p.len() <= s.len() && s.subrange(i, i + p.len()) == p
}

fn matches_at(cs: &Vec<char>, at: usize, p: &Vec<char>) -> (r: bool)
    requires
        at + p@.len() <= cs@.len(),
    ensures
        r == (cs@.subrange(at as int, at + p@.len()) == p@),
{
    let ghost window = cs@.subrange(at as int, at + p@.len());
    let size = cs.len();
    let mut k: usize = 0;
    while k < p.len()
        invariant
            k <= p@.len(),
            size == cs@.len(),
            at + p@.len() <= size,
            window == cs@.subrange(at as int, at + p@.len()),
            forall|j: int| 0 <= j < k ==> #[trigger] window[j] == p@[j],
        decreases p@.len() - k,
    {
        assert(window[k as int] == cs@[at + k]);
        if cs[at + k] != p[k] {
            return false;
        }
        k = k + 1;
    }
    assert(window == p@);
    true
}

pub fn contains(s: &str, p: &str) -> (r: bool)
    ensures
        r == occurs(p@, s@),
{
    let cs = chars(s);
    let ps = chars(p);
    if ps.len() > cs.len() {
        return false;
    }
    let mut i: usize = 0;
    while i <= cs.len() - ps.len()
        invariant
            cs@ == s@,
            ps@ == p@,
            ps@.len() <= cs@.len(),
            i <= cs@.len() - ps@.len() + 1,
            forall|j: int| 0 <= j < i ==> !occurs_at(p@, s@, j),
        decreases cs@.len() - ps@.len() + 1 - i,
    {
        if matches_at(&cs, i, &ps) {
            assert(occurs_at(p@, s@, i as int));
            return true;
        }
        assert(!occurs_at(p@, s@, i as int));
        if i == cs.len() - ps.len() {
            return false;
        }
        i = i + 1;
    }
    false
}

pub fn ends_with(s: &str, p: &str) -> (r: bool)
    ensures
        r == p@.is_suffix_of(s@),
{
    let cs = chars(s);
    let ps = chars(p);
    if ps.len() > cs.len() {
        return false;
    }
    let r = matches_at(&cs, cs.len() - ps.len(), &ps);
    assert(cs@.subrange(cs@.len() - ps@.len(), cs@.len() as int) == s@.skip(s@.len() - p@.len()));
    r
}

/// `s` after its prefix `p`.
pub fn strip_prefix(s: &str, p: &str) -> (r: Option<String>)
    ensures
        match r {
            Some(t) => p@.is_prefix_of(s@) && t@ == s@.skip(p@.len() as int),
            None => !p@.is_prefix_of(s@),
        },
{
    let cs = chars(s);
    let ps = chars(p);
    if ps.len() > cs.len() {
        return None;
    }
    assert(cs@.subrange(0, ps@.len() as int) == s@.take(p@.len() as int));
    if matches_at(&cs, 0, &ps) {
        let t = text_between(&cs, ps.len(), cs.len());
        assert(t@ == s@.skip(p@.len() as int));
        Some(t)
    } else {
        None
    }
}

// -- laws ------------------------------------------------------------------------------------

/// Splitting what was joined gives the parts, where none of them holds the separator.
pub proof fn join_then_split(parts: Seq<Seq<char>>, sep: Seq<char>, c: char)
    requires
        parts.len() > 0,
        sep == seq![c],
        forall|i: int, k: int|
            #![trigger parts[i][k]]
            0 <= i < parts.len() && 0 <= k < parts[i].len() ==> parts[i][k] != c,
    ensures
        pieces(join(parts, sep), c) == parts,
    decreases parts.len(),
{
    let head = parts[0];
    assert forall|k: int| 0 <= k < head.len() implies head[k] != c by {
        assert(parts[0][k] != c);
    }
    if parts.len() == 1 {
        first_after(head, seq![], c);
        assert(head + Seq::<char>::empty() == head);
        assert(parts == seq![head]);
    } else {
        let rest = parts.skip(1);
        assert forall|i: int, k: int|
            #![trigger rest[i][k]]
            0 <= i < rest.len() && 0 <= k < rest[i].len() implies rest[i][k] != c by {
            assert(rest[i] == parts[i + 1]);
            assert(parts[i + 1][k] != c);
        }
        join_then_split(rest, sep, c);
        join_from_front(parts, sep);
        let tail = sep + join(rest, sep);
        let all = join(parts, sep);
        assert(all == head + tail);
        first_after(head, tail, c);
        assert(all.take(head.len() as int) == head);
        assert(all.skip(head.len() as int + 1) == join(rest, sep));
        assert(seq![head] + rest == parts);
    }
}

proof fn first_after(head: Seq<char>, tail: Seq<char>, c: char)
    requires
        forall|k: int| 0 <= k < head.len() ==> head[k] != c,
        tail.len() > 0 ==> tail[0] == c,
    ensures
        first(head + tail, c) == head.len(),
    decreases head.len(),
{
    if head.len() > 0 {
        assert((head + tail).skip(1) == head.skip(1) + tail);
        first_after(head.skip(1), tail, c);
    } else {
        assert(head + tail == tail);
    }
}

proof fn join_from_front(parts: Seq<Seq<char>>, sep: Seq<char>)
    requires
        parts.len() > 1,
    ensures
        join(parts, sep) == parts[0] + sep + join(parts.skip(1), sep),
    decreases parts.len(),
{
    let rest = parts.skip(1);
    if parts.len() == 2 {
        reveal_with_fuel(join, 2);
        assert(parts.drop_last()[0] == parts[0]);
        assert(rest[0] == parts.last());
    } else {
        join_from_front(parts.drop_last(), sep);
        assert(parts.drop_last().skip(1) == rest.drop_last());
        assert(rest.last() == parts.last());
        let a = parts[0] + sep;
        let b = join(rest.drop_last(), sep);
        assert(a + b + sep + parts.last() == a + (b + sep + parts.last()));
    }
}

/// A text has at least one piece.
pub proof fn pieces_exist(s: Seq<char>, c: char)
    ensures
        pieces(s, c).len() > 0,
{
}

/// What follows the same beginning is the same.
pub proof fn same_tail(head: Seq<char>, a: Seq<char>, b: Seq<char>)
    requires
        head + a == head + b,
    ensures
        a == b,
{
    assert((head + a).skip(head.len() as int) == a);
    assert((head + b).skip(head.len() as int) == b);
}

/// A text occurs in another just where the other is something, the text, and something.
pub proof fn occurrences_have_surroundings(p: Seq<char>, s: Seq<char>)
    ensures
        occurs(p, s) <==> exists|a: Seq<char>, b: Seq<char>| s == #[trigger] (a + p + b),
{
    if occurs(p, s) {
        let i = choose|i: int| occurs_at(p, s, i);
        assert(s == s.take(i) + p + s.skip(i + p.len()));
    }
    if exists|a: Seq<char>, b: Seq<char>| s == #[trigger] (a + p + b) {
        let (a, b) = choose|a: Seq<char>, b: Seq<char>| s == #[trigger] (a + p + b);
        assert(s.subrange(a.len() as int, a.len() as int + p.len()) == p);
        assert(occurs_at(p, s, a.len() as int));
    }
}

/// The decimal text of a number below ten is one digit, and a number is written as what it
/// holds of tens and then the digit that is left.
pub proof fn decimal_goes_by_tens(n: nat, d: nat)
    requires
        d < 10,
    ensures
        decimal(d) == seq!["0123456789"@[d as int]],
        n > 0 ==> decimal(n * 10 + d) == decimal(n) + decimal(d),
{
    reveal_strlit("0123456789");
    assert((n * 10 + d) / 10 == n);
    assert((n * 10 + d) % 10 == d);
    assert(decimal(n).push(digit(d as int)) == decimal(n) + seq![digit(d as int)]);
}

/// A number that is written in decimal is read as that number, with a `+` before it too.
pub proof fn numbers_are_read_as_written(n: u64)
    ensures
        uint_of(decimal(n as nat)) == Some(n),
        uint_of(seq!['+'] + decimal(n as nat)) == Some(n),
{
    decimal_roundtrip(n as nat);
    let s = decimal(n as nat);
    assert(s[0] != '+');
    assert((seq!['+'] + s).skip(1) == s);
}

/// What is read as a number is digits, after one `+` at most.
pub proof fn numbers_are_digits(s: Seq<char>)
    ensures
        uint_of(s) is Some ==> s.len() > 0 && forall|i: int|
            0 <= i < s.len() ==> '0' <= #[trigger] s[i] <= '9' || (i == 0 && s[i] == '+'
                && s.len() > 1),
{
    if uint_of(s) is Some && s[0] == '+' {
        assert forall|i: int| 0 < i < s.len() implies '0' <= #[trigger] s[i] <= '9' by {
            assert(s.skip(1)[i - 1] == s[i]);
        }
    }
}

/// Leading digits count ten times what follows them, so that a number is read as its digits
/// say.
pub proof fn digits_are_read_by_tens(s: Seq<char>, d: nat)
    requires
        d < 10,
    ensures
        decimal_value(s.push("0123456789"@[d as int])) == decimal_value(s) * 10 + d,
        decimal_value(Seq::<char>::empty()) == 0,
{
    reveal_strlit("0123456789");
    assert(s.push("0123456789"@[d as int]).drop_last() == s);
}

/// A text is cut at its first `c`: what stands before it holds none, and the parts with `c`
/// between them are the text. A text without `c` is not cut.
pub proof fn cuts_are_at_the_first(s: Seq<char>, c: char)
    ensures
        match cut(s, c) {
            Some((a, b)) => s == a + seq![c] + b && !a.contains(c),
            None => !s.contains(c),
        },
{
    first_is_first(s, c);
    let n = first(s, c) as int;
    if n < s.len() {
        assert(s == s.take(n) + seq![c] + s.skip(n + 1));
        assert forall|i: int| 0 <= i < n implies s.take(n)[i] != c by {
            assert(s[i] != c);
        }
    }
}

proof fn first_is_first(s: Seq<char>, c: char)
    ensures
        first(s, c) <= s.len(),
        forall|i: int| 0 <= i < first(s, c) ==> #[trigger] s[i] != c,
        first(s, c) < s.len() ==> s[first(s, c) as int] == c,
    decreases s.len(),
{
    if s.len() > 0 && s[0] != c {
        first_is_first(s.skip(1), c);
        assert forall|i: int| 0 <= i < first(s, c) implies #[trigger] s[i] != c by {
            if i > 0 {
                assert(s.skip(1)[i - 1] == s[i]);
            }
        }
    }
}

/// A text is its pieces with `c` between them, and no piece holds `c`.
pub proof fn split_then_join(s: Seq<char>, c: char)
    ensures
        join(pieces(s, c), seq![c]) == s,
        forall|i: int| 0 <= i < pieces(s, c).len() ==> !(#[trigger] pieces(s, c)[i]).contains(c),
    decreases s.len(),
{
    cuts_are_at_the_first(s, c);
    first_is_first(s, c);
    let n = first(s, c) as int;
    if n < s.len() {
        let rest = s.skip(n + 1);
        split_then_join(rest, c);
        pieces_exist(rest, c);
        let all = pieces(s, c);
        assert(all == seq![s.take(n)] + pieces(rest, c));
        assert(all.skip(1) == pieces(rest, c));
        join_from_front(all, seq![c]);
        assert forall|i: int| 0 <= i < all.len() implies !(#[trigger] all[i]).contains(c) by {
            if i > 0 {
                assert(all[i] == pieces(rest, c)[i - 1]);
            }
        }
    }
}

/// A text without white space is one word, an empty one is none, and white space parts the
/// words before it from those after it.
pub proof fn white_space_parts_words(a: Seq<char>, w: char, b: Seq<char>)
    ensures
        (forall|i: int| 0 <= i < a.len() ==> !white_space(#[trigger] a[i])) ==> words(a) == (
        if a.len() > 0 {
            seq![a]
        } else {
            seq![]
        }),
        white_space(w) ==> words(a + seq![w] + b) == words(a) + words(b),
    decreases a.len(),
{
    if forall|i: int| 0 <= i < a.len() ==> !white_space(#[trigger] a[i]) {
        word_len_step(a, a.len() as int);
        assert(a.take(a.len() as int) == a);
        assert(a.skip(a.len() as int) == Seq::<char>::empty());
        assert(words(Seq::<char>::empty()) == Seq::<Seq<char>>::empty());
    }
    if white_space(w) {
        let all = a + seq![w] + b;
        if a.len() == 0 {
            assert(all.skip(1) == b);
            assert(words(a) + words(b) == words(b));
        } else if white_space(a[0]) {
            assert(all.skip(1) == a.skip(1) + seq![w] + b);
            white_space_parts_words(a.skip(1), w, b);
        } else {
            word_len_bound(a);
            let n = word_len(a) as int;
            word_len_is_first(a);
            assert forall|i: int| 0 <= i < n implies !white_space(#[trigger] all[i]) by {
                assert(a[i] == all[i]);
            }
            assert(all[n] == if n < a.len() {
                a[n]
            } else {
                w
            });
            word_len_step(all, n);
            assert(all.take(n) == a.take(n));
            assert(all.skip(n) == a.skip(n) + seq![w] + b);
            white_space_parts_words(a.skip(n), w, b);
            assert(seq![a.take(n)] + (words(a.skip(n)) + words(b)) == seq![a.take(n)] + words(
                a.skip(n),
            ) + words(b));
        }
    }
}

proof fn word_len_is_first(s: Seq<char>)
    ensures
        word_len(s) <= s.len(),
        forall|i: int| 0 <= i < word_len(s) ==> !white_space(#[trigger] s[i]),
        word_len(s) < s.len() ==> white_space(s[word_len(s) as int]),
    decreases s.len(),
{
    if s.len() > 0 && !white_space(s[0]) {
        word_len_is_first(s.skip(1));
        assert forall|i: int| 0 <= i < word_len(s) implies !white_space(#[trigger] s[i]) by {
            if i > 0 {
                assert(s.skip(1)[i - 1] == s[i]);
            }
        }
    }
}

/// All of these characters are white space.
pub open spec fn blank(s: Seq<char>) -> bool {
    forall|i: int| 0 <= i < s.len() ==> white_space(#[trigger] s[i])
}

/// Trimming takes white space off the ends and nothing else, and leaves none there.
pub proof fn trimming_takes_white_space_off_the_ends(s: Seq<char>)
    ensures
        ({
            let t = trimmed(s);
            &&& t.len() > 0 ==> !white_space(t[0]) && !white_space(t.last())
            &&& exists|a: Seq<char>, b: Seq<char>|
                blank(a) && blank(b) && s == #[trigger] (a + t + b)
        }),
        ({
            let t = trim_back(s);
            &&& t.len() > 0 ==> !white_space(t.last())
            &&& exists|b: Seq<char>| blank(b) && s == #[trigger] (t + b)
        }),
{
    trim_front_takes_white_space(s);
    trim_back_takes_white_space(s);
    let m = trim_front(s);
    trim_back_takes_white_space(m);
    let a = choose|a: Seq<char>| blank(a) && s == #[trigger] (a + m);
    let b = choose|b: Seq<char>| blank(b) && m == #[trigger] (trim_back(m) + b);
    let t = trimmed(s);
    assert(s == a + t + b);
    assert(t.len() > 0 ==> t[0] == m[0]);
}

proof fn trim_front_takes_white_space(s: Seq<char>)
    ensures
        trim_front(s).len() > 0 ==> !white_space(trim_front(s)[0]),
        exists|a: Seq<char>| blank(a) && s == #[trigger] (a + trim_front(s)),
    decreases s.len(),
{
    let t = trim_front(s);
    if s.len() > 0 && white_space(s[0]) {
        trim_front_takes_white_space(s.skip(1));
        let a = choose|a: Seq<char>| blank(a) && s.skip(1) == #[trigger] (a + t);
        let whole = seq![s[0]] + a;
        assert(s == seq![s[0]] + s.skip(1));
        assert(blank(whole));
        assert(s == whole + t);
    } else {
        assert(s == Seq::<char>::empty() + t);
        assert(blank(Seq::<char>::empty()));
    }
}

proof fn trim_back_takes_white_space(s: Seq<char>)
    ensures
        trim_back(s).len() > 0 ==> !white_space(trim_back(s).last()),
        exists|b: Seq<char>| blank(b) && s == #[trigger] (trim_back(s) + b),
    decreases s.len(),
{
    let t = trim_back(s);
    if s.len() > 0 && white_space(s.last()) {
        trim_back_takes_white_space(s.drop_last());
        let b = choose|b: Seq<char>| blank(b) && s.drop_last() == #[trigger] (t + b);
        let whole = b.push(s.last());
        assert(s == s.drop_last().push(s.last()));
        assert(blank(whole));
        assert(s == t + whole);
    } else {
        assert(s == t + Seq::<char>::empty());
        assert(blank(Seq::<char>::empty()));
    }
}

/// A character, `n` times.
pub open spec fn repeated(c: char, n: nat) -> Seq<char> {
    Seq::new(n, |i: int| c)
}

/// Stripping takes the given character off an end and nothing else, and leaves none there.
pub proof fn stripping_takes_the_character_off(s: Seq<char>, c: char)
    ensures
        strip_front(s, c).len() > 0 ==> strip_front(s, c)[0] != c,
        exists|n: nat| s == #[trigger] repeated(c, n) + strip_front(s, c),
        strip_back(s, c).len() > 0 ==> strip_back(s, c).last() != c,
        exists|n: nat| s == strip_back(s, c) + #[trigger] repeated(c, n),
    decreases s.len(),
{
    if s.len() > 0 && s[0] == c {
        let t = strip_front(s, c);
        stripping_takes_the_character_off(s.skip(1), c);
        let n = choose|n: nat| s.skip(1) == #[trigger] repeated(c, n) + t;
        let more = (n + 1) as nat;
        assert(s == seq![s[0]] + s.skip(1));
        assert(s == repeated(c, more) + t);
    } else {
        assert(s == repeated(c, 0) + s);
    }
    if s.len() > 0 && s.last() == c {
        let t = strip_back(s, c);
        stripping_takes_the_character_off(s.drop_last(), c);
        let n = choose|n: nat| s.drop_last() == t + #[trigger] repeated(c, n);
        let more = (n + 1) as nat;
        assert(s == s.drop_last().push(c));
        assert(s == t + repeated(c, more));
    } else {
        assert(s == s + repeated(c, 0));
    }
}

/// A separator parts the pieces before it from those after it, and a text without one is the
/// only piece of itself.
pub proof fn separators_part_pieces(a: Seq<char>, c: char, b: Seq<char>)
    ensures
        pieces(a + seq![c] + b, c) == pieces(a, c) + pieces(b, c),
        !a.contains(c) ==> pieces(a, c) == seq![a],
    decreases a.len(),
{
    let all = a + seq![c] + b;
    let n = first(a, c) as int;
    first_is_first(a, c);
    first_is_first(all, c);
    let m = first(all, c) as int;
    assert(all[n] == c);
    if m < n {
        assert(all[m] == a[m]);
    }
    assert(m == n);
    assert(all.take(n) == a.take(n));
    if n < a.len() {
        let rest = a.skip(n + 1);
        assert(a[n] == c);
        assert(all.skip(n + 1) == rest + seq![c] + b);
        separators_part_pieces(rest, c, b);
        assert(pieces(all, c) =~= seq![a.take(n)] + (pieces(rest, c) + pieces(b, c)));
        assert(pieces(a, c) =~= seq![a.take(n)] + pieces(rest, c));
    } else {
        assert(a.take(n) == a);
        assert(all.skip(n + 1) == b);
    }
}

/// Joining sets the separator between what is there and the next part, and nothing before the
/// first one.
pub proof fn parts_are_joined_one_by_one(
    parts: Seq<Seq<char>>,
    next: Seq<char>,
    sep: Seq<char>,
)
    ensures
        join(seq![], sep).len() == 0,
        join(parts.push(next), sep) == if parts.len() == 0 {
            next
        } else {
            join(parts, sep) + sep + next
        },
{
    assert(parts.push(next).drop_last() == parts);
}

/// Digits are read as the number that they write, zeros in front of it included, where it fits
/// 64 bits; a larger one is not read. A `+` before them makes no difference.
pub proof fn numbers_that_fit_are_read(s: Seq<char>)
    requires
        s.len() > 0,
        forall|i: int| 0 <= i < s.len() ==> '0' <= #[trigger] s[i] <= '9',
    ensures
        decimal_value(s) <= u64::MAX ==> uint_of(s) == Some(decimal_value(s) as u64),
        decimal_value(s) > u64::MAX ==> uint_of(s) is None,
        uint_of(seq!['+'] + s) == uint_of(s),
        uint_of(seq![]) is None,
{
    assert(s[0] != '+');
    assert((seq!['+'] + s).skip(1) =~= s);
}

/// The texts of a list stand in its order.
pub proof fn texts_keep_their_order(list: Seq<String>, i: int)
    ensures
        texts(list).len() == list.len(),
        0 <= i < list.len() ==> texts(list)[i] == list[i]@,
{
}

} // verus!
