//! The three-part version triple carried in a package header: three one-byte
//! numeric fields ordered lexicographically (major, then minor, then build).

use vstd::prelude::*;

verus! {

use core::cmp::Ordering;
use vstd::string::StrSliceExecFns;
use vstd::string::StringExecFns;

/// The character for one decimal digit value.
pub open spec fn spec_digit(d: int) -> char {
    if d == 0 {
        '0'
    } else if d == 1 {
        '1'
    } else if d == 2 {
        '2'
    } else if d == 3 {
        '3'
    } else if d == 4 {
        '4'
    } else if d == 5 {
        '5'
    } else if d == 6 {
        '6'
    } else if d == 7 {
        '7'
    } else if d == 8 {
        '8'
    } else {
        '9'
    }
}

/// The decimal rendering of a byte value, without leading zeros.
pub open spec fn dec_str_u8(n: int) -> Seq<char> {
    if n < 10 {
        seq![spec_digit(n)]
    } else if n < 100 {
        seq![spec_digit(n / 10), spec_digit(n % 10)]
    } else {
        seq![spec_digit(n / 100), spec_digit((n / 10) % 10), spec_digit(n % 10)]
    }
}

/// The textual rendering of a triple: the three fields in decimal, separated
/// by dots.
pub open spec fn spec_display(v: Version) -> Seq<char> {
    dec_str_u8(v.spec_major() as int) + seq!['.'] + dec_str_u8(v.spec_minor() as int) + seq!['.']
        + dec_str_u8(v.spec_build() as int)
}

/// The whitespace characters trimmed from the ends of each part before
/// parsing.
pub open spec fn is_ws(c: char) -> bool {
    c as u32 == 32 || c as u32 == 9 || c as u32 == 10 || c as u32 == 13 || c as u32 == 11 || c
        as u32 == 12
}

/// Whether a character is a decimal digit.
pub open spec fn is_digit(c: char) -> bool {
    48 <= c as u32 <= 57
}

/// The value of a decimal digit character.
pub open spec fn digit_val(c: char) -> int {
    c as u32 - 48
}

/// Whether every character of a sequence is a decimal digit.
pub open spec fn all_digits(s: Seq<char>) -> bool {
    forall|i: int| 0 <= i < s.len() ==> is_digit(#[trigger] s[i])
}

/// The number a sequence of decimal digits denotes, most significant first.
pub open spec fn dec_value(s: Seq<char>) -> int
    decreases s.len(),
{
    if s.len() == 0 {
        0
    } else {
        dec_value(s.drop_last()) * 10 + digit_val(s.last())
    }
}

/// A digit string denotes a non-negative number.
proof fn lemma_dec_value_nonneg(s: Seq<char>)
    requires
        all_digits(s),
    ensures
        dec_value(s) >= 0,
    decreases s.len(),
{
    if s.len() > 0 {
        assert(all_digits(s.drop_last()));
        lemma_dec_value_nonneg(s.drop_last());
        assert(is_digit(s.last()));
    }
}

/// Dropping trailing digits never increases the denoted number.
proof fn lemma_dec_value_prefix(s: Seq<char>, k: int)
    requires
        all_digits(s),
        0 <= k <= s.len(),
    ensures
        dec_value(s.take(k)) <= dec_value(s),
    decreases s.len() - k,
{
    if k < s.len() {
        assert(s.take(k + 1).drop_last() =~= s.take(k));
        assert(s.take(k + 1).last() == s[k]);
        assert(all_digits(s.take(k)));
        lemma_dec_value_nonneg(s.take(k));
        assert(is_digit(s[k]));
        assert(dec_value(s.take(k)) <= dec_value(s.take(k + 1)));
        lemma_dec_value_prefix(s, k + 1);
        assert(s.take(s.len() as int) =~= s);
    } else {
        assert(s.take(k) =~= s);
    }
}

/// A sequence with its surrounding whitespace removed.
pub open spec fn spec_trim(s: Seq<char>) -> Seq<char>
    decreases s.len(),
{
    if s.len() == 0 {
        s
    } else if is_ws(s[0]) {
        spec_trim(s.skip(1))
    } else if is_ws(s.last()) {
        spec_trim(s.take(s.len() - 1))
    } else {
        s
    }
}

/// Whether a trimmed part is a valid byte: an optional leading plus sign,
/// then at least one decimal digit, denoting a value of at most 255.
pub open spec fn is_u8_part(t: Seq<char>) -> bool {
    let body = if t.len() > 0 && t[0] == '+' {
        t.skip(1)
    } else {
        t
    };
    body.len() > 0 && all_digits(body) && dec_value(body) <= 255
}

/// The byte value a valid part denotes.
pub open spec fn part_value(t: Seq<char>) -> int {
    let body = if t.len() > 0 && t[0] == '+' {
        t.skip(1)
    } else {
        t
    };
    dec_value(body)
}

/// How many dot separators a sequence holds.
pub open spec fn dot_count(s: Seq<char>) -> int
    decreases s.len(),
{
    if s.len() == 0 {
        0
    } else {
        (if s[0] == '.' {
            1int
        } else {
            0int
        }) + dot_count(s.skip(1))
    }
}

/// The index of the first dot, or the length when there is none.
pub open spec fn first_dot(s: Seq<char>) -> int
    decreases s.len(),
{
    if s.len() == 0 {
        0
    } else if s[0] == '.' {
        0
    } else {
        1 + first_dot(s.skip(1))
    }
}

/// Appending one character adds its dot to the count.
proof fn lemma_dot_count_snoc(t: Seq<char>, c: char)
    ensures
        dot_count(t.push(c)) == dot_count(t) + (if c == '.' {
            1int
        } else {
            0int
        }),
    decreases t.len(),
{
    if t.len() == 0 {
        assert(t.push(c)[0] == c);
        assert(t.push(c).skip(1) =~= t);
        assert(dot_count(t) == 0);
    } else {
        assert(t.push(c)[0] == t[0]);
        assert(t.push(c).skip(1) =~= t.skip(1).push(c));
        lemma_dot_count_snoc(t.skip(1), c);
        assert(dot_count(t.push(c).skip(1)) == dot_count(t.skip(1)) + (if c == '.' {
            1int
        } else {
            0int
        }));
        assert(dot_count(t) == (if t[0] == '.' {
            1int
        } else {
            0int
        }) + dot_count(t.skip(1)));
    }
}

/// A dot with no dot before it is the first dot.
proof fn lemma_first_dot_at(s: Seq<char>, i: int)
    requires
        0 <= i < s.len(),
        s[i] == '.',
        forall|m: int| 0 <= m < i ==> s[m] != '.',
    ensures
        first_dot(s) == i,
    decreases i,
{
    if i > 0 {
        assert(forall|m: int| 0 <= m < i - 1 ==> s.skip(1)[m] != '.');
        assert(s.skip(1)[i - 1] == s[i]);
        lemma_first_dot_at(s.skip(1), i - 1);
    }
}

/// A decimal digit is its own character's value, and is neither a dot, a
/// plus sign, nor whitespace.
proof fn lemma_digit_char(d: int)
    requires
        0 <= d < 10,
    ensures
        is_digit(spec_digit(d)),
        digit_val(spec_digit(d)) == d,
        spec_digit(d) != '.',
        spec_digit(d) != '+',
        !is_ws(spec_digit(d)),
{
}

/// The decimal rendering of a byte denotes that byte: it is non-empty, all
/// digits, and reads back as the same value.
proof fn lemma_dec_str_u8(n: int)
    requires
        0 <= n <= 255,
    ensures
        dec_str_u8(n).len() >= 1,
        all_digits(dec_str_u8(n)),
        dec_value(dec_str_u8(n)) == n,
        forall|i: int|
            0 <= i < dec_str_u8(n).len() ==> #[trigger] dec_str_u8(n)[i] != '.' && dec_str_u8(
                n,
            )[i] != '+' && !is_ws(dec_str_u8(n)[i]),
{
    assert(dec_value(Seq::<char>::empty()) == 0);
    if n < 10 {
        lemma_digit_char(n);
        let s = dec_str_u8(n);
        assert(s.drop_last() =~= Seq::<char>::empty());
        assert(s.last() == spec_digit(n));
        assert(dec_value(s) == n);
    } else if n < 100 {
        lemma_digit_char(n / 10);
        lemma_digit_char(n % 10);
        let s = dec_str_u8(n);
        let t = seq![spec_digit(n / 10)];
        assert(t.drop_last() =~= Seq::<char>::empty());
        assert(t.last() == spec_digit(n / 10));
        assert(dec_value(t) == n / 10);
        assert(s.drop_last() =~= t);
        assert(s.last() == spec_digit(n % 10));
        assert(dec_value(s) == (n / 10) * 10 + n % 10);
    } else {
        lemma_digit_char(n / 100);
        lemma_digit_char((n / 10) % 10);
        lemma_digit_char(n % 10);
        let s = dec_str_u8(n);
        let t1 = seq![spec_digit(n / 100)];
        let t2 = seq![spec_digit(n / 100), spec_digit((n / 10) % 10)];
        assert(t1.drop_last() =~= Seq::<char>::empty());
        assert(t1.last() == spec_digit(n / 100));
        assert(dec_value(t1) == n / 100);
        assert(t2.drop_last() =~= t1);
        assert(t2.last() == spec_digit((n / 10) % 10));
        assert(dec_value(t2) == (n / 100) * 10 + (n / 10) % 10);
        assert(dec_value(t2) == n / 10);
        assert(s.drop_last() =~= t2);
        assert(s.last() == spec_digit(n % 10));
        assert(dec_value(s) == (n / 10) * 10 + n % 10);
    }
}

/// Splitting a concatenation: the dots of the whole are the dots of the
/// parts.
proof fn lemma_dot_count_concat(a: Seq<char>, b: Seq<char>)
    ensures
        dot_count(a + b) == dot_count(a) + dot_count(b),
    decreases a.len(),
{
    if a.len() == 0 {
        assert(a + b =~= b);
        assert(dot_count(a) == 0);
    } else {
        assert((a + b)[0] == a[0]);
        assert((a + b).skip(1) =~= a.skip(1) + b);
        lemma_dot_count_concat(a.skip(1), b);
        assert(dot_count(a) == (if a[0] == '.' {
            1int
        } else {
            0int
        }) + dot_count(a.skip(1)));
    }
}

/// A sequence without dots counts no dots.
proof fn lemma_dot_count_zero(a: Seq<char>)
    requires
        forall|i: int| 0 <= i < a.len() ==> #[trigger] a[i] != '.',
    ensures
        dot_count(a) == 0,
    decreases a.len(),
{
    if a.len() > 0 {
        assert(forall|i: int| 0 <= i < a.skip(1).len() ==> #[trigger] a.skip(1)[i] != '.');
        lemma_dot_count_zero(a.skip(1));
    }
}

/// What parsing a version string yields: exactly three dot-separated parts
/// are required (fewer or more are the two counting errors), each part is
/// trimmed of surrounding whitespace and must be an optionally plus-signed
/// decimal byte, and the three values become the triple.
pub open spec fn spec_parse(s: Seq<char>) -> Result<Version, VersionParsingError> {
    if dot_count(s) + 1 < 3 {
        Err(VersionParsingError::TooFewParts)
    } else if dot_count(s) + 1 > 3 {
        Err(VersionParsingError::TooManyParts)
    } else {
        let i = first_dot(s);
        let j = i + 1 + first_dot(s.skip(i + 1));
        let p0 = spec_trim(s.take(i));
        let p1 = spec_trim(s.subrange(i + 1, j));
        let p2 = spec_trim(s.skip(j + 1));
        if is_u8_part(p0) && is_u8_part(p1) && is_u8_part(p2) {
            Ok(
                Version::spec_new(
                    part_value(p0) as u8,
                    part_value(p1) as u8,
                    part_value(p2) as u8,
                ),
            )
        } else {
            Err(VersionParsingError::InvalidPart)
        }
    }
}

/// Rendering and parsing invert: the textual form of any triple parses back
/// to exactly that triple.
pub proof fn lemma_display_parse_round_trip(v: Version)
    ensures
        spec_parse(spec_display(v)) == Ok::<Version, VersionParsingError>(v),
{
    let d0 = dec_str_u8(v.spec_major() as int);
    let d1 = dec_str_u8(v.spec_minor() as int);
    let d2 = dec_str_u8(v.spec_build() as int);
    lemma_dec_str_u8(v.spec_major() as int);
    lemma_dec_str_u8(v.spec_minor() as int);
    lemma_dec_str_u8(v.spec_build() as int);
    let s = spec_display(v);
    let n0 = d0.len() as int;
    let n1 = d1.len() as int;
    let j = n0 + 1 + n1;

    lemma_dot_count_concat(d0 + seq!['.'] + d1 + seq!['.'], d2);
    lemma_dot_count_concat(d0 + seq!['.'] + d1, seq!['.']);
    lemma_dot_count_concat(d0 + seq!['.'], d1);
    lemma_dot_count_concat(d0, seq!['.']);
    lemma_dot_count_zero(d0);
    lemma_dot_count_zero(d1);
    lemma_dot_count_zero(d2);
    assert(seq!['.'].skip(1) =~= Seq::<char>::empty());
    assert(dot_count(Seq::<char>::empty()) == 0);
    assert(seq!['.'][0] == '.');
    assert(dot_count(seq!['.']) == 1);
    assert(dot_count(s) == 2);

    assert(forall|m: int| 0 <= m < n0 ==> #[trigger] s[m] == d0[m]);
    assert(s[n0] == '.');
    lemma_first_dot_at(s, n0);

    let tail = s.skip(n0 + 1);
    assert(tail =~= d1 + seq!['.'] + d2);
    assert(forall|m: int| 0 <= m < n1 ==> #[trigger] tail[m] == d1[m]);
    assert(tail[n1] == '.');
    lemma_first_dot_at(tail, n1);

    assert(s.take(n0) =~= d0);
    assert(s.subrange(n0 + 1, j) =~= d1);
    assert(s.skip(j + 1) =~= d2);

    assert(!is_ws(d0[0]) && !is_ws(d0.last()) && spec_trim(d0) == d0);
    assert(!is_ws(d1[0]) && !is_ws(d1.last()) && spec_trim(d1) == d1);
    assert(!is_ws(d2[0]) && !is_ws(d2.last()) && spec_trim(d2) == d2);

    assert(is_u8_part(d0) && part_value(d0) == v.spec_major() as int);
    assert(is_u8_part(d1) && part_value(d1) == v.spec_minor() as int);
    assert(is_u8_part(d2) && part_value(d2) == v.spec_build() as int);

    lemma_spec_new_fields(v.spec_major(), v.spec_minor(), v.spec_build());
    lemma_version_eq(Version::spec_new(v.spec_major(), v.spec_minor(), v.spec_build()), v);
}

/// Whether a character is trimmed as whitespace.
fn ws_char(c: char) -> (r: bool)
    ensures
        r == is_ws(c),
{
    let v = c as u32;
    v == 32 || v == 9 || v == 10 || v == 13 || v == 11 || v == 12
}

/// Parses one dot-separated window of the character buffer as a byte part:
/// trims surrounding whitespace, then reads an optionally plus-signed
/// decimal number of at most 255. `None` exactly when the trimmed window is
/// no valid part.
fn parse_part(chars: &Vec<char>, from: usize, to: usize) -> (r: Option<u8>)
    requires
        from <= to <= chars@.len(),
    ensures
        ({
            let t = spec_trim(chars@.subrange(from as int, to as int));
            match r {
                Some(v) => is_u8_part(t) && part_value(t) == v as int,
                None => !is_u8_part(t),
            }
        }),
{
    let ghost w0 = chars@.subrange(from as int, to as int);
    let mut lo: usize = from;
    let mut hi: usize = to;
    while lo < hi && ws_char(chars[lo])
        invariant
            from <= lo <= hi <= chars@.len(),
            hi == to,
            spec_trim(w0) == spec_trim(chars@.subrange(lo as int, hi as int)),
        decreases hi - lo,
    {
        proof {
            let w = chars@.subrange(lo as int, hi as int);
            assert(w[0] == chars@[lo as int]);
            assert(w.skip(1) =~= chars@.subrange(lo as int + 1, hi as int));
        }
        lo = lo + 1;
    }
    while hi > lo && ws_char(chars[hi - 1])
        invariant
            from <= lo <= hi <= chars@.len(),
            lo < hi ==> !is_ws(chars@[lo as int]),
            spec_trim(w0) == spec_trim(chars@.subrange(lo as int, hi as int)),
        decreases hi,
    {
        proof {
            let w = chars@.subrange(lo as int, hi as int);
            assert(w[0] == chars@[lo as int]);
            assert(w.last() == chars@[hi as int - 1]);
            assert(w.take(w.len() - 1) =~= chars@.subrange(lo as int, hi as int - 1));
        }
        hi = hi - 1;
    }
    let ghost t = spec_trim(w0);
    proof {
        let w = chars@.subrange(lo as int, hi as int);
        if w.len() > 0 {
            assert(w[0] == chars@[lo as int]);
            assert(w.last() == chars@[hi as int - 1]);
        }
        assert(t == w);
    }

    if lo == hi {
        return None;
    }
    let mut p: usize = lo;
    if chars[p] == '+' {
        proof {
            assert(t[0] == chars@[lo as int]);
        }
        p = p + 1;
    } else {
        proof {
            assert(t[0] == chars@[lo as int]);
        }
    }
    let ghost body = chars@.subrange(p as int, hi as int);
    proof {
        if t.len() > 0 && t[0] == '+' {
            assert(t.skip(1) =~= body);
        } else {
            assert(t =~= body);
        }
        assert(is_u8_part(t) == (body.len() > 0 && all_digits(body) && dec_value(body) <= 255));
        assert(part_value(t) == dec_value(body));
    }

    if p == hi {
        return None;
    }

    let mut acc: u32 = 0;
    let mut i: usize = p;
    while i < hi
        invariant
            p <= i <= hi <= chars@.len(),
            p < hi,
            body == chars@.subrange(p as int, hi as int),
            all_digits(chars@.subrange(p as int, i as int)),
            acc as int == dec_value(chars@.subrange(p as int, i as int)),
            acc <= 255,
            t == spec_trim(chars@.subrange(from as int, to as int)),
            is_u8_part(t) == (body.len() > 0 && all_digits(body) && dec_value(body) <= 255),
            part_value(t) == dec_value(body),
        decreases hi - i,
    {
        let c = chars[i];
        let cv = c as u32;
        proof {
            assert(body[i - p] == chars@[i as int]);
        }
        if cv < 48 || cv > 57 {
            proof {
                assert(!is_digit(chars@[i as int]));
                assert(!all_digits(body));
            }
            return None;
        }
        let d = cv - 48;
        let next = acc * 10 + d;
        proof {
            let pre = chars@.subrange(p as int, i as int);
            let cur = chars@.subrange(p as int, i as int + 1);
            assert(cur.drop_last() =~= pre);
            assert(cur.last() == chars@[i as int]);
            assert(all_digits(cur));
            assert(dec_value(cur) == next);
        }
        if next > 255 {
            proof {
                if is_u8_part(t) {
                    lemma_dec_value_prefix(body, i + 1 - p);
                    assert(body.take(i + 1 - p) =~= chars@.subrange(p as int, i as int + 1));
                    assert(false);
                }
            }
            return None;
        }
        acc = next;
        i = i + 1;
    }
    proof {
        assert(chars@.subrange(p as int, i as int) =~= body);
        assert(is_u8_part(t));
        assert(part_value(t) == acc as int);
    }
    Some(acc as u8)
}

/// The one-character string for a decimal digit value.
fn digit_str(d: u8) -> (r: &'static str)
    requires
        d < 10,
    ensures
        r@ == seq![spec_digit(d as int)],
{
    proof {
        reveal_strlit("0");
        reveal_strlit("1");
        reveal_strlit("2");
        reveal_strlit("3");
        reveal_strlit("4");
        reveal_strlit("5");
        reveal_strlit("6");
        reveal_strlit("7");
        reveal_strlit("8");
        reveal_strlit("9");
    }
    if d == 0 {
        "0"
    } else if d == 1 {
        "1"
    } else if d == 2 {
        "2"
    } else if d == 3 {
        "3"
    } else if d == 4 {
        "4"
    } else if d == 5 {
        "5"
    } else if d == 6 {
        "6"
    } else if d == 7 {
        "7"
    } else if d == 8 {
        "8"
    } else {
        "9"
    }
}

/// Appends the decimal rendering of a byte value.
fn push_u8_decimal(out: &mut String, n: u8)
    ensures
        final(out)@ == old(out)@ + dec_str_u8(n as int),
{
    if n >= 100 {
        out.append(digit_str(n / 100));
        out.append(digit_str((n / 10) % 10));
        out.append(digit_str(n % 10));
        proof {
            assert(old(out)@ + seq![spec_digit(n as int / 100)] + seq![
                spec_digit((n as int / 10) % 10),
            ] + seq![spec_digit(n as int % 10)] =~= old(out)@ + dec_str_u8(n as int));
        }
    } else if n >= 10 {
        out.append(digit_str(n / 10));
        out.append(digit_str(n % 10));
        proof {
            assert(old(out)@ + seq![spec_digit(n as int / 10)] + seq![spec_digit(n as int % 10)]
                =~= old(out)@ + dec_str_u8(n as int));
        }
    } else {
        out.append(digit_str(n));
        proof {
            assert(old(out)@ + seq![spec_digit(n as int)] =~= old(out)@ + dec_str_u8(n as int));
        }
    }
}

/// Selects one of the three fields of a [`Version`].
#[derive(PartialEq, Eq, Structural, Clone, Copy, Debug)]
pub enum VersionField {
    Major,
    Minor,
    Build,
}

/// Why a textual version could not be parsed: the wrong number of
/// dot-separated parts, or a part that is not a small decimal number.
#[derive(PartialEq, Eq, Structural, Clone, Copy, Debug)]
pub enum VersionParsingError {
    TooManyParts,
    TooFewParts,
    InvalidPart,
}

impl VersionParsingError {
    /// The wording of each parsing failure.
    pub open spec fn spec_message(self) -> Seq<char> {
        match self {
            VersionParsingError::TooManyParts => "too many parts (expects 3)"@,
            VersionParsingError::TooFewParts => "too few parts (expects 3)"@,
            VersionParsingError::InvalidPart => "a sub-part could not be parsed"@,
        }
    }

    /// A human-readable description of the failure.
    pub fn message(&self) -> (r: &'static str)
        ensures
            r@ == self.spec_message(),
    {
        match self {
            VersionParsingError::TooManyParts => "too many parts (expects 3)",
            VersionParsingError::TooFewParts => "too few parts (expects 3)",
            VersionParsingError::InvalidPart => "a sub-part could not be parsed",
        }
    }
}

/// A version triple. Orders lexicographically: first by major, then by
/// minor, then by build.
#[derive(PartialEq, Eq, Structural, Clone, Copy, Hash, Debug, Ord)]
pub struct Version {
    major: u8,
    minor: u8,
    build: u8,
}

impl Version {
    /// The triple with the given fields, as a specification-level value.
    pub closed spec fn spec_new(major: u8, minor: u8, build: u8) -> Version {
        Version { major, minor, build }
    }

    pub closed spec fn spec_major(self) -> u8 {
        self.major
    }

    pub closed spec fn spec_minor(self) -> u8 {
        self.minor
    }

    pub closed spec fn spec_build(self) -> u8 {
        self.build
    }

    pub fn new(major: u8, minor: u8, build: u8) -> (r: Self)
        ensures
            r == Version::spec_new(major, minor, build),
            r.spec_major() == major,
            r.spec_minor() == minor,
            r.spec_build() == build,
    {
        Self { major, minor, build }
    }

    pub fn major(&self) -> (r: &u8)
        ensures
            *r == self.spec_major(),
    {
        &self.major
    }

    pub fn minor(&self) -> (r: &u8)
        ensures
            *r == self.spec_minor(),
    {
        &self.minor
    }

    pub fn build(&self) -> (r: &u8)
        ensures
            *r == self.spec_build(),
    {
        &self.build
    }

    /// The lexicographic order on (major, minor, build).
    pub open spec fn cmp_spec(self, other: Self) -> Ordering {
        if self.spec_major() != other.spec_major() {
            if self.spec_major() < other.spec_major() {
                Ordering::Less
            } else {
                Ordering::Greater
            }
        } else if self.spec_minor() != other.spec_minor() {
            if self.spec_minor() < other.spec_minor() {
                Ordering::Less
            } else {
                Ordering::Greater
            }
        } else if self.spec_build() != other.spec_build() {
            if self.spec_build() < other.spec_build() {
                Ordering::Less
            } else {
                Ordering::Greater
            }
        } else {
            Ordering::Equal
        }
    }

    /// Parses a version from text: exactly three dot-separated parts, each
    /// trimmed of surrounding whitespace and read as an optionally
    /// plus-signed decimal byte. Returns exactly what [`spec_parse`] says
    /// for the characters of `s`.
    pub fn from_str(s: &str) -> (r: Result<Version, VersionParsingError>)
        ensures
            r == spec_parse(s@),
    {
        let n = s.unicode_len();
        let mut chars: Vec<char> = Vec::new();
        let mut k: usize = 0;
        while k < n
            invariant
                k <= n,
                n == s@.len(),
                chars@ == s@.take(k as int),
            decreases n - k,
        {
            let c = s.get_char(k);
            chars.push(c);
            k = k + 1;
            proof {
                assert(chars@ =~= s@.take(k as int));
            }
        }
        proof {
            assert(chars@ =~= s@);
        }

        let mut count: usize = 0;
        let mut i1: usize = 0;
        let mut i2: usize = 0;
        let mut k: usize = 0;
        while k < n
            invariant
                k <= n,
                n == s@.len(),
                chars@ == s@,
                count <= k,
                count as int == dot_count(s@.take(k as int)),
                count == 0 ==> forall|m: int| 0 <= m < k ==> s@[m] != '.',
                count >= 1 ==> i1 < k && s@[i1 as int] == '.' && (forall|m: int|
                    0 <= m < i1 ==> s@[m] != '.'),
                count == 1 ==> forall|m: int| i1 < m < k ==> s@[m] != '.',
                count >= 2 ==> i1 < i2 < k && s@[i2 as int] == '.' && (forall|m: int|
                    i1 < m < i2 ==> s@[m] != '.'),
            decreases n - k,
        {
            proof {
                assert(s@.take(k as int + 1) =~= s@.take(k as int).push(s@[k as int]));
                lemma_dot_count_snoc(s@.take(k as int), s@[k as int]);
            }
            if chars[k] == '.' {
                count = count + 1;
                if count == 1 {
                    i1 = k;
                } else if count == 2 {
                    i2 = k;
                }
            }
            k = k + 1;
        }
        proof {
            assert(s@.take(n as int) =~= s@);
        }
        if count < 2 {
            return Err(VersionParsingError::TooFewParts);
        }
        if count > 2 {
            return Err(VersionParsingError::TooManyParts);
        }
        proof {
            lemma_first_dot_at(s@, i1 as int);
            assert(forall|m: int|
                0 <= m < i2 - i1 - 1 ==> #[trigger] s@.skip(i1 as int + 1)[m] != '.');
            assert(s@.skip(i1 as int + 1)[i2 - i1 - 1] == s@[i2 as int]);
            lemma_first_dot_at(s@.skip(i1 as int + 1), i2 as int - i1 - 1);
            assert(s@.take(i1 as int) =~= chars@.subrange(0, i1 as int));
            assert(s@.subrange(i1 as int + 1, i2 as int) =~= chars@.subrange(
                i1 as int + 1,
                i2 as int,
            ));
            assert(s@.skip(i2 as int + 1) =~= chars@.subrange(i2 as int + 1, n as int));
        }
        let major = match parse_part(&chars, 0, i1) {
            Some(v) => v,
            None => {
                return Err(VersionParsingError::InvalidPart);
            },
        };
        let minor = match parse_part(&chars, i1 + 1, i2) {
            Some(v) => v,
            None => {
                return Err(VersionParsingError::InvalidPart);
            },
        };
        let build = match parse_part(&chars, i2 + 1, n) {
            Some(v) => v,
            None => {
                return Err(VersionParsingError::InvalidPart);
            },
        };
        Ok(Version::new(major, minor, build))
    }

    /// Renders the triple as text: the three fields in decimal, separated by
    /// dots.
    pub fn to_string(&self) -> (r: String)
        ensures
            r@ == spec_display(*self),
    {
        proof {
            reveal_strlit(".");
        }
        let mut out = String::new();
        push_u8_decimal(&mut out, self.major);
        out.append(".");
        push_u8_decimal(&mut out, self.minor);
        out.append(".");
        push_u8_decimal(&mut out, self.build);
        proof {
            assert(out@ =~= spec_display(*self));
        }
        out
    }

    /// Field access by name.
    pub fn index(&self, index: VersionField) -> (r: &u8)
        ensures
            index == VersionField::Major ==> *r == self.spec_major(),
            index == VersionField::Minor ==> *r == self.spec_minor(),
            index == VersionField::Build ==> *r == self.spec_build(),
    {
        match index {
            VersionField::Major => &self.major,
            VersionField::Minor => &self.minor,
            VersionField::Build => &self.build,
        }
    }
}

/// The fields of a specification-level triple are the ones it was built
/// from.
pub broadcast proof fn lemma_spec_new_fields(major: u8, minor: u8, build: u8)
    ensures
        (#[trigger] Version::spec_new(major, minor, build)).spec_major() == major,
        Version::spec_new(major, minor, build).spec_minor() == minor,
        Version::spec_new(major, minor, build).spec_build() == build,
{
}

/// Two triples with the same three fields are the same triple.
pub proof fn lemma_version_eq(a: Version, b: Version)
    requires
        a.spec_major() == b.spec_major(),
        a.spec_minor() == b.spec_minor(),
        a.spec_build() == b.spec_build(),
    ensures
        a == b,
{
}

impl core::str::FromStr for Version {
    type Err = VersionParsingError;

    fn from_str(s: &str) -> Result<Version, VersionParsingError> {
        Version::from_str(s)
    }
}

impl PartialOrd for Version {
    fn partial_cmp(&self, other: &Self) -> (r: Option<Ordering>)
        ensures
            r == Some(self.cmp_spec(*other)),
    {
        if self == other {
            Some(Ordering::Equal)
        } else if self.major != other.major {
            if self.major < other.major {
                Some(Ordering::Less)
            } else {
                Some(Ordering::Greater)
            }
        } else if self.minor != other.minor {
            if self.minor < other.minor {
                Some(Ordering::Less)
            } else {
                Some(Ordering::Greater)
            }
        } else {
            if self.build < other.build {
                Some(Ordering::Less)
            } else {
                Some(Ordering::Greater)
            }
        }
    }
}

impl vstd::std_specs::cmp::PartialOrdSpecImpl for Version {
    open spec fn obeys_partial_cmp_spec() -> bool {
        true
    }

    open spec fn partial_cmp_spec(&self, other: &Self) -> Option<Ordering> {
        Some(self.cmp_spec(*other))
    }
}

} // verus!
