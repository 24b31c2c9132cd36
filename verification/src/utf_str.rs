//! A UTF-16 string buffer with a trailing zero unit, the form expected by
//! foreign-function interfaces that take wide null-terminated strings.

use vstd::prelude::*;

verus! {

use vstd::string::StrSliceExecFns;
use vstd::utf8::char_is_scalar;

/// The UTF-16 code units of one character: a single unit below `0x10000`,
/// otherwise the surrogate pair of the scalar value.
pub open spec fn utf16_units(c: char) -> Seq<u16> {
    let v = c as u32;
    if v < 0x10000 {
        seq![v as u16]
    } else {
        seq![(0xD800 + (v - 0x10000) / 0x400) as u16, (0xDC00 + (v - 0x10000) % 0x400) as u16]
    }
}

/// The UTF-16 encoding of a character sequence, without a terminator.
pub open spec fn utf16_encode(s: Seq<char>) -> Seq<u16>
    decreases s.len(),
{
    if s.len() == 0 {
        Seq::empty()
    } else {
        utf16_units(s[0]) + utf16_encode(s.skip(1))
    }
}

/// Appending one character appends its code units.
proof fn lemma_utf16_encode_snoc(s: Seq<char>, c: char)
    ensures
        utf16_encode(s.push(c)) == utf16_encode(s) + utf16_units(c),
    decreases s.len(),
{
    if s.len() == 0 {
        assert(s.push(c)[0] == c);
        assert(s.push(c).skip(1) =~= s);
        assert(utf16_encode(s) == Seq::<u16>::empty());
        assert(utf16_encode(s.push(c)) =~= utf16_encode(s) + utf16_units(c));
    } else {
        assert(s.push(c)[0] == s[0]);
        assert(s.push(c).skip(1) =~= s.skip(1).push(c));
        lemma_utf16_encode_snoc(s.skip(1), c);
        assert(utf16_encode(s.push(c)) =~= utf16_encode(s) + utf16_units(c));
    }
}

/// Whether a unit is the first of a surrogate pair.
pub open spec fn is_high_surrogate(u: u16) -> bool {
    0xD800 <= u <= 0xDBFF
}

/// Whether a unit is the second of a surrogate pair.
pub open spec fn is_low_surrogate(u: u16) -> bool {
    0xDC00 <= u <= 0xDFFF
}

/// Whether a unit sequence is well-formed UTF-16: every high surrogate is
/// followed by a low one, and no low surrogate stands alone.
pub open spec fn utf16_wf(u: Seq<u16>) -> bool
    decreases u.len(),
{
    if u.len() == 0 {
        true
    } else if is_high_surrogate(u[0]) {
        u.len() >= 2 && is_low_surrogate(u[1]) && utf16_wf(u.skip(2))
    } else if is_low_surrogate(u[0]) {
        false
    } else {
        utf16_wf(u.skip(1))
    }
}

/// The unit buffer did not hold well-formed UTF-16.
#[derive(PartialEq, Eq, Structural, Clone, Copy, Debug)]
pub struct Utf16DecodeError {}

/// Relies on char::from_u32: `Some` exactly for Unicode scalar values (at
/// most 0x10FFFF and not a surrogate), and the returned character has the
/// given scalar value.
#[verifier::external_body]
fn char_from_u32(v: u32) -> (r: Option<char>)
    ensures
        r matches Some(c) ==> c as u32 == v,
        r is Some <==> (v < 0xD800 || (0xE000 <= v <= 0x10FFFF)),
{
    char::from_u32(v)
}

/// Relies on String::push: appends exactly the one character.
#[verifier::external_body]
fn push_char(s: &mut String, c: char)
    ensures
        final(s)@ == old(s)@ + seq![c],
{
    s.push(c);
}

/// A wide string: UTF-16 code units followed by one zero terminator unit.
/// The view is the whole stored unit sequence, terminator included.
pub struct Utf16String {
    data: Vec<u16>,
}

impl View for Utf16String {
    type V = Seq<u16>;

    closed spec fn view(&self) -> Seq<u16> {
        self.data@
    }
}

impl Utf16String {
    /// Encodes a string slice as UTF-16 and appends the zero terminator.
    pub fn from_str(s: &str) -> (r: Utf16String)
        ensures
            r@ == utf16_encode(s@) + seq![0u16],
    {
        let n = s.unicode_len();
        let mut data: Vec<u16> = Vec::new();
        let mut k: usize = 0;
        while k < n
            invariant
                k <= n,
                n == s@.len(),
                data@ == utf16_encode(s@.take(k as int)),
            decreases n - k,
        {
            let c = s.get_char(k);
            let v = c as u32;
            proof {
                char_is_scalar(c);
            }
            if v < 0x10000 {
                data.push(v as u16);
            } else {
                let off = v - 0x10000;
                data.push((0xD800 + off / 0x400) as u16);
                data.push((0xDC00 + off % 0x400) as u16);
            }
            k = k + 1;
            proof {
                assert(s@.take(k as int) =~= s@.take(k as int - 1).push(s@[k as int - 1]));
                lemma_utf16_encode_snoc(s@.take(k as int - 1), s@[k as int - 1]);
                assert(data@ =~= utf16_encode(s@.take(k as int)));
            }
        }
        proof {
            assert(s@.take(n as int) =~= s@);
        }
        data.push(0);
        proof {
            assert(data@ =~= utf16_encode(s@) + seq![0u16]);
        }
        Utf16String { data }
    }

    /// Encodes an owned string; the buffer holds its UTF-16 units and the
    /// zero terminator.
    pub fn from_string(s: String) -> (r: Utf16String)
        ensures
            r@ == utf16_encode(s@) + seq![0u16],
    {
        Self::from_str(s.as_str())
    }

    /// Wraps a raw unit buffer, for units that arrive from a foreign
    /// interface; nothing is validated until decoding.
    pub fn from_units(data: Vec<u16>) -> (r: Utf16String)
        ensures
            r@ == data@,
    {
        Utf16String { data }
    }

    /// The stored units, terminator included.
    pub fn units(&self) -> (r: &Vec<u16>)
        ensures
            r@ == self@,
    {
        &self.data
    }

    /// Decodes the whole stored unit sequence back to text, terminator
    /// included as a final zero character. Fails exactly when the units are
    /// not well-formed UTF-16; on success the result encodes back to the
    /// stored units.
    pub fn try_into_string(self) -> (r: Result<String, Utf16DecodeError>)
        ensures
            match r {
                Ok(out) => utf16_wf(self@) && utf16_encode(out@) == self@,
                Err(_) => !utf16_wf(self@),
            },
    {
        let u = self.data;
        let n = u.len();
        let mut out = String::new();
        let mut i: usize = 0;
        proof {
            assert(u@.skip(0) =~= u@);
            assert(u@.take(0) =~= Seq::<u16>::empty());
            assert(utf16_encode(out@) =~= u@.take(0));
        }
        while i < n
            invariant
                i <= n,
                n == u@.len(),
                u@ == self@,
                utf16_encode(out@) == u@.take(i as int),
                utf16_wf(u@) == utf16_wf(u@.skip(i as int)),
            decreases n - i,
        {
            let ghost rest = u@.skip(i as int);
            proof {
                assert(rest[0] == u@[i as int]);
            }
            let w = u[i];
            if w >= 0xD800 && w <= 0xDBFF {
                if i + 1 >= n || !(u[i + 1] >= 0xDC00 && u[i + 1] <= 0xDFFF) {
                    proof {
                        if rest.len() >= 2 {
                            assert(rest[1] == u@[i as int + 1]);
                        }
                        assert(!utf16_wf(rest));
                    }
                    return Err(Utf16DecodeError {});
                }
                let lo = u[i + 1];
                let v: u32 = 0x10000 + ((w as u32 - 0xD800) * 0x400) + (lo as u32 - 0xDC00);
                proof {
                    assert(rest[1] == u@[i as int + 1]);
                    assert(v <= 0x10FFFF) by (nonlinear_arith)
                        requires
                            v == 0x10000 + ((w as u32 - 0xD800) * 0x400) + (lo as u32 - 0xDC00),
                            0xD800 <= w <= 0xDBFF,
                            0xDC00 <= lo <= 0xDFFF,
                    ;
                }
                let c = match char_from_u32(v) {
                    Some(c) => c,
                    None => vstd::pervasive::unreached(),
                };
                let ghost pre_out = out@;
                push_char(&mut out, c);
                i = i + 2;
                proof {
                    let x = w as u32 - 0xD800;
                    let y = lo as u32 - 0xDC00;
                    assert((v - 0x10000) / 0x400 == x && (v - 0x10000) % 0x400 == y)
                        by (nonlinear_arith)
                        requires
                            v == 0x10000 + x * 0x400 + y,
                            0 <= x,
                            0 <= y < 0x400,
                    ;
                    assert(utf16_units(c) =~= seq![w, lo]);
                    lemma_utf16_encode_snoc(pre_out, c);
                    assert(out@ =~= pre_out.push(c));
                    assert(u@.take(i as int) =~= u@.take(i as int - 2) + seq![w, lo]);
                    assert(utf16_encode(out@) =~= u@.take(i as int));
                    assert(rest.skip(2) =~= u@.skip(i as int));
                }
            } else if w >= 0xDC00 && w <= 0xDFFF {
                proof {
                    assert(!utf16_wf(rest));
                }
                return Err(Utf16DecodeError {});
            } else {
                let c = match char_from_u32(w as u32) {
                    Some(c) => c,
                    None => vstd::pervasive::unreached(),
                };
                let ghost pre_out = out@;
                push_char(&mut out, c);
                i = i + 1;
                proof {
                    assert(utf16_units(c) =~= seq![w]);
                    lemma_utf16_encode_snoc(pre_out, c);
                    assert(out@ =~= pre_out.push(c));
                    assert(u@.take(i as int) =~= u@.take(i as int - 1) + seq![w]);
                    assert(utf16_encode(out@) =~= u@.take(i as int));
                    assert(rest.skip(1) =~= u@.skip(i as int));
                }
            }
        }
        proof {
            assert(u@.take(n as int) =~= u@);
            assert(u@.skip(n as int) =~= Seq::<u16>::empty());
        }
        Ok(out)
    }
}

} // verus!
