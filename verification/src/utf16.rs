//! UTF-16 as the Windows credential store and registry hold text.

use vstd::prelude::*;
use vstd::utf8::*;
use crate::text::push_char;

verus! {

broadcast use {vstd::utf8::char_is_scalar, vstd::utf8::char_u32_cast};

/// A unit that opens a surrogate pair.
pub open spec fn is_high_surrogate(u: u16) -> bool {
    0xD800 <= u <= 0xDBFF
}

/// A unit that closes a surrogate pair.
pub open spec fn is_low_surrogate(u: u16) -> bool {
    0xDC00 <= u <= 0xDFFF
}

/// The scalar value that a surrogate pair stands for.
pub open spec fn pair_scalar(hi: u16, lo: u16) -> u32 {
    (0x10000 + (hi - 0xD800) * 0x400 + (lo - 0xDC00)) as u32
}

/// The UTF-16 units of one character: itself below 0x10000, else a surrogate pair.
pub open spec fn utf16_of_char(c: char) -> Seq<u16> {
    let v = c as u32;
    if v < 0x10000 {
        seq![v as u16]
    } else {
        seq![(0xD800 + (v - 0x10000) / 0x400) as u16, (0xDC00 + (v - 0x10000) % 0x400) as u16]
    }
}

/// The UTF-16 encoding of a text.
pub open spec fn utf16_encode(s: Seq<char>) -> Seq<u16>
    decreases s.len(),
{
    if s.len() == 0 {
        Seq::empty()
    } else {
        utf16_of_char(s[0]) + utf16_encode(s.drop_first())
    }
}

/// The text that a sequence of UTF-16 units encodes, or `None` where a
/// surrogate stands unpaired.
pub open spec fn utf16_decode(units: Seq<u16>) -> Option<Seq<char>>
    decreases units.len(),
{
    if units.len() == 0 {
        Some(Seq::empty())
    } else if is_low_surrogate(units[0]) {
        None
    } else if is_high_surrogate(units[0]) {
        if units.len() >= 2 && is_low_surrogate(units[1]) {
            match utf16_decode(units.subrange(2, units.len() as int)) {
                Some(rest) => Some(seq![pair_scalar(units[0], units[1]) as char] + rest),
                None => None,
            }
        } else {
            None
        }
    } else {
        match utf16_decode(units.drop_first()) {
            Some(rest) => Some(seq![(units[0] as u32) as char] + rest),
            None => None,
        }
    }
}

/// The encoding of a concatenation is the concatenation of the encodings.
pub proof fn lemma_encode_append(a: Seq<char>, b: Seq<char>)
    ensures
        utf16_encode(a + b) == utf16_encode(a) + utf16_encode(b),
    decreases a.len(),
{
    if a.len() == 0 {
        assert(a + b =~= b);
    } else {
        assert((a + b).drop_first() =~= a.drop_first() + b);
        lemma_encode_append(a.drop_first(), b);
        assert(utf16_encode(a + b) =~= utf16_encode(a) + utf16_encode(b));
    }
}

/// Encoding one more character appends its units.
pub proof fn lemma_encode_push(a: Seq<char>, c: char)
    ensures
        utf16_encode(a.push(c)) == utf16_encode(a) + utf16_of_char(c),
{
    lemma_encode_append(a, seq![c]);
    assert(a + seq![c] =~= a.push(c));
    assert(seq![c].drop_first() =~= Seq::<char>::empty());
    assert(utf16_encode(Seq::<char>::empty()) =~= Seq::<u16>::empty());
    assert(utf16_encode(seq![c]) =~= utf16_of_char(c) + utf16_encode(Seq::<char>::empty()));
    assert(utf16_encode(seq![c]) =~= utf16_of_char(c));
}

/// The units of one character, decoded ahead of any decodable rest, give that
/// character back in front of the rest.
pub proof fn lemma_decode_char_then(c: char, rest: Seq<u16>)
    ensures
        utf16_decode(utf16_of_char(c) + rest) == match utf16_decode(rest) {
            Some(r) => Some(seq![c] + r),
            None => None::<Seq<char>>,
        },
{
    let v = c as u32;
    let units = utf16_of_char(c) + rest;
    assert(is_scalar(v));
    if v < 0x10000 {
        assert(units[0] == v as u16);
        assert((units[0] as u32) == v);
        assert(!is_low_surrogate(units[0]) && !is_high_surrogate(units[0]));
        assert(units.drop_first() =~= rest);
    } else {
        let hi = (0xD800 + (v - 0x10000) / 0x400) as u16;
        let lo = (0xDC00 + (v - 0x10000) % 0x400) as u16;
        assert(units[0] == hi && units[1] == lo);
        assert(is_high_surrogate(hi) && is_low_surrogate(lo));
        assert(pair_scalar(hi, lo) == v);
        assert(units.subrange(2, units.len() as int) =~= rest);
    }
}

/// Decoding undoes encoding.
pub proof fn lemma_decode_encode(s: Seq<char>)
    ensures
        utf16_decode(utf16_encode(s)) == Some(s),
    decreases s.len(),
{
    if s.len() > 0 {
        lemma_decode_encode(s.drop_first());
        lemma_decode_char_then(s[0], utf16_encode(s.drop_first()));
        assert(seq![s[0]] + s.drop_first() =~= s);
    }
}

/// A zero unit in an encoding comes only from the character `'\0'`.
pub proof fn lemma_encode_zero_free(s: Seq<char>)
    requires
        !s.contains('\0'),
    ensures
        !utf16_encode(s).contains(0u16),
    decreases s.len(),
{
    if s.len() > 0 {
        assert(s[0] != '\0');
        assert(!s.drop_first().contains('\0')) by {
            if s.drop_first().contains('\0') {
                let k = choose|k: int| 0 <= k < s.drop_first().len() && s.drop_first()[k] == '\0';
                assert(s[k + 1] == '\0');
            }
        }
        lemma_encode_zero_free(s.drop_first());
        let head = utf16_of_char(s[0]);
        let tail = utf16_encode(s.drop_first());
        assert(s[0] as u32 != 0) by {
            char_u32_cast('\0', 0u32);
            if s[0] as u32 == 0 {
                char_u32_cast(s[0], 0u32);
            }
        }
        let v = s[0] as u32;
        if v < 0x10000 {
            assert(head[0] == v as u16);
            assert(v as u16 == v);
            assert(head.len() == 1 && head[0] != 0u16);
        } else {
            char_is_scalar(s[0]);
            assert(v <= 0x10FFFF);
            assert((v - 0x10000) / 0x400 < 0x400);
            assert(head[0] == (0xD800 + (v - 0x10000) / 0x400) as u16);
            assert(head[1] == (0xDC00 + (v - 0x10000) % 0x400) as u16);
            assert(head.len() == 2 && head[0] != 0u16 && head[1] != 0u16);
        }
        assert forall|k: int| 0 <= k < head.len() implies head[k] != 0u16 by {}
        assert(!head.contains(0u16));
        assert forall|k: int| 0 <= k < (head + tail).len() implies (head + tail)[k] != 0u16 by {
            if k >= head.len() {
                assert(tail[k - head.len()] == (head + tail)[k]);
            }
        }
    }
}

/// The UTF-16 units of `s`, as `str::encode_utf16` yields them.
pub fn encode_utf16(s: &str) -> (units: Vec<u16>)
    ensures
        units@ == utf16_encode(s@),
{
    let mut units: Vec<u16> = Vec::new();
    for c in it: s.chars()
        invariant
            it.seq() == s@,
            units@ == utf16_encode(s@.take(it.index() as int)),
    {
        proof {
            assert(c == s@[it.index() as int]);
            assert(s@.take(it.index() + 1) == s@.take(it.index() as int).push(c));
            lemma_encode_push(s@.take(it.index() as int), c);
        }
        let v = c as u32;
        if v < 0x10000 {
            units.push(v as u16);
        } else {
            let w = v - 0x10000;
            units.push((0xD800 + w / 0x400) as u16);
            units.push((0xDC00 + w % 0x400) as u16);
        }
        assert(units@ == utf16_encode(s@.take(it.index() + 1)));
    }
    assert(s@.take(s@.len() as int) == s@);
    units
}

/// `p` in front of a decoded text, or `None` where there is none.
pub open spec fn prefixed(p: Seq<char>, r: Option<Seq<char>>) -> Option<Seq<char>> {
    match r {
        Some(t) => Some(p + t),
        None => None,
    }
}

/// `char::from_u32`: the character whose scalar value is `v`, or `None` where
/// `v` is no Unicode scalar value.
#[verifier::external_body]
fn char_from_u32(v: u32) -> (c: Option<char>)
    ensures
        c is Some <==> is_scalar(v),
        c matches Some(ch) ==> ch as u32 == v,
{
    char::from_u32(v)
}

/// The text that `units` encode, as `String::from_utf16` decodes it: `None`
/// where a surrogate stands unpaired.
pub fn decode_utf16(units: &[u16]) -> (text: Option<String>)
    ensures
        match utf16_decode(units@) {
            Some(t) => text matches Some(s) && s@ == t,
            None => text is None,
        },
{
    let n = units.len();
    let mut out = String::new();
    let mut i: usize = 0;
    assert(units@.subrange(0, n as int) =~= units@);
    assert(prefixed(Seq::empty(), utf16_decode(units@)) == utf16_decode(units@)) by {
        if let Some(t) = utf16_decode(units@) {
            assert(Seq::<char>::empty() + t =~= t);
        }
    }
    while i < n
        invariant
            n == units@.len(),
            i <= n,
            utf16_decode(units@) == prefixed(out@, utf16_decode(units@.subrange(i as int, n as int))),
        decreases n - i,
    {
        let ghost t = units@.subrange(i as int, n as int);
        let u = units[i];
        assert(t[0] == u);
        if 0xDC00 <= u && u <= 0xDFFF {
            return None;
        } else if 0xD800 <= u && u <= 0xDBFF {
            if i + 1 < n && 0xDC00 <= units[i + 1] && units[i + 1] <= 0xDFFF {
                let lo = units[i + 1];
                assert(t[1] == lo);
                let v: u32 = 0x10000 + (u as u32 - 0xD800) * 0x400 + (lo as u32 - 0xDC00);
                assert(v == pair_scalar(u, lo));
                assert(is_scalar(v));
                let c = match char_from_u32(v) {
                    Some(c) => c,
                    None => { return None; },
                };
                proof {
                    char_u32_cast(c, v);
                    assert(t.subrange(2, t.len() as int) =~= units@.subrange(i + 2, n as int));
                    let rest = utf16_decode(units@.subrange(i + 2, n as int));
                    if rest is Some {
                        assert(out@ + (seq![c] + rest->0) =~= out@.push(c) + rest->0);
                    }
                }
                push_char(&mut out, c);
                i = i + 2;
            } else {
                return None;
            }
        } else {
            let v = u as u32;
            assert(is_scalar(v));
            let c = match char_from_u32(v) {
                Some(c) => c,
                None => { return None; },
            };
            proof {
                char_u32_cast(c, v);
                assert(t.drop_first() =~= units@.subrange(i + 1, n as int));
                let rest = utf16_decode(units@.subrange(i + 1, n as int));
                if rest is Some {
                    assert(out@ + (seq![c] + rest->0) =~= out@.push(c) + rest->0);
                }
            }
            push_char(&mut out, c);
            i = i + 1;
        }
    }
    assert(units@.subrange(n as int, n as int) =~= Seq::<u16>::empty());
    assert(out@ + Seq::<char>::empty() =~= out@);
    Some(out)
}

} // verus!
