//! UTF-16: the wide characters in which the operating system holds paths.

use vstd::prelude::*;

verus! {

/// `char::from_u32` of std. Claims: a number is a character exactly when it is at most
/// 0x10FFFF and no surrogate, and the character then has that number.
pub assume_specification[ char::from_u32 ](i: u32) -> (out: Option<char>)
    ensures
        out is Some <==> (i < 0xD800 || 0xE000 <= i <= 0x10FFFF),
        out matches Some(c) ==> c as u32 == i,
;

/// The character that stands for what cannot be decoded.
pub const REPLACEMENT: char = '\u{FFFD}';

/// The UTF-16 code units of one character: itself below U+10000, else a surrogate pair.
pub open spec fn utf16_units(c: char) -> Seq<u16> {
    let v = c as u32 as int;
    if v < 0x10000 {
        seq![v as u16]
    } else {
        seq![(0xD800 + (v - 0x10000) / 0x400) as u16, (0xDC00 + (v - 0x10000) % 0x400) as u16]
    }
}

/// The UTF-16 encoding of a text.
pub open spec fn utf16_encoding(s: Seq<char>) -> Seq<u16>
    decreases s.len(),
{
    if s.len() == 0 {
        Seq::empty()
    } else {
        utf16_units(s[0]) + utf16_encoding(s.drop_first())
    }
}

/// A code unit that starts a surrogate pair.
pub open spec fn is_high_surrogate(u: u16) -> bool {
    0xD800 <= u <= 0xDBFF
}

/// A code unit that ends a surrogate pair.
pub open spec fn is_low_surrogate(u: u16) -> bool {
    0xDC00 <= u <= 0xDFFF
}

/// The text that a sequence of UTF-16 code units stands for, with the replacement
/// character in place of each surrogate that has no partner.
pub open spec fn utf16_decoding(u: Seq<u16>) -> Seq<char>
    decreases u.len(),
{
    if u.len() == 0 {
        Seq::empty()
    } else if !is_high_surrogate(u[0]) && !is_low_surrogate(u[0]) {
        seq![u[0] as u32 as char] + utf16_decoding(u.skip(1))
    } else if is_high_surrogate(u[0]) && u.len() >= 2 && is_low_surrogate(u[1]) {
        seq![(0x10000 + (u[0] - 0xD800) * 0x400 + (u[1] - 0xDC00)) as u32 as char]
            + utf16_decoding(u.skip(2))
    } else {
        seq![REPLACEMENT] + utf16_decoding(u.skip(1))
    }
}

/// Decoding reads a character's code units back as that character.
pub proof fn lemma_decode_units(c: char, rest: Seq<u16>)
    ensures
        utf16_decoding(utf16_units(c) + rest) == seq![c] + utf16_decoding(rest),
{
    let v = c as u32;
    let u = utf16_units(c) + rest;
    vstd::utf8::char_u32_cast(c, v);
    if v < 0x10000 {
        assert(u[0] == v as u16);
        assert(u.skip(1) =~= rest);
    } else {
        let w = (v - 0x10000) as int;
        assert(u[0] == (0xD800 + w / 0x400) as u16);
        assert(u[1] == (0xDC00 + w % 0x400) as u16);
        assert(u.skip(2) =~= rest);
        assert(0x10000 + (u[0] - 0xD800) * 0x400 + (u[1] - 0xDC00) == v);
    }
}

/// Decoding the encoding of a text gives the text back.
pub proof fn lemma_utf16_round_trip(s: Seq<char>)
    ensures
        utf16_decoding(utf16_encoding(s)) == s,
    decreases s.len(),
{
    if s.len() > 0 {
        lemma_utf16_round_trip(s.drop_first());
        lemma_decode_units(s[0], utf16_encoding(s.drop_first()));
        assert(seq![s[0]] + s.drop_first() =~= s);
    }
}

/// The encoding of a text holds a zero unit only where the text holds the character
/// U+0000, and is empty only for the empty text.
pub proof fn lemma_utf16_zero_free(s: Seq<char>)
    requires
        forall|i: int| 0 <= i < s.len() ==> s[i] != '\0',
    ensures
        forall|i: int| 0 <= i < utf16_encoding(s).len() ==> utf16_encoding(s)[i] != 0,
        s.len() > 0 ==> utf16_encoding(s).len() > 0,
    decreases s.len(),
{
    if s.len() > 0 {
        let t = s.drop_first();
        assert forall|i: int| 0 <= i < t.len() implies t[i] != '\0' by {
            assert(t[i] == s[i + 1]);
        }
        lemma_utf16_zero_free(t);
        let head = utf16_units(s[0]);
        assert(s[0] != '\0');
        assert(s[0] as u32 != 0) by {
            vstd::utf8::char_u32_cast(s[0], s[0] as u32);
            vstd::utf8::char_u32_cast('\0', 0u32);
        }
        assert forall|i: int| 0 <= i < utf16_encoding(s).len() implies utf16_encoding(s)[i]
            != 0 by {
            if i >= head.len() {
                assert(utf16_encoding(s)[i] == utf16_encoding(t)[i - head.len()]);
            } else {
                assert(utf16_encoding(s)[i] == head[i]);
                let v = s[0] as u32 as int;
                if v >= 0x10000 {
                    vstd::utf8::char_is_scalar(s[0]);
                    assert(0 <= (v - 0x10000) / 0x400 < 0x400);
                    assert(0 <= (v - 0x10000) % 0x400 < 0x400);
                }
            }
        }
    }
}

/// Appends the UTF-16 code units of `c` to `out`.
pub fn push_utf16(out: &mut Vec<u16>, c: char)
    ensures
        final(out)@ == old(out)@ + utf16_units(c),
{
    let v: u32 = c as u32;
    if v < 0x10000 {
        out.push(v as u16);
    } else {
        let w: u32 = v - 0x10000;
        out.push((0xD800 + w / 0x400) as u16);
        out.push((0xDC00 + w % 0x400) as u16);
    }
    assert(out@ =~= old(out)@ + utf16_units(c));
}

/// The UTF-16 encoding of `s`.
pub fn encode_utf16(s: &str) -> (out: Vec<u16>)
    ensures
        out@ == utf16_encoding(s@),
{
    let mut out: Vec<u16> = Vec::new();
    assert(s@.skip(0) =~= s@);
    for c in it: s.chars()
        invariant
            it.seq() == s@,
            out@ + utf16_encoding(s@.skip(it.index() as int)) =~= utf16_encoding(s@),
    {
        proof {
            let rest = s@.skip(it.index() as int);
            assert(rest[0] == c);
            assert(rest.drop_first() =~= s@.skip(it.index() + 1));
            assert(out@ + (utf16_units(c) + utf16_encoding(rest.drop_first())) =~= (out@
                + utf16_units(c)) + utf16_encoding(rest.drop_first()));
        }
        push_utf16(&mut out, c);
    }
    assert(out@ + Seq::<u16>::empty() =~= out@);
    out
}

/// The text that the code units stand for, with the replacement character in place of
/// each surrogate that has no partner.
pub fn decode_utf16_lossy(units: &Vec<u16>) -> (out: String)
    ensures
        out@ == utf16_decoding(units@),
{
    assert(units@.subrange(0, units.len() as int) =~= units@);
    decode_range(units, 0, units.len())
}

/// The text that the code units `units[from..to]` stand for, with the replacement
/// character in place of each surrogate that has no partner.
pub(crate) fn decode_range(units: &Vec<u16>, from: usize, to: usize) -> (out: String)
    requires
        from <= to <= units.len(),
    ensures
        out@ == utf16_decoding(units@.subrange(from as int, to as int)),
{
    let ghost all = units@.subrange(from as int, to as int);
    let mut out = String::new();
    let mut i: usize = from;
    while i < to
        invariant
            from <= i <= to <= units.len(),
            all == units@.subrange(from as int, to as int),
            out@ + utf16_decoding(units@.subrange(i as int, to as int)) =~= utf16_decoding(all),
        decreases to - i,
    {
        let ghost rest = units@.subrange(i as int, to as int);
        let ghost before = out@;
        let a: u16 = units[i];
        assert(rest[0] == a);
        if a < 0xD800 || a > 0xDFFF {
            let c = match char::from_u32(a as u32) {
                Some(c) => c,
                None => REPLACEMENT,
            };
            out.push(c);
            i += 1;
            proof {
                assert(rest.skip(1) =~= units@.subrange(i as int, to as int));
                vstd::utf8::char_u32_cast(c, a as u32);
                assert(before + (seq![c] + utf16_decoding(rest.skip(1))) =~= before.push(c)
                    + utf16_decoding(rest.skip(1)));
            }
        } else if a <= 0xDBFF && i + 1 < to && 0xDC00 <= units[i + 1] && units[i + 1] <= 0xDFFF {
            let b: u16 = units[i + 1];
            assert(rest[1] == b);
            let v: u32 = 0x10000 + ((a - 0xD800) as u32) * 0x400 + ((b - 0xDC00) as u32);
            let c = match char::from_u32(v) {
                Some(c) => c,
                None => REPLACEMENT,
            };
            out.push(c);
            i += 2;
            proof {
                assert(rest.skip(2) =~= units@.subrange(i as int, to as int));
                vstd::utf8::char_u32_cast(c, v);
                assert(before + (seq![c] + utf16_decoding(rest.skip(2))) =~= before.push(c)
                    + utf16_decoding(rest.skip(2)));
            }
        } else {
            out.push(REPLACEMENT);
            i += 1;
            proof {
                assert(rest.skip(1) =~= units@.subrange(i as int, to as int));
                assert(before + (seq![REPLACEMENT] + utf16_decoding(rest.skip(1)))
                    =~= before.push(REPLACEMENT) + utf16_decoding(rest.skip(1)));
            }
        }
    }
    assert(units@.subrange(to as int, to as int) =~= Seq::<u16>::empty());
    assert(out@ + Seq::<char>::empty() =~= out@);
    out
}

} // verus!
