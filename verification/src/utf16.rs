//! UTF-16, the text encoding of the Windows interfaces.

use vstd::prelude::*;

verus! {

/// `U+FFFD`, which stands for a code unit that is not part of any character.
pub const REPLACEMENT: char = '\u{FFFD}';

pub open spec fn is_high_surrogate(unit: u16) -> bool {
    0xD800 <= unit <= 0xDBFF
}

pub open spec fn is_low_surrogate(unit: u16) -> bool {
    0xDC00 <= unit <= 0xDFFF
}

/// The character two surrogates stand for.
pub open spec fn paired(high: u16, low: u16) -> char {
    (0x10000 + (high - 0xD800) * 0x400 + (low - 0xDC00)) as char
}

/// The code units of one character.
pub open spec fn units_of(c: char) -> Seq<u16> {
    let u = c as u32 as int;
    if u < 0x10000 {
        seq![u as u16]
    } else {
        seq![
            (0xD800 + (u - 0x10000) / 0x400) as u16,
            (0xDC00 + (u - 0x10000) % 0x400) as u16,
        ]
    }
}

/// The code units of a text.
pub open spec fn encoded(s: Seq<char>) -> Seq<u16>
    decreases s.len(),
{
    if s.len() == 0 {
        Seq::empty()
    } else {
        units_of(s[0]) + encoded(s.skip(1))
    }
}

/// The text of a sequence of code units. A surrogate without its partner is
/// replaced by `U+FFFD`.
pub open spec fn decoded(units: Seq<u16>) -> Seq<char>
    decreases units.len(),
{
    if units.len() == 0 {
        Seq::empty()
    } else if !is_high_surrogate(units[0]) && !is_low_surrogate(units[0]) {
        seq![units[0] as char] + decoded(units.skip(1))
    } else if is_high_surrogate(units[0]) && units.len() >= 2 && is_low_surrogate(units[1]) {
        seq![paired(units[0], units[1])] + decoded(units.skip(2))
    } else {
        seq![REPLACEMENT] + decoded(units.skip(1))
    }
}

/// The code units in front of the first NUL.
pub open spec fn before_nul(units: Seq<u16>) -> Seq<u16>
    decreases units.len(),
{
    if units.len() == 0 || units[0] == 0 {
        Seq::empty()
    } else {
        seq![units[0]] + before_nul(units.skip(1))
    }
}

/// The characters in front of the first NUL character.
pub open spec fn before_nul_char(s: Seq<char>) -> Seq<char>
    decreases s.len(),
{
    if s.len() == 0 || s[0] == '\0' {
        Seq::empty()
    } else {
        seq![s[0]] + before_nul_char(s.skip(1))
    }
}

/// The code units of a text.
pub fn encode(text: &str) -> (units: Vec<u16>)
    ensures
        units@ == encoded(text@),
{
    let mut units: Vec<u16> = Vec::new();
    assert(text@.skip(0) == text@);
    for c in it: text.chars()
        invariant
            it.seq() == text@,
            units@ + encoded(text@.skip(it.index())) == encoded(text@),
    {
        proof {
            let rest = text@.skip(it.index());
            assert(rest[0] == c);
            assert(rest.skip(1) == text@.skip(it.index() + 1));
        }
        let ghost before = units@;
        let u: u32 = c as u32;
        if u < 0x10000 {
            units.push(u as u16);
        } else {
            units.push((0xD800 + (u - 0x10000) / 0x400) as u16);
            units.push((0xDC00 + (u - 0x10000) % 0x400) as u16);
        }
        assert(units@ == before + units_of(c));
        assert(before + (units_of(c) + encoded(text@.skip(it.index() + 1))) == units@ + encoded(
            text@.skip(it.index() + 1),
        ));
    }
    assert(text@.skip(text@.len() as int).len() == 0);
    assert(units@ + Seq::<u16>::empty() == units@);
    units
}

/// The text of a sequence of code units, with `U+FFFD` for unpaired surrogates.
pub fn decode_lossy(units: &[u16]) -> (text: String)
    ensures
        text@ == decoded(units@),
{
    let mut text = String::new();
    let mut i: usize = 0;
    assert(units@.skip(0) == units@);
    assert(text@ + decoded(units@) == decoded(units@));
    while i < units.len()
        invariant
            i <= units@.len(),
            text@ + decoded(units@.skip(i as int)) == decoded(units@),
        decreases units@.len() - i,
    {
        let ghost rest = units@.skip(i as int);
        let ghost before = text@;
        let first: u16 = units[i];
        assert(rest[0] == first);
        assert(rest.skip(1) == units@.skip(i + 1));
        if first < 0xD800 || first > 0xDFFF {
            let c = unit_char(first);
            text.push(c);
            i += 1;
            assert(before + (seq![c] + decoded(units@.skip(i as int))) == text@ + decoded(
                units@.skip(i as int),
            ));
        } else if first <= 0xDBFF && i + 1 < units.len() && units[i + 1] >= 0xDC00 && units[i + 1]
            <= 0xDFFF {
            let second: u16 = units[i + 1];
            assert(rest[1] == second);
            let c = pair_char(first, second);
            text.push(c);
            i += 2;
            assert(rest.skip(2) == units@.skip(i as int));
            assert(before + (seq![c] + decoded(units@.skip(i as int))) == text@ + decoded(
                units@.skip(i as int),
            ));
        } else {
            text.push(REPLACEMENT);
            i += 1;
            assert(before + (seq![REPLACEMENT] + decoded(units@.skip(i as int))) == text@ + decoded(
                units@.skip(i as int),
            ));
        }
    }
    assert(units@.skip(i as int).len() == 0);
    assert(text@ + Seq::<char>::empty() == text@);
    text
}

/// The text of a NUL terminated buffer; everything behind the NUL is ignored.
pub fn decode_terminated(buffer: &[u16]) -> (text: String)
    ensures
        text@ == decoded(before_nul(buffer@)),
{
    let mut units: Vec<u16> = Vec::new();
    let mut i: usize = 0;
    assert(buffer@.skip(0) == buffer@);
    assert(units@ + before_nul(buffer@) == before_nul(buffer@));
    while i < buffer.len() && buffer[i] != 0
        invariant
            i <= buffer@.len(),
            units@ + before_nul(buffer@.skip(i as int)) == before_nul(buffer@),
        decreases buffer@.len() - i,
    {
        let ghost rest = buffer@.skip(i as int);
        let ghost before = units@;
        let unit: u16 = buffer[i];
        units.push(unit);
        i += 1;
        assert(rest.skip(1) == buffer@.skip(i as int));
        assert(before + (seq![unit] + before_nul(buffer@.skip(i as int))) == units@ + before_nul(
            buffer@.skip(i as int),
        ));
    }
    assert(before_nul(buffer@.skip(i as int)).len() == 0);
    assert(units@ + before_nul(buffer@.skip(i as int)) == units@);
    decode_lossy(units.as_slice())
}

/// `char::from_u32` for a value that is a Unicode scalar value: the character
/// with that value.
#[verifier::external_body]
fn scalar_char(value: u32) -> (c: char)
    requires
        value <= 0xD7FF || 0xE000 <= value <= 0x10FFFF,
    ensures
        c == value as char,
{
    char::from_u32(value).unwrap()
}

fn unit_char(unit: u16) -> (c: char)
    requires
        !is_high_surrogate(unit) && !is_low_surrogate(unit),
    ensures
        c == unit as char,
{
    scalar_char(unit as u32)
}

fn pair_char(high: u16, low: u16) -> (c: char)
    requires
        is_high_surrogate(high),
        is_low_surrogate(low),
    ensures
        c == paired(high, low),
{
    scalar_char(0x10000 + (high as u32 - 0xD800) * 0x400 + (low as u32 - 0xDC00))
}

proof fn lemma_decode_first(c: char, rest: Seq<u16>)
    ensures
        decoded(units_of(c) + rest) == seq![c] + decoded(rest),
{
    let units = units_of(c) + rest;
    let u = c as u32 as int;
    if u < 0x10000 {
        assert(units[0] == u as u16);
        assert(units.skip(1) == rest);
        assert(units[0] as char == c);
    } else {
        let v = u - 0x10000;
        assert(units[0] == (0xD800 + v / 0x400) as u16);
        assert(units[1] == (0xDC00 + v % 0x400) as u16);
        assert(units.skip(2) == rest);
        assert(v / 0x400 * 0x400 + v % 0x400 == v);
        assert(paired(units[0], units[1]) == c);
    }
}

/// Decoding undoes encoding.
pub proof fn decoding_undoes_encoding(s: Seq<char>)
    ensures
        decoded(encoded(s)) == s,
    decreases s.len(),
{
    if s.len() > 0 {
        decoding_undoes_encoding(s.skip(1));
        lemma_decode_first(s[0], encoded(s.skip(1)));
        assert(seq![s[0]] + s.skip(1) == s);
    }
}

proof fn lemma_no_nul_unit(c: char, rest: Seq<u16>)
    requires
        c != '\0',
    ensures
        before_nul(units_of(c) + rest) == units_of(c) + before_nul(rest),
{
    let units = units_of(c) + rest;
    let u = c as u32 as int;
    if u < 0x10000 {
        assert(units[0] == u as u16);
        assert(units.skip(1) == rest);
    } else {
        assert(units[0] != 0);
        assert(units.skip(1)[0] == units[1]);
        assert(units.skip(1)[0] != 0);
        assert(units.skip(1).skip(1) == rest);
        assert(before_nul(units.skip(1)) == seq![units[1]] + before_nul(rest));
    }
    assert(before_nul(units) == units_of(c) + before_nul(rest));
}

/// A NUL in the text ends it: of a NUL terminated buffer only the characters in
/// front of the first NUL character come back.
pub proof fn lemma_terminated(s: Seq<char>, tail: Seq<u16>)
    requires
        tail.len() > 0,
        tail[0] == 0,
    ensures
        before_nul(encoded(s) + tail) == encoded(before_nul_char(s)),
    decreases s.len(),
{
    let all = encoded(s) + tail;
    if s.len() == 0 {
        assert(all[0] == 0);
    } else if s[0] == '\0' {
        assert(units_of(s[0])[0] == 0);
        assert(all[0] == 0);
    } else {
        lemma_terminated(s.skip(1), tail);
        let rest = encoded(s.skip(1)) + tail;
        assert(all == units_of(s[0]) + rest);
        lemma_no_nul_unit(s[0], rest);
        let kept = before_nul_char(s);
        assert(kept[0] == s[0]);
        assert(kept.skip(1) == before_nul_char(s.skip(1)));
    }
}

/// A text without a NUL character has none to end it.
pub proof fn lemma_no_nul(s: Seq<char>)
    requires
        !s.contains('\0'),
    ensures
        before_nul_char(s) == s,
    decreases s.len(),
{
    if s.len() > 0 {
        assert(s[0] != '\0');
        assert(!s.skip(1).contains('\0')) by {
            if s.skip(1).contains('\0') {
                let i = choose|i: int| 0 <= i < s.skip(1).len() && s.skip(1)[i] == '\0';
                assert(s[i + 1] == '\0');
            }
        }
        lemma_no_nul(s.skip(1));
        assert(seq![s[0]] + s.skip(1) == s);
    }
}

proof fn lemma_first_unit(c: char)
    ensures
        !is_low_surrogate(units_of(c)[0]),
{
    let u = c as u32 as int;
    assert(u <= 0x10FFFF);
    if u >= 0x10000 {
        assert((u - 0x10000) / 0x400 < 0x400);
    }
}

proof fn lemma_no_low_in_front(s: Seq<char>)
    ensures
        encoded(s).len() > 0 ==> !is_low_surrogate(encoded(s)[0]),
{
    if s.len() > 0 {
        lemma_first_unit(s[0]);
        assert(encoded(s)[0] == units_of(s[0])[0]);
    }
}

/// A surrogate without its partner costs no other character: it becomes `U+FFFD`, and the
/// text in front of it and behind it reads as it was.
pub proof fn a_stray_surrogate_costs_one_character(a: Seq<char>, unit: u16, b: Seq<char>)
    requires
        0xD800 <= unit <= 0xDFFF,
    ensures
        decoded(encoded(a) + seq![unit] + encoded(b)) == a + seq!['\u{FFFD}'] + b,
    decreases a.len(),
{
    let rest = seq![unit] + encoded(b);
    if a.len() == 0 {
        assert(encoded(a) + seq![unit] + encoded(b) == rest);
        lemma_no_low_in_front(b);
        decoding_undoes_encoding(b);
        assert(rest[0] == unit);
        assert(rest.skip(1) == encoded(b));
        if rest.len() >= 2 {
            assert(rest[1] == encoded(b)[0]);
        }
        assert(a + seq!['\u{FFFD}'] + b == seq!['\u{FFFD}'] + b);
    } else {
        let tail = a.skip(1);
        a_stray_surrogate_costs_one_character(tail, unit, b);
        let inner = encoded(tail) + seq![unit] + encoded(b);
        assert(encoded(a) + seq![unit] + encoded(b) == units_of(a[0]) + inner);
        lemma_decode_first(a[0], inner);
        assert(seq![a[0]] + (tail + seq!['\u{FFFD}'] + b) == a + seq!['\u{FFFD}'] + b);
    }
}

/// Of a NUL terminated buffer everything in front of the first NUL counts, and nothing
/// behind it.
pub proof fn a_buffer_ends_at_its_first_nul(a: Seq<u16>, b: Seq<u16>)
    requires
        !a.contains(0),
    ensures
        before_nul(a + seq![0u16] + b) == a,
        before_nul(a) == a,
    decreases a.len(),
{
    let all = a + seq![0u16] + b;
    if a.len() == 0 {
        assert(all[0] == 0);
    } else {
        let rest = a.skip(1);
        assert(a[0] != 0);
        assert(!rest.contains(0)) by {
            if rest.contains(0) {
                let i = choose|i: int| 0 <= i < rest.len() && rest[i] == 0;
                assert(a[i + 1] == 0);
            }
        }
        a_buffer_ends_at_its_first_nul(rest, b);
        assert(all[0] == a[0]);
        assert(all.skip(1) == rest + seq![0u16] + b);
        assert(seq![a[0]] + rest == a);
    }
}

/// A text is as many code units long as it has characters, and one more for each
/// character beyond the first 65536.
pub proof fn a_character_takes_one_or_two_units(c: char)
    ensures
        encoded(seq![c]).len() == if (c as u32) < 0x10000 {
            1nat
        } else {
            2nat
        },
        (c as u32) < 0x10000 ==> encoded(seq![c])[0] as int == c as int,
{
    assert(seq![c].skip(1) == Seq::<char>::empty());
    assert(units_of(c) + encoded(Seq::empty()) == units_of(c));
}

} // verus!
