//! Lower case and the UTF-8 and UTF-16 encodings.

use vstd::prelude::*;
use vstd::utf8::*;
use crate::text::chars_of;

verus! {

/// The lower case of an ASCII character.
pub open spec fn ascii_lower(c: char) -> char {
    if 0x41 <= c as u32 <= 0x5a {
        (c as u32 + 0x20) as u8 as char
    } else {
        c
    }
}

/// The text that `str::to_lowercase` makes of a text.
pub uninterp spec fn lowercase(s: Seq<char>) -> Seq<char>;

/// A text in lower case: of an ASCII text the letters A to Z become small and nothing else
/// changes; for others Unicode's tables decide.
pub open spec fn lower_case(s: Seq<char>) -> Seq<char> {
    if is_ascii_chars(s) {
        s.map_values(|c: char| ascii_lower(c))
    } else {
        lowercase(s)
    }
}

/// Calls `str::to_lowercase`. The result is a function of the text alone; of an ASCII
/// text each letter A to Z becomes its small letter and nothing else changes. What
/// Unicode's tables give for other texts is left unsaid.
#[verifier::external_body]
pub(crate) fn to_lowercase(s: &str) -> (r: String)
    ensures
        r@ == lowercase(s@),
        is_ascii_chars(s@) ==> r@ == s@.map_values(|c: char| ascii_lower(c)),
{
    s.to_lowercase()
}

/// The characters that `char::to_lowercase` makes of a character.
pub uninterp spec fn char_lowercase(c: char) -> Seq<char>;

/// A character in lower case, which can be several: an ASCII letter becomes small; for others
/// Unicode's tables decide.
pub open spec fn char_lower_case(c: char) -> Seq<char> {
    if (c as u32) < 0x80 {
        seq![ascii_lower(c)]
    } else {
        char_lowercase(c)
    }
}

/// Calls `char::to_lowercase` and collects what it yields. The result is a function of
/// the character alone; an ASCII character gives one character. What Unicode's tables
/// give for other characters is left unsaid.
#[verifier::external_body]
pub(crate) fn to_lowercase_char(c: char) -> (r: String)
    ensures
        r@ == char_lowercase(c),
        (c as u32) < 0x80 ==> r@ == seq![ascii_lower(c)],
{
    c.to_lowercase().collect()
}

/// The text that `String::from_utf8_lossy` makes of bytes.
pub uninterp spec fn utf8_lossy(bytes: Seq<u8>) -> Seq<char>;

/// The text of bytes: what valid UTF-8 encodes; for other bytes the standard library decides.
pub open spec fn byte_text(bytes: Seq<u8>) -> Seq<char> {
    if valid_utf8(bytes) {
        decode_utf8(bytes)
    } else {
        utf8_lossy(bytes)
    }
}

/// Calls `String::from_utf8_lossy`. The result is a function of the bytes alone; valid
/// UTF-8 decodes to the text that it encodes. How many replacement characters stand for
/// bytes that are not valid UTF-8 is left unsaid.
#[verifier::external_body]
pub(crate) fn text_of_utf8(bytes: &[u8]) -> (r: String)
    ensures
        r@ == utf8_lossy(bytes@),
        valid_utf8(bytes@) ==> r@ == decode_utf8(bytes@),
{
    String::from_utf8_lossy(bytes).into_owned()
}

/// The UTF-16 code units of one character.
pub open spec fn utf16_units(c: char) -> Seq<u16> {
    let u = c as u32;
    if u < 0x10000 {
        seq![u as u16]
    } else {
        seq![
            (0xd800 + (u - 0x10000) / 0x400) as u16,
            (0xdc00 + (u - 0x10000) % 0x400) as u16,
        ]
    }
}

/// The UTF-16 code units of a text.
pub open spec fn utf16(s: Seq<char>) -> Seq<u16>
    decreases s.len(),
{
    if s.len() == 0 {
        Seq::empty()
    } else {
        utf16(s.drop_last()) + utf16_units(s.last())
    }
}

/// The UTF-16 code units of a text, with a zero unit after them.
pub(crate) fn utf16_with_nul(s: &str) -> (r: Vec<u16>)
    ensures
        r@ == utf16(s@).push(0),
{
    let v = chars_of(s);
    let mut out: Vec<u16> = Vec::new();
    let mut i: usize = 0;
    assert(v@.take(0) =~= Seq::empty());
    while i < v.len()
        invariant
            i <= v@.len(),
            v@ == s@,
            out@ == utf16(v@.take(i as int)),
        decreases v@.len() - i,
    {
        let ghost before = out@;
        assert(v@.take(i + 1).drop_last() =~= v@.take(i as int));
        let u: u32 = v[i] as u32;
        if u < 0x10000 {
            out.push(u as u16);
        } else {
            let w: u32 = u - 0x10000;
            out.push((0xd800 + w / 0x400) as u16);
            out.push((0xdc00 + w % 0x400) as u16);
        }
        assert(out@ =~= before + utf16_units(v@[i as int]));
        i += 1;
    }
    assert(v@.take(v@.len() as int) =~= v@);
    out.push(0);
    out
}

/// The text of UTF-16 code units, with U+FFFD for each surrogate that is not half of a pair.
pub open spec fn utf16_lossy(units: Seq<u16>) -> Seq<char>
    decreases units.len(),
{
    if units.len() == 0 {
        Seq::empty()
    } else if units[0] < 0xd800 || units[0] > 0xdfff {
        seq![units[0] as char] + utf16_lossy(units.skip(1))
    } else if units[0] < 0xdc00 && units.len() > 1 && 0xdc00 <= units[1] <= 0xdfff {
        seq![(0x10000 + (units[0] - 0xd800) * 0x400 + (units[1] - 0xdc00)) as char] + utf16_lossy(
            units.skip(2),
        )
    } else {
        seq!['\u{fffd}'] + utf16_lossy(units.skip(1))
    }
}

/// Calls `String::from_utf16_lossy`, which decodes UTF-16 and puts U+FFFD in place of
/// what is not valid.
#[verifier::external_body]
pub(crate) fn text_of_utf16(units: &[u16]) -> (r: String)
    ensures
        r@ == utf16_lossy(units@),
{
    String::from_utf16_lossy(units)
}

/// In lower case an ASCII text keeps its length; a capital letter becomes the small letter that
/// is 32 places behind it, and every other character stays.
pub proof fn ascii_lower_case(s: Seq<char>, i: int)
    requires
        is_ascii_chars(s),
        0 <= i < s.len(),
    ensures
        lower_case(s).len() == s.len(),
        'A' <= s[i] <= 'Z' ==> lower_case(s)[i] as u32 == s[i] as u32 + 32,
        !('A' <= s[i] <= 'Z') ==> lower_case(s)[i] == s[i],
{
}

/// A text comes back from its UTF-16 code units.
pub proof fn utf16_reads_back(s: Seq<char>)
    ensures
        utf16_lossy(utf16(s)) == s,
    decreases s.len(),
{
    if s.len() > 0 {
        let rest = s.skip(1);
        let c = s[0];
        lemma_utf16_first(s);
        utf16_reads_back(rest);
        let units = utf16(s);
        let tail = utf16(rest);
        assert(seq![c] + rest =~= s);
        lemma_units(c);
        assert(units =~= utf16_units(c) + tail);
        if utf16_units(c).len() == 1 {
            assert(units[0] == utf16_units(c)[0]);
            assert(units.skip(1) =~= tail);
        } else {
            assert(units[0] == utf16_units(c)[0] && units[1] == utf16_units(c)[1]);
            assert(units.skip(2) =~= tail);
        }
    } else {
        assert(utf16(s) =~= Seq::empty());
        assert(s =~= Seq::empty());
    }
}

proof fn lemma_units(c: char)
    ensures
        ({
            let units = utf16_units(c);
            ||| units.len() == 1 && (units[0] < 0xd800 || units[0] > 0xdfff) && units[0] as char == c
            ||| units.len() == 2 && 0xd800 <= units[0] < 0xdc00 && 0xdc00 <= units[1] <= 0xdfff && (
            0x10000 + (units[0] - 0xd800) * 0x400 + (units[1] - 0xdc00)) as char == c
        }),
{
}

proof fn lemma_utf16_first(s: Seq<char>)
    requires
        s.len() > 0,
    ensures
        utf16(s) == utf16_units(s[0]) + utf16(s.skip(1)),
    decreases s.len(),
{
    let rest = s.drop_last();
    if rest.len() == 0 {
        assert(s.skip(1) =~= Seq::empty());
        assert(utf16(rest) =~= Seq::empty());
        assert(utf16(s) =~= utf16_units(s[0]) + utf16(s.skip(1)));
    } else {
        lemma_utf16_first(rest);
        assert(rest.skip(1) =~= s.skip(1).drop_last());
        assert(utf16(s) =~= utf16_units(s[0]) + utf16(s.skip(1)));
    }
}

} // verus!
