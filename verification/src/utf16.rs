//! UTF-16 text for the Win32 interfaces.
use vstd::prelude::*;

use crate::text::characters;

verus! {

/// The code units of a character: one, or a surrogate pair above the basic plane.
pub open spec fn units(c: char) -> Seq<u16> {
    if (c as u32) < 0x10000 {
        seq![c as u16]
    } else {
        let v = c as u32 - 0x10000;
        seq![(0xd800 + v / 0x400) as u16, (0xdc00 + v % 0x400) as u16]
    }
}

/// The code units of a text.
pub open spec fn encoded(text: Seq<char>) -> Seq<u16>
    decreases text.len(),
{
    if text.len() == 0 {
        Seq::empty()
    } else {
        encoded(text.drop_last()) + units(text.last())
    }
}

/// The text that code units stand for, read from the front. A surrogate without its partner is
/// passed over.
pub open spec fn decoded(code: Seq<u16>) -> Seq<char>
    decreases code.len(),
{
    if code.len() == 0 {
        Seq::empty()
    } else if 0xd800 <= code[0] < 0xdc00 {
        if code.len() > 1 && 0xdc00 <= code[1] < 0xe000 {
            seq![(0x10000 + (code[0] - 0xd800) * 0x400 + (code[1] - 0xdc00)) as char] + decoded(
                code.skip(2),
            )
        } else {
            decoded(code.skip(1))
        }
    } else if 0xdc00 <= code[0] < 0xe000 {
        decoded(code.skip(1))
    } else {
        seq![code[0] as char] + decoded(code.skip(1))
    }
}

/// The units of the first character come first.
proof fn lemma_encoded_front(text: Seq<char>)
    requires
        text.len() > 0,
    ensures
        encoded(text) == units(text[0]) + encoded(text.skip(1)),
    decreases text.len(),
{
    if text.len() == 1 {
        assert(text.drop_last() =~= Seq::empty());
        assert(text.skip(1) =~= Seq::empty());
        assert(encoded(text.drop_last()) =~= Seq::empty());
        assert(encoded(text) =~= units(text[0]) + encoded(text.skip(1)));
    } else {
        lemma_encoded_front(text.drop_last());
        assert(text.drop_last().skip(1) =~= text.skip(1).drop_last());
        assert(text.skip(1).last() == text.last());
        assert(encoded(text) =~= units(text[0]) + encoded(text.skip(1)));
    }
}

/// Decoding reads back one character at a time.
proof fn lemma_decoded_front(c: char, rest: Seq<u16>)
    ensures
        decoded(units(c) + rest) == seq![c] + decoded(rest),
{
    let code = units(c) + rest;
    if (c as u32) < 0x10000 {
        assert(code.skip(1) =~= rest);
        assert(code[0] == c as u16);
    } else {
        let v = c as u32 - 0x10000;
        assert(code.skip(2) =~= rest);
        assert(code[0] == (0xd800 + v / 0x400) as u16);
        assert(code[1] == (0xdc00 + v % 0x400) as u16);
        assert((v / 0x400) * 0x400 + v % 0x400 == v);
    }
}

/// No text is lost: decoding the code units of a text gives it back.
pub proof fn law_decoding_undoes_encoding(text: Seq<char>)
    ensures
        decoded(encoded(text)) == text,
    decreases text.len(),
{
    if text.len() == 0 {
        assert(decoded(encoded(text)) =~= text);
    } else {
        lemma_encoded_front(text);
        lemma_decoded_front(text[0], encoded(text.skip(1)));
        law_decoding_undoes_encoding(text.skip(1));
        assert(text =~= seq![text[0]] + text.skip(1));
    }
}

fn push_units(out: &mut Vec<u16>, c: char)
    ensures
        final(out)@ == old(out)@ + units(c),
{
    let value: u32 = c as u32;
    if value < 0x10000 {
        out.push(value as u16);
    } else {
        let v: u32 = value - 0x10000;
        out.push((0xd800 + v / 0x400) as u16);
        out.push((0xdc00 + v % 0x400) as u16);
    }
    assert(out@ =~= old(out)@ + units(c));
}

/// The code units of `s`, ended by a zero.
pub fn wide(s: &str) -> (r: Vec<u16>)
    ensures
        r@ == encoded(s@).push(0),
{
    let chars: Vec<char> = characters(s);
    let mut r: Vec<u16> = Vec::new();
    let mut k: usize = 0;
    assert(chars@.take(0) =~= Seq::empty());
    while k < chars.len()
        invariant
            k <= chars@.len(),
            chars@ == s@,
            r@ == encoded(chars@.take(k as int)),
        decreases chars@.len() - k,
    {
        push_units(&mut r, chars[k]);
        assert(chars@.take(k + 1).drop_last() =~= chars@.take(k as int));
        k = k + 1;
    }
    assert(chars@.take(k as int) =~= chars@);
    r.push(0);
    r
}

/// How much of an encoded text a field of `size` units takes, leaving its last unit alone.
pub open spec fn taken(text: Seq<u16>, size: int) -> int {
    if text.len() < size - 1 {
        text.len() as int
    } else {
        size - 1
    }
}

/// Copies a tooltip, with its terminator, into a field of 128 code units. A text that is too long
/// is cut, and the last unit of the field is never written: in a zeroed field it stays the
/// terminator.
pub fn fill_tip(tip: &str, dst: &mut [u16; 128])
    ensures
        ({
            let text = encoded(tip@).push(0);
            forall|k: int|
                0 <= k < 128 ==> #[trigger] final(dst)@[k] == if k < taken(text, 128) {
                    text[k]
                } else {
                    old(dst)@[k]
                }
        }),
{
    let src: Vec<u16> = wide(tip);
    let n: usize = if src.len() < 127 {
        src.len()
    } else {
        127
    };
    let ghost before = dst@;
    let mut k: usize = 0;
    while k < n
        invariant
            src@ == encoded(tip@).push(0),
            n == taken(src@, 128),
            n <= src@.len(),
            k <= n,
            before.len() == 128,
            forall|j: int|
                0 <= j < 128 ==> #[trigger] dst@[j] == if j < k {
                    src@[j]
                } else {
                    before[j]
                },
        decreases n - k,
    {
        dst[k] = src[k];
        k = k + 1;
    }
}

/// Whatever the text, a field that was zero before holds a terminator afterwards.
pub proof fn law_a_filled_tip_is_terminated(text: Seq<char>, field: Seq<u16>)
    requires
        field.len() == 128,
        forall|k: int|
            0 <= k < 128 ==> #[trigger] field[k] == if k < taken(encoded(text).push(0), 128) {
                encoded(text).push(0)[k]
            } else {
                0
            },
    ensures
        field[127] == 0,
        encoded(text).len() < 127 ==> field[encoded(text).len() as int] == 0 && field.take(
            encoded(text).len() as int,
        ) == encoded(text),
{
    let units = encoded(text).push(0);
    if encoded(text).len() < 127 {
        let n = encoded(text).len() as int;
        assert forall|k: int| 0 <= k < n implies field[k] == encoded(text)[k] by {
            assert(units[k] == encoded(text)[k]);
        }
        assert(field.take(n) =~= encoded(text));
        assert(units[n] == 0);
    }
}

/// The code units of a character are those of UTF-16: the character itself in the basic plane, and
/// above it a high and a low surrogate that share its offset between them.
pub proof fn law_units_are_those_of_utf16(c: char)
    ensures
        (c as u32) < 0x10000 ==> units(c).len() == 1 && units(c)[0] == c as u32,
        (c as u32) >= 0x10000 ==> {
            &&& units(c).len() == 2
            &&& 0xd800 <= units(c)[0] < 0xdc00
            &&& 0xdc00 <= units(c)[1] < 0xe000
            &&& c as int == 0x10000 + (units(c)[0] - 0xd800) * 0x400 + (units(c)[1] - 0xdc00)
        },
{
}

/// The code units of a joined text are those of its parts, one after the other.
pub proof fn law_encoding_goes_along_the_text(first: Seq<char>, rest: Seq<char>)
    ensures
        encoded(first + rest) == encoded(first) + encoded(rest),
        encoded(Seq::empty()) == Seq::<u16>::empty(),
    decreases rest.len(),
{
    if rest.len() == 0 {
        assert(first + rest =~= first);
        assert(encoded(first) + encoded(rest) =~= encoded(first));
    } else {
        law_encoding_goes_along_the_text(first, rest.drop_last());
        assert((first + rest).drop_last() =~= first + rest.drop_last());
        assert(encoded(first + rest) =~= encoded(first) + encoded(rest));
    }
}

/// A text that is too long for a field fills all of it but the terminator.
pub proof fn law_a_long_tip_is_cut_at_the_end(text: Seq<u16>, size: int)
    requires
        0 < size,
    ensures
        0 <= taken(text, size) < size,
        taken(text, size) <= text.len(),
        text.len() >= size ==> taken(text, size) == size - 1,
        text.len() < size ==> taken(text, size) == text.len(),
{
}

} // verus!
