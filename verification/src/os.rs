//! Pieces of the platform layer that hold no system call: the access marks
//! of a mapping, and the wide, NUL-terminated names that Windows takes.
use vstd::prelude::*;

verus! {

broadcast use vstd::string::axiom_spec_iter;

/// Marks a mapping that is only read.
pub struct ReadOnly;

/// Marks a mapping that is read and written.
pub struct ReadWrite;

/// The UTF-16 code units of one character: one unit below `0x10000`, a
/// surrogate pair above.
pub open spec fn utf16_units(c: char) -> Seq<u16> {
    let v = c as u32;
    if v < 0x1_0000 {
        seq![v as u16]
    } else {
        seq![(0xD800 + (v - 0x1_0000) / 0x400) as u16, (0xDC00 + (v - 0x1_0000) % 0x400) as u16]
    }
}

/// The UTF-16 encoding of a string, character by character.
pub open spec fn utf16_encode(s: Seq<char>) -> Seq<u16>
    decreases s.len(),
{
    if s.len() == 0 {
        Seq::empty()
    } else {
        utf16_encode(s.drop_last()) + utf16_units(s.last())
    }
}

/// `value` in UTF-16, followed by a NUL unit.
pub fn to_wide_null(value: &str) -> (wide: Vec<u16>)
    ensures
        wide@ == utf16_encode(value@).push(0u16),
{
    let mut wide: Vec<u16> = Vec::new();
    for c in it: value.chars()
        invariant
            it.seq() == value@,
            wide@ == utf16_encode(it.seq().take(it.index() as int)),
    {
        proof {
            let done = it.seq().take(it.index() as int);
            let next = it.seq().take(it.index() + 1);
            assert(next.drop_last() =~= done);
            assert(next.last() == c);
        }
        let v = c as u32;
        proof {
            vstd::utf8::char_is_scalar(c);
        }
        if v < 0x1_0000 {
            wide.push(v as u16);
        } else {
            let w = v - 0x1_0000;
            wide.push((0xD800 + w / 0x400) as u16);
            wide.push((0xDC00 + w % 0x400) as u16);
        }
    }
    proof {
        assert(value@.take(value@.len() as int) =~= value@);
    }
    wide.push(0);
    wide
}

} // verus!
