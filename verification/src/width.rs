use vstd::prelude::*;

verus! {

/// The number of terminal columns one character occupies under the
/// wrapping rules: the Unicode display width, with control characters
/// (which have no width of their own) counted as one column.
pub uninterp spec fn char_width(c: char) -> int;

/// Relies on unicode_width's `UnicodeWidthChar::width`: the width of a
/// character is a pure function of that character, `None` only for
/// control characters (here counted as 1), and its lookup tables hold
/// no value above 3.
#[verifier::external_body]
pub fn char_width_of(c: char) -> (w: usize)
    ensures
        w as int == char_width(c),
        w <= 3,
{
    unicode_width::UnicodeWidthChar::width(c).unwrap_or(1)
}

/// Display width of a sequence of characters: the sum of the widths of
/// its characters.
pub open spec fn seg_width(s: Seq<char>) -> int
    decreases s.len(),
{
    if s.len() == 0 {
        0
    } else {
        char_width(s[0]) + seg_width(s.drop_first())
    }
}

} // verus!
