//! The two steps between `str` and the characters it holds.

use vstd::prelude::*;

verus! {

/// `String::push` of the standard library, which appends one character to a
/// `String`. Taken on trust: afterwards the text is the old text with `c`
/// at its end.
pub assume_specification[ String::push ](text: &mut String, c: char)
    ensures
        final(text)@ == old(text)@.push(c),
;

/// The characters of a text, in order.
pub fn chars_of(text: &str) -> (chars: Vec<char>)
    ensures
        chars@ == text@,
{
    let mut chars: Vec<char> = Vec::new();
    for c in it: text.chars()
        invariant
            chars@ == it.seq().take(it.index()),
            it.seq() == text@,
    {
        chars.push(c);
    }
    assert(chars@ == text@);
    chars
}

} // verus!
