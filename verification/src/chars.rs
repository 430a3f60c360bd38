//! Texts taken apart into their characters and put together again.

use vstd::prelude::*;

verus! {

/// The characters of a text.
pub fn chars_of(text: &str) -> (chars: Vec<char>)
    ensures
        chars@ == text@,
{
    let mut chars: Vec<char> = Vec::new();
    append_str(&mut chars, text);
    chars
}

/// Appends the characters of a text.
pub fn append_str(chars: &mut Vec<char>, text: &str)
    ensures
        final(chars)@ == old(chars)@ + text@,
{
    let ghost before = chars@;
    for c in it: text.chars()
        invariant
            it.seq() == text@,
            chars@ == before + it.seq().take(it.index() as int),
    {
        chars.push(c);
        assert(chars@ =~= before + it.seq().take(it.index() + 1));
    }
    assert(text@.take(text@.len() as int) =~= text@);
}

/// The text of the characters from `from` up to `to`.
pub fn string_of(chars: &Vec<char>, from: usize, to: usize) -> (text: String)
    requires
        from <= to <= chars@.len(),
    ensures
        text@ == chars@.subrange(from as int, to as int),
{
    let mut text = String::new();
    let mut i = from;
    while i < to
        invariant
            from <= i <= to <= chars@.len(),
            text@ == chars@.subrange(from as int, i as int),
        decreases to - i,
    {
        text.push(chars[i]);
        i += 1;
        assert(text@ =~= chars@.subrange(from as int, i as int));
    }
    text
}

/// The text of all the characters.
pub fn string_of_all(chars: &Vec<char>) -> (text: String)
    ensures
        text@ == chars@,
{
    let text = string_of(chars, 0, chars.len());
    assert(chars@.subrange(0, chars@.len() as int) =~= chars@);
    text
}

} // verus!
