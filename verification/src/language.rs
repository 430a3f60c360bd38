//! Language files: lines that give a text under a key.
//!
//! A line holds a key, one space, and the text. What follows `//` or `#` is a
//! comment. White space around what is left does not count, and a line of
//! which nothing is left holds nothing.

use crate::chars::{chars_of, string_of};
use crate::scan::{lemma_run, lemma_run_ends, run_len};
use regex::Regex;
use vstd::prelude::*;

verus! {

/// The pattern of what starts a comment.
pub const COMMENT_PATTERN: &'static str = "//|#";

/// The first of the pieces into which the matches of a regular expression
/// split a text: the text before the first match, or all of it where nothing
/// matches. It is `None` where the pattern is no regular expression.
pub uninterp spec fn regex_first_piece(pattern: Seq<char>, text: Seq<char>) -> Option<Seq<char>>;

/// Compiles `pattern` with `regex`'s `Regex::new` and takes the first item
/// of `Regex::split` on `text`. Trusted: that the result is what
/// [`regex_first_piece`] names, and that a piece starts the text.
#[verifier::external_body]
fn first_piece(pattern: &str, text: &str) -> (piece: Option<String>)
    ensures
        match piece {
            Some(p) => regex_first_piece(pattern@, text@) == Some(p@) && p@.is_prefix_of(text@),
            None => regex_first_piece(pattern@, text@) is None,
        },
{
    match Regex::new(pattern) {
        Ok(re) => re.split(text).next().map(String::from),
        Err(_) => None,
    }
}

/// Whether a comment starts at index `i` of a line: with a `#`, or with the
/// first of two slashes.
pub open spec fn starts_comment(line: Seq<char>, i: int) -> bool {
    &&& 0 <= i < line.len()
    &&& line[i] == '#' || (line[i] == '/' && i + 1 < line.len() && line[i + 1] == '/')
}

/// The first index from `i` on at which a comment starts in a line; the
/// line's length, where none starts.
pub open spec fn comment_from(line: Seq<char>, i: int) -> int
    decreases line.len() - i,
{
    if i < 0 || i >= line.len() {
        line.len() as int
    } else if starts_comment(line, i) {
        i
    } else {
        comment_from(line, i + 1)
    }
}

/// A line without its comment: what stands before the first `#` or `//`.
pub open spec fn before_comment(line: Seq<char>) -> Seq<char> {
    line.take(comment_from(line, 0))
}

/// The comment of a line starts at the first index at which one starts:
/// before it none starts, and it lies in the line or at its end.
pub proof fn lemma_comment_from(line: Seq<char>, i: int)
    requires
        0 <= i <= line.len(),
    ensures
        i <= comment_from(line, i) <= line.len(),
        forall|j: int| i <= j < comment_from(line, i) ==> !starts_comment(line, j),
        comment_from(line, i) < line.len() ==> starts_comment(line, comment_from(line, i)),
    decreases line.len() - i,
{
    if i < line.len() && !starts_comment(line, i) {
        lemma_comment_from(line, i + 1);
    }
}

/// Whether a character has the Unicode property `White_Space`.
pub uninterp spec fn white_space(c: char) -> bool;

/// Whether a character is white space: whether it has the Unicode property
/// `White_Space`, which the space, the line feed and the no-break space
/// have.
pub open spec fn whitespace(c: char) -> bool {
    c == ' ' || c == '\n' || c == '\u{a0}' || white_space(c)
}

/// What std documents of `char::is_whitespace`: it tells whether the
/// character has the property `White_Space`, and it holds of the space, the
/// line feed and the no-break space.
pub assume_specification[ char::is_whitespace ](c: char) -> (r: bool)
    ensures
        r == (c == ' ' || c == '\n' || c == '\u{a0}' || white_space(c)),
;

/// What holds of the characters around a line that do not count.
pub open spec fn white() -> spec_fn(char) -> bool {
    |c: char| whitespace(c)
}

/// What holds of the characters of a key: they are no space.
pub open spec fn not_space() -> spec_fn(char) -> bool {
    |c: char| c != ' '
}

/// How many characters of white space a text starts with.
pub open spec fn leading(text: Seq<char>) -> nat {
    run_len(text, white())
}

/// How many characters of white space a text ends with.
pub open spec fn trailing(text: Seq<char>) -> nat {
    run_len(text.reverse(), white())
}

/// A text without the white space that it starts and ends with.
pub open spec fn trimmed(text: Seq<char>) -> Seq<char> {
    if leading(text) == text.len() {
        Seq::empty()
    } else {
        text.subrange(leading(text) as int, text.len() - trailing(text))
    }
}

/// How many characters stand before the first space of a text: all of them,
/// where it holds no space.
pub open spec fn before_space(text: Seq<char>) -> nat {
    run_len(text, not_space())
}

/// What a line of a language file holds.
#[derive(Debug, Clone, PartialEq, Eq)]
pub enum LineContent {
    /// Nothing but white space and comment.
    Empty,
    /// A text without a space, so that key and text cannot be told apart.
    NoValue(String),
    /// A text under a key.
    Entry { key: String, value: String },
}

/// The mathematical content of a [`LineContent`].
pub enum LineView {
    Empty,
    NoValue(Seq<char>),
    Entry { key: Seq<char>, value: Seq<char> },
}

impl View for LineContent {
    type V = LineView;

    open spec fn view(&self) -> LineView {
        match self {
            LineContent::Empty => LineView::Empty,
            LineContent::NoValue(text) => LineView::NoValue(text@),
            LineContent::Entry { key, value } => LineView::Entry { key: key@, value: value@ },
        }
    }
}

/// What a line holds whose comment was taken off: nothing, where only white
/// space is left; else the key before the first space of the trimmed text,
/// and after that space the text.
pub open spec fn entry_of(text: Seq<char>) -> LineView {
    let line = trimmed(text);
    let split = before_space(line) as int;
    if line.len() == 0 {
        LineView::Empty
    } else if split == line.len() {
        LineView::NoValue(line)
    } else {
        LineView::Entry { key: line.take(split), value: line.skip(split + 1) }
    }
}

/// A trimmed text is what stands between the white space that the text
/// starts with and the white space that it ends with. It neither starts nor
/// ends with white space, and it is empty only where the text is white space
/// all through.
pub proof fn lemma_trimmed(text: Seq<char>)
    ensures
        trimmed(text).len() > 0 ==> {
            &&& leading(text) + trimmed(text).len() + trailing(text) == text.len()
            &&& trimmed(text) == text.subrange(
                leading(text) as int,
                (leading(text) + trimmed(text).len()) as int,
            )
            &&& !whitespace(trimmed(text).first())
            &&& !whitespace(trimmed(text).last())
        },
        trimmed(text).len() == 0 <==> forall|i: int|
            0 <= i < text.len() ==> whitespace(#[trigger] text[i]),
{
    let n = text.len() as int;
    let back = text.reverse();
    lemma_run(text, white());
    lemma_run(back, white());
    if leading(text) < n {
        let first = leading(text) as int;
        assert(!whitespace(text[first]));
        assert(back[n - 1 - first] == text[first]);
        assert(trailing(text) < n - first);
        assert(back[trailing(text) as int] == text[n - 1 - trailing(text)]);
    } else {
        assert forall|i: int| 0 <= i < n implies whitespace(#[trigger] text[i]) by {
            assert(white()(text[i]));
        }
    }
}

/// What a line holds is made of its trimmed text: a line holds nothing where
/// that is empty; a text without value is all of it and has no space; the
/// key of an entry has no space, and key, one space and value make it up,
/// neither of the two being empty.
pub proof fn lemma_entry_parts(text: Seq<char>)
    ensures
        match entry_of(text) {
            LineView::Empty => trimmed(text).len() == 0,
            LineView::NoValue(line) => line == trimmed(text) && line.len() > 0 && !line.contains(
                ' ',
            ),
            LineView::Entry { key, value } => {
                &&& key + seq![' '] + value == trimmed(text)
                &&& !key.contains(' ')
                &&& key.len() > 0
                &&& value.len() > 0
            },
        },
{
    let line = trimmed(text);
    lemma_trimmed(text);
    lemma_run(line, not_space());
    let split = before_space(line) as int;
    if line.len() > 0 && split < line.len() {
        assert(line.take(split) + seq![' '] + line.skip(split + 1) =~= line);
        assert(whitespace(line[split]));
        assert(line.first() == line[0]);
        assert(line.last() == line[line.len() - 1]);
    }
}

/// Reads a line whose comment was taken off.
pub fn entry_of_text(text: &str) -> (content: LineContent)
    ensures
        content@ == entry_of(text@),
{
    let chars = chars_of(text);
    let n = chars.len();
    let mut start: usize = 0;
    while start < n && chars[start].is_whitespace()
        invariant
            start <= n == chars@.len(),
            forall|j: int| 0 <= j < start ==> whitespace(chars@[j]),
        decreases n - start,
    {
        start += 1;
    }
    proof {
        lemma_run_ends(chars@, white(), start as int);
    }
    if start == n {
        return LineContent::Empty;
    }
    let mut end: usize = n;
    while end > start + 1 && chars[end - 1].is_whitespace()
        invariant
            start < end <= n == chars@.len(),
            !whitespace(chars@[start as int]),
            forall|j: int| end <= j < n ==> whitespace(chars@[j]),
        decreases end,
    {
        end -= 1;
    }
    proof {
        let back = chars@.reverse();
        assert forall|j: int| 0 <= j < n - end implies white()(#[trigger] back[j]) by {
            assert(back[j] == chars@[n - 1 - j]);
        }
        assert(back[n - end] == chars@[end - 1]);
        lemma_run_ends(back, white(), n - end);
    }
    let ghost line = chars@.subrange(start as int, end as int);
    let mut split: usize = start;
    while split < end && chars[split] != ' '
        invariant
            start <= split <= end <= n == chars@.len(),
            line == chars@.subrange(start as int, end as int),
            forall|j: int| 0 <= j < split - start ==> line[j] != ' ',
        decreases end - split,
    {
        split += 1;
    }
    proof {
        lemma_run_ends(line, not_space(), split - start);
    }
    if split == end {
        LineContent::NoValue(string_of(&chars, start, end))
    } else {
        let key = string_of(&chars, start, split);
        let value = string_of(&chars, split + 1, end);
        proof {
            assert(key@ =~= line.take(split - start));
            assert(value@ =~= line.skip(split - start + 1));
        }
        LineContent::Entry { key, value }
    }
}

/// Where the comment of a line starts.
fn comment_start(chars: &Vec<char>) -> (start: usize)
    ensures
        start == comment_from(chars@, 0),
{
    let n = chars.len();
    let mut i: usize = 0;
    while i < n && !(chars[i] == '#' || (chars[i] == '/' && i + 1 < n && chars[i + 1] == '/'))
        invariant
            i <= n == chars@.len(),
            comment_from(chars@, 0) == comment_from(chars@, i as int),
        decreases n - i,
    {
        i += 1;
    }
    i
}

/// A line without its comment. The pattern of comments splits the line, and
/// the first piece is taken where it is what stands before the line's
/// comment. `None` says that the pattern gave anything else.
pub fn strip_comment(line: &str) -> (stripped: Option<String>)
    ensures
        match stripped {
            Some(text) => text@ == before_comment(line@),
            None => regex_first_piece(COMMENT_PATTERN@, line@) != Some(before_comment(line@)),
        },
{
    let piece = first_piece(COMMENT_PATTERN, line)?;
    let start = comment_start(&chars_of(line));
    proof {
        lemma_comment_from(line@, 0);
    }
    if chars_of(piece.as_str()).len() == start {
        assert(piece@ =~= before_comment(line@));
        Some(piece)
    } else {
        None
    }
}

/// Reads a line of a language file. `None` says that the pattern of comments
/// did not split the line at its comment.
pub fn parse_language_line(line: &str) -> (content: Option<LineContent>)
    ensures
        match content {
            Some(held) => held@ == entry_of(before_comment(line@)),
            None => regex_first_piece(COMMENT_PATTERN@, line@) != Some(before_comment(line@)),
        },
{
    match strip_comment(line) {
        Some(text) => Some(entry_of_text(text.as_str())),
        None => None,
    }
}

} // verus!
