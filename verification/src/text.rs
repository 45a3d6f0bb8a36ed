//! Characters, lines and tokens of a map text.

use vstd::prelude::*;

verus! {

/// Whether a character is white space: the characters that Unicode lists
/// as `White_Space`.
pub open spec fn is_space(c: char) -> bool {
    let code = c as u32;
    ||| 0x09 <= code <= 0x0D
    ||| code == 0x20
    ||| code == 0x85
    ||| code == 0xA0
    ||| code == 0x1680
    ||| 0x2000 <= code <= 0x200A
    ||| code == 0x2028
    ||| code == 0x2029
    ||| code == 0x202F
    ||| code == 0x205F
    ||| code == 0x3000
}

/// Whether a character is white space.
pub fn is_whitespace(c: char) -> (space: bool)
    ensures
        space == is_space(c),
{
    let code: u32 = c as u32;
    (0x09 <= code && code <= 0x0D) || code == 0x20 || code == 0x85 || code == 0xA0 || code
        == 0x1680 || (0x2000 <= code && code <= 0x200A) || code == 0x2028 || code == 0x2029
        || code == 0x202F || code == 0x205F || code == 0x3000
}

/// Appends one character to a string, as `String::push` of the standard
/// library does: the string afterwards is the string before, followed by
/// the character.
#[verifier::external_body]
pub(crate) fn push_char(text: &mut String, c: char)
    ensures
        final(text)@ == old(text)@.push(c),
{
    text.push(c);
}

/// A line without the carriage return that may end it.
pub open spec fn strip_cr(line: Seq<char>) -> Seq<char> {
    if line.len() > 0 && line.last() == '\r' {
        line.drop_last()
    } else {
        line
    }
}

/// The lines that are complete in a text: one for each line feed, holding
/// what stands between it and the line feed before, without the carriage
/// return that may precede it.
pub open spec fn closed_lines(text: Seq<char>) -> Seq<Seq<char>>
    decreases text.len(),
{
    if text.len() == 0 {
        Seq::empty()
    } else if text.last() == '\n' {
        closed_lines(text.drop_last()).push(strip_cr(open_line(text.drop_last())))
    } else {
        closed_lines(text.drop_last())
    }
}

/// What follows the last line feed of a text.
pub open spec fn open_line(text: Seq<char>) -> Seq<char>
    decreases text.len(),
{
    if text.len() == 0 || text.last() == '\n' {
        Seq::empty()
    } else {
        open_line(text.drop_last()).push(text.last())
    }
}

/// The lines of a text. A line ends at a line feed, or at a carriage
/// return directly before one; what follows the last line feed is a line
/// too, unless it is empty.
pub open spec fn lines_of(text: Seq<char>) -> Seq<Seq<char>> {
    if open_line(text).len() == 0 {
        closed_lines(text)
    } else {
        closed_lines(text).push(open_line(text))
    }
}

/// The model of a list of texts.
pub open spec fn text_views(texts: Seq<String>) -> Seq<Seq<char>> {
    Seq::new(texts.len(), |i: int| texts[i]@)
}

/// Splits a text into its lines.
pub fn split_lines(content: &str) -> (lines: Vec<String>)
    ensures
        text_views(lines@) == lines_of(content@),
{
    let mut lines: Vec<String> = Vec::new();
    let mut current: String = String::new();
    // A carriage return is held back until the next character shows
    // whether it ends the line.
    let mut held: bool = false;
    for c in it: content.chars()
        invariant
            it.seq() == content@,
            text_views(lines@) == closed_lines(content@.take(it.index() as int)),
            open_line(content@.take(it.index() as int)) == if held {
                current@.push('\r')
            } else {
                current@
            },
            !held ==> current@.len() == 0 || current@.last() != '\r',
    {
        proof {
            let done = content@.take(it.index() as int);
            let next = content@.take(it.index() + 1);
            assert(next.drop_last() =~= done);
            assert(next.last() == c);
        }
        if c == '\n' {
            let ghost before = lines@;
            lines.push(current);
            proof {
                assert(text_views(lines@) =~= text_views(before).push(current@));
                if held {
                    assert(current@.push('\r').drop_last() =~= current@);
                }
            }
            current = String::new();
            held = false;
        } else {
            if held {
                push_char(&mut current, '\r');
            }
            if c == '\r' {
                held = true;
            } else {
                push_char(&mut current, c);
                held = false;
            }
        }
    }
    proof {
        assert(content@.take(content@.len() as int) =~= content@);
    }
    if held {
        push_char(&mut current, '\r');
    }
    if !current.as_str().is_empty() {
        let ghost before = lines@;
        lines.push(current);
        proof {
            assert(text_views(lines@) =~= text_views(before).push(current@));
        }
    }
    lines
}

/// How many white-space characters a text begins with.
pub open spec fn leading_spaces(text: Seq<char>) -> nat
    decreases text.len(),
{
    if text.len() > 0 && is_space(text[0]) {
        1 + leading_spaces(text.drop_first())
    } else {
        0
    }
}

/// How many characters that are no white space a text begins with.
pub open spec fn leading_word(text: Seq<char>) -> nat
    decreases text.len(),
{
    if text.len() > 0 && !is_space(text[0]) {
        1 + leading_word(text.drop_first())
    } else {
        0
    }
}

/// The first token of a line: what stands between the white space that
/// the line begins with and the next white space. Empty where the line
/// holds white space only.
pub open spec fn first_token(line: Seq<char>) -> Seq<char> {
    let rest = line.skip(leading_spaces(line) as int);
    rest.take(leading_word(rest) as int)
}

/// A text that begins with `count` white-space characters and then goes on
/// otherwise, or ends, begins with exactly that many.
proof fn lemma_leading_spaces(text: Seq<char>, count: int)
    requires
        0 <= count <= text.len(),
        forall|j: int| 0 <= j < count ==> is_space(#[trigger] text[j]),
        count < text.len() ==> !is_space(text[count]),
    ensures
        leading_spaces(text) == count,
    decreases count,
{
    if count > 0 {
        let rest = text.drop_first();
        assert forall|j: int| 0 <= j < count - 1 implies is_space(#[trigger] rest[j]) by {
            assert(rest[j] == text[j + 1]);
        }
        lemma_leading_spaces(rest, count - 1);
    }
}

/// A text that begins with `count` characters that are no white space and
/// then goes on with white space, or ends, begins with exactly that many.
proof fn lemma_leading_word(text: Seq<char>, count: int)
    requires
        0 <= count <= text.len(),
        forall|j: int| 0 <= j < count ==> !is_space(#[trigger] text[j]),
        count < text.len() ==> is_space(text[count]),
    ensures
        leading_word(text) == count,
    decreases count,
{
    if count > 0 {
        let rest = text.drop_first();
        assert forall|j: int| 0 <= j < count - 1 implies !is_space(#[trigger] rest[j]) by {
            assert(rest[j] == text[j + 1]);
        }
        lemma_leading_word(rest, count - 1);
    }
}

/// The first token of a line, or `None` where the line holds white space
/// only.
pub fn leading_token(line: &str) -> (token: Option<String>)
    ensures
        match token {
            Some(word) => word@ == first_token(line@) && word@.len() > 0,
            None => first_token(line@).len() == 0,
        },
{
    let mut word: String = String::new();
    let ghost mut start: int = 0;
    for c in it: line.chars()
        invariant
            it.seq() == line@,
            0 <= start <= it.index(),
            forall|j: int| 0 <= j < start ==> is_space(#[trigger] line@[j]),
            forall|j: int| start <= j < it.index() ==> !is_space(#[trigger] line@[j]),
            word@ == line@.subrange(start, it.index() as int),
    {
        let ghost at: int = it.index() as int;
        if is_whitespace(c) {
            if word.as_str().is_empty() {
                proof {
                    start = at + 1;
                    assert(word@ =~= line@.subrange(start, at + 1));
                }
            } else {
                proof {
                    lemma_leading_spaces(line@, start);
                    let rest = line@.skip(start);
                    assert forall|j: int| 0 <= j < at - start implies !is_space(
                        #[trigger] rest[j],
                    ) by {
                        assert(rest[j] == line@[start + j]);
                    }
                    lemma_leading_word(rest, at - start);
                    assert(word@ =~= rest.take(at - start));
                }
                return Some(word);
            }
        } else {
            push_char(&mut word, c);
            proof {
                assert(word@ =~= line@.subrange(start, at + 1));
            }
        }
    }
    proof {
        let end = line@.len() as int;
        let rest = line@.skip(start);
        if start < end {
            lemma_leading_spaces(line@, start);
        } else {
            lemma_leading_spaces(line@, end);
        }
        assert forall|j: int| 0 <= j < end - start implies !is_space(#[trigger] rest[j]) by {
            assert(rest[j] == line@[start + j]);
        }
        lemma_leading_word(rest, end - start);
        assert(word@ =~= rest.take(end - start));
    }
    if word.as_str().is_empty() {
        None
    } else {
        Some(word)
    }
}

} // verus!
