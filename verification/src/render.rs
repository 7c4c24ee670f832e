//! Lists of tokens written out as text.

use crate::tokenizer::TokensResult;
use vstd::prelude::*;

verus! {

/// `String::push` of std, which appends the given character to the end of
/// the string.
pub assume_specification[ String::push ](text: &mut String, ch: char)
    ensures
        final(text)@ == old(text)@.push(ch),
;

/// What every line of a list starts with: a line break and four spaces.
pub open spec fn line_start() -> Seq<char> {
    seq!['\r', '\n', ' ', ' ', ' ', ' ']
}

/// The end of a line.
pub open spec fn line_break() -> Seq<char> {
    seq!['\r', '\n']
}

/// What stands between two entries on one line.
pub open spec fn separator() -> Seq<char> {
    seq![',', ' ']
}

/// `c` between single quotes.
pub open spec fn quoted(c: char) -> Seq<char> {
    seq!['\'', c, '\'']
}

/// The characters of `t`, each quoted and followed by a separator.
pub open spec fn spelled_open(t: Seq<char>) -> Seq<char>
    decreases t.len(),
{
    if t.len() == 0 {
        Seq::empty()
    } else {
        spelled_open(t.drop_last()) + quoted(t.last()) + separator()
    }
}

/// The characters of `t`, each quoted, with a separator between neighbours.
pub open spec fn spelled(t: Seq<char>) -> Seq<char> {
    if t.len() == 0 {
        Seq::empty()
    } else {
        spelled_open(t.drop_last()) + quoted(t.last())
    }
}

/// The lines of a list and its closing bracket inside `[` and `]`. The
/// closing bracket stands on a line of its own unless the list is empty.
pub open spec fn bracketed(lines: Seq<char>, any: bool) -> Seq<char> {
    seq!['['] + lines + if any {
        line_break()
    } else {
        Seq::empty()
    } + seq![']'] + line_break()
}

/// One line of the granular breakdown: the token, an arrow, and the token
/// spelled out.
pub open spec fn granular_line(t: Seq<char>) -> Seq<char> {
    line_start() + t + seq![' ', '=', '>', ' '] + spelled(t)
}

/// The lines of the granular breakdown of `tokens`.
pub open spec fn granular_lines(tokens: Seq<Seq<char>>) -> Seq<char>
    decreases tokens.len(),
{
    if tokens.len() == 0 {
        Seq::empty()
    } else {
        granular_lines(tokens.drop_last()) + granular_line(tokens.last())
    }
}

/// The granular breakdown of `tokens` as text.
pub open spec fn granular_text(tokens: Seq<Seq<char>>) -> Seq<char> {
    bracketed(granular_lines(tokens), tokens.len() > 0)
}

/// One line of a list: the token between single quotes, and a comma.
pub open spec fn list_line(t: Seq<char>) -> Seq<char> {
    line_start() + seq!['\''] + t + seq!['\'', ',']
}

/// The lines of the list of `tokens`.
pub open spec fn list_lines(tokens: Seq<Seq<char>>) -> Seq<char>
    decreases tokens.len(),
{
    if tokens.len() == 0 {
        Seq::empty()
    } else {
        list_lines(tokens.drop_last()) + list_line(tokens.last())
    }
}

/// The list of `tokens` as text.
pub open spec fn list_text(tokens: Seq<Seq<char>>) -> Seq<char> {
    bracketed(list_lines(tokens), tokens.len() > 0)
}

/// Appends to `text` the characters of `token`, each quoted, with a
/// separator between neighbours.
fn push_spelled(text: &mut String, token: &str)
    ensures
        final(text)@ == old(text)@ + spelled(token@),
{
    let n: usize = token.unicode_len();
    let mut index: usize = 0;
    let ghost base = text@;
    for c in it: token.chars()
        invariant
            it.seq() == token@,
            n == token@.len(),
            index == it.index(),
            index < n ==> text@ == base + spelled_open(token@.take(index as int)),
            index == n ==> text@ == base + spelled(token@),
    {
        text.push('\'');
        text.push(c);
        text.push('\'');
        if index + 1 != n {
            text.append(", ");
        }
        proof {
            reveal_strlit(", ");
            assert(token@.take(index + 1).drop_last() == token@.take(index as int));
        }
        index += 1;
    }
}

/// Writes `input` as a list in brackets, one token to a line, each between
/// single quotes and followed by a comma.
pub fn format_tokens(input: &Vec<&str>) -> (output: String)
    ensures
        output@ == list_text(input.deep_view()),
{
    let ghost tokens = input.deep_view();
    let mut output: String = "[".to_owned();
    let mut has_elements: bool = false;
    proof {
        reveal_strlit("[");
    }
    for i in 0..input.len()
        invariant
            tokens == input.deep_view(),
            has_elements == (i > 0),
            output@ == seq!['['] + list_lines(tokens.take(i as int)),
    {
        output.append("\r\n    '");
        output.append(input[i]);
        output.append("',");
        has_elements = true;
        proof {
            reveal_strlit("\r\n    '");
            reveal_strlit("',");
            assert(tokens.take(i + 1).drop_last() == tokens.take(i as int));
        }
    }
    assert(tokens.take(input.len() as int) == tokens);
    if has_elements {
        output.append("\r\n");
    }
    output.append("]\r\n");
    proof {
        reveal_strlit("\r\n");
        reveal_strlit("]\r\n");
    }
    output
}

impl TokensResult<'_> {
    /// Writes the granular tokens as a list in brackets, one token to a line:
    /// the token, an arrow, and the characters of the token, each between
    /// single quotes, with commas between them.
    pub fn granular(&self) -> (text: String)
        ensures
            text@ == granular_text(self.granular_tokens.deep_view()),
    {
        let ghost tokens = self.granular_tokens.deep_view();
        let mut granular_string: String = "[".to_owned();
        let mut has_tokens: bool = false;
        proof {
            reveal_strlit("[");
        }
        for i in 0..self.granular_tokens.len()
            invariant
                tokens == self.granular_tokens.deep_view(),
                has_tokens == (i > 0),
                granular_string@ == seq!['['] + granular_lines(tokens.take(i as int)),
        {
            let token: &str = self.granular_tokens[i];
            granular_string.append("\r\n    ");
            granular_string.append(token);
            granular_string.append(" => ");
            push_spelled(&mut granular_string, token);
            has_tokens = true;
            proof {
                reveal_strlit("\r\n    ");
                reveal_strlit(" => ");
                assert(tokens.take(i + 1).drop_last() == tokens.take(i as int));
            }
        }
        assert(tokens.take(self.granular_tokens.len() as int) == tokens);
        if has_tokens {
            granular_string.append("\r\n");
        }
        granular_string.append("]\r\n");
        proof {
            reveal_strlit("\r\n");
            reveal_strlit("]\r\n");
        }
        granular_string
    }
}

} // verus!
