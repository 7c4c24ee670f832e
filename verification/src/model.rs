//! The mathematical model of the tokenizer: what each step computes, stated
//! over sequences of characters.

use crate::scan::{lemma_run_len, run_len};
use crate::str_checker::{all_alphabetic, all_alphanumeric, all_numeric, alphabetic, alphanumeric};
use vstd::prelude::*;

verus! {

/// The character on which the input is split into tokens.
pub const DELIMITER: char = '/';

/// The character that ends a protocol token.
pub const PROTOCOL_END: char = ':';

/// The position of the first delimiter in `s`, or the length of `s`.
pub open spec fn first_delimiter(s: Seq<char>) -> int {
    run_len(s, |c: char| c == DELIMITER) as int
}

/// The pieces of `s` between its delimiters, in order, empty ones included.
pub open spec fn split(s: Seq<char>) -> Seq<Seq<char>>
    decreases s.len(),
{
    let n = first_delimiter(s);
    if n >= s.len() {
        seq![s]
    } else {
        seq![s.take(n)] + split(s.skip(n + 1))
    }
}

/// The parts written one after another with a delimiter between neighbours.
pub open spec fn join(parts: Seq<Seq<char>>) -> Seq<char>
    decreases parts.len(),
{
    if parts.len() == 0 {
        Seq::empty()
    } else if parts.len() == 1 {
        parts[0]
    } else {
        parts[0] + seq![DELIMITER] + join(parts.drop_first())
    }
}

/// How many of the characters of `s` are delimiters.
pub open spec fn delimiter_count(s: Seq<char>) -> nat
    decreases s.len(),
{
    if s.len() == 0 {
        0
    } else {
        delimiter_count(s.drop_last()) + if s.last() == DELIMITER {
            1nat
        } else {
            0nat
        }
    }
}

/// A protocol token: alphabetic characters, none or more, and then a colon.
pub open spec fn valid_protocol(s: Seq<char>) -> bool {
    &&& s.len() > 0
    &&& s.last() == PROTOCOL_END
    &&& forall|i: int| 0 <= i < s.len() - 1 ==> alphabetic(#[trigger] s[i])
}

/// The shape of a URL: at least three tokens, of which the first is a
/// protocol and the second is empty.
pub open spec fn valid_url(tokens: Seq<Seq<char>>) -> bool {
    &&& tokens.len() >= 3
    &&& valid_protocol(tokens[0])
    &&& tokens[0].len() > 0
    &&& tokens[1].len() == 0
}

/// The characters that start a suffix.
pub open spec fn is_marker(c: char) -> bool {
    c == '?' || c == '#'
}

/// No character of `s` is a marker.
pub open spec fn marker_free(s: Seq<char>) -> bool {
    forall|i: int| 0 <= i < s.len() ==> !is_marker(#[trigger] s[i])
}

/// The position of the first marker in `s`, or the length of `s`.
pub open spec fn first_marker(s: Seq<char>) -> int {
    run_len(s, |c: char| is_marker(c)) as int
}

/// What stands before the first marker of `s`: all of `s` where it has none.
pub open spec fn before_marker(s: Seq<char>) -> Seq<char> {
    s.take(first_marker(s))
}

/// What stands after the first marker of `s`: nothing where it has none.
pub open spec fn after_marker(s: Seq<char>) -> Seq<char> {
    if first_marker(s) < s.len() {
        s.skip(first_marker(s) + 1)
    } else {
        Seq::empty()
    }
}

/// The structural parts of a URL.
pub struct Structure {
    pub protocol: Seq<char>,
    pub host: Seq<char>,
    pub directories: Seq<Seq<char>>,
    pub filename: Option<Seq<char>>,
    pub suffix: Seq<char>,
}

/// The structural parts of tokens that have the shape of a URL. With tokens
/// after the host, the last of them gives the file name and the suffix and
/// the others are directories; without, the host token itself is parted at
/// its first marker.
pub open spec fn structure(tokens: Seq<Seq<char>>) -> Structure {
    if tokens.len() > 3 {
        Structure {
            protocol: tokens[0].drop_last(),
            host: tokens[2],
            directories: tokens.subrange(3, tokens.len() - 1),
            filename: Some(before_marker(tokens.last())),
            suffix: after_marker(tokens.last()),
        }
    } else {
        Structure {
            protocol: tokens[0].drop_last(),
            host: before_marker(tokens[2]),
            directories: Seq::empty(),
            filename: None,
            suffix: after_marker(tokens[2]),
        }
    }
}

/// What a granular token looks like: a run of alphanumeric characters, or
/// one character that is not alphanumeric.
pub open spec fn is_granule(g: Seq<char>) -> bool {
    all_alphanumeric(g) || (g.len() == 1 && !alphanumeric(g[0]))
}

/// The length of the first granular token of a non-empty `s`: its leading
/// run of alphanumeric characters, or one character that is not alphanumeric.
pub open spec fn lead_len(s: Seq<char>) -> int {
    if alphanumeric(s[0]) {
        run_len(s, |c: char| !alphanumeric(c)) as int
    } else {
        1
    }
}

/// The granular tokens of `s`: its maximal runs of alphanumeric characters
/// and, each on its own, its other characters, in the order in which they
/// stand in `s`.
pub open spec fn granules(s: Seq<char>) -> Seq<Seq<char>>
    decreases s.len(),
    via granules_decreases
{
    if s.len() == 0 {
        Seq::empty()
    } else {
        seq![s.take(lead_len(s))] + granules(s.skip(lead_len(s)))
    }
}

#[via_fn]
proof fn granules_decreases(s: Seq<char>) {
    lemma_run_len(s, |c: char| !alphanumeric(c));
}

/// The granular tokens of all the tokens, in order.
pub open spec fn granules_of_all(tokens: Seq<Seq<char>>) -> Seq<Seq<char>> {
    tokens.flat_map(|t: Seq<char>| granules(t))
}

/// The categories of granular tokens.
#[derive(Clone, Copy, Debug, PartialEq, Eq, Structural)]
pub enum TokenKind {
    Number,
    Word,
    Alphanumeric,
    Punctuation,
}

/// The category of a token. The order of the tests decides where a token of
/// characters that are both alphabetic and numeric goes. The empty token has
/// no category.
pub open spec fn kind_of(s: Seq<char>) -> Option<TokenKind> {
    if all_numeric(s) {
        Some(TokenKind::Number)
    } else if all_alphabetic(s) {
        Some(TokenKind::Word)
    } else if all_alphanumeric(s) {
        Some(TokenKind::Alphanumeric)
    } else if s.len() > 0 {
        Some(TokenKind::Punctuation)
    } else {
        None
    }
}

/// Those of `tokens` that are of the category `kind`, in order.
pub open spec fn of_kind(tokens: Seq<Seq<char>>, kind: TokenKind) -> Seq<Seq<char>> {
    tokens.filter(|t: Seq<char>| kind_of(t) == Some(kind))
}

/// All that is found out about one input.
pub struct Analysis {
    pub is_valid_url: bool,
    pub protocol: Option<Seq<char>>,
    pub host: Option<Seq<char>>,
    pub directories: Seq<Seq<char>>,
    pub filename: Option<Seq<char>>,
    pub suffix: Option<Seq<char>>,
    pub words: Seq<Seq<char>>,
    pub numbers: Seq<Seq<char>>,
    pub alphanumeric: Seq<Seq<char>>,
    pub punctuations: Seq<Seq<char>>,
    pub tokens: Seq<Seq<char>>,
    pub granular_tokens: Seq<Seq<char>>,
}

impl Analysis {
    /// The record is the analysis of the input that its tokens spell.
    pub open spec fn well_formed(self) -> bool {
        self == analyze(join(self.tokens))
    }
}

/// The analysis of `input`. The structural parts are there only where the
/// tokens have the shape of a URL; the granular tokens and their categories
/// are computed in any case.
pub open spec fn analyze(input: Seq<char>) -> Analysis {
    let tokens = split(input);
    let granular = granules_of_all(tokens);
    let valid = valid_url(tokens);
    let parts = structure(tokens);
    Analysis {
        is_valid_url: valid,
        protocol: if valid { Some(parts.protocol) } else { None },
        host: if valid { Some(parts.host) } else { None },
        directories: if valid { parts.directories } else { Seq::empty() },
        filename: if valid { parts.filename } else { None },
        suffix: if valid { Some(parts.suffix) } else { None },
        words: of_kind(granular, TokenKind::Word),
        numbers: of_kind(granular, TokenKind::Number),
        alphanumeric: of_kind(granular, TokenKind::Alphanumeric),
        punctuations: of_kind(granular, TokenKind::Punctuation),
        tokens: tokens,
        granular_tokens: granular,
    }
}

} // verus!
