//! Splitting an input into tokens, recognising the shape of a URL in them, and
//! breaking them down into classified granular tokens.

use crate::laws::{
    lemma_granules_flatten, lemma_granules_shape, lemma_join_split, lemma_split_count,
    lemma_suffix_without_marker,
};
use crate::lemmas::{
    lemma_granules_at_break, lemma_granules_last, lemma_of_kind_push, lemma_split_at_delimiter,
    lemma_split_last,
};
use crate::model::{
    after_marker, analyze, before_marker, delimiter_count, granules, granules_of_all, is_granule,
    is_marker, join, kind_of, marker_free, of_kind, split, structure, valid_protocol, valid_url,
    Analysis, Structure, TokenKind, DELIMITER, PROTOCOL_END,
};
use crate::scan::lemma_run_len_is;
use crate::str_checker::{alphabetic, alphanumeric, is_alphanumeric, is_number, is_word};
use vstd::prelude::*;

verus! {

/// Splits `input_str` on every delimiter. The tokens come in order, the empty
/// ones too: an input with `k` delimiters gives `k + 1` tokens, and joining
/// them with the delimiter gives the input back.
pub fn tokenize<'a>(input_str: &'a str) -> (tokens: Vec<&'a str>)
    ensures
        tokens.deep_view() == split(input_str@),
        tokens.len() == delimiter_count(input_str@) + 1,
        join(tokens.deep_view()) == input_str@,
{
    let n: usize = input_str.unicode_len();
    let mut tokens: Vec<&'a str> = Vec::new();
    let mut start_index: usize = 0;
    let mut index: usize = 0;
    assert(input_str@.skip(0) == input_str@);
    for c in it: input_str.chars()
        invariant
            it.seq() == input_str@,
            n == input_str@.len(),
            index == it.index(),
            start_index <= index,
            forall|j: int| start_index <= j < index ==> #[trigger] input_str@[j] != DELIMITER,
            tokens.deep_view() + split(input_str@.skip(start_index as int)) == split(
                input_str@,
            ),
    {
        if c == DELIMITER {
            let extracted: &'a str = input_str.substring_char(start_index, index);
            tokens.push(extracted);
            proof {
                lemma_split_at_delimiter(input_str@, start_index as int, index as int);
            }
            start_index = index + 1;
        }
        index += 1;
    }
    let last_part: &'a str = input_str.substring_char(start_index, n);
    let ghost before = tokens.deep_view();
    tokens.push(last_part);
    proof {
        lemma_split_last(input_str@, start_index as int);
        assert(tokens.deep_view() == before + seq![last_part@]);
        lemma_split_count(input_str@);
        lemma_join_split(input_str@);
    }
    tokens
}

/// Whether `protocol_str` is a protocol token: alphabetic characters and then
/// a colon. A colon alone is one.
pub fn is_valid_protocol(protocol_str: &str) -> (b: bool)
    ensures
        b == valid_protocol(protocol_str@),
{
    let n: usize = protocol_str.unicode_len();
    if n == 0 {
        return false;
    }
    let end_index: usize = n - 1;
    let mut current_index: usize = 0;
    for c in it: protocol_str.chars()
        invariant
            it.seq() == protocol_str@,
            n == protocol_str@.len(),
            end_index == n - 1,
            current_index == it.index(),
            forall|j: int|
                0 <= j < current_index && j != end_index ==> alphabetic(
                    #[trigger] protocol_str@[j],
                ),
            current_index > end_index ==> protocol_str@[end_index as int] == PROTOCOL_END,
    {
        if (current_index != end_index && !c.is_alphabetic()) || (current_index == end_index
            && c != PROTOCOL_END) {
            return false;
        }
        current_index += 1;
    }
    true
}

/// Whether `tokens` have the shape of a URL: there are at least three, the
/// first is a protocol, and the second is empty.
pub fn is_valid_url(tokens: &[&str]) -> (b: bool)
    ensures
        b == valid_url(tokens.deep_view()),
{
    tokens.len() >= 3 && is_valid_protocol(tokens[0]) && !tokens[0].is_empty()
        && tokens[1].is_empty()
}

/// Parts `mixed` at its first `?` or `#`, which goes to neither part. Without
/// one, the first part is `mixed` and the second is empty.
pub fn split_suffix<'a>(mixed: &'a str) -> (parts: (&'a str, &'a str))
    ensures
        parts.0@ == before_marker(mixed@),
        parts.1@ == after_marker(mixed@),
        marker_free(mixed@) ==> parts.0@ == mixed@ && parts.1@ == Seq::<char>::empty(),
{
    let n: usize = mixed.unicode_len();
    let mut index: usize = 0;
    for c in it: mixed.chars()
        invariant
            it.seq() == mixed@,
            n == mixed@.len(),
            index == it.index(),
            forall|j: int| 0 <= j < index ==> !is_marker(#[trigger] mixed@[j]),
    {
        if c == '?' || c == '#' {
            let first_part: &'a str = mixed.substring_char(0, index);
            let suffix: &'a str = mixed.substring_char(index + 1, n);
            proof {
                lemma_run_len_is(mixed@, |c: char| is_marker(c), index as int);
            }
            return (first_part, suffix);
        }
        index += 1;
    }
    proof {
        lemma_suffix_without_marker(mixed@);
        reveal_strlit("");
    }
    (mixed, "")
}

/// Breaks `token` down into its granular tokens: each maximal run of
/// alphanumeric characters, and each other character on its own. An empty
/// token has none, and none of them is empty; one after another they make up
/// the token.
pub fn granularize<'a>(token: &'a str) -> (parts: Vec<&'a str>)
    ensures
        parts.deep_view() == granules(token@),
        forall|i: int| 0 <= i < parts.len() ==> is_granule(#[trigger] parts.deep_view()[i]),
        parts.deep_view().flatten() == token@,
{
    let n: usize = token.unicode_len();
    let mut parts: Vec<&'a str> = Vec::new();
    let mut start_index: usize = 0;
    let mut index: usize = 0;
    assert(token@.skip(0) == token@);
    for c in it: token.chars()
        invariant
            it.seq() == token@,
            n == token@.len(),
            index == it.index(),
            start_index <= index,
            forall|j: int| start_index <= j < index ==> alphanumeric(#[trigger] token@[j]),
            parts.deep_view() + granules(token@.skip(start_index as int)) == granules(token@),
    {
        if !c.is_alphanumeric() {
            let run: &'a str = token.substring_char(start_index, index);
            if !run.is_empty() {
                parts.push(run);
            }
            let single: &'a str = token.substring_char(index, index + 1);
            parts.push(single);
            proof {
                lemma_granules_at_break(token@, start_index as int, index as int);
            }
            start_index = index + 1;
        }
        index += 1;
    }
    let ghost before = parts.deep_view();
    let last_part: &'a str = token.substring_char(start_index, n);
    if !last_part.is_empty() {
        parts.push(last_part);
    }
    proof {
        lemma_granules_last(token@, start_index as int);
        assert(before + Seq::<Seq<char>>::empty() == before);
        lemma_granules_flatten(token@);
        assert forall|i: int| 0 <= i < parts.len() implies is_granule(
            #[trigger] parts.deep_view()[i],
        ) by {
            lemma_granules_shape(token@, i);
        }
    }
    parts
}

/// The category of `token`: a number if all its characters are numeric, else
/// a word if all are alphabetic, else alphanumeric if all are one or the
/// other, else punctuation. The empty token has none.
pub fn classify(token: &str) -> (kind: Option<TokenKind>)
    ensures
        kind == kind_of(token@),
{
    if is_number(token) {
        Some(TokenKind::Number)
    } else if is_word(token) {
        Some(TokenKind::Word)
    } else if is_alphanumeric(token) {
        Some(TokenKind::Alphanumeric)
    } else if !token.is_empty() {
        Some(TokenKind::Punctuation)
    } else {
        None
    }
}

/// The structural parts of a URL, each a piece of the input.
#[derive(Debug)]
pub struct UrlParts<'a> {
    pub protocol: &'a str,
    pub host: &'a str,
    pub directories: Vec<&'a str>,
    pub filename: Option<&'a str>,
    pub suffix: &'a str,
}

impl<'a> View for UrlParts<'a> {
    type V = Structure;

    open spec fn view(&self) -> Structure {
        Structure {
            protocol: self.protocol@,
            host: self.host@,
            directories: self.directories.deep_view(),
            filename: self.filename.deep_view(),
            suffix: self.suffix@,
        }
    }
}

/// The structural parts of `tokens`, where they have the shape of a URL, and
/// `None` where they have not.
pub fn decompose<'a>(tokens: &[&'a str]) -> (parts: Option<UrlParts<'a>>)
    ensures
        match parts {
            Some(p) => valid_url(tokens.deep_view()) && p@ == structure(tokens.deep_view()),
            None => !valid_url(tokens.deep_view()),
        },
{
    if !is_valid_url(tokens) {
        return None;
    }
    let ghost texts = tokens.deep_view();
    let protocol_str: &'a str = tokens[0];
    let protocol: &'a str = protocol_str.substring_char(0, protocol_str.unicode_len() - 1);
    if tokens.len() > 3 {
        let last: usize = tokens.len() - 1;
        let mut directories: Vec<&'a str> = Vec::new();
        let mut i: usize = 3;
        while i < last
            invariant
                3 <= i <= last,
                last == tokens.len() - 1,
                texts == tokens.deep_view(),
                directories.deep_view() == texts.subrange(3, i as int),
            decreases last - i,
        {
            directories.push(tokens[i]);
            assert(texts.subrange(3, i + 1) == texts.subrange(3, i as int).push(texts[i as int]));
            i += 1;
        }
        let (filename, suffix) = split_suffix(tokens[last]);
        Some(UrlParts { protocol, host: tokens[2], directories, filename: Some(filename), suffix })
    } else {
        let (host, suffix) = split_suffix(tokens[2]);
        let directories: Vec<&'a str> = Vec::new();
        assert(directories.deep_view() == Seq::<Seq<char>>::empty());
        Some(UrlParts { protocol, host, directories, filename: None, suffix })
    }
}

/// The result of the tokenizer. Every piece of text in it is a piece of the
/// input.
#[derive(Debug)]
pub struct TokensResult<'a> {
    pub is_valid_url: bool,
    pub protocol: Option<&'a str>,
    pub host: Option<&'a str>,
    pub directories: Vec<&'a str>,
    pub filename: Option<&'a str>,
    pub suffix: Option<&'a str>,
    pub words: Vec<&'a str>,
    pub numbers: Vec<&'a str>,
    pub alphanumeric: Vec<&'a str>,
    pub punctuations: Vec<&'a str>,
    pub tokens: Vec<&'a str>,
    pub granular_tokens: Vec<&'a str>,
}

impl<'a> View for TokensResult<'a> {
    type V = Analysis;

    open spec fn view(&self) -> Analysis {
        Analysis {
            is_valid_url: self.is_valid_url,
            protocol: self.protocol.deep_view(),
            host: self.host.deep_view(),
            directories: self.directories.deep_view(),
            filename: self.filename.deep_view(),
            suffix: self.suffix.deep_view(),
            words: self.words.deep_view(),
            numbers: self.numbers.deep_view(),
            alphanumeric: self.alphanumeric.deep_view(),
            punctuations: self.punctuations.deep_view(),
            tokens: self.tokens.deep_view(),
            granular_tokens: self.granular_tokens.deep_view(),
        }
    }
}

impl<'a> TokensResult<'a> {
    /// Analyzes `input_str`: splits it into tokens, takes the structural parts
    /// from them where they have the shape of a URL, and breaks every token
    /// down into granular tokens, each of which goes to its category.
    pub fn new(input_str: &'a str) -> (result: TokensResult<'a>)
        ensures
            result@ == analyze(input_str@),
            result@.well_formed(),
    {
        let tokens: Vec<&'a str> = tokenize(input_str);
        let parts: Option<UrlParts<'a>> = decompose(tokens.as_slice());

        let mut granular_tokens: Vec<&'a str> = Vec::new();
        for i in 0..tokens.len()
            invariant
                granular_tokens.deep_view() == granules_of_all(tokens.deep_view().take(i as int)),
        {
            let mut pieces: Vec<&'a str> = granularize(tokens[i]);
            granular_tokens.append(&mut pieces);
            proof {
                tokens.deep_view().lemma_flat_map_take_append(
                    |t: Seq<char>| granules(t),
                    i as int,
                );
            }
        }
        assert(tokens.deep_view().take(tokens.len() as int) == tokens.deep_view());

        let mut words: Vec<&'a str> = Vec::new();
        let mut numbers: Vec<&'a str> = Vec::new();
        let mut alphanumeric: Vec<&'a str> = Vec::new();
        let mut punctuations: Vec<&'a str> = Vec::new();
        let ghost all = granular_tokens.deep_view();
        for i in 0..granular_tokens.len()
            invariant
                all == granular_tokens.deep_view(),
                words.deep_view() == of_kind(all.take(i as int), TokenKind::Word),
                numbers.deep_view() == of_kind(all.take(i as int), TokenKind::Number),
                alphanumeric.deep_view() == of_kind(all.take(i as int), TokenKind::Alphanumeric),
                punctuations.deep_view() == of_kind(all.take(i as int), TokenKind::Punctuation),
        {
            let token: &'a str = granular_tokens[i];
            let ghost seen = all.take(i as int);
            proof {
                assert(all.take(i + 1) == seen.push(token@));
                lemma_of_kind_push(seen, token@, TokenKind::Word);
                lemma_of_kind_push(seen, token@, TokenKind::Number);
                lemma_of_kind_push(seen, token@, TokenKind::Alphanumeric);
                lemma_of_kind_push(seen, token@, TokenKind::Punctuation);
            }
            match classify(token) {
                Some(TokenKind::Number) => numbers.push(token),
                Some(TokenKind::Word) => words.push(token),
                Some(TokenKind::Alphanumeric) => alphanumeric.push(token),
                Some(TokenKind::Punctuation) => punctuations.push(token),
                None => {},
            }
        }
        assert(all.take(granular_tokens.len() as int) == all);

        match parts {
            Some(p) => TokensResult {
                is_valid_url: true,
                protocol: Some(p.protocol),
                host: Some(p.host),
                directories: p.directories,
                filename: p.filename,
                suffix: Some(p.suffix),
                words,
                numbers,
                alphanumeric,
                punctuations,
                tokens,
                granular_tokens,
            },
            None => {
                let directories: Vec<&'a str> = Vec::new();
                assert(directories.deep_view() == Seq::<Seq<char>>::empty());
                TokensResult {
                    is_valid_url: false,
                    protocol: None,
                    host: None,
                    directories,
                    filename: None,
                    suffix: None,
                    words,
                    numbers,
                    alphanumeric,
                    punctuations,
                    tokens,
                    granular_tokens,
                }
            },
        }
    }
}

} // verus!
