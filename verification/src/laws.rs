//! What holds of the model for every input.

use crate::lemmas::lemma_of_kind_push;
use crate::model::{
    after_marker, analyze, before_marker, delimiter_count, first_delimiter, first_marker, granules,
    granules_of_all, is_granule, is_marker, join, kind_of, lead_len, marker_free, of_kind, split,
    structure, valid_url, TokenKind, DELIMITER, PROTOCOL_END,
};
use crate::scan::{lemma_run_len, lemma_run_len_is};
use crate::str_checker::{all_alphanumeric, alphanumeric};
use vstd::prelude::*;

verus! {

/// Splitting never yields an empty sequence of tokens.
pub proof fn lemma_split_len(s: Seq<char>)
    ensures
        split(s).len() >= 1,
{
}

/// No token holds a delimiter.
pub proof fn lemma_tokens_hold_no_delimiter(s: Seq<char>, i: int, j: int)
    requires
        0 <= i < split(s).len(),
        0 <= j < split(s)[i].len(),
    ensures
        split(s)[i][j] != DELIMITER,
    decreases s.len(),
{
    let n = first_delimiter(s);
    lemma_run_len(s, |c: char| c == DELIMITER);
    if n < s.len() && i > 0 {
        lemma_tokens_hold_no_delimiter(s.skip(n + 1), i - 1, j);
    }
}

/// Joining the tokens of an input with the delimiter gives the input back.
pub proof fn lemma_join_split(s: Seq<char>)
    ensures
        join(split(s)) == s,
    decreases s.len(),
{
    let n = first_delimiter(s);
    lemma_run_len(s, |c: char| c == DELIMITER);
    if n < s.len() {
        let rest = s.skip(n + 1);
        lemma_join_split(rest);
        let parts = seq![s.take(n)] + split(rest);
        assert(parts.drop_first() == split(rest));
    }
}

/// Splitting undoes joining: parts that hold no delimiter are the tokens of
/// their join.
pub proof fn lemma_split_join(parts: Seq<Seq<char>>)
    requires
        parts.len() >= 1,
        forall|i: int, j: int|
            0 <= i < parts.len() && 0 <= j < parts[i].len() ==> #[trigger] parts[i][j]
                != DELIMITER,
    ensures
        split(join(parts)) == parts,
    decreases parts.len(),
{
    let s = join(parts);
    let head = parts[0];
    if parts.len() == 1 {
        lemma_run_len_is(s, |c: char| c == DELIMITER, s.len() as int);
    } else {
        let tail = parts.drop_first();
        lemma_split_join(tail);
        lemma_run_len_is(s, |c: char| c == DELIMITER, head.len() as int);
        assert(s.take(head.len() as int) == head);
        assert(s.skip(head.len() as int + 1) == join(tail));
    }
}

/// An input with `k` delimiters has `k + 1` tokens.
pub proof fn lemma_split_count(s: Seq<char>)
    ensures
        split(s).len() == delimiter_count(s) + 1,
    decreases s.len(),
{
    let n = first_delimiter(s);
    lemma_run_len(s, |c: char| c == DELIMITER);
    if n < s.len() {
        let rest = s.skip(n + 1);
        lemma_split_count(rest);
        lemma_count_plain(s.take(n));
        lemma_count_concat(s.take(n), seq![DELIMITER]);
        lemma_count_concat(s.take(n) + seq![DELIMITER], rest);
        assert(s == s.take(n) + seq![DELIMITER] + rest);
        assert(delimiter_count(seq![DELIMITER]) == 1) by {
            reveal_with_fuel(delimiter_count, 2);
        }
    } else {
        lemma_count_plain(s);
    }
}

/// A sequence without delimiters counts none.
proof fn lemma_count_plain(s: Seq<char>)
    requires
        forall|j: int| 0 <= j < s.len() ==> #[trigger] s[j] != DELIMITER,
    ensures
        delimiter_count(s) == 0,
    decreases s.len(),
{
    if s.len() > 0 {
        lemma_count_plain(s.drop_last());
    }
}

/// The delimiters of a concatenation are those of its two parts.
proof fn lemma_count_concat(a: Seq<char>, b: Seq<char>)
    ensures
        delimiter_count(a + b) == delimiter_count(a) + delimiter_count(b),
    decreases b.len(),
{
    if b.len() > 0 {
        lemma_count_concat(a, b.drop_last());
        assert((a + b).drop_last() == a + b.drop_last());
    }
}

/// A delimiter between two inputs parts their tokens: those of the first
/// input come first, those of the second after them.
pub proof fn lemma_split_append(a: Seq<char>, b: Seq<char>)
    ensures
        split(a + seq![DELIMITER] + b) == split(a) + split(b),
    decreases a.len(),
{
    let s = a + seq![DELIMITER] + b;
    let n = first_delimiter(a);
    lemma_run_len(a, |c: char| c == DELIMITER);
    lemma_run_len_is(s, |c: char| c == DELIMITER, n);
    assert(s.take(n) == a.take(n));
    if n < a.len() {
        let rest = a.skip(n + 1);
        lemma_split_append(rest, b);
        assert(s.skip(n + 1) == rest + seq![DELIMITER] + b);
    } else {
        assert(a.take(n) == a);
        assert(s.skip(n + 1) == b);
    }
}

/// Whether tokens have the shape of a URL depends only on whether there are
/// three of them and on the first two: two sequences of equal length that
/// begin with the same two tokens are both of that shape or both not.
pub proof fn lemma_valid_url_depends(a: Seq<Seq<char>>, b: Seq<Seq<char>>)
    requires
        (a.len() >= 3) == (b.len() >= 3),
        a.len() >= 3 ==> a[0] == b[0] && a[1] == b[1],
    ensures
        valid_url(a) == valid_url(b),
{
}

/// Tokens that have the shape of a URL keep it when more tokens follow.
pub proof fn lemma_valid_url_extends(tokens: Seq<Seq<char>>, more: Seq<Seq<char>>)
    requires
        valid_url(tokens),
    ensures
        valid_url(tokens + more),
{
}

/// An input whose tokens have the shape of a URL keeps it when a delimiter
/// and further text are appended.
pub proof fn lemma_valid_url_append(input: Seq<char>, segments: Seq<char>)
    requires
        valid_url(split(input)),
    ensures
        valid_url(split(input + seq![DELIMITER] + segments)),
{
    lemma_split_append(input, segments);
}

/// A token without a marker is all before it, and nothing comes after.
pub proof fn lemma_suffix_without_marker(s: Seq<char>)
    requires
        marker_free(s),
    ensures
        before_marker(s) == s,
        after_marker(s) == Seq::<char>::empty(),
{
    lemma_run_len_is(s, |c: char| is_marker(c), s.len() as int);
}

/// A token with a marker is what stands before its first marker, that
/// marker, and what stands after it; and no marker stands before it.
pub proof fn lemma_suffix_with_marker(s: Seq<char>)
    requires
        !marker_free(s),
    ensures
        0 <= first_marker(s) < s.len(),
        is_marker(s[first_marker(s)]),
        marker_free(before_marker(s)),
        before_marker(s) + seq![s[first_marker(s)]] + after_marker(s) == s,
{
    lemma_run_len(s, |c: char| is_marker(c));
}

/// Tokens that have the shape of a URL are spelled by their structural parts:
/// the first is the protocol and a colon; with tokens after the host, the
/// third is the host and the last but those are the directories; and the
/// token that is parted, the last one, is what gave the file name (or the
/// host), its first marker if it has one, and the suffix.
pub proof fn lemma_structure_spells_tokens(tokens: Seq<Seq<char>>)
    requires
        valid_url(tokens),
    ensures
        ({
            let parts = structure(tokens);
            let parted = tokens.last();
            let front = if tokens.len() > 3 {
                parts.filename.unwrap()
            } else {
                parts.host
            };
            &&& tokens[0] == parts.protocol.push(PROTOCOL_END)
            &&& tokens.len() > 3 ==> tokens[2] == parts.host
            &&& tokens.len() > 3 ==> tokens.subrange(3, tokens.len() - 1) == parts.directories
            &&& marker_free(front)
            &&& marker_free(parted) ==> parted == front && parts.suffix.len() == 0
            &&& !marker_free(parted) ==> parted == front + seq![parted[front.len() as int]]
                + parts.suffix && is_marker(parted[front.len() as int])
        }),
{
    let parted = tokens.last();
    if marker_free(parted) {
        lemma_suffix_without_marker(parted);
    } else {
        lemma_suffix_with_marker(parted);
    }
}

/// The granular tokens of a token, one after another, make up the token.
pub proof fn lemma_granules_flatten(s: Seq<char>)
    ensures
        granules(s).flatten() == s,
    decreases s.len(),
{
    if s.len() > 0 {
        let n = lead_len(s);
        lemma_run_len(s, |c: char| !alphanumeric(c));
        let rest = granules(s.skip(n));
        lemma_granules_flatten(s.skip(n));
        let all = seq![s.take(n)] + rest;
        assert(all.drop_first() == rest);
    }
}

/// Every granular token is a non-empty run of alphanumeric characters or one
/// character that is not alphanumeric.
pub proof fn lemma_granules_shape(s: Seq<char>, i: int)
    requires
        0 <= i < granules(s).len(),
    ensures
        is_granule(granules(s)[i]),
    decreases s.len(),
{
    let n = lead_len(s);
    lemma_run_len(s, |c: char| !alphanumeric(c));
    if i > 0 {
        lemma_granules_shape(s.skip(n), i - 1);
    }
}

/// The runs are maximal: of two neighbours among the granular tokens of a
/// token, at most one is a run of alphanumeric characters.
pub proof fn lemma_granules_maximal(s: Seq<char>, i: int)
    requires
        0 <= i,
        i + 1 < granules(s).len(),
    ensures
        !(all_alphanumeric(granules(s)[i]) && all_alphanumeric(granules(s)[i + 1])),
    decreases s.len(),
{
    let n = lead_len(s);
    lemma_run_len(s, |c: char| !alphanumeric(c));
    let rest = s.skip(n);
    if i > 0 {
        lemma_granules_maximal(rest, i - 1);
    } else if alphanumeric(s[0]) {
        assert(granules(rest).len() > 0);
        let next = granules(rest)[0];
        assert(!alphanumeric(next[0]));
    } else {
        assert(granules(s)[0][0] == s[0]);
    }
}

/// Every token of the right shape has a category, and it is punctuation
/// exactly for one character that is not alphanumeric.
pub proof fn lemma_granule_kind(g: Seq<char>)
    requires
        is_granule(g),
    ensures
        g.len() > 0,
        kind_of(g) is Some,
        kind_of(g) == Some(TokenKind::Punctuation) <==> g.len() == 1 && !alphanumeric(g[0]),
{
}

/// The granular tokens of all the tokens are those of the tokens but the
/// last, and then those of the last.
pub proof fn lemma_granules_of_all_push(tokens: Seq<Seq<char>>, last: Seq<char>)
    ensures
        granules_of_all(tokens.push(last)) == granules_of_all(tokens) + granules(last),
{
    tokens.lemma_flat_map_push(|t: Seq<char>| granules(t), last);
}

/// Every granular token of an analysis has a category, and every one that is
/// punctuation is one character long.
pub proof fn lemma_granular_kinds(tokens: Seq<Seq<char>>, i: int)
    requires
        0 <= i < granules_of_all(tokens).len(),
    ensures
        is_granule(granules_of_all(tokens)[i]),
        granules_of_all(tokens)[i].len() > 0,
        kind_of(granules_of_all(tokens)[i]) is Some,
        kind_of(granules_of_all(tokens)[i]) == Some(TokenKind::Punctuation)
            ==> granules_of_all(tokens)[i].len() == 1,
    decreases tokens.len(),
{
    if tokens.len() > 0 {
        let front = tokens.drop_last();
        assert(tokens == front.push(tokens.last()));
        lemma_granules_of_all_push(front, tokens.last());
        if i < granules_of_all(front).len() {
            lemma_granular_kinds(front, i);
        } else {
            lemma_granules_shape(tokens.last(), i - granules_of_all(front).len());
        }
    }
}

/// No token is found in two categories.
pub proof fn lemma_kinds_disjoint(g: Seq<Seq<char>>, first: TokenKind, second: TokenKind)
    requires
        first != second,
    ensures
        forall|t: Seq<char>| !(of_kind(g, first).contains(t) && of_kind(g, second).contains(t)),
{
}

/// The four categories part a sequence of tokens that each have one: every
/// token goes to one category, as often as it occurs.
pub proof fn lemma_kinds_partition(g: Seq<Seq<char>>)
    requires
        forall|i: int| 0 <= i < g.len() ==> kind_of(#[trigger] g[i]) is Some,
    ensures
        ({
            let numbers = of_kind(g, TokenKind::Number);
            let words = of_kind(g, TokenKind::Word);
            let alphanumeric = of_kind(g, TokenKind::Alphanumeric);
            let punctuations = of_kind(g, TokenKind::Punctuation);
            &&& numbers.len() + words.len() + alphanumeric.len() + punctuations.len() == g.len()
            &&& numbers.to_multiset().add(words.to_multiset()).add(alphanumeric.to_multiset()).add(
                punctuations.to_multiset(),
            ) == g.to_multiset()
        }),
    decreases g.len(),
{
    broadcast use vstd::seq_lib::group_to_multiset_ensures;

    if g.len() > 0 {
        let front = g.drop_last();
        let last = g.last();
        assert(g == front.push(last));
        lemma_kinds_partition(front);
        lemma_of_kind_push(front, last, TokenKind::Number);
        lemma_of_kind_push(front, last, TokenKind::Word);
        lemma_of_kind_push(front, last, TokenKind::Alphanumeric);
        lemma_of_kind_push(front, last, TokenKind::Punctuation);
    }
}

/// Of every analysis: it is well formed; none of its granular tokens is
/// empty; its four categories part its granular tokens; and each of its
/// punctuation tokens is one character long.
pub proof fn lemma_analysis(input: Seq<char>)
    ensures
        ({
            let a = analyze(input);
            &&& a.well_formed()
            &&& forall|i: int|
                0 <= i < a.granular_tokens.len() ==> (#[trigger] a.granular_tokens[i]).len() > 0
            &&& a.numbers.len() + a.words.len() + a.alphanumeric.len() + a.punctuations.len()
                == a.granular_tokens.len()
            &&& a.numbers.to_multiset().add(a.words.to_multiset()).add(
                a.alphanumeric.to_multiset(),
            ).add(a.punctuations.to_multiset()) == a.granular_tokens.to_multiset()
            &&& forall|i: int|
                0 <= i < a.punctuations.len() ==> (#[trigger] a.punctuations[i]).len() == 1
        }),
{
    let a = analyze(input);
    let g = a.granular_tokens;
    lemma_join_split(input);
    assert forall|i: int| 0 <= i < g.len() implies (#[trigger] g[i]).len() > 0 && kind_of(
        g[i],
    ) is Some by {
        lemma_granular_kinds(a.tokens, i);
    }
    lemma_kinds_partition(g);
    let punctuation = |t: Seq<char>| kind_of(t) == Some(TokenKind::Punctuation);
    assert forall|i: int| 0 <= i < a.punctuations.len() implies (
    #[trigger] a.punctuations[i]).len() == 1 by {
        let p = a.punctuations[i];
        g.lemma_filter_contains_rev(punctuation, p);
        let k = choose|k: int| 0 <= k < g.len() && g[k] == p;
        lemma_granular_kinds(a.tokens, k);
    }
}

} // verus!
