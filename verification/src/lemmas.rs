//! Lemmas that unfold the model step by step, as the functions walk over
//! their input.

use crate::model::{granules, kind_of, of_kind, split, TokenKind, DELIMITER};
use crate::scan::lemma_run_len_is;
use crate::str_checker::alphanumeric;
use vstd::prelude::*;

verus! {

/// With no delimiter from `start` up to a delimiter at `i`, the tokens from
/// `start` on are the piece between the two and the tokens after `i`.
pub proof fn lemma_split_at_delimiter(s: Seq<char>, start: int, i: int)
    requires
        0 <= start <= i < s.len(),
        forall|j: int| start <= j < i ==> #[trigger] s[j] != DELIMITER,
        s[i] == DELIMITER,
    ensures
        split(s.skip(start)) == seq![s.subrange(start, i)] + split(s.skip(i + 1)),
{
    let rest = s.skip(start);
    lemma_run_len_is(rest, |c: char| c == DELIMITER, i - start);
    assert(rest.take(i - start) == s.subrange(start, i));
    assert(rest.skip(i - start + 1) == s.skip(i + 1));
}

/// With no delimiter from `start` on, what is left is one token.
pub proof fn lemma_split_last(s: Seq<char>, start: int)
    requires
        0 <= start <= s.len(),
        forall|j: int| start <= j < s.len() ==> #[trigger] s[j] != DELIMITER,
    ensures
        split(s.skip(start)) == seq![s.skip(start)],
{
    let rest = s.skip(start);
    lemma_run_len_is(rest, |c: char| c == DELIMITER, rest.len() as int);
}

/// With alphanumeric characters from `start` up to another character at `i`,
/// the granular tokens from `start` on are the run between the two if there
/// is one, the character at `i`, and the granular tokens after `i`.
pub proof fn lemma_granules_at_break(s: Seq<char>, start: int, i: int)
    requires
        0 <= start <= i < s.len(),
        forall|j: int| start <= j < i ==> alphanumeric(#[trigger] s[j]),
        !alphanumeric(s[i]),
    ensures
        start < i ==> granules(s.skip(start)) == seq![s.subrange(start, i), s.subrange(i, i + 1)]
            + granules(s.skip(i + 1)),
        start == i ==> granules(s.skip(start)) == seq![s.subrange(i, i + 1)] + granules(
            s.skip(i + 1),
        ),
{
    let at = s.skip(i);
    assert(at.take(1) == s.subrange(i, i + 1));
    assert(at.skip(1) == s.skip(i + 1));
    if start < i {
        let rest = s.skip(start);
        lemma_run_len_is(rest, |c: char| !alphanumeric(c), i - start);
        assert(rest.take(i - start) == s.subrange(start, i));
        assert(rest.skip(i - start) == at);
        assert(granules(rest) == seq![s.subrange(start, i)] + granules(at));
    }
}

/// With alphanumeric characters from `start` to the end, what is left is one
/// granular token, or none if nothing is left.
pub proof fn lemma_granules_last(s: Seq<char>, start: int)
    requires
        0 <= start <= s.len(),
        forall|j: int| start <= j < s.len() ==> alphanumeric(#[trigger] s[j]),
    ensures
        start < s.len() ==> granules(s.skip(start)) == seq![s.skip(start)],
        start == s.len() ==> granules(s.skip(start)) == Seq::<Seq<char>>::empty(),
{
    let rest = s.skip(start);
    if start < s.len() {
        lemma_run_len_is(rest, |c: char| !alphanumeric(c), rest.len() as int);
        assert(rest.take(rest.len() as int) == rest);
        assert(granules(rest) == seq![rest] + granules(rest.skip(rest.len() as int)));
    }
}

/// A token appended to a sequence is appended to those of its category, and
/// leaves those of the other categories as they are.
pub proof fn lemma_of_kind_push(tokens: Seq<Seq<char>>, last: Seq<char>, kind: TokenKind)
    ensures
        of_kind(tokens.push(last), kind) == if kind_of(last) == Some(kind) {
            of_kind(tokens, kind).push(last)
        } else {
            of_kind(tokens, kind)
        },
{
    tokens.lemma_filter_push(last, |t: Seq<char>| kind_of(t) == Some(kind));
}

} // verus!
