//! Search-query tokenization: turning what a user typed into prefix-match
//! terms for the full-text index.

use crate::text::{chars_of, string_of, texts_of};
use vstd::prelude::*;

verus! {

/// The largest number of terms in one query.
pub const MAX_QUERY_TERMS: usize = 12;

/// Whether a character may stand in a token: an ASCII letter or digit, `_`
/// or `-`.
pub open spec fn is_token_char(c: char) -> bool {
    ('a' <= c && c <= 'z') || ('A' <= c && c <= 'Z') || ('0' <= c && c <= '9') || c == '_' || c
        == '-'
}

/// An ASCII capital as its small letter; any other character unchanged.
pub open spec fn ascii_lower(c: char) -> char {
    if 'A' <= c && c <= 'Z' {
        ((c as int) + 32) as char
    } else {
        c
    }
}

/// The state of a left-to-right scan of `input`: the tokens completed so
/// far, and the token that is still open (empty where none is). A token
/// character extends the open token, in lower case; any other character
/// closes it.
pub open spec fn scan(input: Seq<char>) -> (Seq<Seq<char>>, Seq<char>)
    decreases input.len(),
{
    if input.len() == 0 {
        (Seq::empty(), Seq::empty())
    } else {
        let (done, open) = scan(input.drop_last());
        let c = input.last();
        if is_token_char(c) {
            (done, open.push(ascii_lower(c)))
        } else if open.len() > 0 {
            (done.push(open), Seq::empty())
        } else {
            (done, open)
        }
    }
}

/// All tokens of `input`: the maximal runs of token characters, lower-cased.
pub open spec fn all_tokens(input: Seq<char>) -> Seq<Seq<char>> {
    let (done, open) = scan(input);
    if open.len() > 0 {
        done.push(open)
    } else {
        done
    }
}

/// The tokens that a query keeps: the first `MAX_QUERY_TERMS` of them.
pub open spec fn query_tokens(input: Seq<char>) -> Seq<Seq<char>> {
    let all = all_tokens(input);
    if all.len() > MAX_QUERY_TERMS {
        all.take(MAX_QUERY_TERMS as int)
    } else {
        all
    }
}

/// The prefix-match term of a token: the token followed by `*`.
pub open spec fn term_of(token: Seq<char>) -> Seq<char> {
    token.push('*')
}

/// The terms of a query, one per kept token.
pub open spec fn query_terms_of(input: Seq<char>) -> Seq<Seq<char>> {
    Seq::new(query_tokens(input).len(), |i: int| term_of(query_tokens(input)[i]))
}

/// Terms written one after the other, with one space between neighbours.
pub open spec fn join_terms(terms: Seq<Seq<char>>) -> Seq<char>
    decreases terms.len(),
{
    if terms.len() == 0 {
        Seq::empty()
    } else if terms.len() == 1 {
        terms[0]
    } else {
        join_terms(terms.drop_last()) + seq![' '] + terms.last()
    }
}

/// The query text for what a user typed.
pub open spec fn prefix_query(input: Seq<char>) -> Seq<char> {
    join_terms(query_terms_of(input))
}

/// The character sequences of a list of vectors.
pub open spec fn runs_of(runs: Seq<Vec<char>>) -> Seq<Seq<char>> {
    Seq::new(runs.len(), |i: int| runs[i]@)
}

/// Whether `input` holds no token character at all.
pub open spec fn has_no_token_char(input: Seq<char>) -> bool {
    forall|i: int| 0 <= i < input.len() ==> !is_token_char(#[trigger] input[i])
}

/// Whether `token` is fit to stand in a query: not empty, and made of token
/// characters in lower case.
pub open spec fn is_clean_token(token: Seq<char>) -> bool {
    &&& token.len() > 0
    &&& forall|k: int|
        0 <= k < token.len() ==> is_token_char(#[trigger] token[k]) && !('A' <= token[k]
            && token[k] <= 'Z')
}

/// The scan finds nothing exactly where the input holds no token character,
/// and every token it completes or holds open is made of lower-case token
/// characters; the completed ones are not empty.
pub proof fn lemma_scan(input: Seq<char>)
    ensures
        (scan(input).0.len() == 0 && scan(input).1.len() == 0) <==> has_no_token_char(input),
        forall|j: int| 0 <= j < scan(input).0.len() ==> is_clean_token(#[trigger] scan(input).0[j]),
        scan(input).1.len() > 0 ==> is_clean_token(scan(input).1),
    decreases input.len(),
{
    if input.len() > 0 {
        let head = input.drop_last();
        let c = input.last();
        lemma_scan(head);
        if has_no_token_char(head) && !is_token_char(c) {
            assert forall|i: int| 0 <= i < input.len() implies !is_token_char(
                #[trigger] input[i],
            ) by {
                if i < head.len() {
                    assert(head[i] == input[i]);
                }
            }
        }
    }
}

/// A query keeps at most `MAX_QUERY_TERMS` tokens, each of them not empty
/// and made of lower-case token characters, and it keeps none exactly where
/// the input holds no token character.
pub proof fn lemma_query_tokens(input: Seq<char>)
    ensures
        query_tokens(input).len() <= MAX_QUERY_TERMS,
        forall|j: int|
            0 <= j < query_tokens(input).len() ==> is_clean_token(#[trigger] query_tokens(input)[j]),
        query_tokens(input).len() == 0 <==> has_no_token_char(input),
{
    lemma_scan(input);
}

/// The query text is empty exactly where the input holds no token
/// character: punctuation alone asks for nothing, never for everything.
pub proof fn lemma_empty_query(input: Seq<char>)
    ensures
        prefix_query(input).len() == 0 <==> has_no_token_char(input),
        has_no_token_char(input) ==> query_terms_of(input).len() == 0,
{
    lemma_query_tokens(input);
}

/// The token characters of `input`, in order and in lower case.
pub open spec fn kept_chars(input: Seq<char>) -> Seq<char>
    decreases input.len(),
{
    if input.len() == 0 {
        Seq::empty()
    } else if is_token_char(input.last()) {
        kept_chars(input.drop_last()).push(ascii_lower(input.last()))
    } else {
        kept_chars(input.drop_last())
    }
}

/// The number of places in `input` where a token begins: a token character
/// that stands first or after a character that is none.
pub open spec fn token_starts(input: Seq<char>) -> nat
    decreases input.len(),
{
    if input.len() == 0 {
        0
    } else {
        token_starts(input.drop_last()) + if is_token_char(input.last()) && (input.len() == 1
            || !is_token_char(input[input.len() - 2])) {
            1nat
        } else {
            0nat
        }
    }
}

/// Tokens written one after the other, with nothing between them.
pub open spec fn concat(tokens: Seq<Seq<char>>) -> Seq<char>
    decreases tokens.len(),
{
    if tokens.len() == 0 {
        Seq::empty()
    } else {
        concat(tokens.drop_last()) + tokens.last()
    }
}

/// What the scan holds at any point: the completed tokens and the open one
/// together are the token characters read so far; a token is open exactly
/// after a token character; and the tokens, the open one counted, are as
/// many as the places where a token began.
pub proof fn lemma_scan_runs(input: Seq<char>)
    ensures
        concat(scan(input).0) + scan(input).1 == kept_chars(input),
        scan(input).1.len() > 0 <==> input.len() > 0 && is_token_char(input.last()),
        scan(input).0.len() + (if scan(input).1.len() > 0 {
            1nat
        } else {
            0nat
        }) == token_starts(input),
    decreases input.len(),
{
    if input.len() > 0 {
        let head = input.drop_last();
        lemma_scan_runs(head);
        let (done, open) = scan(head);
        if !is_token_char(input.last()) && open.len() > 0 {
            assert(done.push(open).drop_last() == done);
        }
    }
}

/// The tokens of an input are its runs of token characters: written one
/// after the other they are the token characters of the input, in order and
/// in lower case, and there are as many of them as there are places where a
/// token begins.
pub proof fn lemma_tokens_are_runs(input: Seq<char>)
    ensures
        concat(all_tokens(input)) == kept_chars(input),
        all_tokens(input).len() == token_starts(input),
        forall|j: int|
            0 <= j < all_tokens(input).len() ==> is_clean_token(#[trigger] all_tokens(input)[j]),
{
    lemma_scan_runs(input);
    lemma_scan(input);
    let (done, open) = scan(input);
    if open.len() > 0 {
        assert(done.push(open).drop_last() == done);
    }
}

fn is_kept(c: char) -> (kept: bool)
    ensures
        kept == is_token_char(c),
{
    ('a' <= c && c <= 'z') || ('A' <= c && c <= 'Z') || ('0' <= c && c <= '9') || c == '_' || c
        == '-'
}

fn lower(c: char) -> (small: char)
    ensures
        small == ascii_lower(c),
{
    if 'A' <= c && c <= 'Z' {
        ((c as u8) + 32) as char
    } else {
        c
    }
}

/// The tokens that a query keeps, in order.
pub fn tokenize(input: &str) -> (tokens: Vec<Vec<char>>)
    ensures
        runs_of(tokens@) == query_tokens(input@),
{
    let chars = chars_of(input);
    let mut done: Vec<Vec<char>> = Vec::new();
    let mut open: Vec<char> = Vec::new();
    let mut i: usize = 0;
    while i < chars.len()
        invariant
            i <= chars.len(),
            chars@ == input@,
            (runs_of(done@), open@) == scan(chars@.take(i as int)),
        decreases chars.len() - i,
    {
        let c = chars[i];
        assert(chars@.take(i + 1).drop_last() == chars@.take(i as int));
        if is_kept(c) {
            open.push(lower(c));
        } else if open.len() > 0 {
            done.push(open);
            open = Vec::new();
        }
        i += 1;
    }
    assert(chars@.take(chars.len() as int) == chars@);
    if open.len() > 0 {
        done.push(open);
    }
    if done.len() > MAX_QUERY_TERMS {
        done.truncate(MAX_QUERY_TERMS);
    }
    done
}

/// The prefix-match terms for what a user typed, in order.
pub fn query_terms(input: &str) -> (terms: Vec<String>)
    ensures
        texts_of(terms@) == query_terms_of(input@),
        terms@.len() <= MAX_QUERY_TERMS,
        terms@.len() == 0 <==> has_no_token_char(input@),
{
    proof {
        lemma_query_tokens(input@);
    }
    let tokens = tokenize(input);
    let mut terms: Vec<String> = Vec::new();
    let mut i: usize = 0;
    while i < tokens.len()
        invariant
            i <= tokens.len(),
            runs_of(tokens@) == query_tokens(input@),
            terms@.len() == i,
            forall|k: int| 0 <= k < i ==> terms@[k]@ == term_of(#[trigger] tokens@[k]@),
        decreases tokens.len() - i,
    {
        let mut term = tokens[i].clone();
        term.push('*');
        terms.push(string_of(&term));
        i += 1;
    }
    terms
}

/// Converts what a user typed into the query text for the full-text index:
/// the prefix-match terms, separated by single spaces. The text is empty
/// where the input holds no token character; the caller then has no query to
/// run, and no results.
pub fn build_fts_prefix_query(input: &str) -> (query: String)
    ensures
        query@ == prefix_query(input@),
        query@.len() == 0 <==> has_no_token_char(input@),
{
    let terms = query_terms(input);
    let mut out: Vec<char> = Vec::new();
    let mut i: usize = 0;
    while i < terms.len()
        invariant
            i <= terms.len(),
            out@ == join_terms(texts_of(terms@).take(i as int)),
        decreases terms.len() - i,
    {
        let ghost so_far = texts_of(terms@).take(i as int);
        let ghost next = texts_of(terms@).take(i + 1);
        assert(next.drop_last() == so_far);
        if i > 0 {
            out.push(' ');
        }
        let term = chars_of(terms[i].as_str());
        let mut k: usize = 0;
        let ghost head = out@;
        while k < term.len()
            invariant
                k <= term.len(),
                out@ == head + term@.take(k as int),
            decreases term.len() - k,
        {
            out.push(term[k]);
            k += 1;
        }
        i += 1;
    }
    assert(texts_of(terms@).take(terms.len() as int) == texts_of(terms@));
    string_of(&out)
}

} // verus!
