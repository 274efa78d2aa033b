//! What the query and headers of a request ask for.

use crate::text;
use vstd::prelude::*;

verus! {

/// Whether one pair of a query says that `key` is true.
pub open spec fn pair_is_true(pair: Seq<char>, key: Seq<char>) -> bool {
    match text::split_once_spec(pair, '=') {
        Some((k, v)) => k == key && (text::lowered(v) == "true"@ || v == "1"@),
        None => pair == key,
    }
}

/// Whether some pair of a query says that `key` is true.
pub open spec fn says_true(query: Seq<char>, key: Seq<char>) -> bool {
    exists|i: int|
        0 <= i < text::split_spec(query, '&').len() && pair_is_true(
            #[trigger] text::split_spec(query, '&')[i],
            key,
        )
}

pub fn query_param_is_true(query: &str, key: &str) -> (r: bool)
    ensures
        r == says_true(query@, key@),
{
    let pairs = text::split(query, '&');
    let mut i: usize = 0;
    proof {
        reveal_strlit("true");
        assert(text::lowered("true"@) == "true"@);
    }
    while i < pairs.len()
        invariant
            i <= pairs@.len(),
            text::lowered("true"@) == "true"@,
            text::texts(pairs@) == text::split_spec(query@, '&'),
            forall|j: int|
                0 <= j < i ==> !pair_is_true(#[trigger] text::split_spec(query@, '&')[j], key@),
        decreases pairs@.len() - i,
    {
        assert(text::texts(pairs@)[i as int] == pairs@[i as int]@);
        let pair = pairs[i].as_str();
        let found = match text::split_once(pair, '=') {
            Some((k, v)) => text::same_text(k, key) && (text::same_lowered(v, "true")
                || text::same_text(v, "1")),
            None => text::same_text(pair, key),
        };
        if found {
            assert(pair_is_true(text::split_spec(query@, '&')[i as int], key@));
            return true;
        }
        i += 1;
    }
    false
}

/// Whether a request takes binary payloads: its query decides where it holds a
/// value that reads as a truth value, and its header where it does not.
pub open spec fn supports_proto(query_value: Option<bool>, header: Option<Seq<char>>) -> bool {
    match query_value {
        Some(b) => b,
        None => header == Some("true"@),
    }
}

pub fn does_request_supports_proto(query_value: Option<bool>, header: &Option<String>) -> (r: bool)
    ensures
        r == supports_proto(query_value, text::text_option(*header)),
{
    match query_value {
        Some(b) => b,
        None => match header {
            Some(h) => text::same_text(h.as_str(), "true"),
            None => false,
        },
    }
}

/// Whether the query of a request asks for deltas.
pub open spec fn accepts_deltas(query: Option<Seq<char>>) -> bool {
    match query {
        Some(q) => says_true(q, "accept_deltas"@),
        None => false,
    }
}

pub fn does_request_accept_deltas(query: &Option<String>) -> (r: bool)
    ensures
        r == accepts_deltas(text::text_option(*query)),
{
    match query {
        Some(q) => query_param_is_true(q.as_str(), "accept_deltas"),
        None => false,
    }
}

/// A parameter is true where it is named alone, or with the word for it or a one.
/// Another parameter does not count.
pub proof fn law_parameters_are_true_by_their_value(
    key: Seq<char>,
    other: Seq<char>,
    value: Seq<char>,
)
    requires
        !key.contains('=') && !other.contains('='),
    ensures
        pair_is_true(key, key),
        pair_is_true(key + seq!['='] + value, key) <==> text::lowered(value) == "true"@ || value
            == "1"@,
        other != key ==> !pair_is_true(other + seq!['='] + value, key),
        other != key ==> !pair_is_true(other, key),
{
    text::law_texts_are_cut_at_the_first(key, value, '=');
    text::law_texts_are_cut_at_the_first(other, value, '=');
}

/// A parameter is true in a query where it is in any of its parts.
pub proof fn law_parameters_are_found_anywhere(part: Seq<char>, rest: Seq<char>, key: Seq<char>)
    requires
        !part.contains('&'),
    ensures
        says_true(part, key) <==> pair_is_true(part, key),
        says_true(part + seq!['&'] + rest, key) <==> pair_is_true(part, key) || says_true(rest, key),
{
    text::law_texts_are_split_part_by_part(part, rest, '&');
    let whole = text::split_spec(part + seq!['&'] + rest, '&');
    let parts = text::split_spec(rest, '&');
    assert(text::split_spec(part, '&')[0] == part);
    assert(whole[0] == part);
    assert(forall|i: int| 0 <= i < parts.len() ==> whole[i + 1] == parts[i]);
    if says_true(part + seq!['&'] + rest, key) {
        let i = choose|i: int| 0 <= i < whole.len() && pair_is_true(#[trigger] whole[i], key);
        if i > 0 {
            assert(pair_is_true(parts[i - 1], key));
        }
    }
    if says_true(rest, key) {
        let i = choose|i: int| 0 <= i < parts.len() && pair_is_true(#[trigger] parts[i], key);
        assert(pair_is_true(whole[i + 1], key));
    }
    if pair_is_true(part, key) {
        assert(pair_is_true(whole[0], key));
        assert(pair_is_true(text::split_spec(part, '&')[0], key));
    }
}

/// Protobuf is sent where the query asks for it, and by the header only where the query
/// says nothing. Deltas are sent only to a query that asks for them.
pub proof fn law_queries_come_before_headers(
    asked: bool,
    header: Option<Seq<char>>,
    query: Seq<char>,
)
    ensures
        supports_proto(Some(asked), header) == asked,
        supports_proto(None, header) <==> header == Some("true"@),
        !accepts_deltas(None),
        accepts_deltas(Some(query)) == says_true(query, "accept_deltas"@),
{
}

} // verus!
