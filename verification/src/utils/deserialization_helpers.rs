//! Values that are given as texts.

use crate::text;
use vstd::prelude::*;

verus! {

/// Splits a text at its first colon into a key and a value.
pub fn parse_kv_pair(s: &str) -> (r: Result<(String, String), String>)
    ensures
        match r {
            Ok((key, value)) => text::split_once_spec(s@, ':') == Some((key@, value@)),
            Err(e) => text::split_once_spec(s@, ':') is None && e@
                == "Invalid KEY:VALUE: no `:` found in `"@ + s@ + "`"@,
        },
{
    match text::split_once(s, ':') {
        Some((key, value)) => Ok((key.to_owned(), value.to_owned())),
        None => {
            let mut message = "Invalid KEY:VALUE: no `:` found in `".to_owned();
            message.append(s);
            message.append("`");
            Err(message)
        },
    }
}

/// A key without a colon and any value are read back from what they are written as.
pub proof fn law_pairs_are_read_back(key: Seq<char>, value: Seq<char>)
    requires
        !key.contains(':'),
    ensures
        text::split_once_spec(key + ":"@ + value, ':') == Some((key, value)),
{
    reveal_strlit(":");
    let s = key + ":"@ + value;
    assert(s[key.len() as int] == ':');
    assert forall|i: int| 0 <= i < key.len() implies s[i] != ':' by {
        assert(s[i] == key[i]);
    }
    assert(s.contains(':'));
    text::lemma_run_len(s, ':');
    assert(text::run_len(s, ':') == key.len());
    assert(s.take(key.len() as int) =~= key);
    assert(s.skip(key.len() as int + 1) =~= value);
}

} // verus!
