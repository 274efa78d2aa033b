//! What a client of the proxy prints.

use crate::text;
use vstd::prelude::*;

verus! {

/// Whether the last `n` bytes of a text are a number of whole characters.
pub open spec fn ends_at(s: Seq<char>, n: int) -> bool {
    exists|k: int| 0 <= k <= s.len() && text::byte_len(#[trigger] s.skip(k)) == n
}

/// The last 500 bytes of a text, or all of it where it is shorter.
pub open spec fn tail_of(s: Seq<char>) -> Seq<char> {
    if text::byte_len(s) <= 500 {
        s
    } else {
        s.skip(choose|k: int| 0 <= k <= s.len() && text::byte_len(#[trigger] s.skip(k)) == 500)
    }
}

/// One character more in front takes as many bytes more as it has.
proof fn lemma_byte_len_first(s: Seq<char>)
    requires
        s.len() > 0,
    ensures
        text::byte_len(s) == text::utf8_len(s[0]) + text::byte_len(s.drop_first()),
    decreases s.len(),
{
    if s.len() > 1 {
        lemma_byte_len_first(s.drop_last());
        assert(s.drop_last().drop_first() =~= s.drop_first().drop_last());
        assert(s.drop_first().last() == s.last());
    } else {
        assert(s.drop_last() =~= Seq::<char>::empty());
        assert(s.drop_first() =~= Seq::<char>::empty());
    }
}

/// A longer end takes more bytes.
proof fn lemma_ends_grow(s: Seq<char>, i: int, j: int)
    requires
        0 <= i <= j <= s.len(),
    ensures
        text::byte_len(s.skip(i)) >= text::byte_len(s.skip(j)) + (j - i),
    decreases j - i,
{
    if i < j {
        lemma_ends_grow(s, i + 1, j);
        lemma_byte_len_first(s.skip(i));
        assert(s.skip(i).drop_first() =~= s.skip(i + 1));
    }
}

/// The end of a long text, for a console.
pub fn last_500_char(spec_text: &str) -> (r: String)
    requires
        text::byte_len(spec_text@) > 500 ==> ends_at(spec_text@, 500),
    ensures
        r@ == tail_of(spec_text@),
{
    let chars = text::to_chars(spec_text);
    let ghost s = spec_text@;
    let ghost end: int = if text::byte_len(s) > 500 {
        choose|k: int| 0 <= k <= s.len() && text::byte_len(#[trigger] s.skip(k)) == 500
    } else {
        0
    };
    let mut i: usize = chars.len();
    let mut bytes: usize = 0;
    assert(s.skip(i as int) =~= Seq::<char>::empty());
    assert(s.skip(0) =~= s);
    while i > 0 && bytes < 500
        invariant
            i <= chars@.len(),
            chars@ == s,
            bytes == text::byte_len(s.skip(i as int)),
            bytes <= 503,
            0 <= end <= s.len(),
            end <= i,
            text::byte_len(s) > 500 ==> text::byte_len(s.skip(end)) == 500,
            text::byte_len(s) <= 500 ==> end == 0,
        decreases i,
    {
        let c = chars[i - 1];
        let w: usize = if c <= '\u{7f}' {
            1
        } else if c <= '\u{7ff}' {
            2
        } else if c <= '\u{ffff}' {
            3
        } else {
            4
        };
        proof {
            lemma_byte_len_first(s.skip(i - 1));
            assert(s.skip(i - 1).drop_first() =~= s.skip(i as int));
            if text::byte_len(s) > 500 && end == i {
                assert(false);
            }
        }
        bytes += w;
        i -= 1;
    }
    proof {
        if text::byte_len(s) > 500 {
            lemma_ends_grow(s, end, i as int);
            if i == 0 {
                assert(end == 0);
            }
            assert(i == end);
        } else if i > 0 {
            lemma_ends_grow(s, 0, i as int);
            assert(s.skip(0) =~= s);
        }
    }
    text::from_chars(&chars, i, chars.len())
}

/// What is shown of a text is its end: all of it where it takes up to five hundred bytes,
/// and else so many.
pub proof fn law_the_end_is_shown(s: Seq<char>)
    requires
        text::byte_len(s) > 500 ==> ends_at(s, 500),
    ensures
        text::has_suffix(s, tail_of(s)),
        text::byte_len(s) <= 500 ==> tail_of(s) == s,
        text::byte_len(s) > 500 ==> text::byte_len(tail_of(s)) == 500,
{
    if text::byte_len(s) <= 500 {
        assert(s.skip(0) =~= s);
    } else {
        let k = choose|k: int| 0 <= k <= s.len() && text::byte_len(#[trigger] s.skip(k)) == 500;
        assert(s.len() - s.skip(k).len() == k);
    }
}

} // verus!
