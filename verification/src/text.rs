//! Text as sequences of characters: the trimming, splitting, matching and
//! number formatting that the rest of the library is stated with.

use vstd::prelude::*;

verus! {

/// `String::push` appends one character.
pub assume_specification[ String::push ](s: &mut String, c: char)
    ensures
        final(s)@ == old(s)@.push(c),
;

/// The characters with the Unicode property `White_Space`.
pub open spec fn is_space(c: char) -> bool {
    ||| '\u{9}' <= c <= '\u{d}'
    ||| c == '\u{20}'
    ||| c == '\u{85}'
    ||| c == '\u{a0}'
    ||| c == '\u{1680}'
    ||| '\u{2000}' <= c <= '\u{200a}'
    ||| c == '\u{2028}'
    ||| c == '\u{2029}'
    ||| c == '\u{202f}'
    ||| c == '\u{205f}'
    ||| c == '\u{3000}'
}

pub fn char_is_space(c: char) -> (b: bool)
    ensures
        b == is_space(c),
{
    let n: u32 = c as u32;
    (9 <= n && n <= 13) || n == 0x20 || n == 0x85 || n == 0xa0 || n == 0x1680 || (0x2000 <= n && n
        <= 0x200a) || n == 0x2028 || n == 0x2029 || n == 0x202f || n == 0x205f || n == 0x3000
}

/// `s` without the white space it starts with.
pub open spec fn trim_start(s: Seq<char>) -> Seq<char>
    decreases s.len(),
{
    if s.len() > 0 && is_space(s[0]) {
        trim_start(s.drop_first())
    } else {
        s
    }
}

/// `s` without the white space it ends with.
pub open spec fn trim_end(s: Seq<char>) -> Seq<char>
    decreases s.len(),
{
    if s.len() > 0 && is_space(s.last()) {
        trim_end(s.drop_last())
    } else {
        s
    }
}

/// `s` without the white space around it.
pub open spec fn trimmed(s: Seq<char>) -> Seq<char> {
    trim_end(trim_start(s))
}

/// The characters of a string.
pub fn to_chars(s: &str) -> (r: Vec<char>)
    ensures
        r@ == s@,
{
    let mut r: Vec<char> = Vec::new();
    for c in it: s.chars()
        invariant
            it.seq() == s@,
            r@ == s@.take(it.index() as int),
    {
        r.push(c);
    }
    r
}

/// The string made of the characters `from` up to `to`.
pub fn from_chars(chars: &Vec<char>, from: usize, to: usize) -> (r: String)
    requires
        from <= to <= chars@.len(),
    ensures
        r@ == chars@.subrange(from as int, to as int),
{
    let mut r = String::new();
    let mut i: usize = from;
    while i < to
        invariant
            from <= i <= to <= chars@.len(),
            r@ == chars@.subrange(from as int, i as int),
        decreases to - i,
    {
        r.push(chars[i]);
        i += 1;
    }
    r
}

/// Removes the white space around a text.
pub fn trim(s: &str) -> (r: &str)
    ensures
        r@ == trimmed(s@),
{
    let chars = to_chars(s);
    let mut i: usize = 0;
    assert(s@.skip(0) == s@);
    while i < chars.len() && char_is_space(chars[i])
        invariant
            i <= chars@.len(),
            chars@ == s@,
            trim_start(s@) == trim_start(s@.skip(i as int)),
        decreases chars@.len() - i,
    {
        assert(s@.skip(i as int).drop_first() == s@.skip(i + 1));
        i += 1;
    }
    let mut j: usize = chars.len();
    assert(s@.subrange(i as int, j as int) == s@.skip(i as int));
    while j > i && char_is_space(chars[j - 1])
        invariant
            i <= j <= chars@.len(),
            chars@ == s@,
            trim_end(s@.skip(i as int)) == trim_end(s@.subrange(i as int, j as int)),
        decreases j,
    {
        assert(s@.subrange(i as int, j as int).drop_last() == s@.subrange(i as int, j - 1));
        j -= 1;
    }
    s.substring_char(i, j)
}

/// Whether two texts are the same.
pub fn same_text(a: &str, b: &str) -> (r: bool)
    ensures
        r == (a@ == b@),
{
    a.to_owned() == b.to_owned()
}

/// The view of an optional text.
pub open spec fn text_option(o: Option<String>) -> Option<Seq<char>> {
    match o {
        Some(s) => Some(s@),
        None => None,
    }
}

/// Whether two optional texts are the same.
pub fn same_text_option(a: &Option<String>, b: &Option<String>) -> (r: bool)
    ensures
        r == (text_option(*a) == text_option(*b)),
{
    match (a, b) {
        (Some(x), Some(y)) => *x == *y,
        (None, None) => true,
        _ => false,
    }
}

/// `A` to `Z` become `a` to `z`; every other character stays.
pub open spec fn lower(c: char) -> char {
    if 'A' <= c <= 'Z' {
        (c as u32 + 32) as char
    } else {
        c
    }
}

/// `s` with its ASCII letters in lower case.
pub open spec fn lowered(s: Seq<char>) -> Seq<char> {
    Seq::new(s.len(), |i: int| lower(s[i]))
}

pub fn lower_char(c: char) -> (r: char)
    ensures
        r == lower(c),
{
    if 'A' <= c && c <= 'Z' {
        let n: u8 = c as u8;
        (n + 32) as char
    } else {
        c
    }
}

/// The text with its ASCII letters in lower case.
pub fn to_lowered(s: &str) -> (r: String)
    ensures
        r@ == lowered(s@),
{
    let mut r = String::new();
    for c in it: s.chars()
        invariant
            it.seq() == s@,
            r@ == lowered(s@.take(it.index() as int)),
    {
        r.push(lower_char(c));
        assert(lowered(s@.take(it.index() + 1)) == lowered(s@.take(it.index() as int)).push(
            lower(c),
        ));
    }
    assert(s@.take(s@.len() as int) == s@);
    r
}

/// Whether two texts differ at most in the case of their ASCII letters.
pub fn same_lowered(a: &str, b: &str) -> (r: bool)
    ensures
        r == (lowered(a@) == lowered(b@)),
{
    to_lowered(a) == to_lowered(b)
}

/// Whether `s` starts with `p`.
pub open spec fn has_prefix(s: Seq<char>, p: Seq<char>) -> bool {
    p.len() <= s.len() && s.take(p.len() as int) == p
}

/// The text behind a prefix, where the text starts with it.
pub open spec fn after_prefix(s: Seq<char>, p: Seq<char>) -> Option<Seq<char>> {
    if has_prefix(s, p) {
        Some(s.skip(p.len() as int))
    } else {
        None
    }
}

pub fn starts_with(s: &str, p: &str) -> (r: bool)
    ensures
        r == has_prefix(s@, p@),
{
    let n = p.unicode_len();
    if n > s.unicode_len() {
        return false;
    }
    assert(s@.subrange(0, n as int) == s@.take(n as int));
    same_text(s.substring_char(0, n), p)
}

pub fn strip_prefix<'a>(s: &'a str, p: &str) -> (r: Option<&'a str>)
    ensures
        match r {
            Some(t) => after_prefix(s@, p@) == Some(t@),
            None => after_prefix(s@, p@) is None,
        },
{
    if starts_with(s, p) {
        let n = p.unicode_len();
        let m = s.unicode_len();
        assert(s@.subrange(n as int, m as int) == s@.skip(n as int));
        Some(s.substring_char(n, m))
    } else {
        None
    }
}

/// Whether `s` ends with `p`.
pub open spec fn has_suffix(s: Seq<char>, p: Seq<char>) -> bool {
    p.len() <= s.len() && s.skip(s.len() - p.len()) == p
}

pub fn ends_with(s: &str, p: &str) -> (r: bool)
    ensures
        r == has_suffix(s@, p@),
{
    let n = p.unicode_len();
    let m = s.unicode_len();
    if n > m {
        return false;
    }
    assert(s@.subrange(m - n, m as int) == s@.skip(m - n));
    same_text(s.substring_char(m - n, m), p)
}

/// The text before a suffix, where the text ends with it.
pub open spec fn before_suffix(s: Seq<char>, p: Seq<char>) -> Option<Seq<char>> {
    if has_suffix(s, p) {
        Some(s.take(s.len() - p.len()))
    } else {
        None
    }
}

pub fn strip_suffix<'a>(s: &'a str, p: &str) -> (r: Option<&'a str>)
    ensures
        match r {
            Some(t) => before_suffix(s@, p@) == Some(t@),
            None => before_suffix(s@, p@) is None,
        },
{
    if ends_with(s, p) {
        let n = p.unicode_len();
        let m = s.unicode_len();
        assert(s@.subrange(0, m - n) == s@.take(m - n));
        Some(s.substring_char(0, m - n))
    } else {
        None
    }
}

/// What stands behind the last `c`.
pub open spec fn after_last(s: Seq<char>, c: char) -> Option<Seq<char>>
    decreases s.len(),
{
    if s.len() == 0 {
        None
    } else if s.last() == c {
        Some(Seq::empty())
    } else {
        match after_last(s.drop_last(), c) {
            Some(t) => Some(t.push(s.last())),
            None => None,
        }
    }
}

pub fn behind_last<'a>(s: &'a str, c: char) -> (r: Option<&'a str>)
    ensures
        match r {
            Some(t) => after_last(s@, c) == Some(t@),
            None => after_last(s@, c) is None,
        },
{
    let chars = to_chars(s);
    let n: usize = chars.len();
    let mut j: usize = n;
    assert(s@.take(n as int) == s@);
    assert(s@.skip(n as int) == Seq::<char>::empty());
    while j > 0 && chars[j - 1] != c
        invariant
            j <= n == chars@.len(),
            chars@ == s@,
            after_last(s@, c) == (match after_last(s@.take(j as int), c) {
                Some(t) => Some(t + s@.skip(j as int)),
                None => None,
            }),
        decreases j,
    {
        proof {
            let t = s@.take(j as int);
            assert(t.drop_last() == s@.take(j - 1));
            match after_last(s@.take(j - 1), c) {
                Some(u) => {
                    assert(u.push(t.last()) + s@.skip(j as int) == u + s@.skip(j - 1));
                },
                None => {},
            }
        }
        j -= 1;
    }
    if j == 0 {
        None
    } else {
        assert(s@.take(j as int).last() == c);
        assert(Seq::<char>::empty() + s@.skip(j as int) == s@.subrange(j as int, n as int));
        Some(s.substring_char(j, n))
    }
}

/// `s` without the characters `c` that it ends with.
pub open spec fn trim_end_char(s: Seq<char>, c: char) -> Seq<char>
    decreases s.len(),
{
    if s.len() > 0 && s.last() == c {
        trim_end_char(s.drop_last(), c)
    } else {
        s
    }
}

pub fn trim_end_matches(s: &str, c: char) -> (r: &str)
    ensures
        r@ == trim_end_char(s@, c),
{
    let chars = to_chars(s);
    let mut j: usize = chars.len();
    assert(s@.subrange(0, j as int) == s@);
    while j > 0 && chars[j - 1] == c
        invariant
            j <= chars@.len(),
            chars@ == s@,
            trim_end_char(s@, c) == trim_end_char(s@.subrange(0, j as int), c),
        decreases j,
    {
        assert(s@.subrange(0, j as int).drop_last() == s@.subrange(0, j - 1));
        j -= 1;
    }
    s.substring_char(0, j)
}

/// `s` without the characters `c` that it starts with.
pub open spec fn trim_start_char(s: Seq<char>, c: char) -> Seq<char>
    decreases s.len(),
{
    if s.len() > 0 && s[0] == c {
        trim_start_char(s.drop_first(), c)
    } else {
        s
    }
}

pub fn trim_start_matches(s: &str, c: char) -> (r: &str)
    ensures
        r@ == trim_start_char(s@, c),
{
    let chars = to_chars(s);
    let mut i: usize = 0;
    assert(s@.skip(0) == s@);
    while i < chars.len() && chars[i] == c
        invariant
            i <= chars@.len(),
            chars@ == s@,
            trim_start_char(s@, c) == trim_start_char(s@.skip(i as int), c),
        decreases chars@.len() - i,
    {
        assert(s@.skip(i as int).drop_first() == s@.skip(i + 1));
        i += 1;
    }
    assert(s@.subrange(i as int, chars@.len() as int) == s@.skip(i as int));
    s.substring_char(i, chars.len())
}

/// How many characters stand before the first `c`: all of them where there is
/// none.
pub open spec fn run_len(s: Seq<char>, c: char) -> int
    decreases s.len(),
{
    if s.len() == 0 || s[0] == c {
        0
    } else {
        1 + run_len(s.drop_first(), c)
    }
}

/// The run before the first `c` holds no `c`, and it ends at one or at the end.
pub proof fn lemma_run_len(s: Seq<char>, c: char)
    ensures
        0 <= run_len(s, c) <= s.len(),
        forall|i: int| 0 <= i < run_len(s, c) ==> s[i] != c,
        run_len(s, c) < s.len() ==> s[run_len(s, c)] == c,
        run_len(s, c) < s.len() <==> s.contains(c),
    decreases s.len(),
{
    if s.len() > 0 && s[0] != c {
        let t = s.drop_first();
        lemma_run_len(t, c);
        assert forall|i: int| 0 <= i < run_len(s, c) implies s[i] != c by {
            if i > 0 {
                assert(s[i] == t[i - 1]);
            }
        }
        if s.contains(c) {
            let k = choose|k: int| 0 <= k < s.len() && s[k] == c;
            assert(t[k - 1] == c);
        }
    } else if s.len() > 0 {
        assert(s[0] == c);
    }
}

/// The place of the first `c` at or behind `from`.
pub fn find_char(chars: &Vec<char>, c: char, from: usize) -> (r: usize)
    requires
        from <= chars@.len(),
    ensures
        from <= r <= chars@.len(),
        r == from + run_len(chars@.skip(from as int), c),
{
    let mut i: usize = from;
    proof {
        lemma_run_len(chars@.skip(from as int), c);
    }
    while i < chars.len() && chars[i] != c
        invariant
            from <= i <= chars@.len(),
            run_len(chars@.skip(from as int), c) == i - from + run_len(chars@.skip(i as int), c),
        decreases chars@.len() - i,
    {
        assert(chars@.skip(i as int).drop_first() == chars@.skip(i + 1));
        i += 1;
    }
    i
}

/// Whether the text holds the character.
pub fn contains_char(s: &str, c: char) -> (r: bool)
    ensures
        r == s@.contains(c),
{
    let chars = to_chars(s);
    let i = find_char(&chars, c, 0);
    proof {
        assert(s@.skip(0) == s@);
        lemma_run_len(s@, c);
    }
    i < chars.len()
}

/// What stands before and behind the first `c`.
pub open spec fn split_once_spec(s: Seq<char>, c: char) -> Option<(Seq<char>, Seq<char>)> {
    if s.contains(c) {
        Some((s.take(run_len(s, c)), s.skip(run_len(s, c) + 1)))
    } else {
        None
    }
}

pub fn split_once<'a>(s: &'a str, c: char) -> (r: Option<(&'a str, &'a str)>)
    ensures
        match r {
            Some((a, b)) => split_once_spec(s@, c) == Some((a@, b@)),
            None => split_once_spec(s@, c) is None,
        },
{
    let chars = to_chars(s);
    let i = find_char(&chars, c, 0);
    proof {
        assert(s@.skip(0) == s@);
        lemma_run_len(s@, c);
    }
    let n: usize = chars.len();
    if i < n {
        assert(s@.subrange(0, i as int) == s@.take(i as int));
        assert(s@.subrange(i + 1, n as int) == s@.skip(i + 1));
        Some((s.substring_char(0, i), s.substring_char(i + 1, n)))
    } else {
        None
    }
}

/// The parts of `s` between its separators `c`: one more than it has of them.
pub open spec fn split_spec(s: Seq<char>, c: char) -> Seq<Seq<char>>
    decreases s.len(),
{
    if s.contains(c) {
        let i = run_len(s, c);
        if 0 <= i < s.len() {
            seq![s.take(i)] + split_spec(s.skip(i + 1), c)
        } else {
            seq![s]
        }
    } else {
        seq![s]
    }
}

/// The views of a list of texts.
pub open spec fn texts(v: Seq<String>) -> Seq<Seq<char>> {
    Seq::new(v.len(), |i: int| v[i]@)
}

/// Splits a text at each `c`.
pub fn split(s: &str, c: char) -> (r: Vec<String>)
    ensures
        texts(r@) == split_spec(s@, c),
{
    let chars = to_chars(s);
    let mut r: Vec<String> = Vec::new();
    let mut i: usize = 0;
    assert(s@.skip(0) == s@);
    assert(texts(r@) + split_spec(s@, c) == split_spec(s@, c));
    loop
        invariant
            i <= chars@.len(),
            chars@ == s@,
            texts(r@) + split_spec(s@.skip(i as int), c) == split_spec(s@, c),
        decreases chars@.len() - i,
    {
        let j = find_char(&chars, c, i);
        let part = from_chars(&chars, i, j);
        let ghost rest = s@.skip(i as int);
        let ghost before = texts(r@);
        proof {
            lemma_run_len(rest, c);
            assert(part@ == rest.take(j - i));
        }
        r.push(part);
        assert(texts(r@) == before.push(part@));
        if j < chars.len() {
            assert(rest.skip(j - i + 1) == s@.skip(j + 1));
            assert(split_spec(rest, c) == seq![rest.take(j - i)] + split_spec(s@.skip(j + 1), c));
            assert(before.push(part@) + split_spec(s@.skip(j + 1), c) == before + (seq![part@]
                + split_spec(s@.skip(j + 1), c)));
            i = j + 1;
        } else {
            assert(rest.take(j - i) == rest);
            assert(before.push(part@) == before + seq![part@]);
            return r;
        }
    }
}

/// The views of some pairs of texts.
pub open spec fn pair_texts(v: Seq<(String, String)>) -> Seq<(Seq<char>, Seq<char>)> {
    Seq::new(v.len(), |i: int| (v[i].0@, v[i].1@))
}

/// The value of the first pair with a name.
pub open spec fn first_value(pairs: Seq<(Seq<char>, Seq<char>)>, name: Seq<char>) -> Option<
    Seq<char>,
>
    decreases pairs.len(),
{
    if pairs.len() == 0 {
        None
    } else if pairs[0].0 == name {
        Some(pairs[0].1)
    } else {
        first_value(pairs.drop_first(), name)
    }
}

/// Finds the value of the first pair with a name.
pub fn find_value<'a>(pairs: &'a Vec<(String, String)>, name: &str) -> (r: Option<&'a str>)
    ensures
        (match r {
            Some(t) => Some(t@),
            None => None,
        }) == first_value(pair_texts(pairs@), name@),
{
    let ghost all = pair_texts(pairs@);
    let mut i: usize = 0;
    assert(all.skip(0) =~= all);
    while i < pairs.len()
        invariant
            i <= pairs@.len(),
            all == pair_texts(pairs@),
            first_value(all, name@) == first_value(all.skip(i as int), name@),
        decreases pairs@.len() - i,
    {
        assert(all.skip(i as int)[0] == (pairs@[i as int].0@, pairs@[i as int].1@));
        if same_text(pairs[i].0.as_str(), name) {
            return Some(pairs[i].1.as_str());
        }
        assert(all.skip(i as int).drop_first() =~= all.skip(i + 1));
        i += 1;
    }
    None
}

/// The parts one behind the other, with `sep` between them.
pub open spec fn join_spec(parts: Seq<Seq<char>>, sep: Seq<char>) -> Seq<char>
    decreases parts.len(),
{
    if parts.len() == 0 {
        Seq::empty()
    } else if parts.len() == 1 {
        parts[0]
    } else {
        join_spec(parts.drop_last(), sep) + sep + parts.last()
    }
}

/// Joins texts with a separator.
pub fn join(parts: &Vec<String>, sep: &str) -> (r: String)
    ensures
        r@ == join_spec(texts(parts@), sep@),
{
    let mut r = String::new();
    let mut i: usize = 0;
    while i < parts.len()
        invariant
            i <= parts@.len(),
            r@ == join_spec(texts(parts@.take(i as int)), sep@),
        decreases parts@.len() - i,
    {
        if i > 0 {
            r.append(sep);
        }
        r.append(parts[i].as_str());
        proof {
            let now = texts(parts@.take(i + 1));
            assert(now.drop_last() == texts(parts@.take(i as int)));
            assert(now.last() == parts@[i as int]@);
        }
        i += 1;
    }
    assert(parts@.take(parts@.len() as int) == parts@);
    r
}

/// Whether a character is one of `0` to `9`.
pub open spec fn is_digit(c: char) -> bool {
    '0' <= c <= '9'
}

/// Whether the text is made of digits alone.
pub open spec fn all_digits(s: Seq<char>) -> bool {
    forall|i: int| 0 <= i < s.len() ==> is_digit(#[trigger] s[i])
}

/// The number that the digits write in base ten.
pub open spec fn digits_value(s: Seq<char>) -> int
    decreases s.len(),
{
    if s.len() == 0 {
        0
    } else {
        10 * digits_value(s.drop_last()) + (s.last() as int - '0' as int)
    }
}

/// The number that a text writes: digits, with one `+` before them at most, and
/// no more than `max`.
pub open spec fn parse_unsigned(s: Seq<char>, max: int) -> Option<int> {
    let d = if s.len() > 0 && s[0] == '+' {
        s.skip(1)
    } else {
        s
    };
    if d.len() > 0 && all_digits(d) && digits_value(d) <= max {
        Some(digits_value(d))
    } else {
        None
    }
}

/// A longer run of digits writes a number that is at least as large.
pub proof fn lemma_digits_grow(s: Seq<char>, n: int)
    requires
        0 <= n <= s.len(),
        all_digits(s),
    ensures
        0 <= digits_value(s.take(n)) <= digits_value(s),
    decreases s.len(),
{
    if n == s.len() {
        assert(s.take(n) == s);
        lemma_digits_nonnegative(s);
    } else {
        let t = s.drop_last();
        assert(t.take(n) == s.take(n));
        lemma_digits_grow(t, n);
        assert(is_digit(s.last()));
    }
}

pub proof fn lemma_digits_nonnegative(s: Seq<char>)
    requires
        all_digits(s),
    ensures
        0 <= digits_value(s),
    decreases s.len(),
{
    if s.len() > 0 {
        lemma_digits_nonnegative(s.drop_last());
        assert(is_digit(s.last()));
    }
}

/// Reads a number of at most `max`: digits, with one `+` before them at most.
pub fn parse_wide(s: &str, max: u128) -> (r: Option<u128>)
    requires
        max <= 1_000_000_000_000_000_000_000_000_000_000,
    ensures
        match r {
            Some(n) => parse_unsigned(s@, max as int) == Some(n as int),
            None => parse_unsigned(s@, max as int) is None,
        },
{
    let chars = to_chars(s);
    let start: usize = if chars.len() > 0 && chars[0] == '+' {
        1
    } else {
        0
    };
    let ghost d = s@.skip(start as int);
    assert(s@.skip(0) == s@);
    if start == chars.len() {
        return None;
    }
    let mut acc: u128 = 0;
    let mut i: usize = start;
    while i < chars.len()
        invariant
            start <= i <= chars@.len(),
            start < chars@.len(),
            chars@ == s@,
            d == s@.skip(start as int),
            d == (if s@.len() > 0 && s@[0] == '+' {
                s@.skip(1)
            } else {
                s@
            }),
            all_digits(d.take(i - start)),
            acc == digits_value(d.take(i - start)),
            acc <= max <= 1_000_000_000_000_000_000_000_000_000_000,
        decreases chars@.len() - i,
    {
        let c = chars[i];
        assert(d[i - start] == c);
        if !('0' <= c && c <= '9') {
            assert(!is_digit(d[i - start]));
            return None;
        }
        let v: u128 = c as u128 - '0' as u128;
        let ghost next = d.take(i - start + 1);
        proof {
            assert(next.drop_last() == d.take(i - start));
            assert(next.last() == c);
        }
        let wide: u128 = acc * 10 + v;
        if wide > max {
            proof {
                if all_digits(d) {
                    lemma_digits_grow(d, i - start + 1);
                }
            }
            return None;
        }
        acc = wide;
        i += 1;
        assert forall|k: int| 0 <= k < next.len() implies is_digit(#[trigger] next[k]) by {
            if k < next.len() - 1 {
                assert(next[k] == d.take(i - start - 1)[k]);
            }
        }
    }
    assert(d.take(d.len() as int) == d);
    Some(acc)
}

/// Reads a number the way `str::parse` does for unsigned integers whose
/// greatest value is `max`.
pub fn parse_up_to(s: &str, max: u64) -> (r: Option<u64>)
    ensures
        match r {
            Some(n) => parse_unsigned(s@, max as int) == Some(n as int),
            None => parse_unsigned(s@, max as int) is None,
        },
{
    match parse_wide(s, max as u128) {
        Some(n) => Some(n as u64),
        None => None,
    }
}

pub fn parse_u64(s: &str) -> (r: Option<u64>)
    ensures
        match r {
            Some(n) => parse_unsigned(s@, u64::MAX as int) == Some(n as int),
            None => parse_unsigned(s@, u64::MAX as int) is None,
        },
{
    parse_up_to(s, u64::MAX)
}

/// The digits of a number in base ten.
pub open spec fn decimal(n: nat) -> Seq<char>
    decreases n,
{
    if n < 10 {
        seq![('0' as int + n) as char]
    } else {
        decimal(n / 10).push(('0' as int + n % 10) as char)
    }
}

/// Appends the digits of a number.
pub fn push_decimal(out: &mut String, n: u64)
    ensures
        final(out)@ == old(out)@ + decimal(n as nat),
    decreases n,
{
    if n >= 10 {
        push_decimal(out, n / 10);
    }
    let d: u8 = (n % 10) as u8;
    out.push((48 + d) as char);
}

/// The digits of a number as a text.
pub fn decimal_string(n: u64) -> (r: String)
    ensures
        r@ == decimal(n as nat),
{
    let mut r = String::new();
    push_decimal(&mut r, n);
    r
}

/// The digits of a number in base ten, with a minus sign where it is negative.
pub open spec fn signed_decimal(n: int) -> Seq<char> {
    if n < 0 {
        "-"@ + decimal((-n) as nat)
    } else {
        decimal(n as nat)
    }
}

pub fn push_signed_decimal(out: &mut String, n: i64)
    ensures
        final(out)@ == old(out)@ + signed_decimal(n as int),
{
    if n < 0 {
        out.append("-");
        let ghost before = out@;
        let size: u64 = if n == i64::MIN {
            9223372036854775808
        } else {
            (-n) as u64
        };
        push_decimal(out, size);
        assert(out@ =~= old(out)@ + signed_decimal(n as int));
    } else {
        push_decimal(out, n as u64);
    }
}

/// Reading back the digits of a number gives the number.
pub proof fn lemma_decimal_round_trip(n: nat)
    ensures
        decimal(n).len() > 0,
        all_digits(decimal(n)),
        digits_value(decimal(n)) == n,
    decreases n,
{
    if n < 10 {
        reveal_with_fuel(digits_value, 2);
        assert(decimal(n).drop_last() == Seq::<char>::empty());
    } else {
        lemma_decimal_round_trip(n / 10);
        let s = decimal(n);
        assert(s.drop_last() == decimal(n / 10));
        assert forall|k: int| 0 <= k < s.len() implies is_digit(#[trigger] s[k]) by {
            if k < s.len() - 1 {
                assert(s[k] == decimal(n / 10)[k]);
            }
        }
    }
}

/// How many bytes a character takes in UTF-8.
pub open spec fn utf8_len(c: char) -> int {
    if c <= '\u{7f}' {
        1
    } else if c <= '\u{7ff}' {
        2
    } else if c <= '\u{ffff}' {
        3
    } else {
        4
    }
}

/// How many bytes a text takes in UTF-8.
pub open spec fn byte_len(s: Seq<char>) -> int
    decreases s.len(),
{
    if s.len() == 0 {
        0
    } else {
        byte_len(s.drop_last()) + utf8_len(s.last())
    }
}

/// Whether `n` bytes of the text are a number of whole characters.
pub open spec fn is_boundary(s: Seq<char>, n: int) -> bool {
    exists|k: int| 0 <= k <= s.len() && byte_len(#[trigger] s.take(k)) == n
}

/// The characters in the first `n` bytes of the text.
pub open spec fn byte_prefix(s: Seq<char>, n: int) -> Seq<char> {
    s.take(choose|k: int| 0 <= k <= s.len() && byte_len(#[trigger] s.take(k)) == n)
}

/// A longer text takes more bytes.
pub proof fn lemma_byte_len_grows(s: Seq<char>, i: int, j: int)
    requires
        0 <= i <= j <= s.len(),
    ensures
        byte_len(s.take(j)) >= byte_len(s.take(i)) + (j - i),
    decreases j - i,
{
    if i < j {
        lemma_byte_len_grows(s, i, j - 1);
        assert(s.take(j).drop_last() == s.take(j - 1));
    }
}

/// There is one prefix of so many bytes at most.
pub proof fn lemma_byte_prefix(s: Seq<char>, k: int, n: int)
    requires
        0 <= k <= s.len(),
        byte_len(s.take(k)) == n,
    ensures
        is_boundary(s, n),
        byte_prefix(s, n) == s.take(k),
{
    let c = choose|c: int| 0 <= c <= s.len() && byte_len(#[trigger] s.take(c)) == n;
    if c < k {
        lemma_byte_len_grows(s, c, k);
    } else {
        lemma_byte_len_grows(s, k, c);
    }
}

/// Where the first `n` bytes of the text end: how many characters they are, and
/// whether the text is longer.
pub fn cut_bytes(s: &str, n: usize) -> (r: Option<usize>)
    requires
        byte_len(s@) > n ==> is_boundary(s@, n as int),
    ensures
        match r {
            Some(k) => byte_len(s@) > n && k <= s@.len() && byte_prefix(s@, n as int) == s@.take(
                k as int,
            ),
            None => byte_len(s@) <= n,
        },
{
    let chars = to_chars(s);
    let mut i: usize = 0;
    let mut bytes: usize = 0;
    let ghost end: int = if byte_len(s@) > n {
        choose|k: int| 0 <= k <= s@.len() && byte_len(#[trigger] s@.take(k)) == n
    } else {
        s@.len() as int
    };
    proof {
        assert(s@.take(0) == Seq::<char>::empty());
        assert(s@.take(s@.len() as int) == s@);
    }
    while i < chars.len() && bytes < n
        invariant
            i <= chars@.len(),
            chars@ == s@,
            bytes == byte_len(s@.take(i as int)),
            bytes <= n,
            0 <= end <= s@.len(),
            byte_len(s@.take(s@.len() as int)) == byte_len(s@),
            byte_len(s@.take(end)) <= n,
            byte_len(s@) > n ==> byte_len(s@.take(end)) == n,
            byte_len(s@) <= n ==> end == s@.len(),
            i <= end,
        decreases chars@.len() - i,
    {
        let c = chars[i];
        let w: usize = if c <= '\u{7f}' {
            1
        } else if c <= '\u{7ff}' {
            2
        } else if c <= '\u{ffff}' {
            3
        } else {
            4
        };
        proof {
            assert(s@.take(i + 1).drop_last() == s@.take(i as int));
            assert(s@.take(i + 1).last() == c);
            assert(w == utf8_len(c));
            assert(byte_len(s@.take(i + 1)) == bytes + w);
            lemma_byte_len_grows(s@, i as int, end);
            assert(i < end);
            lemma_byte_len_grows(s@, i + 1, end);
        }
        bytes += w;
        i += 1;
    }
    proof {
        lemma_byte_len_grows(s@, i as int, s@.len() as int);
    }
    if i < chars.len() {
        proof {
            assert(bytes == n);
            lemma_byte_prefix(s@, i as int, n as int);
        }
        Some(i)
    } else {
        None
    }
}

/// Whether the first `n` bytes of the text are a number of whole characters.
pub fn has_boundary(s: &str, n: usize) -> (r: bool)
    ensures
        r == is_boundary(s@, n as int),
{
    let chars = to_chars(s);
    let mut i: usize = 0;
    let mut bytes: usize = 0;
    assert(s@.take(0) =~= Seq::<char>::empty());
    while i < chars.len() && bytes < n
        invariant
            i <= chars@.len(),
            chars@ == s@,
            bytes == byte_len(s@.take(i as int)),
            bytes <= n,
            forall|k: int| 0 <= k < i ==> byte_len(#[trigger] s@.take(k)) < n,
        decreases chars@.len() - i,
    {
        let c = chars[i];
        let w: usize = if c <= '\u{7f}' {
            1
        } else if c <= '\u{7ff}' {
            2
        } else if c <= '\u{ffff}' {
            3
        } else {
            4
        };
        proof {
            assert(s@.take(i + 1).drop_last() =~= s@.take(i as int));
            assert(s@.take(i + 1).last() == c);
        }
        if n - bytes < w {
            proof {
                assert forall|k: int| 0 <= k <= s@.len() implies byte_len(#[trigger] s@.take(k))
                    != n by {
                    if k > i {
                        lemma_byte_len_grows(s@, i + 1, k);
                    }
                }
            }
            return false;
        }
        bytes += w;
        i += 1;
    }
    proof {
        if bytes == n {
            assert(byte_len(s@.take(i as int)) == n);
        }
    }
    bytes == n
}

/// The number that a text writes in base ten, maybe with a sign.
pub open spec fn parse_signed(s: Seq<char>) -> Option<int> {
    if s.len() > 0 && s[0] == '-' {
        match parse_magnitude(s.skip(1)) {
            Some(n) => if n <= 0x8000_0000_0000_0000 {
                Some(-n)
            } else {
                None
            },
            None => None,
        }
    } else {
        parse_unsigned(s, i64::MAX as int)
    }
}

/// The number that digits alone write.
pub open spec fn parse_magnitude(s: Seq<char>) -> Option<int> {
    if s.len() > 0 && s[0] == '+' {
        None
    } else {
        parse_unsigned(s, u64::MAX as int)
    }
}

/// Reads a number with a sign.
pub fn parse_i64(s: &str) -> (r: Option<i64>)
    ensures
        match r {
            Some(n) => parse_signed(s@) == Some(n as int),
            None => parse_signed(s@) is None,
        },
{
    let chars = to_chars(s);
    if chars.len() > 0 && chars[0] == '-' {
        let digits = from_chars(&chars, 1, chars.len());
        assert(digits@ =~= s@.skip(1));
        if chars.len() > 1 && chars[1] == '+' {
            assert(digits@[0] == '+');
            return None;
        }
        proof {
            if digits@.len() > 0 {
                assert(digits@[0] == chars@[1]);
            }
        }
        match parse_u64(digits.as_str()) {
            Some(n) => if n <= 0x8000_0000_0000_0000 {
                Some((-(n as i128)) as i64)
            } else {
                None
            },
            None => None,
        }
    } else {
        match parse_up_to(s, i64::MAX as u64) {
            Some(n) => Some(n as i64),
            None => None,
        }
    }
}

/// Two texts that are the same up to a `c` that follow texts without one are the same
/// before it and behind it.
pub proof fn lemma_same_up_to(
    a: Seq<char>,
    rest_a: Seq<char>,
    b: Seq<char>,
    rest_b: Seq<char>,
    c: char,
)
    requires
        !a.contains(c),
        !b.contains(c),
        a + seq![c] + rest_a == b + seq![c] + rest_b,
    ensures
        a == b,
        rest_a == rest_b,
{
    let x = a + seq![c] + rest_a;
    let y = b + seq![c] + rest_b;
    assert(x[a.len() as int] == c);
    assert(y[b.len() as int] == c);
    if a.len() < b.len() {
        assert(y[a.len() as int] == b[a.len() as int]);
    } else if b.len() < a.len() {
        assert(x[b.len() as int] == a[b.len() as int]);
    }
    assert(a =~= x.take(a.len() as int));
    assert(b =~= y.take(b.len() as int));
    assert(rest_a =~= x.skip(a.len() as int + 1));
    assert(rest_b =~= y.skip(b.len() as int + 1));
}

/// A number is read back from its digits, and two numbers have different digits.
pub proof fn law_numbers_are_read_back(n: nat, m: nat, max: int)
    ensures
        n <= max ==> parse_unsigned(decimal(n), max) == Some(n as int),
        n > max ==> parse_unsigned(decimal(n), max) is None,
        decimal(n) == decimal(m) <==> n == m,
        !decimal(n).contains('-') && !decimal(n).contains('/') && !decimal(n).contains(';'),
{
    lemma_decimal_round_trip(n);
    lemma_decimal_round_trip(m);
    let d = decimal(n);
    assert(is_digit(d[0]));
    assert forall|i: int| 0 <= i < d.len() implies d[i] != '-' && d[i] != '/' && d[i] != ';' by {
        assert(is_digit(d[i]));
    }
}

/// The number that a text writes is its digits read one after the other, from zero on
/// and each worth ten of the next.
pub proof fn law_digits_are_worth_ten_times_the_next(s: Seq<char>, c: char, max: int)
    requires
        '0' <= c <= '9',
        s.len() > 0,
        parse_unsigned(s, max) is Some,
    ensures
        ({
            let n = 10 * parse_unsigned(s, max)->0 + (c as int - '0' as int);
            parse_unsigned(s.push(c), max) == if n <= max {
                Some(n)
            } else {
                None
            }
        }),
        0 <= parse_unsigned(s, max)->0 <= max,
{
    let d = if s[0] == '+' {
        s.skip(1)
    } else {
        s
    };
    let t = if s.push(c)[0] == '+' {
        s.push(c).skip(1)
    } else {
        s.push(c)
    };
    assert(t =~= d.push(c));
    assert(t.drop_last() =~= d);
    lemma_digits_nonnegative(d);
    assert(all_digits(t)) by {
        assert forall|i: int| 0 <= i < t.len() implies is_digit(#[trigger] t[i]) by {
            if i < d.len() {
                assert(t[i] == d[i]);
            }
        }
    }
}

/// Only digits write a number, with a plus sign in front at most.
pub proof fn law_only_digits_are_read(s: Seq<char>, i: int, max: int)
    requires
        0 <= i < s.len(),
        !('0' <= s[i] <= '9'),
        i > 0 || s[i] != '+' || s.len() == 1,
    ensures
        parse_unsigned(s, max) is None,
        parse_unsigned(Seq::empty(), max) is None,
{
    if s[0] == '+' {
        if i > 0 {
            assert(s.skip(1)[i - 1] == s[i]);
            assert(!is_digit(s.skip(1)[i - 1]));
        }
    } else {
        assert(!is_digit(s[i]));
    }
}

/// What is left of a text once it is trimmed stands in it, with nothing but white space
/// around it, and neither starts nor ends with any.
pub proof fn law_trimmed_text_has_space_around_it(s: Seq<char>)
    ensures
        exists|before: Seq<char>, after: Seq<char>| #[trigger]
            (before + trimmed(s) + after) == s && (forall|i: int|
                0 <= i < before.len() ==> is_space(#[trigger] before[i])) && forall|i: int|
                0 <= i < after.len() ==> is_space(#[trigger] after[i]),
        trimmed(s).len() > 0 ==> !is_space(trimmed(s)[0]) && !is_space(trimmed(s).last()),
        trimmed(trimmed(s)) == trimmed(s),
        s.len() > 0 && !is_space(s[0]) && !is_space(s.last()) ==> trimmed(s) == s,
{
    lemma_start_trimmed(s);
    lemma_end_trimmed(trim_start(s));
    let t = trim_start(s);
    let before = s.take(s.len() - t.len());
    let after = t.skip(trim_end(t).len() as int);
    assert(before + trimmed(s) + after =~= s);
}

proof fn lemma_start_trimmed(s: Seq<char>)
    ensures
        trim_start(s).len() <= s.len(),
        trim_start(s) == s.skip(s.len() - trim_start(s).len()),
        forall|i: int| 0 <= i < s.len() - trim_start(s).len() ==> is_space(#[trigger] s[i]),
        trim_start(s).len() > 0 ==> !is_space(trim_start(s)[0]),
    decreases s.len(),
{
    if s.len() > 0 && is_space(s[0]) {
        let t = s.drop_first();
        lemma_start_trimmed(t);
        assert(trim_start(s) =~= s.skip(s.len() - trim_start(s).len()));
        assert forall|i: int| 0 <= i < s.len() - trim_start(s).len() implies is_space(
            #[trigger] s[i],
        ) by {
            if i > 0 {
                assert(s[i] == t[i - 1]);
            }
        }
    } else {
        assert(s.skip(0) =~= s);
    }
}

proof fn lemma_end_trimmed(s: Seq<char>)
    ensures
        trim_end(s).len() <= s.len(),
        trim_end(s) == s.take(trim_end(s).len() as int),
        forall|i: int| trim_end(s).len() <= i < s.len() ==> is_space(#[trigger] s[i]),
        trim_end(s).len() > 0 ==> !is_space(trim_end(s).last()),
    decreases s.len(),
{
    if s.len() > 0 && is_space(s.last()) {
        let t = s.drop_last();
        lemma_end_trimmed(t);
        assert(trim_end(s) =~= s.take(trim_end(s).len() as int));
        assert forall|i: int| trim_end(s).len() <= i < s.len() implies is_space(#[trigger] s[i]) by {
            if i < t.len() {
                assert(s[i] == t[i]);
            }
        }
    } else {
        assert(s.take(s.len() as int) =~= s);
    }
}

/// A text is cut at its first `c`, and not at all where it has none.
pub proof fn law_texts_are_cut_at_the_first(a: Seq<char>, b: Seq<char>, c: char)
    requires
        !a.contains(c),
    ensures
        split_once_spec(a + seq![c] + b, c) == Some((a, b)),
        split_once_spec(a, c) is None,
{
    let s = a + seq![c] + b;
    lemma_run_len(s, c);
    assert(s[a.len() as int] == c);
    assert(s.contains(c));
    let i = run_len(s, c);
    if i < a.len() {
        assert(s[i] == a[i]);
        assert(a.contains(c));
    }
    assert(i == a.len());
    assert(s.take(i) =~= a);
    assert(s.skip(i + 1) =~= b);
}

/// The parts of a text hold none of what it is split at, and joined again they are the
/// text.
pub proof fn law_split_texts_are_joined_again(s: Seq<char>, c: char)
    ensures
        split_spec(s, c).len() > 0,
        forall|i: int|
            0 <= i < split_spec(s, c).len() ==> !(#[trigger] split_spec(s, c)[i]).contains(c),
        join_spec(split_spec(s, c), seq![c]) == s,
    decreases s.len(),
{
    lemma_run_len(s, c);
    if s.contains(c) {
        let i = run_len(s, c);
        let rest = split_spec(s.skip(i + 1), c);
        law_split_texts_are_joined_again(s.skip(i + 1), c);
        lemma_join_first(s.take(i), rest, seq![c]);
        assert(s.take(i) + seq![c] + s.skip(i + 1) =~= s);
        assert forall|j: int| 0 <= j < split_spec(s, c).len() implies !(
        #[trigger] split_spec(s, c)[j]).contains(c) by {
            if j > 0 {
                assert(split_spec(s, c)[j] == rest[j - 1]);
            }
        }
    }
}

proof fn lemma_join_first(first: Seq<char>, rest: Seq<Seq<char>>, sep: Seq<char>)
    requires
        rest.len() > 0,
    ensures
        join_spec(seq![first] + rest, sep) == first + sep + join_spec(rest, sep),
    decreases rest.len(),
{
    let all = seq![first] + rest;
    if rest.len() == 1 {
        assert(all.drop_last() =~= seq![first]);
        assert(all.last() == rest[0]);
        assert(join_spec(seq![first], sep) == first);
        assert(join_spec(rest, sep) == rest[0]);
    } else {
        lemma_join_first(first, rest.drop_last(), sep);
        assert(all.drop_last() =~= seq![first] + rest.drop_last());
        assert(all.last() == rest.last());
        assert(first + sep + join_spec(rest.drop_last(), sep) + sep + rest.last() =~= first + sep + (
        join_spec(rest.drop_last(), sep) + sep + rest.last()));
    }
}

/// The value of a name is that of the first pair with the name, and there is none where
/// no pair has it.
pub proof fn law_the_first_pair_counts(
    pairs: Seq<(Seq<char>, Seq<char>)>,
    name: Seq<char>,
    i: int,
)
    ensures
        0 <= i < pairs.len() && pairs[i].0 == name && (forall|j: int|
            0 <= j < i ==> (#[trigger] pairs[j]).0 != name) ==> first_value(pairs, name) == Some(
            pairs[i].1,
        ),
        (forall|j: int| 0 <= j < pairs.len() ==> (#[trigger] pairs[j]).0 != name) ==> first_value(
            pairs,
            name,
        ) is None,
    decreases pairs.len(),
{
    if pairs.len() > 0 && pairs[0].0 != name {
        let t = pairs.drop_first();
        law_the_first_pair_counts(t, name, i - 1);
        assert(forall|j: int| 0 <= j < t.len() ==> t[j] == pairs[j + 1]);
    }
}

/// Lower case differs in nothing but its letters.
pub proof fn law_lower_case_keeps_all_but_capitals(s: Seq<char>, i: int)
    requires
        0 <= i < s.len(),
    ensures
        lowered(s).len() == s.len(),
        !('A' <= s[i] <= 'Z') ==> lowered(s)[i] == s[i],
        'A' <= s[i] <= 'Z' ==> lowered(s)[i] as u32 == s[i] as u32 + 32,
        lowered(lowered(s)) == lowered(s),
{
    assert forall|j: int| 0 <= j < s.len() implies lowered(lowered(s))[j] == lowered(s)[j] by {
        if 'A' <= s[j] <= 'Z' {
            let n = s[j] as u32 + 32;
            assert(97 <= n <= 122);
        }
    }
    assert(lowered(lowered(s)) =~= lowered(s));
    if 'A' <= s[i] <= 'Z' {
        let n = s[i] as u32 + 32;
        assert(97 <= n <= 122);
    }
}

/// What follows the last `c` holds none.
pub proof fn law_the_last_part_follows_the_last(a: Seq<char>, b: Seq<char>, c: char)
    requires
        !b.contains(c),
    ensures
        after_last(a + seq![c] + b, c) == Some(b),
        after_last(b, c) is None,
    decreases b.len(),
{
    let s = a + seq![c] + b;
    if b.len() == 0 {
        assert(s.last() == c);
        assert(b =~= Seq::<char>::empty());
    } else {
        let t = b.drop_last();
        assert(b.contains(b.last()));
        assert forall|x: int| 0 <= x < t.len() implies t[x] != c by {
            assert(b.contains(b[x]));
        }
        law_the_last_part_follows_the_last(a, t, c);
        assert(s.drop_last() =~= a + seq![c] + t);
        assert(s.last() == b.last());
        assert(t.push(b.last()) =~= b);
    }
}

/// Different numbers are written differently, also those below zero.
pub proof fn law_signed_numbers_are_told_apart(n: int, m: int)
    ensures
        signed_decimal(n) == signed_decimal(m) ==> n == m,
{
    reveal_strlit("-");
    let a = if n < 0 {
        (-n) as nat
    } else {
        n as nat
    };
    let b = if m < 0 {
        (-m) as nat
    } else {
        m as nat
    };
    let max = if a > b {
        a as int
    } else {
        b as int
    };
    law_numbers_are_read_back(a, b, max);
    lemma_decimal_round_trip(a);
    lemma_decimal_round_trip(b);
    if signed_decimal(n) == signed_decimal(m) {
        if n < 0 && m < 0 {
            assert(decimal(a) =~= signed_decimal(n).skip(1));
            assert(decimal(b) =~= signed_decimal(m).skip(1));
        } else if n < 0 {
            assert(signed_decimal(n)[0] == '-');
            assert(is_digit(decimal(b)[0]));
        } else if m < 0 {
            assert(signed_decimal(m)[0] == '-');
            assert(is_digit(decimal(a)[0]));
        }
    }
}

/// A text that starts with another is that and what is behind it, and one that ends with
/// another is what is before it and that.
pub proof fn law_texts_start_and_end(a: Seq<char>, b: Seq<char>, s: Seq<char>)
    ensures
        has_prefix(a + b, a),
        has_suffix(a + b, b),
        after_prefix(a + b, a) == Some(b),
        before_suffix(a + b, b) == Some(a),
        has_prefix(s, a) <==> exists|t: Seq<char>| s == #[trigger] (a + t),
        has_suffix(s, b) <==> exists|t: Seq<char>| s == #[trigger] (t + b),
        after_prefix(s, a) is Some <==> has_prefix(s, a),
        before_suffix(s, b) is Some <==> has_suffix(s, b),
{
    let w = a + b;
    assert(w.take(a.len() as int) =~= a);
    assert(w.skip(a.len() as int) =~= b);
    assert(w.len() - b.len() == a.len());
    if has_prefix(s, a) {
        assert(s =~= a + s.skip(a.len() as int));
    }
    if exists|t: Seq<char>| s == #[trigger] (a + t) {
        let t = choose|t: Seq<char>| s == #[trigger] (a + t);
        assert(s.take(a.len() as int) =~= a);
    }
    if has_suffix(s, b) {
        assert(s =~= s.take(s.len() - b.len()) + b);
    }
    if exists|t: Seq<char>| s == #[trigger] (t + b) {
        let t = choose|t: Seq<char>| s == #[trigger] (t + b);
        assert(s.skip(s.len() - b.len()) =~= b);
    }
}

/// The parts of a text are what stands before its first `c` and the parts of the rest.
pub proof fn law_texts_are_split_part_by_part(a: Seq<char>, b: Seq<char>, c: char)
    requires
        !a.contains(c),
    ensures
        split_spec(a, c) == seq![a],
        split_spec(a + seq![c] + b, c) == seq![a] + split_spec(b, c),
{
    law_texts_are_cut_at_the_first(a, b, c);
    let s = a + seq![c] + b;
    lemma_run_len(s, c);
    assert(s[a.len() as int] == c);
}

/// Texts without `c` that are joined by it are the parts of what they are joined to.
pub proof fn law_joined_texts_are_split_again(parts: Seq<Seq<char>>, c: char)
    requires
        parts.len() > 0,
        forall|i: int| 0 <= i < parts.len() ==> !(#[trigger] parts[i]).contains(c),
    ensures
        split_spec(join_spec(parts, seq![c]), c) == parts,
    decreases parts.len(),
{
    assert(!parts[0].contains(c));
    if parts.len() == 1 {
        assert(join_spec(parts, seq![c]) == parts[0]);
        assert(parts =~= seq![parts[0]]);
        law_texts_are_split_part_by_part(parts[0], Seq::empty(), c);
    } else {
        let rest = parts.drop_first();
        law_joined_texts_are_split_again(rest, c);
        lemma_join_first(parts[0], rest, seq![c]);
        assert(parts =~= seq![parts[0]] + rest);
        law_texts_are_split_part_by_part(parts[0], join_spec(rest, seq![c]), c);
    }
}

/// A text that is trimmed of a character neither starts nor ends with it, and has lost
/// nothing else.
pub proof fn law_only_the_character_is_trimmed(s: Seq<char>, c: char)
    ensures
        trim_end_char(s, c).len() <= s.len(),
        trim_end_char(s, c) == s.take(trim_end_char(s, c).len() as int),
        trim_end_char(s, c).len() > 0 ==> trim_end_char(s, c).last() != c,
        forall|i: int| trim_end_char(s, c).len() <= i < s.len() ==> s[i] == c,
        trim_start_char(s, c).len() <= s.len(),
        trim_start_char(s, c) == s.skip(s.len() - trim_start_char(s, c).len()),
        trim_start_char(s, c).len() > 0 ==> trim_start_char(s, c)[0] != c,
        forall|i: int| 0 <= i < s.len() - trim_start_char(s, c).len() ==> s[i] == c,
{
    lemma_end_char_trimmed(s, c);
    lemma_start_char_trimmed(s, c);
}

proof fn lemma_end_char_trimmed(s: Seq<char>, c: char)
    ensures
        trim_end_char(s, c).len() <= s.len(),
        trim_end_char(s, c) == s.take(trim_end_char(s, c).len() as int),
        trim_end_char(s, c).len() > 0 ==> trim_end_char(s, c).last() != c,
        forall|i: int| trim_end_char(s, c).len() <= i < s.len() ==> s[i] == c,
    decreases s.len(),
{
    if s.len() > 0 && s.last() == c {
        let t = s.drop_last();
        lemma_end_char_trimmed(t, c);
        let n = trim_end_char(t, c).len() as int;
        assert(t.take(n) =~= s.take(n));
        assert forall|i: int| n <= i < s.len() implies s[i] == c by {
            if i < t.len() {
                assert(s[i] == t[i]);
            }
        }
    } else {
        assert(s.take(s.len() as int) =~= s);
    }
}

proof fn lemma_start_char_trimmed(s: Seq<char>, c: char)
    ensures
        trim_start_char(s, c).len() <= s.len(),
        trim_start_char(s, c) == s.skip(s.len() - trim_start_char(s, c).len()),
        trim_start_char(s, c).len() > 0 ==> trim_start_char(s, c)[0] != c,
        forall|i: int| 0 <= i < s.len() - trim_start_char(s, c).len() ==> s[i] == c,
    decreases s.len(),
{
    if s.len() > 0 && s[0] == c {
        let t = s.drop_first();
        lemma_start_char_trimmed(t, c);
        let n = trim_start_char(t, c).len() as int;
        assert(t.skip(t.len() - n) =~= s.skip(s.len() - n));
        assert forall|i: int| 0 <= i < s.len() - n implies s[i] == c by {
            if i > 0 {
                assert(s[i] == t[i - 1]);
            }
        }
    } else {
        assert(s.skip(0) =~= s);
    }
}

/// The bytes that a text is said to take are those of its encoding.
pub proof fn law_texts_take_the_bytes_of_their_encoding(s: Seq<char>)
    ensures
        byte_len(s) == vstd::utf8::encode_utf8(s).len(),
    decreases s.len(),
{
    if s.len() > 0 {
        law_texts_take_the_bytes_of_their_encoding(s.drop_first());
        lemma_byte_len_first(s);
        let c = s[0];
        vstd::utf8::char_is_scalar(c);
        vstd::utf8::char_u32_cast(c, c as u32);
        assert(vstd::utf8::encode_scalar(c as u32).len() == utf8_len(c));
    }
}

proof fn lemma_byte_len_first(s: Seq<char>)
    requires
        s.len() > 0,
    ensures
        byte_len(s) == utf8_len(s[0]) + byte_len(s.drop_first()),
    decreases s.len(),
{
    if s.len() == 1 {
        assert(s.drop_last() =~= Seq::<char>::empty());
        assert(s.drop_first() =~= Seq::<char>::empty());
        assert(byte_len(Seq::<char>::empty()) == 0);
    } else {
        lemma_byte_len_first(s.drop_last());
        assert(s.drop_last().drop_first() =~= s.drop_first().drop_last());
    }
}

/// What is written with a sign is read back, and what is too large is not read.
pub proof fn law_signed_numbers_are_read_back(n: int)
    ensures
        i64::MIN <= n <= i64::MAX ==> parse_signed(signed_decimal(n)) == Some(n),
        n > i64::MAX ==> parse_signed(signed_decimal(n)) is None,
        n < i64::MIN ==> parse_signed(signed_decimal(n)) is None,
{
    reveal_strlit("-");
    let size = if n < 0 {
        (-n) as nat
    } else {
        n as nat
    };
    lemma_decimal_round_trip(size);
    assert(is_digit(decimal(size)[0]));
    law_numbers_are_read_back(size, size, i64::MAX as int);
    law_numbers_are_read_back(size, size, u64::MAX as int);
    if n < 0 {
        assert(signed_decimal(n).skip(1) =~= decimal(size));
        assert(signed_decimal(n)[0] == '-');
    }
}

/// The space of a text is that of lines and words in ASCII, and no letter, digit or sign of
/// it is space.
pub proof fn law_space_is_what_separates_words(c: char)
    ensures
        c <= '\u{7f}' ==> (is_space(c) <==> c == ' ' || c == '\t' || c == '\n' || c == '\r' || c
            == '\u{b}' || c == '\u{c}'),
        is_space('\u{a0}') && is_space('\u{3000}') && is_space('\u{2028}'),
        is_digit(c) <==> '0' <= c <= '9',
{
}

} // verus!
