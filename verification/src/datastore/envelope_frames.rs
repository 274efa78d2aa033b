//! Frames in a binary payload: each is the count of its bytes, seven bits to a
//! byte, and then the bytes.

use vstd::prelude::*;

verus! {

/// A count, seven bits to a byte, the lowest first; all bytes but the last have
/// their high bit set.
pub open spec fn varint(n: nat) -> Seq<u8>
    decreases n,
{
    if n < 128 {
        seq![n as u8]
    } else {
        seq![(n % 128 + 128) as u8] + varint(n / 128)
    }
}

/// The count that some bytes start with and how many bytes it takes. A count
/// takes ten bytes at most and fits in 64 bits; `depth` bytes of it have been
/// read.
pub open spec fn unvarint(s: Seq<u8>, depth: nat) -> Option<(nat, nat)>
    decreases 10 - depth,
{
    if depth >= 10 || s.len() == 0 {
        None
    } else if s[0] < 128 {
        if depth == 9 && s[0] >= 2 {
            None
        } else {
            Some((s[0] as nat, 1))
        }
    } else {
        match unvarint(s.skip(1), depth + 1) {
            Some((v, k)) => Some(((s[0] - 128 + 128 * v) as nat, k + 1)),
            None => None,
        }
    }
}

/// What a count is below once `depth` bytes of it have been read.
pub open spec fn count_limit(depth: nat) -> nat
    decreases 10 - depth,
{
    if depth >= 9 {
        2
    } else {
        128 * count_limit(depth + 1)
    }
}

proof fn lemma_count_limit()
    ensures
        count_limit(9) == 2,
        count_limit(8) == 256,
        count_limit(7) == 32768,
        count_limit(6) == 4194304,
        count_limit(5) == 536870912,
        count_limit(4) == 68719476736,
        count_limit(3) == 8796093022208,
        count_limit(2) == 1125899906842624,
        count_limit(1) == 144115188075855872,
        count_limit(0) == 18446744073709551616,
{
    assert(count_limit(9) == 2);
    assert(count_limit(8) == 256);
    assert(count_limit(7) == 32768);
    assert(count_limit(6) == 4194304);
    assert(count_limit(5) == 536870912);
    assert(count_limit(4) == 68719476736);
    assert(count_limit(3) == 8796093022208);
    assert(count_limit(2) == 1125899906842624);
    assert(count_limit(1) == 144115188075855872);
}

/// A count that was read fits, and takes some of the bytes.
pub proof fn lemma_unvarint(s: Seq<u8>, depth: nat)
    ensures
        unvarint(s, depth) matches Some((v, k)) ==> v < count_limit(depth) && 1 <= k <= s.len(),
    decreases 10 - depth,
{
    if depth < 10 && s.len() > 0 {
        if s[0] < 128 {
            lemma_limit_at_least(depth);
        } else {
            lemma_unvarint(s.skip(1), depth + 1);
        }
    }
}

proof fn lemma_limit_at_least(depth: nat)
    ensures
        depth < 9 ==> count_limit(depth) >= 128,
        count_limit(depth) >= 2,
    decreases 10 - depth,
{
    if depth < 9 {
        lemma_limit_at_least(depth + 1);
    }
}

/// Reading a count that was written gives it back, whatever follows.
pub proof fn lemma_varint_round_trip(n: nat, rest: Seq<u8>, depth: nat)
    requires
        n < count_limit(depth),
        depth < 10,
    ensures
        unvarint(varint(n) + rest, depth) == Some((n, varint(n).len())),
        varint(n).len() > 0,
    decreases n,
{
    let s = varint(n) + rest;
    if n < 128 {
        assert(s[0] == n as u8);
    } else {
        assert(depth < 9);
        assert(s[0] == (n % 128 + 128) as u8);
        assert(s.skip(1) =~= varint(n / 128) + rest);
        lemma_varint_round_trip(n / 128, rest, depth + 1);
    }
}

fn read_varint(data: &[u8], at: usize, depth: usize) -> (r: Option<(u64, usize)>)
    requires
        at <= data@.len(),
        depth <= 10,
    ensures
        match r {
            Some((v, k)) => unvarint(data@.skip(at as int), depth as nat) == Some(
                (v as nat, k as nat),
            ) && at + k <= data@.len(),
            None => unvarint(data@.skip(at as int), depth as nat) is None,
        },
    decreases 10 - depth,
{
    let ghost s = data@.skip(at as int);
    if depth >= 10 || at >= data.len() {
        return None;
    }
    let b: u8 = data[at];
    assert(s[0] == b);
    if b < 128 {
        if depth == 9 && b >= 2 {
            return None;
        }
        return Some((b as u64, 1));
    }
    assert(s.skip(1) == data@.skip(at + 1));
    match read_varint(data, at + 1, depth + 1) {
        Some((v, k)) => {
            proof {
                lemma_unvarint(s.skip(1), (depth + 1) as nat);
                lemma_count_limit();
                lemma_limit_shrinks((depth + 1) as nat);
            }
            Some(((b as u64 - 128) + 128 * v, k + 1))
        },
        None => None,
    }
}

proof fn lemma_limit_shrinks(depth: nat)
    requires
        1 <= depth <= 10,
    ensures
        count_limit(depth) <= 144115188075855872,
{
    lemma_count_limit();
    if depth >= 10 {
        assert(count_limit(depth) == 2);
    }
}

/// Appends a count.
pub fn write_varint(out: &mut Vec<u8>, n: u64)
    ensures
        final(out)@ == old(out)@ + varint(n as nat),
    decreases n,
{
    if n < 128 {
        out.push(n as u8);
        assert(out@ =~= old(out)@ + varint(n as nat));
    } else {
        out.push((n % 128 + 128) as u8);
        let ghost before = out@;
        write_varint(out, n / 128);
        assert(out@ =~= old(out)@ + varint(n as nat));
    }
}

/// The bytes of some frames.
pub open spec fn framed(bodies: Seq<Seq<u8>>) -> Seq<u8>
    decreases bodies.len(),
{
    if bodies.len() == 0 {
        Seq::empty()
    } else {
        varint(bodies[0].len()) + bodies[0] + framed(bodies.drop_first())
    }
}

/// The body of the frame that some bytes start with, and what follows it.
pub open spec fn first_frame(s: Seq<u8>) -> Option<(Seq<u8>, Seq<u8>)> {
    match unvarint(s, 0) {
        Some((n, k)) => if n <= s.len() - k {
            Some((s.subrange(k as int, (k + n) as int), s.skip((k + n) as int)))
        } else {
            None
        },
        None => None,
    }
}

/// The bodies of the frames that some bytes are made of, as far as they are, and
/// whether they are to the end.
pub open spec fn unframed(s: Seq<u8>) -> (Seq<Seq<u8>>, bool)
    decreases s.len(),
{
    if s.len() == 0 {
        (Seq::empty(), true)
    } else {
        match first_frame(s) {
            Some((body, rest)) => if rest.len() < s.len() {
                let (bodies, clean) = unframed(rest);
                (seq![body] + bodies, clean)
            } else {
                (Seq::empty(), false)
            },
            None => (Seq::empty(), false),
        }
    }
}

proof fn lemma_first_frame(s: Seq<u8>)
    ensures
        first_frame(s) matches Some((body, rest)) ==> rest.len() < s.len(),
{
    lemma_unvarint(s, 0);
}

/// Frames that were written are read back, all of them and nothing else.
pub proof fn law_frames_round_trip(bodies: Seq<Seq<u8>>)
    requires
        forall|i: int| 0 <= i < bodies.len() ==> (#[trigger] bodies[i]).len() <= u64::MAX,
    ensures
        unframed(framed(bodies)) == (bodies, true),
    decreases bodies.len(),
{
    if bodies.len() == 0 {
        assert(unframed(framed(bodies)).0 =~= bodies);
    } else {
        let body = bodies[0];
        let tail = bodies.drop_first();
        let s = framed(bodies);
        let n = body.len();
        lemma_count_limit();
        assert(s =~= varint(n) + (body + framed(tail)));
        lemma_varint_round_trip(n, body + framed(tail), 0);
        let k = varint(n).len();
        assert(s.subrange(k as int, (k + n) as int) =~= body);
        assert(s.skip((k + n) as int) =~= framed(tail));
        law_frames_round_trip(tail);
        assert(seq![body] + tail =~= bodies);
    }
}

/// The views of some byte vectors.
pub open spec fn bodies_of(v: Seq<Vec<u8>>) -> Seq<Seq<u8>> {
    Seq::new(v.len(), |i: int| v[i]@)
}

/// Splits bytes into frames, as far as they are frames.
pub fn split_frames(data: &[u8]) -> (r: (Vec<Vec<u8>>, bool))
    ensures
        (bodies_of(r.0@), r.1) == unframed(data@),
{
    let mut frames: Vec<Vec<u8>> = Vec::new();
    let mut at: usize = 0;
    let n: usize = data.len();
    assert(data@.skip(0) =~= data@);
    assert(bodies_of(frames@) + unframed(data@).0 =~= unframed(data@).0);
    while at < n
        invariant
            at <= n == data@.len(),
            bodies_of(frames@) + unframed(data@.skip(at as int)).0 == unframed(data@).0,
            unframed(data@.skip(at as int)).1 == unframed(data@).1,
        decreases n - at,
    {
        let ghost s = data@.skip(at as int);
        proof {
            lemma_unvarint(s, 0);
            lemma_first_frame(s);
        }
        match read_varint(data, at, 0) {
            Some((len, k)) => {
                if len > (n - at - k) as u64 {
                    assert(bodies_of(frames@) =~= unframed(data@).0);
                    return (frames, false);
                }
                let start: usize = at + k;
                let end: usize = start + len as usize;
                let body = copy_range(data, start, end);
                let ghost before = frames@;
                assert(body@ =~= s.subrange(k as int, k + len));
                assert(s.skip(k + len) =~= data@.skip(end as int));
                frames.push(body);
                proof {
                    let rest = unframed(data@.skip(end as int)).0;
                    assert(bodies_of(frames@) =~= bodies_of(before).push(body@));
                    assert(bodies_of(before).push(body@) + rest =~= bodies_of(before) + (
                    seq![body@] + rest));
                }
                at = end;
            },
            None => {
                assert(bodies_of(frames@) =~= unframed(data@).0);
                return (frames, false);
            },
        }
    }
    assert(bodies_of(frames@) =~= unframed(data@).0);
    (frames, true)
}

/// A copy of some bytes.
pub fn copy_range(data: &[u8], start: usize, end: usize) -> (r: Vec<u8>)
    requires
        start <= end <= data@.len(),
    ensures
        r@ == data@.subrange(start as int, end as int),
{
    let mut r: Vec<u8> = Vec::new();
    let mut i: usize = start;
    while i < end
        invariant
            start <= i <= end <= data@.len(),
            r@ =~= data@.subrange(start as int, i as int),
        decreases end - i,
    {
        r.push(data[i]);
        i += 1;
    }
    r
}

/// Appends a frame.
pub fn write_frame(out: &mut Vec<u8>, body: &Vec<u8>)
    ensures
        final(out)@ == old(out)@ + varint(body@.len()) + body@,
{
    write_varint(out, body.len() as u64);
    let ghost before = out@;
    let mut i: usize = 0;
    while i < body.len()
        invariant
            i <= body@.len(),
            out@ =~= before + body@.take(i as int),
        decreases body@.len() - i,
    {
        out.push(body[i]);
        i += 1;
    }
    assert(body@.take(i as int) =~= body@);
}

/// Frames one behind the other.
pub proof fn lemma_framed_push(bodies: Seq<Seq<u8>>, body: Seq<u8>)
    ensures
        framed(bodies.push(body)) == framed(bodies) + varint(body.len()) + body,
    decreases bodies.len(),
{
    if bodies.len() == 0 {
        reveal_with_fuel(framed, 2);
        assert(bodies.push(body).drop_first() =~= Seq::<Seq<u8>>::empty());
        assert(framed(bodies.push(body)) =~= framed(bodies) + varint(body.len()) + body);
    } else {
        assert(bodies.push(body).drop_first() =~= bodies.drop_first().push(body));
        lemma_framed_push(bodies.drop_first(), body);
        assert(framed(bodies.push(body)) =~= framed(bodies) + varint(body.len()) + body);
    }
}

/// Frames of two lists one behind the other.
pub proof fn lemma_framed_add(a: Seq<Seq<u8>>, b: Seq<Seq<u8>>)
    ensures
        framed(a + b) == framed(a) + framed(b),
    decreases a.len(),
{
    if a.len() == 0 {
        assert(a + b =~= b);
        assert(framed(a) + framed(b) =~= framed(b));
    } else {
        assert((a + b).drop_first() =~= a.drop_first() + b);
        lemma_framed_add(a.drop_first(), b);
        assert(framed(a + b) =~= framed(a) + framed(b));
    }
}

/// What bytes are worth in base 128, the first one least.
pub open spec fn worth(s: Seq<u8>) -> int
    decreases s.len(),
{
    if s.len() == 0 {
        0
    } else {
        s[0] as int % 128 + 128 * worth(s.drop_first())
    }
}

/// A count is written in base 128 with its least digit first, and every byte but the last is
/// marked as followed by another.
pub proof fn law_counts_are_written_in_base_128(n: nat)
    ensures
        varint(n).len() > 0,
        worth(varint(n)) == n,
        varint(n).last() < 128,
        forall|i: int| 0 <= i < varint(n).len() - 1 ==> #[trigger] varint(n)[i] >= 128,
        n < 128 <==> varint(n).len() == 1,
    decreases n,
{
    let s = varint(n);
    reveal_with_fuel(worth, 2);
    if n >= 128 {
        law_counts_are_written_in_base_128(n / 128);
        let rest = varint(n / 128);
        assert(s.drop_first() =~= rest);
        assert forall|i: int| 0 <= i < s.len() - 1 implies #[trigger] s[i] >= 128 by {
            if i > 0 {
                assert(s[i] == rest[i - 1]);
            }
        }
        assert(s.last() == rest.last());
    } else {
        assert(s.drop_first() =~= Seq::<u8>::empty());
    }
}

/// Each body is framed by its size, and frames follow each other.
pub proof fn law_frames_follow_each_other(a: Seq<Seq<u8>>, b: Seq<Seq<u8>>, body: Seq<u8>)
    ensures
        framed(seq![body]) == varint(body.len()) + body,
        framed(a + b) == framed(a) + framed(b),
        framed(Seq::empty()).len() == 0,
    decreases a.len(),
{
    assert(seq![body].drop_first() =~= Seq::<Seq<u8>>::empty());
    assert(framed(seq![body].drop_first()) =~= Seq::<u8>::empty());
    assert(framed(seq![body]) =~= varint(body.len()) + body);
    if a.len() == 0 {
        assert(a + b =~= b);
        assert(framed(a) + framed(b) =~= framed(b));
    } else {
        law_frames_follow_each_other(a.drop_first(), b, body);
        assert((a + b).drop_first() =~= a.drop_first() + b);
        assert((a + b)[0] == a[0]);
        assert(framed(a + b) =~= framed(a) + framed(b));
    }
}

} // verus!
