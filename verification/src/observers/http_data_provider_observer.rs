//! Who is told of responses, and who is waited for.

use vstd::prelude::*;

verus! {

/// The places of the flags with a value, in order.
pub open spec fn places(flags: Seq<bool>, value: bool) -> Seq<int>
    decreases flags.len(),
{
    if flags.len() == 0 {
        Seq::empty()
    } else if flags.last() == value {
        places(flags.drop_last(), value).push(flags.len() - 1)
    } else {
        places(flags.drop_last(), value)
    }
}

/// Numbers as integers.
pub open spec fn numbers(v: Seq<usize>) -> Seq<int> {
    v.map_values(|n: usize| n as int)
}

/// Whom to tell, by their numbers: some in the background, and some one after the
/// other before the notifier goes on.
#[derive(Debug)]
pub struct Notification {
    pub background: Vec<usize>,
    pub awaited: Vec<usize>,
}

/// The observers of responses, by their numbers.
pub struct HttpDataProviderObserver {
    waits: Vec<bool>,
}

impl Default for HttpDataProviderObserver {
    fn default() -> (r: Self)
        ensures
            r@ == Seq::<bool>::empty(),
    {
        Self::new()
    }
}

impl View for HttpDataProviderObserver {
    type V = Seq<bool>;

    /// Whether each observer makes the notifier wait.
    closed spec fn view(&self) -> Seq<bool> {
        self.waits@
    }
}

impl HttpDataProviderObserver {
    pub fn new() -> (r: Self)
        ensures
            r@ == Seq::<bool>::empty(),
    {
        HttpDataProviderObserver { waits: Vec::new() }
    }

    /// Adds an observer and hands out its number.
    pub fn add_observer(&mut self, force_notifier_to_wait_for_update: bool) -> (r: usize)
        ensures
            r == old(self)@.len(),
            final(self)@ == old(self)@.push(force_notifier_to_wait_for_update),
    {
        let n: usize = self.waits.len();
        self.waits.push(force_notifier_to_wait_for_update);
        n
    }

    /// Whom to tell of a response.
    pub fn notify_all(&self) -> (r: Notification)
        ensures
            numbers(r.background@) == places(self@, false),
            numbers(r.awaited@) == places(self@, true),
    {
        let mut background: Vec<usize> = Vec::new();
        let mut awaited: Vec<usize> = Vec::new();
        let mut i: usize = 0;
        assert(numbers(background@) =~= Seq::<int>::empty());
        assert(numbers(awaited@) =~= Seq::<int>::empty());
        while i < self.waits.len()
            invariant
                i <= self.waits@.len(),
                numbers(background@) == places(self.waits@.take(i as int), false),
                numbers(awaited@) == places(self.waits@.take(i as int), true),
            decreases self.waits@.len() - i,
        {
            let ghost b = background@;
            let ghost a = awaited@;
            assert(self.waits@.take(i + 1).drop_last() =~= self.waits@.take(i as int));
            if self.waits[i] {
                awaited.push(i);
                assert(numbers(awaited@) =~= numbers(a).push(i as int));
            } else {
                background.push(i);
                assert(numbers(background@) =~= numbers(b).push(i as int));
            }
            i += 1;
        }
        assert(self.waits@.take(i as int) =~= self.waits@);
        Notification { background, awaited }
    }
}

/// Every observer is told of a response once: in the background, or while the
/// notifier waits.
pub proof fn law_every_observer_is_told(waits: Seq<bool>, i: int)
    requires
        0 <= i < waits.len(),
    ensures
        places(waits, waits[i]).contains(i),
        !places(waits, !waits[i]).contains(i),
        places(waits, true).len() + places(waits, false).len() == waits.len(),
{
    lemma_places(waits, true);
    lemma_places(waits, false);
    lemma_places_len(waits);
}

proof fn lemma_places_len(waits: Seq<bool>)
    ensures
        places(waits, true).len() + places(waits, false).len() == waits.len(),
    decreases waits.len(),
{
    if waits.len() > 0 {
        lemma_places_len(waits.drop_last());
    }
}

proof fn lemma_places(waits: Seq<bool>, value: bool)
    ensures
        forall|i: int| #[trigger]
            places(waits, value).contains(i) <==> 0 <= i < waits.len() && waits[i] == value,
    decreases waits.len(),
{
    if waits.len() > 0 {
        let rest = waits.drop_last();
        lemma_places(rest, value);
        assert forall|i: int| #[trigger] places(waits, value).contains(i) <==> 0 <= i < waits.len()
            && waits[i] == value by {
            let p = places(rest, value);
            if i < rest.len() && 0 <= i && waits[i] == value {
                assert(p.contains(i));
                let j = choose|j: int| 0 <= j < p.len() && p[j] == i;
                assert(places(waits, value)[j] == i);
            }
            if i == rest.len() && waits[i] == value {
                assert(places(waits, value)[p.len() as int] == i);
            }
            if places(waits, value).contains(i) {
                let j = choose|j: int|
                    0 <= j < places(waits, value).len() && places(waits, value)[j] == i;
                if j < p.len() {
                    assert(p[j] == i);
                    assert(p.contains(i));
                }
            }
        }
    }
}

} // verus!
