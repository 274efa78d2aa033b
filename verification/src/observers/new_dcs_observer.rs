//! Who is told of new config specs.

use crate::observers::http_data_provider_observer;
use crate::observers::http_data_provider_observer::{HttpDataProviderObserver, Notification};
use vstd::prelude::*;

verus! {

/// The observers of config specs, by their numbers.
pub struct NewDcsObserver {
    observers: HttpDataProviderObserver,
}

impl Default for NewDcsObserver {
    fn default() -> (r: Self)
        ensures
            r@ == Seq::<bool>::empty(),
    {
        Self::new()
    }
}

impl View for NewDcsObserver {
    type V = Seq<bool>;

    /// Whether each observer makes the notifier wait.
    closed spec fn view(&self) -> Seq<bool> {
        self.observers@
    }
}

impl NewDcsObserver {
    pub fn new() -> (r: Self)
        ensures
            r@ == Seq::<bool>::empty(),
    {
        NewDcsObserver { observers: HttpDataProviderObserver::new() }
    }

    /// Adds an observer and hands out its number.
    pub fn add_observer(&mut self, force_notifier_to_wait_for_update: bool) -> (r: usize)
        ensures
            r == old(self)@.len(),
            final(self)@ == old(self)@.push(force_notifier_to_wait_for_update),
    {
        self.observers.add_observer(force_notifier_to_wait_for_update)
    }

    /// Whom to tell of new specs.
    pub fn notify_all(&self) -> (r: Notification)
        ensures
            http_data_provider_observer::numbers(r.background@)
                == http_data_provider_observer::places(self@, false),
            http_data_provider_observer::numbers(r.awaited@) == http_data_provider_observer::places(
                self@,
                true,
            ),
    {
        self.observers.notify_all()
    }
}

} // verus!
