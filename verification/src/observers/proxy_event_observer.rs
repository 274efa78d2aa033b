//! The channel between the proxy and the loggers of its events.

use vstd::prelude::*;

verus! {

/// What the environment says of the channel.
#[derive(Clone, Debug)]
pub struct EnvConfig {
    pub event_channel_size: Option<usize>,
}

impl EnvConfig {
    /// How many events the channel holds.
    pub fn channel_size(&self) -> (r: usize)
        ensures
            r == (match self.event_channel_size {
                Some(n) => n,
                None => 100000,
            }),
    {
        match self.event_channel_size {
            Some(n) => n,
            None => 100000,
        }
    }
}

} // verus!
