//! Events that clients log.

use crate::text;
use vstd::prelude::*;

verus! {

/// Whose event it is.
#[derive(Debug, Default)]
pub struct User {
    pub user_id: Option<String>,
    /// The names and values of other ids, where they are an object. The values
    /// are written in JSON.
    pub custom_ids: Option<Vec<(String, String)>>,
}

#[derive(Debug)]
pub enum EventName {
    ConfigExposure,
    GateExposure,
    Other { event_name: String },
}

/// What the SDK tells of itself.
#[derive(Debug, Clone)]
pub struct StatsigMetadata {
    pub stable_id: Option<String>,
}

/// One event.
#[derive(Debug)]
pub struct LogEvent {
    pub event_name: EventName,
    pub user: Option<User>,
    pub time: Option<u64>,
    /// Names and values, which are written in JSON.
    pub metadata: Option<Vec<(String, String)>>,
    pub statsig_metadata: Option<StatsigMetadata>,
}

/// What some metadata hold under a name, blank where they hold nothing.
pub open spec fn metadata_value(
    metadata: Option<Vec<(String, String)>>,
    key: Seq<char>,
) -> Seq<char> {
    match metadata {
        Some(pairs) => match text::first_value(text::pair_texts(pairs@), key) {
            Some(v) => v,
            None => Seq::empty(),
        },
        None => Seq::empty(),
    }
}

impl LogEvent {
    pub fn get_metadata(&self, key: &str) -> (r: String)
        ensures
            r@ == metadata_value(self.metadata, key@),
    {
        match &self.metadata {
            Some(pairs) => match text::find_value(pairs, key) {
                Some(v) => v.to_owned(),
                None => String::new(),
            },
            None => String::new(),
        }
    }
}

/// An event, or something else in its place.
#[derive(Debug)]
pub enum PossiblyLogEvent {
    ValidLogEvent(LogEvent),
    InvalidLogEvent,
}

/// The events of one request.
#[derive(Debug)]
pub struct LogEventRequest {
    pub events: Vec<PossiblyLogEvent>,
    pub statsig_metadata: Option<StatsigMetadata>,
}

/// What is answered to a request with events.
#[derive(Debug)]
pub struct LogEventResponse {
    pub success: bool,
    pub message: Option<String>,
}

impl LogEventResponse {
    /// Events are taken before they are sent on.
    pub fn accepted() -> (r: Self)
        ensures
            r.success,
            r.message is None,
    {
        LogEventResponse { success: true, message: None }
    }
}

/// Metadata hold under a name what their first entry with the name holds, and are blank
/// where they have none.
pub proof fn law_metadata_are_found_by_name(
    pairs: Vec<(String, String)>,
    key: Seq<char>,
    i: int,
)
    ensures
        0 <= i < pairs@.len() && pairs@[i].0@ == key && (forall|j: int|
            0 <= j < i ==> (#[trigger] pairs@[j]).0@ != key) ==> metadata_value(Some(pairs), key)
            == pairs@[i].1@,
        (forall|j: int| 0 <= j < pairs@.len() ==> (#[trigger] pairs@[j]).0@ != key)
            ==> metadata_value(Some(pairs), key).len() == 0,
        metadata_value(None, key).len() == 0,
{
    let all = text::pair_texts(pairs@);
    text::law_the_first_pair_counts(all, key, i);
    if 0 <= i < pairs@.len() {
        assert(all[i] == (pairs@[i].0@, pairs@[i].1@));
        if pairs@[i].0@ == key && forall|j: int|
            0 <= j < i ==> (#[trigger] pairs@[j]).0@ != key {
            assert forall|j: int| 0 <= j < i implies (#[trigger] all[j]).0 != key by {
                assert(pairs@[j].0@ != key);
            }
        }
    }
    if forall|j: int| 0 <= j < pairs@.len() ==> (#[trigger] pairs@[j]).0@ != key {
        assert forall|j: int| 0 <= j < all.len() implies (#[trigger] all[j]).0 != key by {
            assert(pairs@[j].0@ != key);
        }
    }
}

} // verus!
