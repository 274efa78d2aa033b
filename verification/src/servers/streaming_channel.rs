//! Updates on their way to the streams of one context.

use crate::datastore::data_providers::{
    DataProviderRequestResult, FullRequestContext, ResponseContext,
};
use crate::observers;
use crate::observers::{ProxyEvent, ProxyEventType};
use crate::servers::authorized_request_context::AuthorizedRequestContext;
use std::sync::Arc;
use vstd::prelude::*;

verus! {

/// The channel of one context, and how far its streams have come.
pub struct StreamingChannel {
    pub request_context: Arc<AuthorizedRequestContext>,
    pub last_updated: u64,
}

impl StreamingChannel {
    pub fn new(request_context: Arc<AuthorizedRequestContext>) -> (r: Self)
        ensures
            r.request_context == request_context,
            r.last_updated == 0,
    {
        StreamingChannel { request_context, last_updated: 0 }
    }

    /// Whether a response goes to the streams: it has data of this context that
    /// is newer than what they have.
    pub open spec fn carries(&self, request: FullRequestContext, response: ResponseContext) -> bool {
        &&& response.lcut > self.last_updated
        &&& self.request_context@.identity() == request.authorized_request_context@.identity()
        &&& response.result_type == DataProviderRequestResult::DataAvailable
    }

    /// Decides whether a response goes to the streams, and names the event where
    /// it does.
    pub fn update(
        &self,
        request_context: &FullRequestContext,
        response_context: &ResponseContext,
    ) -> (r: Option<ProxyEvent>)
        ensures
            match r {
                Some(e) => self.carries(*request_context, *response_context) && e@
                    == observers::counted_event(
                    ProxyEventType::StreamingChannelGotNewData,
                    request_context.authorized_request_context@,
                    None,
                ),
                None => !self.carries(*request_context, *response_context),
            },
    {
        if response_context.lcut > self.last_updated && *self.request_context
            == *request_context.authorized_request_context && response_context.result_type
            == DataProviderRequestResult::DataAvailable {
            Some(
                ProxyEvent::counted(
                    ProxyEventType::StreamingChannelGotNewData,
                    &request_context.authorized_request_context,
                    None,
                ),
            )
        } else {
            None
        }
    }

    /// Takes note of an update that was handed out; one that nobody took does
    /// not count.
    pub fn after_send(&mut self, lcut: u64, delivered: bool)
        ensures
            final(self).request_context == old(self).request_context,
            final(self).last_updated == (if delivered {
                lcut
            } else {
                old(self).last_updated
            }),
    {
        if delivered {
            self.last_updated = lcut;
        }
    }
}

/// What was handed out is not handed out again, nor anything older.
pub proof fn law_streams_see_each_update_once(
    channel: StreamingChannel,
    after: StreamingChannel,
    request: FullRequestContext,
    first: ResponseContext,
    second: ResponseContext,
)
    requires
        channel.carries(request, first),
        after.last_updated == first.lcut,
        after.carries(request, second),
    ensures
        second.lcut > first.lcut,
{
}

/// A channel carries what is newer than all it sent, of its own request and with data, and
/// nothing else.
pub proof fn law_channels_carry_newer_data_of_their_request(
    channel: StreamingChannel,
    request: FullRequestContext,
    response: ResponseContext,
)
    ensures
        channel.carries(request, response) ==> {
            let c = channel.request_context@;
            let d = request.authorized_request_context@;
            &&& c.sdk_key == d.sdk_key
            &&& c.path == d.path
            &&& c.encodings == d.encodings
            &&& c.supports_proto == d.supports_proto
            &&& response.lcut > channel.last_updated
            &&& response.result_type == DataProviderRequestResult::DataAvailable
        },
        channel.request_context == request.authorized_request_context && response.lcut
            > channel.last_updated && response.result_type
            == DataProviderRequestResult::DataAvailable ==> channel.carries(request, response),
{
}

} // verus!
