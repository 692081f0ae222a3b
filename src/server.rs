use vstd::prelude::*;

use crate::event::{equivalent, ApiVersion, SseData};
use crate::rendezvous::{agree_api_versions, agreed_version, StartError};
use crate::session::SessionError;

verus! {

/// Settings of the outbound event stream server.
#[derive(Clone, Copy, Debug, PartialEq, Eq, Structural)]
pub struct ServerConfig {
    pub port: u16,
    /// How many recent events the replay ring holds.
    pub event_stream_buffer_length: u32,
    /// How many subscribers may be connected at once.
    pub max_concurrent_subscribers: u32,
}

impl ServerConfig {
    pub fn new(port: u16, event_stream_buffer_length: u32, max_concurrent_subscribers: u32) -> (r:
        ServerConfig)
        ensures
            r == (ServerConfig { port, event_stream_buffer_length, max_concurrent_subscribers }),
    {
        ServerConfig { port, event_stream_buffer_length, max_concurrent_subscribers }
    }
}

/// An event as a subscriber receives it: the handshake carries no ID, every
/// broadcast event carries the ID the server gave it.
#[derive(Debug)]
pub struct OutboundEvent {
    pub id: Option<u64>,
    pub data: SseData,
}

/// Two outbound event lists hold the same IDs and alike payloads.
pub open spec fn same_events(a: Seq<OutboundEvent>, b: Seq<OutboundEvent>) -> bool {
    &&& a.len() == b.len()
    &&& forall|i: int|
        0 <= i < a.len() ==> (#[trigger] a[i]).id == b[i].id && equivalent(a[i].data, b[i].data)
}

/// The event a new subscriber receives first.
pub open spec fn handshake(v: ApiVersion) -> OutboundEvent {
    OutboundEvent { id: None, data: SseData::ApiVersion(v) }
}

/// The last `cap` events of `s`, or all of them if there are fewer.
pub open spec fn window(s: Seq<OutboundEvent>, cap: nat) -> Seq<OutboundEvent> {
    if s.len() > cap {
        s.subrange(s.len() - cap, s.len() as int)
    } else {
        s
    }
}

/// The ID of the oldest event in a ring that ends just before `next_id`.
pub open spec fn first_id(ring: Seq<OutboundEvent>, next_id: u64) -> int {
    next_id - ring.len()
}

/// What a subscriber resuming after `last` is replayed: the events after it
/// when it is still in the ring, else nothing (it starts from the live tail).
pub open spec fn replay_after(ring: Seq<OutboundEvent>, next_id: u64, last: Option<u64>) -> Seq<
    OutboundEvent,
> {
    match last {
        Some(id) => if first_id(ring, next_id) <= id < next_id {
            ring.subrange(id - first_id(ring, next_id) + 1, ring.len() as int)
        } else {
            Seq::empty()
        },
        None => Seq::empty(),
    }
}

/// A subscriber was refused: the server holds its maximum of subscribers
/// (an HTTP 503 on the wire).
#[derive(Clone, Copy, Debug, PartialEq, Eq, Structural)]
pub enum SubscribeError {
    TooManySubscribers,
}

/// A subscriber fell behind the replay ring: events it had not received
/// were evicted, so it is dropped.
#[derive(Clone, Copy, Debug, PartialEq, Eq, Structural)]
pub enum DeliveryError {
    Lagged,
}

/// The outbound event stream: a replay ring of the latest broadcast events,
/// each with a monotonic ID, a subscriber count with a cap, and the API
/// version every subscriber is greeted with.
pub struct EventStreamServer {
    config: ServerConfig,
    api_version: ApiVersion,
    next_id: u64,
    ring: Vec<OutboundEvent>,
    subscribers: u32,
}

impl EventStreamServer {
    pub closed spec fn config(&self) -> ServerConfig {
        self.config
    }

    pub closed spec fn version(&self) -> ApiVersion {
        self.api_version
    }

    /// The ID the next broadcast event gets.
    pub closed spec fn next(&self) -> u64 {
        self.next_id
    }

    /// The replay ring, oldest first.
    pub closed spec fn ring(&self) -> Seq<OutboundEvent> {
        self.ring@
    }

    pub closed spec fn subscriber_count(&self) -> u32 {
        self.subscribers
    }

    /// The ring fits its configured length and holds the events with IDs
    /// just before `next()`, in order.
    pub open spec fn wf(&self) -> bool {
        &&& self.ring().len() <= self.config().event_stream_buffer_length
        &&& self.ring().len() <= self.next()
        &&& forall|i: int|
            0 <= i < self.ring().len() ==> (#[trigger] self.ring()[i]).id == Some(
                (first_id(self.ring(), self.next()) + i) as u64,
            )
    }

    pub fn new(config: ServerConfig, api_version: ApiVersion) -> (r: EventStreamServer)
        ensures
            r.wf(),
            r.config() == config,
            r.version() == api_version,
            r.next() == 0,
            r.ring().len() == 0,
            r.subscriber_count() == 0,
    {
        EventStreamServer { config, api_version, next_id: 0, ring: Vec::new(), subscribers: 0 }
    }

    pub fn api_version(&self) -> (r: ApiVersion)
        ensures
            r == self.version(),
    {
        self.api_version
    }

    pub fn next_event_id(&self) -> (r: u64)
        ensures
            r == self.next(),
    {
        self.next_id
    }

    pub fn active_subscribers(&self) -> (r: u32)
        ensures
            r == self.subscriber_count(),
    {
        self.subscribers
    }

    /// Appends an event to the ring under the next ID, evicting the oldest
    /// event when the ring is full.
    pub fn broadcast(&mut self, data: SseData)
        requires
            old(self).wf(),
            old(self).next() < u64::MAX,
        ensures
            final(self).wf(),
            final(self).next() == old(self).next() + 1,
            final(self).ring() == window(
                old(self).ring().push(OutboundEvent { id: Some(old(self).next()), data }),
                old(self).config().event_stream_buffer_length as nat,
            ),
            final(self).config() == old(self).config(),
            final(self).version() == old(self).version(),
            final(self).subscriber_count() == old(self).subscriber_count(),
    {
        let ghost pushed = self.ring@.push(OutboundEvent { id: Some(self.next_id), data });
        let ghost n0 = self.next_id;
        self.ring.push(OutboundEvent { id: Some(self.next_id), data });
        if self.ring.len() > self.config.event_stream_buffer_length as usize {
            self.ring.remove(0);
            assert(self.ring@ =~= pushed.subrange(1, pushed.len() as int));
        }
        self.next_id = self.next_id + 1;
        assert forall|i: int| 0 <= i < self.ring().len() implies (#[trigger] self.ring()[i]).id
            == Some((first_id(self.ring(), self.next()) + i) as u64) by {
            if pushed.len() > self.config.event_stream_buffer_length {
                assert(self.ring()[i] == pushed[i + 1]);
            } else {
                assert(self.ring()[i] == pushed[i]);
            }
        }
    }

    fn copy_range(&self, from: usize) -> (r: Vec<OutboundEvent>)
        requires
            from <= self.ring().len(),
        ensures
            same_events(r@, self.ring().subrange(from as int, self.ring().len() as int)),
    {
        let mut r: Vec<OutboundEvent> = Vec::new();
        let mut i: usize = from;
        while i < self.ring.len()
            invariant
                from <= i <= self.ring.len(),
                same_events(r@, self.ring().subrange(from as int, i as int)),
            decreases self.ring.len() - i,
        {
            let e = &self.ring[i];
            r.push(OutboundEvent { id: e.id, data: e.data.duplicate() });
            i += 1;
        }
        r
    }

    /// Admits a subscriber and returns what it receives first: the API
    /// version handshake, then the replay of the ring after `last_event_id`.
    /// Refused when the subscriber cap is reached.
    pub fn subscribe(&mut self, last_event_id: Option<u64>) -> (r: Result<
        Vec<OutboundEvent>,
        SubscribeError,
    >)
        requires
            old(self).wf(),
        ensures
            final(self).wf(),
            final(self).config() == old(self).config(),
            final(self).version() == old(self).version(),
            final(self).next() == old(self).next(),
            final(self).ring() == old(self).ring(),
            old(self).subscriber_count() >= old(self).config().max_concurrent_subscribers ==> r
                == Err::<Vec<OutboundEvent>, SubscribeError>(SubscribeError::TooManySubscribers)
                && final(self).subscriber_count() == old(self).subscriber_count(),
            old(self).subscriber_count() < old(self).config().max_concurrent_subscribers ==> r is Ok
                && final(self).subscriber_count() == old(self).subscriber_count() + 1
                && r->Ok_0@.len() >= 1 && r->Ok_0@[0] == handshake(old(self).version())
                && same_events(
                r->Ok_0@.drop_first(),
                replay_after(old(self).ring(), old(self).next(), last_event_id),
            ),
    {
        if self.subscribers >= self.config.max_concurrent_subscribers {
            return Err(SubscribeError::TooManySubscribers);
        }
        self.subscribers = self.subscribers + 1;
        let len = self.ring.len();
        let first = self.next_id - len as u64;
        let from: usize = match last_event_id {
            Some(id) => if first <= id && id < self.next_id {
                (id - first) as usize + 1
            } else {
                len
            },
            None => len,
        };
        let replay = self.copy_range(from);
        let mut out: Vec<OutboundEvent> = Vec::new();
        out.push(OutboundEvent { id: None, data: SseData::ApiVersion(self.api_version) });
        let mut i: usize = 0;
        let mut replay = replay;
        let ghost rp = replay@;
        let n: usize = replay.len();
        while replay.len() > 0
            invariant
                0 <= i <= rp.len(),
                rp.len() == n,
                replay@ == rp.subrange(i as int, rp.len() as int),
                out@.len() == i + 1,
                out@[0] == handshake(self.version()),
                forall|k: int| 0 <= k < i ==> out@[k + 1] == #[trigger] rp[k],
            decreases replay.len(),
        {
            let e = replay.remove(0);
            out.push(e);
            i += 1;
        }
        proof {
            let want = replay_after(self.ring(), self.next(), last_event_id);
            assert(self.ring().subrange(from as int, self.ring().len() as int) =~= want);
            assert forall|k: int| 0 <= k < out@.drop_first().len() implies (
            #[trigger] out@.drop_first()[k]).id == want[k].id && equivalent(
                out@.drop_first()[k].data,
                want[k].data,
            ) by {
                assert(out@.drop_first()[k] == rp[k]);
            }
        }
        Ok(out)
    }

    /// Lets a subscriber go.
    pub fn unsubscribe(&mut self)
        requires
            old(self).wf(),
        ensures
            final(self).wf(),
            final(self).config() == old(self).config(),
            final(self).version() == old(self).version(),
            final(self).next() == old(self).next(),
            final(self).ring() == old(self).ring(),
            final(self).subscriber_count() == (if old(self).subscriber_count() > 0 {
                old(self).subscriber_count() - 1
            } else {
                0
            }),
    {
        if self.subscribers > 0 {
            self.subscribers = self.subscribers - 1;
        }
    }

    /// The events a subscriber whose next wanted ID is `from_id` is yet to
    /// receive. A subscriber that wants an ID already evicted from the ring
    /// has fallen behind and is refused.
    pub fn pending(&self, from_id: u64) -> (r: Result<Vec<OutboundEvent>, DeliveryError>)
        requires
            self.wf(),
        ensures
            from_id < first_id(self.ring(), self.next()) ==> r == Err::<
                Vec<OutboundEvent>,
                DeliveryError,
            >(DeliveryError::Lagged),
            from_id >= first_id(self.ring(), self.next()) ==> r is Ok && same_events(
                r->Ok_0@,
                if from_id < self.next() {
                    self.ring().subrange(
                        from_id - first_id(self.ring(), self.next()),
                        self.ring().len() as int,
                    )
                } else {
                    Seq::empty()
                },
            ),
    {
        let len = self.ring.len();
        let first = self.next_id - len as u64;
        if from_id < first {
            return Err(DeliveryError::Lagged);
        }
        if from_id >= self.next_id {
            let r = Vec::new();
            proof {
                assert(self.ring().subrange(len as int, len as int) =~= Seq::<
                    OutboundEvent,
                >::empty());
            }
            return Ok(r);
        }
        Ok(self.copy_range((from_id - first) as usize))
    }
}

/// Starts the event stream server once every session has reported: with the
/// agreed API version, or not at all.
pub fn start_event_stream_server(
    config: ServerConfig,
    reports: &Vec<Result<ApiVersion, SessionError>>,
) -> (r: Result<EventStreamServer, StartError>)
    ensures
        agreed_version(reports@) is Err ==> r == Err::<EventStreamServer, StartError>(
            agreed_version(reports@)->Err_0,
        ),
        agreed_version(reports@) is Ok ==> r is Ok && r->Ok_0.wf() && r->Ok_0.version()
            == agreed_version(reports@)->Ok_0 && r->Ok_0.config() == config && r->Ok_0.next() == 0
            && r->Ok_0.ring().len() == 0 && r->Ok_0.subscriber_count() == 0,
{
    match agree_api_versions(reports) {
        Ok(v) => Ok(EventStreamServer::new(config, v)),
        Err(e) => Err(e),
    }
}

} // verus!
