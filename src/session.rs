use vstd::prelude::*;

use crate::event::{ApiVersion, SseData, SseEvent};

verus! {

/// Why a client session gave up on its upstream.
#[derive(Clone, Copy, Debug, PartialEq, Eq, Structural)]
pub enum SessionError {
    /// The first event on a sub-endpoint was not an API version.
    HandshakeFailed,
    /// A sub-endpoint could not be reached and partial connection is not allowed.
    MissingEndpoint { index: usize },
    /// No sub-endpoint could be reached.
    NoEndpoints,
    /// Every sub-endpoint failed more often than the retry limit allows.
    RetriesExhausted,
}

/// The first unreachable sub-endpoint.
pub open spec fn first_missing(reachable: Seq<bool>) -> Option<int>
    decreases reachable.len(),
{
    if reachable.len() == 0 {
        None
    } else {
        match first_missing(reachable.drop_last()) {
            Some(i) => Some(i),
            None => if !reachable.last() {
                Some(reachable.len() - 1)
            } else {
                None
            },
        }
    }
}

/// The indices of the reachable sub-endpoints, in order.
pub open spec fn reachable_indices(reachable: Seq<bool>) -> Seq<usize>
    decreases reachable.len(),
{
    if reachable.len() == 0 {
        Seq::empty()
    } else if reachable.last() {
        reachable_indices(reachable.drop_last()).push((reachable.len() - 1) as usize)
    } else {
        reachable_indices(reachable.drop_last())
    }
}

/// Decides, from which sub-endpoints answered the probe, those the session
/// streams from. Without partial connection every one must be reachable;
/// with it, any non-empty subset will do.
pub fn check_endpoints(reachable: &Vec<bool>, allow_partial_connection: bool) -> (r: Result<
    Vec<usize>,
    SessionError,
>)
    ensures
        !allow_partial_connection && first_missing(reachable@) is Some ==> r == Err::<
            Vec<usize>,
            SessionError,
        >(SessionError::MissingEndpoint { index: first_missing(reachable@)->Some_0 as usize }),
        (allow_partial_connection || first_missing(reachable@) is None) && reachable_indices(
            reachable@,
        ).len() == 0 ==> r == Err::<Vec<usize>, SessionError>(SessionError::NoEndpoints),
        (allow_partial_connection || first_missing(reachable@) is None) && reachable_indices(
            reachable@,
        ).len() > 0 ==> r is Ok && r->Ok_0@ == reachable_indices(reachable@),
{
    let ghost all = reachable@;
    let mut found: Vec<usize> = Vec::new();
    let mut missing: Option<usize> = None;
    let mut i: usize = 0;
    proof {
        assert(all.take(0) =~= Seq::<bool>::empty());
    }
    while i < reachable.len()
        invariant
            0 <= i <= reachable.len(),
            all == reachable@,
            found@ == reachable_indices(all.take(i as int)),
            missing is None <==> first_missing(all.take(i as int)) is None,
            missing is Some ==> first_missing(all.take(i as int)) == Some(missing->Some_0 as int),
        decreases reachable.len() - i,
    {
        proof {
            assert(all.take(i + 1).drop_last() =~= all.take(i as int));
            assert(all.take(i + 1).last() == all[i as int]);
        }
        if reachable[i] {
            found.push(i);
        } else if missing.is_none() {
            missing = Some(i);
        }
        i += 1;
    }
    proof {
        assert(all.take(i as int) =~= all);
    }
    if !allow_partial_connection {
        if let Some(index) = missing {
            return Err(SessionError::MissingEndpoint { index });
        }
    }
    if found.len() == 0 {
        Err(SessionError::NoEndpoints)
    } else {
        Ok(found)
    }
}

/// Where a sub-endpoint connection stands.
#[derive(Clone, Copy, Debug, PartialEq, Eq, Structural)]
pub enum Phase {
    Connecting,
    AwaitingApiVersion,
    Streaming,
    Backoff,
    Terminated,
}

/// One sub-endpoint's connection: its phase, its consecutive failures, and
/// the ID of the last event it streamed (its bookmark for resuming).
#[derive(Debug)]
pub struct EndpointState {
    pub phase: Phase,
    pub failures: u32,
    pub last_event_id: Option<String>,
}

/// What happened on a sub-endpoint.
#[derive(Debug)]
pub enum EndpointInput {
    /// The connection was established.
    Connected,
    /// Connecting, or reading the stream, failed.
    IoFailure,
    /// An event arrived.
    Received { id: Option<String>, data: SseData },
    /// The delay between retries is over.
    DelayElapsed,
}

/// What is to be done for a sub-endpoint.
#[derive(Debug)]
pub enum EndpointAction {
    /// Connect, resuming after the given event ID if there is one.
    Connect { last_event_id: Option<String> },
    /// Sleep for the delay between retries.
    Wait,
    /// Hand the event on to the processor.
    Forward { id: Option<String>, data: SseData },
    /// Hand the shutdown event on, then sleep before reconnecting.
    ForwardAndWait { id: Option<String>, data: SseData },
    /// The upstream reported its API version.
    Report(ApiVersion),
    /// Give the sub-endpoint up.
    Abandon(SessionError),
    /// Nothing to do.
    Continue,
}

/// The bookmark after an event with ID `id`: that ID, or the old one if the
/// event carried none.
pub open spec fn bookmark(old_id: Option<String>, id: Option<String>) -> Option<String> {
    if id is Some {
        id
    } else {
        old_id
    }
}

/// A failure: back off while retries remain, else give the sub-endpoint up.
pub open spec fn after_failure(s: EndpointState, max_retries: u32) -> (EndpointState, EndpointAction) {
    if s.failures + 1 >= max_retries {
        (EndpointState { phase: Phase::Terminated, ..s }, EndpointAction::Abandon(SessionError::RetriesExhausted))
    } else {
        (
            EndpointState { phase: Phase::Backoff, failures: (s.failures + 1) as u32, ..s },
            EndpointAction::Wait,
        )
    }
}

/// The transition of a sub-endpoint on an input.
pub open spec fn endpoint_step(s: EndpointState, input: EndpointInput, max_retries: u32) -> (
    EndpointState,
    EndpointAction,
) {
    if s.phase is Terminated {
        (s, EndpointAction::Continue)
    } else {
        match input {
            EndpointInput::IoFailure => after_failure(s, max_retries),
            EndpointInput::Connected => if s.phase is Connecting {
                (
                    EndpointState { phase: Phase::AwaitingApiVersion, failures: 0, ..s },
                    EndpointAction::Continue,
                )
            } else {
                (s, EndpointAction::Continue)
            },
            EndpointInput::DelayElapsed => if s.phase is Backoff {
                (
                    EndpointState { phase: Phase::Connecting, ..s },
                    EndpointAction::Connect { last_event_id: s.last_event_id },
                )
            } else {
                (s, EndpointAction::Continue)
            },
            EndpointInput::Received { id, data } => if s.phase is AwaitingApiVersion {
                match data {
                    SseData::ApiVersion(v) => (
                        EndpointState { phase: Phase::Streaming, ..s },
                        EndpointAction::Report(v),
                    ),
                    _ => (
                        EndpointState { phase: Phase::Terminated, ..s },
                        EndpointAction::Abandon(SessionError::HandshakeFailed),
                    ),
                }
            } else if s.phase is Streaming {
                match data {
                    SseData::ApiVersion(_) => (s, EndpointAction::Continue),
                    SseData::Shutdown => (
                        EndpointState {
                            phase: Phase::Backoff,
                            last_event_id: bookmark(s.last_event_id, id),
                            ..s
                        },
                        EndpointAction::ForwardAndWait { id, data },
                    ),
                    _ => (
                        EndpointState { last_event_id: bookmark(s.last_event_id, id), ..s },
                        EndpointAction::Forward { id, data },
                    ),
                }
            } else {
                (s, EndpointAction::Continue)
            },
        }
    }
}

fn copy_id(id: &Option<String>) -> (r: Option<String>)
    ensures
        r == *id,
{
    match id {
        Some(s) => Some(s.clone()),
        None => None,
    }
}

impl EndpointState {
    pub fn new() -> (r: EndpointState)
        ensures
            r == (EndpointState { phase: Phase::Connecting, failures: 0, last_event_id: None }),
    {
        EndpointState { phase: Phase::Connecting, failures: 0, last_event_id: None }
    }

    fn fail(self, max_retries: u32) -> (r: (EndpointState, EndpointAction))
        ensures
            r == after_failure(self, max_retries),
    {
        if self.failures >= max_retries || max_retries - self.failures <= 1 {
            (
                EndpointState { phase: Phase::Terminated, ..self },
                EndpointAction::Abandon(SessionError::RetriesExhausted),
            )
        } else {
            (EndpointState { phase: Phase::Backoff, failures: self.failures + 1, ..self }, EndpointAction::Wait)
        }
    }

    /// Moves the sub-endpoint on by one input. A failure counts against the
    /// retry limit; the first event must be the API version; later API
    /// versions are ignored; a shutdown closes the connection.
    pub fn step(self, input: EndpointInput, max_retries: u32) -> (r: (EndpointState, EndpointAction))
        ensures
            r == endpoint_step(self, input, max_retries),
    {
        if let Phase::Terminated = self.phase {
            return (self, EndpointAction::Continue);
        }
        match input {
            EndpointInput::IoFailure => self.fail(max_retries),
            EndpointInput::Connected => match self.phase {
                Phase::Connecting => (
                    EndpointState { phase: Phase::AwaitingApiVersion, failures: 0, ..self },
                    EndpointAction::Continue,
                ),
                _ => (self, EndpointAction::Continue),
            },
            EndpointInput::DelayElapsed => match self.phase {
                Phase::Backoff => {
                    let last_event_id = copy_id(&self.last_event_id);
                    (
                        EndpointState { phase: Phase::Connecting, ..self },
                        EndpointAction::Connect { last_event_id },
                    )
                },
                _ => (self, EndpointAction::Continue),
            },
            EndpointInput::Received { id, data } => match self.phase {
                Phase::AwaitingApiVersion => match data {
                    SseData::ApiVersion(v) => (
                        EndpointState { phase: Phase::Streaming, ..self },
                        EndpointAction::Report(v),
                    ),
                    _ => (
                        EndpointState { phase: Phase::Terminated, ..self },
                        EndpointAction::Abandon(SessionError::HandshakeFailed),
                    ),
                },
                Phase::Streaming => {
                    if let SseData::ApiVersion(_) = data {
                        return (self, EndpointAction::Continue);
                    }
                    let last_event_id = if id.is_some() {
                        copy_id(&id)
                    } else {
                        self.last_event_id
                    };
                    match data {
                        SseData::Shutdown => (
                            EndpointState { phase: Phase::Backoff, last_event_id, ..self },
                            EndpointAction::ForwardAndWait { id, data: SseData::Shutdown },
                        ),
                        _ => (
                            EndpointState { last_event_id, ..self },
                            EndpointAction::Forward { id, data },
                        ),
                    }
                },
                _ => (self, EndpointAction::Continue),
            },
        }
    }
}

/// What the session asks of the task that runs it, for one sub-endpoint.
#[derive(Debug)]
pub enum SessionAction {
    /// Connect the sub-endpoint, resuming after the given event ID if any.
    Connect { last_event_id: Option<String> },
    /// Sleep for the delay between retries.
    Wait,
    /// Put the event on the processor's queue.
    Enqueue(SseEvent),
    /// Put the event on the processor's queue, then sleep before reconnecting.
    EnqueueAndWait(SseEvent),
    /// Report this source's API version; done once per session.
    ReportVersion(ApiVersion),
    /// The session is over: report the failure and return.
    Terminate(SessionError),
    /// Nothing to do.
    Continue,
}

/// Every sub-endpoint has been given up.
pub open spec fn all_terminated(endpoints: Seq<EndpointState>) -> bool {
    forall|i: int| 0 <= i < endpoints.len() ==> (#[trigger] endpoints[i]).phase is Terminated
}

/// What the session asks for when a sub-endpoint asks for `a`. The API
/// version is reported by the first sub-endpoint only; a failed handshake
/// ends the session; other failures end it once every sub-endpoint is given up.
pub open spec fn session_action(
    reported: bool,
    source: String,
    a: EndpointAction,
    all_done: bool,
) -> SessionAction {
    match a {
        EndpointAction::Connect { last_event_id } => SessionAction::Connect { last_event_id },
        EndpointAction::Wait => SessionAction::Wait,
        EndpointAction::Forward { id, data } => SessionAction::Enqueue(
            SseEvent { id, data, source },
        ),
        EndpointAction::ForwardAndWait { id, data } => SessionAction::EnqueueAndWait(
            SseEvent { id, data, source },
        ),
        EndpointAction::Report(v) => if reported {
            SessionAction::Continue
        } else {
            SessionAction::ReportVersion(v)
        },
        EndpointAction::Abandon(e) => if e is HandshakeFailed || all_done {
            SessionAction::Terminate(e)
        } else {
            SessionAction::Continue
        },
        EndpointAction::Continue => SessionAction::Continue,
    }
}

/// A client session against one upstream: one connection state per
/// sub-endpoint, and whether the API version has been reported yet.
pub struct ClientSession {
    source: String,
    max_retries: u32,
    endpoints: Vec<EndpointState>,
    version_reported: bool,
}

impl ClientSession {
    pub closed spec fn source(&self) -> String {
        self.source
    }

    pub closed spec fn max_retries(&self) -> u32 {
        self.max_retries
    }

    pub closed spec fn endpoints(&self) -> Seq<EndpointState> {
        self.endpoints@
    }

    pub closed spec fn version_reported(&self) -> bool {
        self.version_reported
    }

    /// A session whose sub-endpoints all start out connecting.
    pub fn new(source: String, max_retries: u32, endpoint_count: usize) -> (r: ClientSession)
        ensures
            r.source() == source,
            r.max_retries() == max_retries,
            !r.version_reported(),
            r.endpoints().len() == endpoint_count,
            forall|i: int|
                0 <= i < endpoint_count ==> #[trigger] r.endpoints()[i] == (EndpointState {
                    phase: Phase::Connecting,
                    failures: 0,
                    last_event_id: None,
                }),
    {
        let mut endpoints: Vec<EndpointState> = Vec::new();
        let mut i: usize = 0;
        while i < endpoint_count
            invariant
                0 <= i <= endpoint_count,
                endpoints@.len() == i,
                forall|j: int|
                    0 <= j < i ==> #[trigger] endpoints@[j] == (EndpointState {
                        phase: Phase::Connecting,
                        failures: 0,
                        last_event_id: None,
                    }),
            decreases endpoint_count - i,
        {
            endpoints.push(EndpointState::new());
            i += 1;
        }
        ClientSession { source, max_retries, endpoints, version_reported: false }
    }

    pub fn endpoint_count(&self) -> (r: usize)
        ensures
            r == self.endpoints().len(),
    {
        self.endpoints.len()
    }

    fn finished(&self) -> (r: bool)
        ensures
            r == all_terminated(self.endpoints()),
    {
        let mut i: usize = 0;
        while i < self.endpoints.len()
            invariant
                0 <= i <= self.endpoints.len(),
                forall|j: int| 0 <= j < i ==> (#[trigger] self.endpoints()[j]).phase is Terminated,
            decreases self.endpoints.len() - i,
        {
            if let Phase::Terminated = self.endpoints[i].phase {
            } else {
                return false;
            }
            i += 1;
        }
        true
    }

    /// Moves sub-endpoint `endpoint` on by one input and says what is to be done.
    pub fn handle(&mut self, endpoint: usize, input: EndpointInput) -> (r: SessionAction)
        requires
            endpoint < old(self).endpoints().len(),
        ensures
            ({
                let (st, a) = endpoint_step(
                    old(self).endpoints()[endpoint as int],
                    input,
                    old(self).max_retries(),
                );
                &&& final(self).endpoints() == old(self).endpoints().update(endpoint as int, st)
                &&& final(self).version_reported() == (old(self).version_reported() || a is Report)
                &&& r == session_action(
                    old(self).version_reported(),
                    old(self).source(),
                    a,
                    all_terminated(final(self).endpoints()),
                )
            }),
            final(self).source() == old(self).source(),
            final(self).max_retries() == old(self).max_retries(),
    {
        let ghost before = self.endpoints@;
        let current = self.endpoints.remove(endpoint);
        let (st, a) = current.step(input, self.max_retries);
        self.endpoints.insert(endpoint, st);
        proof {
            assert(self.endpoints@ =~= before.update(endpoint as int, st));
        }
        match a {
            EndpointAction::Connect { last_event_id } => SessionAction::Connect { last_event_id },
            EndpointAction::Wait => SessionAction::Wait,
            EndpointAction::Forward { id, data } => SessionAction::Enqueue(
                SseEvent { id, data, source: self.source.clone() },
            ),
            EndpointAction::ForwardAndWait { id, data } => SessionAction::EnqueueAndWait(
                SseEvent { id, data, source: self.source.clone() },
            ),
            EndpointAction::Report(v) => if self.version_reported {
                SessionAction::Continue
            } else {
                self.version_reported = true;
                SessionAction::ReportVersion(v)
            },
            EndpointAction::Abandon(e) => {
                let handshake = match e {
                    SessionError::HandshakeFailed => true,
                    _ => false,
                };
                if handshake || self.finished() {
                    SessionAction::Terminate(e)
                } else {
                    SessionAction::Continue
                }
            },
            EndpointAction::Continue => SessionAction::Continue,
        }
    }
}

} // verus!
