//! Shared runtime state: scrape bookkeeping, publishing a cycle's outcome,
//! the live-subscriber registry, and the life of one push subscriber.

use vstd::prelude::*;
use vstd::set_lib::*;
use crate::client::{ApiError, EstimatedItem, UsageItem, api_error_text};
use crate::collector::{ScrapeClock, ServiceRecord, build_snapshot, snapshot_of};
use crate::pricing::PricingConfig;
use crate::types::{ApiStatus, MetricsJson, WsMessage, WsStatus};

verus! {

/// Scrape bookkeeping, updated on every cycle.
#[derive(Debug)]
pub struct ApiStatusData {
    /// Unix time of the last successful cycle.
    pub last_success: Option<i64>,
    /// Text of the error of the last cycle, if it failed.
    pub last_error: Option<String>,
    /// Cycles run.
    pub total_scrapes: u64,
    /// Cycles failed.
    pub failed_scrapes: u64,
}

impl Default for ApiStatusData {
    fn default() -> (r: ApiStatusData)
        ensures
            r.last_success.is_none(),
            r.last_error.is_none(),
            r.total_scrapes == 0,
            r.failed_scrapes == 0,
    {
        ApiStatusData { last_success: None, last_error: None, total_scrapes: 0, failed_scrapes: 0 }
    }
}

impl ApiStatusData {
    /// The bookkeeping as reported to clients.
    pub fn report(&self) -> (r: ApiStatus)
        ensures
            r.last_success == self.last_success,
            r.last_error == self.last_error,
            r.total_scrapes == self.total_scrapes,
            r.failed_scrapes == self.failed_scrapes,
    {
        let last_error = match &self.last_error {
            Some(e) => Some(e.clone()),
            None => None,
        };
        ApiStatus {
            last_success: self.last_success,
            last_error,
            total_scrapes: self.total_scrapes,
            failed_scrapes: self.failed_scrapes,
        }
    }
}

/// What the fetches of one cycle brought: the project name, its service list
/// (icons resolved, groups assigned), the usage and the month estimate.
#[derive(Debug)]
pub struct CycleData {
    pub project_name: String,
    pub services: Vec<ServiceRecord>,
    pub usage: Vec<UsageItem>,
    pub estimated: Vec<EstimatedItem>,
}

/// The timestamp a new snapshot is published with: the clock's reading, but
/// never earlier than the snapshot already published, so that readers never
/// see time go backwards.
pub open spec fn publish_time(previous: Option<MetricsJson>, now: i64) -> i64 {
    match previous {
        Some(p) => if now < p.scrape_timestamp {
            p.scrape_timestamp
        } else {
            now
        },
        None => now,
    }
}

/// Completes one collection cycle, given what its fetches brought.
///
/// The cycle is counted whatever happens. A failed fetch fails the whole
/// cycle: it is counted as failed, its error recorded, and the published
/// snapshot is left exactly as it was. Otherwise the new snapshot replaces
/// the published one in one step, and the success is recorded. Published
/// timestamps never decrease (see `publish_time`).
pub fn run_cycle(
    status: &mut ApiStatusData,
    latest: &mut Option<MetricsJson>,
    pricing: &PricingConfig,
    fetched: Result<CycleData, ApiError>,
    clock: &ScrapeClock,
    duration_millis: u64,
) -> (r: Result<(), ApiError>)
    requires
        old(status).total_scrapes < u64::MAX,
        old(status).failed_scrapes < u64::MAX,
        pricing.wf(),
        clock.wf(),
    ensures
        final(status).total_scrapes == old(status).total_scrapes + 1,
        final(status).failed_scrapes == old(status).failed_scrapes + (if fetched is Err {
            1int
        } else {
            0int
        }),
        match fetched {
            Err(e) => {
                &&& r == Err::<(), ApiError>(e)
                &&& *final(latest) == *old(latest)
                &&& final(status).last_success == old(status).last_success
                &&& final(status).last_error matches Some(m) && m@ == api_error_text(e)
            },
            Ok(d) => {
                &&& r is Ok
                &&& *final(latest) matches Some(s) && snapshot_of(
                    s,
                    d.project_name@,
                    d.services@,
                    d.usage@,
                    d.estimated@,
                    *pricing,
                    *clock,
                    publish_time(*old(latest), clock.timestamp),
                    duration_millis,
                )
                &&& *old(latest) matches Some(p) ==> (*final(latest) matches Some(s)
                    && s.scrape_timestamp >= p.scrape_timestamp)
                &&& final(status).last_success == Some(publish_time(*old(latest), clock.timestamp))
                &&& final(status).last_error.is_none()
            },
        },
{
    status.total_scrapes = status.total_scrapes + 1;
    match fetched {
        Err(e) => {
            status.failed_scrapes = status.failed_scrapes + 1;
            status.last_error = Some(e.message());
            Err(e)
        },
        Ok(d) => {
            let published_at = match &*latest {
                Some(p) => if clock.timestamp < p.scrape_timestamp {
                    p.scrape_timestamp
                } else {
                    clock.timestamp
                },
                None => clock.timestamp,
            };
            let snapshot = build_snapshot(
                d.project_name.as_str(),
                &d.services,
                &d.usage,
                &d.estimated,
                pricing,
                clock,
                published_at,
                duration_millis,
            );
            *latest = Some(snapshot);
            status.last_success = Some(published_at);
            status.last_error = None;
            Ok(())
        },
    }
}

/// What a new push subscriber is sent before any broadcast: the status, then
/// the current snapshot when there is one.
pub fn greeting(status: WsStatus, latest: Option<MetricsJson>) -> (r: Vec<WsMessage>)
    ensures
        r@.len() == if latest is Some { 2int } else { 1int },
        r@[0] == WsMessage::Status(status),
        latest matches Some(m) ==> r@[1] == WsMessage::Metrics(m),
{
    let mut out: Vec<WsMessage> = Vec::new();
    out.push(WsMessage::Status(status));
    if let Some(m) = latest {
        out.push(WsMessage::Metrics(m));
    }
    out
}

/// The status heartbeat of the push channel.
pub fn heartbeat(uptime_seconds: u64, status: &ApiStatusData, clients: u32) -> (r: WsStatus)
    ensures
        r.uptime_seconds == uptime_seconds,
        r.ws_clients == clients,
        r.api.last_success == status.last_success,
        r.api.last_error == status.last_error,
        r.api.total_scrapes == status.total_scrapes,
        r.api.failed_scrapes == status.failed_scrapes,
{
    WsStatus { uptime_seconds, api: status.report(), ws_clients: clients }
}

/// The live push subscribers. Each connection gets its own ticket, so a
/// subscriber leaving is counted once however many times its end is reported.
#[derive(Debug)]
pub struct SubscriberRegistry {
    live: Vec<u64>,
    next_ticket: u64,
}

/// The live tickets after the subscribers of `gone` left, one after another.
pub open spec fn after_leaving(live: Set<u64>, gone: Seq<u64>) -> Set<u64>
    decreases gone.len(),
{
    if gone.len() == 0 {
        live
    } else {
        after_leaving(live, gone.drop_last()).remove(gone.last())
    }
}

/// Subscribers leaving, in any order and with any repeats, take away exactly
/// the distinct subscribers that left: of `M` live ones, `N` distinct ones
/// leaving leave `M - N`.
pub proof fn lemma_leaving_counts_once(live: Set<u64>, gone: Seq<u64>)
    requires
        live.finite(),
        forall|i: int| 0 <= i < gone.len() ==> live.contains(#[trigger] gone[i]),
    ensures
        after_leaving(live, gone) == live.difference(gone.to_set()),
        after_leaving(live, gone).len() == live.len() - gone.to_set().len(),
    decreases gone.len(),
{
    if gone.len() == 0 {
        assert(gone.to_set() =~= Set::<u64>::empty());
        assert(live.difference(gone.to_set()) =~= live);
    } else {
        let rest = gone.drop_last();
        assert forall|i: int| 0 <= i < rest.len() implies live.contains(#[trigger] rest[i]) by {
            assert(rest[i] == gone[i]);
        }
        lemma_leaving_counts_once(live, rest);
        assert(gone =~= rest + seq![gone.last()]);
        Seq::<u64>::lemma_to_set_insert_commutes(rest, gone.last());
        assert(gone.to_set() =~= rest.to_set().insert(gone.last()));
        assert(after_leaving(live, gone) =~= live.difference(gone.to_set()));
    }
    assert(gone.to_set().subset_of(live)) by {
        assert forall|x: u64| gone.to_set().contains(x) implies live.contains(x) by {
            let i = choose|i: int| 0 <= i < gone.len() && gone[i] == x;
            assert(live.contains(gone[i]));
        }
    }
    lemma_set_difference_len(live, gone.to_set());
    lemma_len_subset(gone.to_set(), live);
    assert(live.intersect(gone.to_set()) =~= gone.to_set());
}

impl SubscriberRegistry {
    /// The tickets of the live subscribers.
    pub closed spec fn tickets(&self) -> Set<u64> {
        self.live@.to_set()
    }

    /// Tickets are unique and come from the counter.
    pub closed spec fn wf(&self) -> bool {
        &&& self.live@.no_duplicates()
        &&& forall|i: int| 0 <= i < self.live@.len() ==> #[trigger] self.live@[i] < self.next_ticket
    }

    /// The number of live subscribers.
    pub closed spec fn count_spec(&self) -> nat {
        self.live@.len()
    }

    /// The next ticket to be handed out.
    pub closed spec fn next_spec(&self) -> u64 {
        self.next_ticket
    }

    /// The count is the number of live tickets.
    pub proof fn lemma_count_is_tickets(&self)
        requires
            self.wf(),
        ensures
            self.count_spec() == self.tickets().len(),
            self.tickets().finite(),
    {
        self.live@.unique_seq_to_set();
    }

    /// No subscribers.
    pub fn new() -> (r: SubscriberRegistry)
        ensures
            r.wf(),
            r.tickets() == Set::<u64>::empty(),
            r.count_spec() == 0,
            r.next_spec() == 0,
    {
        let r = SubscriberRegistry { live: Vec::new(), next_ticket: 0 };
        assert(r.live@.to_set() =~= Set::<u64>::empty());
        r
    }

    /// A subscriber connects: it gets a fresh ticket; returns the ticket and
    /// the new count.
    pub fn ws_client_connect(&mut self) -> (r: (u64, u32))
        requires
            old(self).wf(),
            old(self).count_spec() < u32::MAX,
            old(self).next_spec() < u64::MAX,
        ensures
            final(self).wf(),
            !old(self).tickets().contains(r.0),
            final(self).tickets() == old(self).tickets().insert(r.0),
            final(self).count_spec() == old(self).count_spec() + 1,
            r.1 == final(self).count_spec(),
            final(self).next_spec() == old(self).next_spec() + 1,
    {
        let t = self.next_ticket;
        let ghost before = self.live@;
        self.live.push(t);
        self.next_ticket = t + 1;
        proof {
            assert(!before.contains(t)) by {
                if before.contains(t) {
                    let i = choose|i: int| 0 <= i < before.len() && before[i] == t;
                    assert(before[i] < t);
                }
            }
            assert(self.live@ =~= before + seq![t]);
            Seq::<u64>::lemma_to_set_insert_commutes(before, t);
            assert forall|i: int, j: int|
                0 <= i < self.live@.len() && 0 <= j < self.live@.len() && i != j implies self.live@[i]
                != self.live@[j] by {
                if i < before.len() && j < before.len() {
                    assert(before.no_duplicates());
                } else if i < before.len() {
                    assert(before.contains(before[i]));
                } else {
                    assert(before.contains(before[j]));
                }
            }
            assert(!before.to_set().contains(t));
        }
        (t, self.live.len() as u32)
    }

    /// The subscriber with ticket `ticket` leaves; a ticket that is not live
    /// (already gone, or never handed out) changes nothing. Returns the new
    /// count.
    pub fn ws_client_disconnect(&mut self, ticket: u64) -> (r: u32)
        requires
            old(self).wf(),
            old(self).count_spec() <= u32::MAX,
        ensures
            final(self).wf(),
            final(self).tickets() == old(self).tickets().remove(ticket),
            final(self).count_spec() == if old(self).tickets().contains(ticket) {
                old(self).count_spec() - 1
            } else {
                old(self).count_spec() as int
            },
            r == final(self).count_spec(),
            final(self).next_spec() == old(self).next_spec(),
    {
        let n = self.live.len();
        let mut i: usize = 0;
        while i < n
            invariant
                *self == *old(self),
                old(self).count_spec() <= u32::MAX,
                self.wf(),
                n == self.live.len(),
                0 <= i <= n,
                forall|j: int| 0 <= j < i ==> self.live@[j] != ticket,
            decreases n - i,
        {
            if self.live[i] == ticket {
                let ghost before = self.live@;
                self.live.remove(i);
                proof {
                    assert(self.live@ =~= before.remove(i as int));
                    assert(before.no_duplicates());
                    assert forall|a: int, b: int|
                        0 <= a < self.live@.len() && 0 <= b < self.live@.len() && a != b implies self.live@[a]
                        != self.live@[b] by {
                        let a2 = if a < i { a } else { a + 1 };
                        let b2 = if b < i { b } else { b + 1 };
                        assert(self.live@[a] == before[a2]);
                        assert(self.live@[b] == before[b2]);
                    }
                    assert forall|k: int| 0 <= k < self.live@.len() implies #[trigger] self.live@[k]
                        < self.next_ticket by {
                        if k < i {
                            assert(self.live@[k] == before[k]);
                        } else {
                            assert(self.live@[k] == before[k + 1]);
                        }
                    }
                    assert(!self.live@.contains(ticket)) by {
                        if self.live@.contains(ticket) {
                            let k = choose|k: int| 0 <= k < self.live@.len() && self.live@[k] == ticket;
                            if k < i {
                                assert(before[k] == before[i as int]);
                            } else {
                                assert(before[k + 1] == before[i as int]);
                            }
                        }
                    }
                    assert forall|x: u64| self.live@.to_set().contains(x) == before.to_set().remove(
                        ticket,
                    ).contains(x) by {
                        if self.live@.contains(x) {
                            let k = choose|k: int| 0 <= k < self.live@.len() && self.live@[k] == x;
                            if k < i {
                                assert(before[k] == x);
                            } else {
                                assert(before[k + 1] == x);
                            }
                            assert(before.contains(x));
                        }
                        if before.contains(x) && x != ticket {
                            let k = choose|k: int| 0 <= k < before.len() && before[k] == x;
                            if k < i {
                                assert(self.live@[k] == x);
                            } else {
                                assert(k != i);
                                assert(self.live@[k - 1] == x);
                            }
                            assert(self.live@.contains(x));
                        }
                    }
                    assert(self.live@.to_set() =~= before.to_set().remove(ticket));
                    assert(before.to_set().contains(ticket)) by {
                        assert(before[i as int] == ticket);
                    }
                    assert(before == old(self).live@);
                    assert(self.live@.len() + 1 == old(self).live@.len());
                }
                return self.live.len() as u32;
            }
            i += 1;
        }
        proof {
            assert(!self.live@.contains(ticket));
            assert(self.live@.to_set() =~= self.live@.to_set().remove(ticket));
        }
        self.live.len() as u32
    }

    /// The number of live subscribers.
    pub fn ws_client_count(&self) -> (r: u32)
        requires
            self.count_spec() <= u32::MAX,
        ensures
            r == self.count_spec(),
    {
        self.live.len() as u32
    }
}

/// Where one push subscriber stands.
#[derive(Debug, Clone, Copy, PartialEq, Eq, Structural)]
pub enum SessionState {
    /// Connected; the greeting is being sent.
    Greeting,
    /// Receiving broadcasts and heartbeats.
    Streaming,
    /// Gone; it has been taken out of the count.
    Closed,
}

/// Something that happens to a push subscriber.
#[derive(Debug)]
pub enum SessionEvent {
    /// The greeting was sent in full.
    Greeted,
    /// The heartbeat interval elapsed.
    Tick,
    /// The client sent a ping with this payload.
    Ping(Vec<u8>),
    /// The client sent a close frame, or its stream ended.
    ClientClosed,
    /// A broadcast message, already serialized.
    Broadcast(String),
    /// The subscriber fell behind the channel's buffer and missed messages.
    Lagged,
    /// The broadcast channel is closed.
    ChannelClosed,
    /// Sending to the client failed.
    SendFailed,
    /// Any other frame from the client.
    Other,
}

/// What to do about an event.
#[derive(Debug, PartialEq, Eq)]
pub enum SessionAction {
    /// Nothing.
    Nothing,
    /// Send a status heartbeat.
    SendStatus,
    /// Answer a ping with this payload.
    SendPong(Vec<u8>),
    /// Pass this broadcast message on.
    Forward(String),
    /// End the connection and take the subscriber out of the count.
    Disconnect,
}

/// The next state and action of a push subscriber for an event.
///
/// A subscriber that falls behind the channel is disconnected rather than
/// left to skip messages: a client that cannot keep up reconnects and is
/// greeted with the current snapshot. Once closed, nothing more happens, so a
/// subscriber is disconnected (and taken out of the count) exactly once.
pub open spec fn session_step(s: SessionState, e: SessionEvent) -> (SessionState, SessionAction) {
    match s {
        SessionState::Closed => (SessionState::Closed, SessionAction::Nothing),
        _ => match e {
            SessionEvent::Greeted => (SessionState::Streaming, SessionAction::Nothing),
            SessionEvent::Tick => if s == SessionState::Streaming {
                (s, SessionAction::SendStatus)
            } else {
                (s, SessionAction::Nothing)
            },
            SessionEvent::Ping(d) => (s, SessionAction::SendPong(d)),
            SessionEvent::Broadcast(m) => if s == SessionState::Streaming {
                (s, SessionAction::Forward(m))
            } else {
                (s, SessionAction::Nothing)
            },
            SessionEvent::Other => (s, SessionAction::Nothing),
            _ => (SessionState::Closed, SessionAction::Disconnect),
        },
    }
}

/// One push subscriber's connection.
#[derive(Debug)]
pub struct Session {
    pub ticket: u64,
    pub state: SessionState,
}

impl Session {
    /// A subscriber that has just connected with `ticket`.
    pub fn new(ticket: u64) -> (r: Session)
        ensures
            r.ticket == ticket,
            r.state == SessionState::Greeting,
    {
        Session { ticket, state: SessionState::Greeting }
    }

    /// Moves the subscriber on by one event (see `session_step`).
    pub fn on_event(&mut self, e: SessionEvent) -> (r: SessionAction)
        ensures
            (final(self).state, r) == session_step(old(self).state, e),
            final(self).ticket == old(self).ticket,
    {
        if self.state == SessionState::Closed {
            return SessionAction::Nothing;
        }
        match e {
            SessionEvent::Greeted => {
                self.state = SessionState::Streaming;
                SessionAction::Nothing
            },
            SessionEvent::Tick => {
                if self.state == SessionState::Streaming {
                    SessionAction::SendStatus
                } else {
                    SessionAction::Nothing
                }
            },
            SessionEvent::Ping(d) => SessionAction::SendPong(d),
            SessionEvent::Broadcast(m) => {
                if self.state == SessionState::Streaming {
                    SessionAction::Forward(m)
                } else {
                    SessionAction::Nothing
                }
            },
            SessionEvent::Other => SessionAction::Nothing,
            _ => {
                self.state = SessionState::Closed;
                SessionAction::Disconnect
            },
        }
    }
}

/// The states a subscriber passes through on a run of events, and the
/// number of `Disconnect` actions along the way.
pub open spec fn disconnects(s: SessionState, events: Seq<SessionEvent>) -> (SessionState, nat)
    decreases events.len(),
{
    if events.len() == 0 {
        (s, 0)
    } else {
        let (t, n) = disconnects(s, events.drop_last());
        let (u, a) = session_step(t, events.last());
        (u, n + if a == SessionAction::Disconnect { 1nat } else { 0nat })
    }
}

/// Whatever events a subscriber sees, it is disconnected at most once, and
/// exactly once if it ends closed having started open.
pub proof fn lemma_disconnect_once(s: SessionState, events: Seq<SessionEvent>)
    ensures
        disconnects(s, events).1 <= 1,
        s == SessionState::Closed ==> disconnects(s, events).1 == 0,
        s == SessionState::Closed ==> disconnects(s, events).0 == SessionState::Closed,
        s != SessionState::Closed ==> (disconnects(s, events).1 == 1 <==> disconnects(
            s,
            events,
        ).0 == SessionState::Closed),
    decreases events.len(),
{
    if events.len() > 0 {
        lemma_disconnect_once(s, events.drop_last());
    }
}

/// A subscriber that has not been greeted yet is still being greeted or has
/// left: it is never `Streaming`.
proof fn lemma_ungreeted_state(events: Seq<SessionEvent>)
    requires
        forall|j: int| 0 <= j < events.len() ==> !(#[trigger] events[j] is Greeted),
    ensures
        disconnects(SessionState::Greeting, events).0 != SessionState::Streaming,
    decreases events.len(),
{
    if events.len() > 0 {
        let rest = events.drop_last();
        assert forall|j: int| 0 <= j < rest.len() implies !(#[trigger] rest[j] is Greeted) by {
            assert(rest[j] == events[j]);
        }
        lemma_ungreeted_state(rest);
        assert(!(events[events.len() - 1] is Greeted));
    }
}

/// Nothing is passed on to a subscriber, and no heartbeat sent, before its
/// greeting (status, then snapshot) has gone out in full.
pub proof fn lemma_greeting_comes_first(events: Seq<SessionEvent>, i: int)
    requires
        0 <= i < events.len(),
        forall|j: int| 0 <= j < i ==> !(#[trigger] events[j] is Greeted),
    ensures
        !(session_step(disconnects(SessionState::Greeting, events.subrange(0, i)).0, events[i]).1 is Forward),
        !(session_step(disconnects(SessionState::Greeting, events.subrange(0, i)).0, events[i]).1 is SendStatus),
{
    let prefix = events.subrange(0, i);
    assert forall|j: int| 0 <= j < prefix.len() implies !(#[trigger] prefix[j] is Greeted) by {
        assert(prefix[j] == events[j]);
    }
    lemma_ungreeted_state(prefix);
}

} // verus!
