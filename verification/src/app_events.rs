//! The App Server connection's decisions: the initialize handshake, event
//! subscriptions and their filters, resync detection, request timeouts and
//! the first-wins termination of a request.

use vstd::prelude::*;
use crate::json::{entries_get, json_as_str, json_get, parsed_json, JsonValue, JsonView};
use crate::browser::ExecutionResultStatus;
use crate::text::{non_empty_trimmed, opt_str_view, opt_string_view, str_to_string, trim, trimmed_non_empty};

verus! {

/// An event of the event stream, with the scope it belongs to.
#[derive(Debug)]
pub struct EventEnvelope {
    pub event_id: String,
    pub event_type: String,
    pub sequence: u64,
    pub occurred_at: u64,
    pub session_id: Option<String>,
    pub workspace_id: Option<String>,
    pub payload: JsonValue,
}

/// A connection's event subscription.
#[derive(Clone, Debug)]
pub struct EventSubscription {
    pub active: bool,
    pub session_id: Option<String>,
    pub workspace_id: Option<String>,
    pub after_sequence: u64,
}

/// The recent events of the stream, and the sequence number the next event
/// gets.
#[derive(Debug)]
pub struct EventStreamSnapshot {
    pub next_sequence: u64,
    pub recent_events: Vec<EventEnvelope>,
}

/// An event is in a subscription's scope: it belongs to the subscribed
/// session and to the subscribed workspace, where these are given.
pub open spec fn in_scope(event: EventEnvelope, subscription: EventSubscription) -> bool {
    (subscription.session_id matches Some(s) ==> opt_string_view(event.session_id) == Some(s@))
        && (subscription.workspace_id matches Some(w) ==> opt_string_view(event.workspace_id) == Some(w@))
}

fn opt_eq(a: &Option<String>, b: &String) -> (r: bool)
    ensures
        r == (opt_string_view(*a) == Some(b@)),
{
    crate::text::opt_str_eq(a, b.as_str())
}

/// Whether an event is in a subscription's scope.
pub fn event_matches(event: &EventEnvelope, subscription: &EventSubscription) -> (r: bool)
    ensures
        r == in_scope(*event, *subscription),
{
    if let Some(session_id) = &subscription.session_id {
        if !opt_eq(&event.session_id, session_id) {
            return false;
        }
    }
    if let Some(workspace_id) = &subscription.workspace_id {
        if !opt_eq(&event.workspace_id, workspace_id) {
            return false;
        }
    }
    true
}

fn copy_event(event: &EventEnvelope) -> (r: EventEnvelope)
    ensures
        r.event_id == event.event_id,
        r.event_type == event.event_type,
        r.sequence == event.sequence,
        r.occurred_at == event.occurred_at,
        r.session_id == event.session_id,
        r.workspace_id == event.workspace_id,
        r.payload@ == event.payload@,
{
    EventEnvelope {
        event_id: event.event_id.clone(),
        event_type: event.event_type.clone(),
        sequence: event.sequence,
        occurred_at: event.occurred_at,
        session_id: crate::text::copy_opt_string(&event.session_id),
        workspace_id: crate::text::copy_opt_string(&event.workspace_id),
        payload: crate::json::copy_json(&event.payload),
    }
}

/// `e` is a copy of `d`: every field alike, the payload by its view.
pub open spec fn same_event(e: EventEnvelope, d: EventEnvelope) -> bool {
    &&& e.event_id == d.event_id
    &&& e.event_type == d.event_type
    &&& e.sequence == d.sequence
    &&& e.occurred_at == d.occurred_at
    &&& e.session_id == d.session_id
    &&& e.workspace_id == d.workspace_id
    &&& e.payload@ == d.payload@
}

/// `events` are, one for one and in order, copies of `of`.
pub open spec fn copies_of(events: Seq<EventEnvelope>, of: Seq<EventEnvelope>) -> bool {
    &&& events.len() == of.len()
    &&& forall|i: int| 0 <= i < events.len() ==> same_event(#[trigger] events[i], of[i])
}

/// The sequence numbers of events, in order.
pub open spec fn sequences(events: Seq<EventEnvelope>) -> Seq<u64> {
    events.map_values(|e: EventEnvelope| e.sequence)
}

/// The events a subscription delivers out of a snapshot: those in its
/// scope, after its cursor, in order.
pub open spec fn delivered(events: Seq<EventEnvelope>, subscription: EventSubscription, after_sequence: u64) -> Seq<EventEnvelope> {
    events.filter(|e: EventEnvelope| in_scope(e, subscription) && e.sequence > after_sequence)
}

/// The snapshot a subscription sees: the same next sequence, and the events
/// it delivers.
pub fn filter_snapshot(snapshot: &EventStreamSnapshot, after_sequence: u64, subscription: &EventSubscription) -> (r: EventStreamSnapshot)
    ensures
        r.next_sequence == snapshot.next_sequence,
        sequences(r.recent_events@) == sequences(delivered(snapshot.recent_events@, *subscription, after_sequence)),
        copies_of(r.recent_events@, delivered(snapshot.recent_events@, *subscription, after_sequence)),
{
    let ghost keep = |e: EventEnvelope| in_scope(e, *subscription) && e.sequence > after_sequence;
    let ghost all = snapshot.recent_events@;
    let mut out: Vec<EventEnvelope> = Vec::new();
    let mut i: usize = 0;
    assert(all.take(0).filter(keep) =~= Seq::<EventEnvelope>::empty()) by {
        reveal(Seq::filter);
    }
    while i < snapshot.recent_events.len()
        invariant
            i <= all.len(),
            all == snapshot.recent_events@,
            forall|e: EventEnvelope| #[trigger] keep(e) == (in_scope(e, *subscription) && e.sequence > after_sequence),
            copies_of(out@, all.take(i as int).filter(keep)),
        decreases all.len() - i,
    {
        proof {
            reveal(Seq::filter);
            assert(all.take(i + 1).drop_last() == all.take(i as int));
            assert(all.take(i + 1).last() == all[i as int]);
        }
        let e = &snapshot.recent_events[i];
        if event_matches(e, subscription) && e.sequence > after_sequence {
            let ghost before = out@;
            out.push(copy_event(e));
            proof {
                let f = all.take(i + 1).filter(keep);
                assert(f == all.take(i as int).filter(keep).push(all[i as int]));
                assert forall|k: int| 0 <= k < out@.len() implies same_event(#[trigger] out@[k], f[k]) by {
                    if k < before.len() {
                        assert(out@[k] == before[k]);
                    }
                }
            }
        }
        i = i + 1;
    }
    assert(all.take(all.len() as int) == all);
    let ghost d = delivered(snapshot.recent_events@, *subscription, after_sequence);
    assert(d == all.filter(keep));
    assert(sequences(out@) =~= sequences(d));
    EventStreamSnapshot { next_sequence: snapshot.next_sequence, recent_events: out }
}

/// A cursor the stream has moved past: events after it are no longer all
/// held, so the client must resynchronize. A zero cursor asks for what is
/// held.
pub open spec fn requires_resync(events: Seq<EventEnvelope>, next_sequence: u64, after_sequence: u64) -> bool {
    if after_sequence == 0 {
        false
    } else {
        let expected_next = if after_sequence == u64::MAX { u64::MAX as int } else { after_sequence + 1 };
        if events.len() > 0 {
            events[0].sequence > expected_next
        } else {
            next_sequence > expected_next
        }
    }
}

/// Whether a subscription from `after_sequence` must resynchronize.
pub fn snapshot_requires_resync(snapshot: &EventStreamSnapshot, after_sequence: u64) -> (r: bool)
    ensures
        r == requires_resync(snapshot.recent_events@, snapshot.next_sequence, after_sequence),
{
    if after_sequence == 0 {
        return false;
    }
    let expected_next = after_sequence.saturating_add(1);
    if snapshot.recent_events.len() > 0 {
        snapshot.recent_events[0].sequence > expected_next
    } else {
        snapshot.next_sequence > expected_next
    }
}

/// The scope of a subscription request: the non-blank session and
/// workspace, at least one of them.
pub open spec fn subscription_scope(session_id: Option<Seq<char>>, workspace_id: Option<Seq<char>>) -> Result<(Option<Seq<char>>, Option<Seq<char>>), Seq<char>> {
    let s = non_empty_trimmed(session_id);
    let w = non_empty_trimmed(workspace_id);
    if s is None && w is None {
        Err("events/subscribe 至少需要 sessionId 或 workspaceId"@)
    } else {
        Ok((s, w))
    }
}

/// The scope of a subscription request (see [`subscription_scope`]).
pub fn parse_subscription_scope(session_id: Option<&str>, workspace_id: Option<&str>) -> (r: Result<(Option<String>, Option<String>), String>)
    ensures
        match (r, subscription_scope(opt_str_view(session_id), opt_str_view(workspace_id))) {
            (Ok((s, w)), Ok((es, ew))) => opt_string_view(s) == es && opt_string_view(w) == ew,
            (Err(m), Err(em)) => m@ == em,
            _ => false,
        },
{
    let s = trimmed_non_empty(session_id);
    let w = trimmed_non_empty(workspace_id);
    if s.is_none() && w.is_none() {
        return Err(str_to_string("events/subscribe 至少需要 sessionId 或 workspaceId"));
    }
    Ok((s, w))
}

/// The request timeout used when a request names none, in milliseconds.
pub const DEFAULT_REQUEST_TIMEOUT_MS: u64 = 120000;
/// The shortest request timeout accepted, in milliseconds.
pub const MIN_REQUEST_TIMEOUT_MS: u64 = 100;
/// The longest request timeout accepted, in milliseconds.
pub const MAX_REQUEST_TIMEOUT_MS: u64 = 600000;

/// A request's timeout in milliseconds: its own, or the default; refused
/// outside 100 to 600000.
pub fn request_timeout(request_timeout_ms: Option<u64>) -> (r: Result<u64, String>)
    ensures
        match request_timeout_ms {
            Some(t) => if MIN_REQUEST_TIMEOUT_MS <= t <= MAX_REQUEST_TIMEOUT_MS {
                r == Ok::<u64, String>(t)
            } else {
                r matches Err(m) && m@ == "requestTimeoutMs 必须在 100 到 600000 毫秒之间"@
            },
            None => r == Ok::<u64, String>(DEFAULT_REQUEST_TIMEOUT_MS),
        },
{
    let requested = match request_timeout_ms {
        Some(t) => t,
        None => DEFAULT_REQUEST_TIMEOUT_MS,
    };
    if !(MIN_REQUEST_TIMEOUT_MS <= requested && requested <= MAX_REQUEST_TIMEOUT_MS) {
        return Err(str_to_string("requestTimeoutMs 必须在 100 到 600000 毫秒之间"));
    }
    Ok(requested)
}

/// The message and data of a timed-out browser tool request: a read-only
/// one may be retried, any other left alone, its side effects unknown.
pub open spec fn browser_timeout_view(retryable: bool) -> (Seq<char>, JsonView) {
    (
        if retryable {
            "浏览器只读操作执行超时，可以安全重试"@
        } else {
            "浏览器操作执行超时，副作用状态不确定，禁止自动重放"@
        },
        JsonView::Object(seq![
            ("operation"@, JsonView::Str("browser/tool"@)),
            ("retryable"@, JsonView::Bool(retryable)),
            ("status"@, JsonView::Str("indeterminate"@)),
        ]),
    )
}

/// The message and data of a timed-out browser tool request.
pub fn browser_timeout_error(retryable: bool) -> (r: (String, JsonValue))
    ensures
        (r.0@, r.1@) == browser_timeout_view(retryable),
{
    let message = str_to_string(if retryable {
        "浏览器只读操作执行超时，可以安全重试"
    } else {
        "浏览器操作执行超时，副作用状态不确定，禁止自动重放"
    });
    let mut entries: Vec<(String, JsonValue)> = Vec::new();
    let k = str_to_string("operation");
    let v = JsonValue::Str(str_to_string("browser/tool"));
    proof { crate::json::lemma_entries_view_push(entries@, k, v); }
    entries.push((k, v));
    let k = str_to_string("retryable");
    let v = JsonValue::Bool(retryable);
    proof { crate::json::lemma_entries_view_push(entries@, k, v); }
    entries.push((k, v));
    let k = str_to_string("status");
    let v = JsonValue::Str(str_to_string("indeterminate"));
    proof { crate::json::lemma_entries_view_push(entries@, k, v); }
    entries.push((k, v));
    assert(crate::json::json_entries_view(entries@) =~= seq![
        ("operation"@, JsonView::Str("browser/tool"@)),
        ("retryable"@, JsonView::Bool(retryable)),
        ("status"@, JsonView::Str("indeterminate"@)),
    ]);
    (message, JsonValue::Object(entries))
}

/// Whether a replayed turn request is the queued one: both carry the same
/// complete request fingerprint. A request whose fingerprint could not be
/// made, or a queued turn stored without one, matches nothing.
pub fn request_matches_queued_turn(request_fingerprint: Option<&str>, queued_fingerprint: Option<&str>) -> (r: bool)
    ensures
        r == (request_fingerprint is Some && opt_str_view(queued_fingerprint) == opt_str_view(request_fingerprint)),
{
    match (request_fingerprint, queued_fingerprint) {
        (Some(a), Some(b)) => crate::text::str_eq(a, b),
        _ => false,
    }
}

/// An item of a persisted turn: whether it is the user's message, and the
/// fingerprint its metadata records.
#[derive(Debug)]
pub struct CanonicalTurnItemFacts {
    pub item_id: String,
    pub is_user_message: bool,
    pub request_fingerprint: Option<JsonValue>,
}

/// The id of the first user message of a turn, where it has one.
pub open spec fn first_user_item_id(items: Seq<CanonicalTurnItemFacts>) -> Option<Seq<char>>
    decreases items.len(),
{
    if items.len() == 0 {
        None
    } else if items[0].is_user_message {
        Some(items[0].item_id@)
    } else {
        first_user_item_id(items.drop_first())
    }
}

/// The fingerprint that the first user message of a turn records, where it
/// is a string.
pub open spec fn turn_fingerprint(items: Seq<CanonicalTurnItemFacts>) -> Option<Seq<char>>
    decreases items.len(),
{
    if items.len() == 0 {
        None
    } else if items[0].is_user_message {
        match items[0].request_fingerprint {
            Some(v) => match v@ {
                JsonView::Str(s) => Some(s),
                _ => None,
            },
            None => None,
        }
    } else {
        turn_fingerprint(items.drop_first())
    }
}

/// Whether a replayed turn request is the persisted turn: its first user
/// message records the request's complete fingerprint.
pub fn request_matches_canonical_turn(request_fingerprint: Option<&str>, items: &Vec<CanonicalTurnItemFacts>) -> (r: bool)
    ensures
        r == (request_fingerprint is Some && turn_fingerprint(items@) == opt_str_view(request_fingerprint)),
{
    let mut i: usize = 0;
    assert(items@.skip(0) == items@);
    while i < items.len()
        invariant
            i <= items@.len(),
            turn_fingerprint(items@) == turn_fingerprint(items@.skip(i as int)),
        decreases items@.len() - i,
    {
        assert(items@.skip(i as int)[0] == items@[i as int]);
        assert(items@.skip(i as int).drop_first() == items@.skip(i + 1));
        if items[i].is_user_message {
            let recorded = match &items[i].request_fingerprint {
                Some(JsonValue::Str(s)) => Some(s.as_str()),
                _ => None,
            };
            return match (request_fingerprint, recorded) {
                (Some(a), Some(b)) => crate::text::str_eq(a, b),
                _ => false,
            };
        }
        i = i + 1;
    }
    false
}

/// Why a request stopped before it finished.
#[derive(Clone, Copy, Debug, PartialEq, Eq, Structural)]
pub enum RequestTermination {
    Running,
    Cancelled,
    TimedOut,
}

/// A request's termination after a cancel or a timeout: the first one
/// decides, later ones change nothing.
pub open spec fn terminated(current: RequestTermination, by: RequestTermination) -> RequestTermination {
    if current == RequestTermination::Running {
        by
    } else {
        current
    }
}

/// The termination of an in-flight request.
#[derive(Debug)]
pub struct RequestControl {
    pub termination: RequestTermination,
}

impl RequestControl {
    /// A request that runs.
    pub fn new() -> (r: Self)
        ensures
            r.termination == RequestTermination::Running,
    {
        RequestControl { termination: RequestTermination::Running }
    }

    /// Cancels the request, unless it already stopped.
    pub fn cancel(&mut self)
        ensures
            final(self).termination == terminated(old(self).termination, RequestTermination::Cancelled),
    {
        if self.termination == RequestTermination::Running {
            self.termination = RequestTermination::Cancelled;
        }
    }

    /// Times the request out, unless it already stopped.
    pub fn timeout(&mut self)
        ensures
            final(self).termination == terminated(old(self).termination, RequestTermination::TimedOut),
    {
        if self.termination == RequestTermination::Running {
            self.termination = RequestTermination::TimedOut;
        }
    }

    /// Whether the request was stopped.
    pub fn is_cancelled(&self) -> (r: bool)
        ensures
            r == (self.termination != RequestTermination::Running),
    {
        self.termination != RequestTermination::Running
    }
}

/// A request stops at most once: after a cancel or a timeout, neither
/// changes why it stopped.
pub proof fn lemma_termination_first_wins(current: RequestTermination, by: RequestTermination)
    requires
        current != RequestTermination::Running,
    ensures
        terminated(current, by) == current,
{
}

/// Where a connection stands in its handshake, and what it subscribed to.
#[derive(Clone, Debug)]
pub struct ConnectionState {
    pub initialize_seen: bool,
    pub initialized: bool,
    pub subscription: EventSubscription,
}

/// Why the connection refused a request.
#[derive(Clone, Debug, PartialEq, Eq)]
pub enum ConnectionError {
    /// `initialize` came a second time.
    AlreadyInitialized(String),
    /// The request's parameters are not acceptable.
    InvalidParams(String),
    /// The handshake has not finished.
    NotInitialized(String),
}

/// A protocol error: which one, its message, and whether it tells the
/// client it may retry (`None` where it says nothing).
#[derive(Clone, Debug, PartialEq, Eq)]
pub struct ProtocolError {
    pub kind: crate::api_error::ProtocolErrorKind,
    pub message: String,
    pub retryable: Option<bool>,
}

/// The protocol error a refused connection request is answered with: the
/// error of its kind, with its message, saying nothing of retrying.
pub fn connection_error_protocol(e: ConnectionError) -> (r: ProtocolError)
    ensures
        r.retryable is None,
        match e {
            ConnectionError::AlreadyInitialized(m) => r.kind == crate::api_error::ProtocolErrorKind::AlreadyInitialized
                && r.message@ == m@,
            ConnectionError::InvalidParams(m) => r.kind == crate::api_error::ProtocolErrorKind::InvalidParams
                && r.message@ == m@,
            ConnectionError::NotInitialized(m) => r.kind == crate::api_error::ProtocolErrorKind::NotInitialized
                && r.message@ == m@,
        },
{
    match e {
        ConnectionError::AlreadyInitialized(m) => ProtocolError {
            kind: crate::api_error::ProtocolErrorKind::AlreadyInitialized,
            message: m,
            retryable: None,
        },
        ConnectionError::InvalidParams(m) => ProtocolError {
            kind: crate::api_error::ProtocolErrorKind::InvalidParams,
            message: m,
            retryable: None,
        },
        ConnectionError::NotInitialized(m) => ProtocolError {
            kind: crate::api_error::ProtocolErrorKind::NotInitialized,
            message: m,
            retryable: None,
        },
    }
}

/// The handshake never reports `initialized` before `initialize` was seen.
pub open spec fn handshake_consistent(state: ConnectionState) -> bool {
    state.initialized ==> state.initialize_seen
}

/// `协议版本不兼容: client={major}.{minor} server={major}.{minor}`.
pub open spec fn protocol_mismatch_message(major: u64, minor: u64, server: (u64, u64)) -> Seq<char> {
    let (server_major, server_minor) = server;
    "协议版本不兼容: client="@ + crate::text::decimal(major as nat) + "."@ + crate::text::decimal(minor as nat)
        + " server="@ + crate::text::decimal(server_major as nat) + "."@ + crate::text::decimal(server_minor as nat)
}

/// The connection after a client notification.
pub open spec fn after_notify(state: ConnectionState, method: Seq<char>) -> ConnectionState {
    ConnectionState { initialized: state.initialized || (method == "initialized"@ && state.initialize_seen), ..state }
}

/// The connection after notifications, in order.
pub open spec fn after_notifications(state: ConnectionState, methods: Seq<Seq<char>>) -> ConnectionState
    decreases methods.len(),
{
    if methods.len() == 0 {
        state
    } else {
        after_notify(after_notifications(state, methods.drop_last()), methods.last())
    }
}

/// Before `initialize`, no notification completes the handshake: the
/// connection keeps refusing requests (see `require_initialized`), and a
/// notification never changes its subscription.
pub proof fn lemma_requests_wait_for_initialize(state: ConnectionState, methods: Seq<Seq<char>>)
    requires
        !state.initialize_seen,
        !state.initialized,
    ensures
        !after_notifications(state, methods).initialized,
        !after_notifications(state, methods).initialize_seen,
        after_notifications(state, methods).subscription == state.subscription,
    decreases methods.len(),
{
    if methods.len() > 0 {
        lemma_requests_wait_for_initialize(state, methods.drop_last());
    }
}

/// What a subscription request answers, besides the new state.
#[derive(Debug)]
pub struct SubscribeOutcome {
    pub resync_required: bool,
    pub next_sequence: u64,
    pub snapshot: EventStreamSnapshot,
}

impl ConnectionState {
    /// A connection that has not started its handshake.
    pub fn new() -> (r: Self)
        ensures
            !r.initialize_seen,
            !r.initialized,
            !r.subscription.active,
            r.subscription.session_id is None,
            r.subscription.workspace_id is None,
            r.subscription.after_sequence == 0,
            handshake_consistent(r),
    {
        ConnectionState {
            initialize_seen: false,
            initialized: false,
            subscription: EventSubscription { active: false, session_id: None, workspace_id: None, after_sequence: 0 },
        }
    }

    /// The `initialize` request: refused a second time, for a protocol the
    /// server cannot speak, or without a client name.
    pub fn initialize(
        &mut self,
        client_name: &str,
        client_protocol: Option<(u64, u64)>,
        server_protocol: (u64, u64),
        protocol_compatible: bool,
    ) -> (r: Result<(), ConnectionError>)
        ensures
            old(self).initialize_seen ==> r == Err::<(), ConnectionError>(ConnectionError::AlreadyInitialized(r->Err_0->AlreadyInitialized_0))
                && r->Err_0->AlreadyInitialized_0@ == "当前连接已经初始化"@,
            !old(self).initialize_seen && !protocol_compatible ==> match client_protocol {
                Some((major, minor)) => r matches Err(ConnectionError::InvalidParams(m))
                    && m@ == protocol_mismatch_message(major, minor, server_protocol),
                None => true,
            },
            !old(self).initialize_seen && (client_protocol is None || protocol_compatible) && trim(client_name@).len() == 0
                ==> (r matches Err(ConnectionError::InvalidParams(m)) && m@ == "clientInfo.name 不能为空"@),
            r is Ok <==> !old(self).initialize_seen && (client_protocol is None || protocol_compatible) && trim(client_name@).len() > 0,
            r is Ok ==> final(self).initialize_seen && final(self).initialized == old(self).initialized
                && final(self).subscription == old(self).subscription,
            r is Err ==> *final(self) == *old(self),
            handshake_consistent(*old(self)) ==> handshake_consistent(*final(self)),
    {
        if self.initialize_seen {
            return Err(ConnectionError::AlreadyInitialized(str_to_string("当前连接已经初始化")));
        }
        if let Some((major, minor)) = client_protocol {
            if !protocol_compatible {
                let mut m = str_to_string("协议版本不兼容: client=");
                m.append(crate::text::u64_to_decimal(major).as_str());
                m.append(".");
                m.append(crate::text::u64_to_decimal(minor).as_str());
                m.append(" server=");
                let (server_major, server_minor) = server_protocol;
                m.append(crate::text::u64_to_decimal(server_major).as_str());
                m.append(".");
                m.append(crate::text::u64_to_decimal(server_minor).as_str());
                return Err(ConnectionError::InvalidParams(m));
            }
        }
        let t = crate::text::trimmed(client_name);
        if t.as_str().is_empty() {
            return Err(ConnectionError::InvalidParams(str_to_string("clientInfo.name 不能为空")));
        }
        self.initialize_seen = true;
        Ok(())
    }

    /// A client notification: `initialized` completes the handshake once
    /// `initialize` was seen; any other changes nothing.
    pub fn notify(&mut self, method: &str)
        ensures
            *final(self) == after_notify(*old(self), method@),
            final(self).initialized == (old(self).initialized || (method@ == "initialized"@ && old(self).initialize_seen)),
            final(self).initialize_seen == old(self).initialize_seen,
            final(self).subscription == old(self).subscription,
            handshake_consistent(*old(self)) ==> handshake_consistent(*final(self)),
    {
        if crate::text::str_eq(method, "initialized") && self.initialize_seen {
            self.initialized = true;
        }
    }

    /// The error of a request made before the handshake finished.
    pub fn require_initialized(&self) -> (r: Option<ConnectionError>)
        ensures
            r is None <==> self.initialized,
            r matches Some(ConnectionError::NotInitialized(m)) ==> m@ == "连接尚未完成 initialize/initialized 握手"@,
            r is Some ==> r->0 is NotInitialized,
    {
        if self.initialized {
            None
        } else {
            Some(ConnectionError::NotInitialized(str_to_string("连接尚未完成 initialize/initialized 握手")))
        }
    }

    /// `events/subscribe`: after the handshake, a request with a scope
    /// replaces the subscription; the answer says whether the client must
    /// resynchronize and holds the events it delivers; the cursor moves to
    /// the last event the snapshot covers, never back.
    pub fn subscribe(
        &mut self,
        session_id: Option<&str>,
        workspace_id: Option<&str>,
        after_sequence: Option<u64>,
        snapshot: &EventStreamSnapshot,
    ) -> (r: Result<SubscribeOutcome, ConnectionError>)
        ensures
            !old(self).initialized ==> (r matches Err(ConnectionError::NotInitialized(_)) && *final(self) == *old(self)),
            old(self).initialized ==> match subscription_scope(opt_str_view(session_id), opt_str_view(workspace_id)) {
                Err(m) => r matches Err(ConnectionError::InvalidParams(msg)) && msg@ == m && *final(self) == *old(self),
                Ok(_) => r is Ok,
            },
            r matches Ok(outcome) ==> {
                let after = match after_sequence { Some(a) => a, None => 0 };
                let sub = final(self).subscription;
                &&& old(self).initialized
                &&& subscription_scope(opt_str_view(session_id), opt_str_view(workspace_id)) matches Ok((s, w))
                    && opt_string_view(sub.session_id) == s && opt_string_view(sub.workspace_id) == w
                &&& sub.active
                &&& outcome.resync_required == requires_resync(snapshot.recent_events@, snapshot.next_sequence, after)
                &&& outcome.next_sequence == snapshot.next_sequence
                &&& outcome.snapshot.next_sequence == snapshot.next_sequence
                &&& copies_of(outcome.snapshot.recent_events@, delivered(snapshot.recent_events@, sub, after))
                &&& sequences(outcome.snapshot.recent_events@) == sequences(delivered(snapshot.recent_events@, sub, after))
                &&& sub.after_sequence == if after >= snapshot.next_sequence - 1 { after as int } else { snapshot.next_sequence - 1 }
                &&& sub.after_sequence >= after
                &&& final(self).initialize_seen == old(self).initialize_seen
                &&& final(self).initialized == old(self).initialized
            },
    {
        if !self.initialized {
            return Err(ConnectionError::NotInitialized(str_to_string("连接尚未完成 initialize/initialized 握手")));
        }
        let (s, w) = match parse_subscription_scope(session_id, workspace_id) {
            Ok(scope) => scope,
            Err(m) => {
                return Err(ConnectionError::InvalidParams(m));
            },
        };
        let after = match after_sequence {
            Some(a) => a,
            None => 0,
        };
        let subscription = EventSubscription { active: true, session_id: s, workspace_id: w, after_sequence: after };
        let resync_required = snapshot_requires_resync(snapshot, after);
        let filtered = filter_snapshot(snapshot, after, &subscription);
        let next_sequence = filtered.next_sequence;
        let covered = if next_sequence > 0 { next_sequence - 1 } else { 0 };
        let cursor = if after >= covered { after } else { covered };
        let ghost old_sub = subscription;
        self.subscription = EventSubscription { after_sequence: cursor, ..subscription };
        proof {
            let f1 = |e: EventEnvelope| in_scope(e, self.subscription) && e.sequence > after;
            let f2 = |e: EventEnvelope| in_scope(e, old_sub) && e.sequence > after;
            assert(f1 =~= f2);
            assert(delivered(snapshot.recent_events@, self.subscription, after) == delivered(snapshot.recent_events@, old_sub, after));
        }
        Ok(SubscribeOutcome { resync_required, next_sequence, snapshot: filtered })
    }
}


/// `browser/tool` needs a tool name and at least one argument.
pub fn browser_tool_params_error(tool: &str, argument_count: usize) -> (r: Option<String>)
    ensures
        r is None <==> argument_count > 0 && trim(tool@).len() > 0,
        r matches Some(m) ==> m@ == "tool 必须非空且 arguments 必须是对象"@,
{
    let t = crate::text::trimmed(tool);
    if argument_count == 0 || t.as_str().is_empty() {
        Some(str_to_string("tool 必须非空且 arguments 必须是对象"))
    } else {
        None
    }
}

/// The call id of a `browser/tool` request: the caller's, where it is not
/// blank, else `rpc-{request id}`.
pub open spec fn browser_call_id(call_id: Option<Seq<char>>, request_id: Seq<char>) -> Seq<char> {
    match call_id {
        Some(c) => if trim(c).len() > 0 {
            c
        } else {
            "rpc-"@ + request_id
        },
        None => "rpc-"@ + request_id,
    }
}

/// The call id of a `browser/tool` request.
pub fn browser_tool_call_id(call_id: Option<&str>, request_id: &str) -> (r: String)
    ensures
        r@ == browser_call_id(opt_str_view(call_id), request_id@),
{
    match call_id {
        Some(c) => {
            let t = crate::text::trimmed(c);
            if !t.as_str().is_empty() {
                return str_to_string(c);
            }
        },
        None => {},
    }
    crate::text::concat("rpc-", request_id)
}

/// A document that reports its outcome as unknown: one whose `status` is
/// `indeterminate`.
pub open spec fn document_indeterminate(document: Option<JsonView>) -> bool {
    match document {
        Some(v) => json_as_str(json_get(v, "status"@)) == Some("indeterminate"@),
        None => false,
    }
}

/// A tool payload that reports its outcome as unknown: a JSON object whose
/// `status` is `indeterminate`.
pub open spec fn payload_indeterminate(payload: Seq<char>) -> bool {
    document_indeterminate(parsed_json(payload))
}

/// The status of a `browser/tool` call's turn item, given what its payload
/// parsed to: `cancelled` when the request was cancelled before it ran;
/// else from the runtime's status, with a failure whose document reports
/// an unknown outcome marked `indeterminate`.
pub open spec fn item_status_of(cancelled_before: bool, status: ExecutionResultStatus, document: Option<JsonView>) -> Seq<char> {
    if cancelled_before {
        "cancelled"@
    } else {
        match status {
            ExecutionResultStatus::Succeeded => "completed"@,
            ExecutionResultStatus::NeedsApproval => "blocked"@,
            ExecutionResultStatus::Cancelled => "cancelled"@,
            _ => if document_indeterminate(document) {
                "indeterminate"@
            } else {
                "failed"@
            },
        }
    }
}

/// The status of a `browser/tool` call's turn item (see [`item_status_of`]),
/// from its payload.
pub open spec fn browser_item_status(cancelled_before: bool, status: ExecutionResultStatus, payload: Seq<char>) -> Seq<char> {
    item_status_of(cancelled_before, status, parsed_json(payload))
}

/// The status of a `browser/tool` call's turn item, from what its payload
/// parsed to.
pub fn browser_tool_item_status_of(
    cancelled_before: bool,
    status: ExecutionResultStatus,
    document: &Option<JsonValue>,
) -> (r: &'static str)
    ensures
        r@ == item_status_of(cancelled_before, status, crate::json::opt_json_view(*document)),
{
    if cancelled_before {
        return "cancelled";
    }
    match status {
        ExecutionResultStatus::Succeeded => "completed",
        ExecutionResultStatus::NeedsApproval => "blocked",
        ExecutionResultStatus::Cancelled => "cancelled",
        _ => {
            let indeterminate = match document {
                Some(v) => match crate::json::json_get_str(v, "status") {
                    Some(s) => crate::text::str_eq(s, "indeterminate"),
                    None => false,
                },
                None => false,
            };
            if indeterminate {
                "indeterminate"
            } else {
                "failed"
            }
        },
    }
}

/// The status of a `browser/tool` call's turn item.
pub fn browser_tool_item_status(cancelled_before: bool, status: ExecutionResultStatus, payload: &str) -> (r: &'static str)
    ensures
        r@ == browser_item_status(cancelled_before, status, payload@),
{
    let document = crate::json::parse_json(payload);
    browser_tool_item_status_of(cancelled_before, status, &document)
}

/// How `turn/start` answers a request.
#[derive(Clone, Debug, PartialEq, Eq)]
pub enum TurnStartRoute {
    /// The request's turn was persisted: answer with it again.
    ReplayCanonical,
    /// The request's turn waits in the queue: answer with its place again.
    ReplayQueued,
    /// A new request: submit it.
    Submit,
    /// The request id is bound to another request.
    Conflict(String),
}

pub open spec fn turn_start_route_of(
    request_fingerprint: Option<Seq<char>>,
    canonical: Option<Seq<CanonicalTurnItemFacts>>,
    queued: Option<Option<Seq<char>>>,
) -> Result<TurnStartRoute, Seq<char>> {
    match canonical {
        Some(items) => if request_fingerprint is Some && turn_fingerprint(items) == request_fingerprint {
            Ok(TurnStartRoute::ReplayCanonical)
        } else {
            Err("requestId 已绑定另一份 Turn，请为新请求生成新的 requestId"@)
        },
        None => match queued {
            Some(fp) => if request_fingerprint is Some && fp == request_fingerprint {
                Ok(TurnStartRoute::ReplayQueued)
            } else {
                Err("requestId 已绑定另一份排队 Turn，请为新请求生成新的 requestId"@)
            },
            None => Ok(TurnStartRoute::Submit),
        },
    }
}

/// A request whose id is already bound to a persisted or a queued turn is
/// never submitted again: it is answered with that turn where its
/// fingerprint matches, and refused as a conflict otherwise.
pub proof fn lemma_bound_request_not_resubmitted(
    request_fingerprint: Option<Seq<char>>,
    canonical: Option<Seq<CanonicalTurnItemFacts>>,
    queued: Option<Option<Seq<char>>>,
)
    ensures
        canonical is Some || queued is Some ==> turn_start_route_of(request_fingerprint, canonical, queued) != Ok::<
            TurnStartRoute,
            Seq<char>,
        >(TurnStartRoute::Submit),
        (canonical matches Some(items) && request_fingerprint is Some && turn_fingerprint(items) == request_fingerprint)
            ==> turn_start_route_of(request_fingerprint, canonical, queued) == Ok::<TurnStartRoute, Seq<char>>(
            TurnStartRoute::ReplayCanonical,
        ),
        (canonical is None && queued == Some(request_fingerprint) && request_fingerprint is Some)
            ==> turn_start_route_of(request_fingerprint, canonical, queued) == Ok::<TurnStartRoute, Seq<char>>(
            TurnStartRoute::ReplayQueued,
        ),
{
}

/// How `turn/start` answers a request, given the persisted turn bound to
/// its request id (`canonical`), else the queued turn bound to it and the
/// fingerprint that turn recorded (`queued`).
pub fn turn_start_route(
    request_fingerprint: Option<&str>,
    canonical: Option<&Vec<CanonicalTurnItemFacts>>,
    queued: Option<Option<&str>>,
) -> (r: TurnStartRoute)
    ensures
        match turn_start_route_of(
            opt_str_view(request_fingerprint),
            match canonical { Some(items) => Some(items@), None => None },
            match queued { Some(fp) => Some(opt_str_view(fp)), None => None },
        ) {
            Ok(route) => r == route,
            Err(m) => r matches TurnStartRoute::Conflict(msg) && msg@ == m,
        },
{
    match canonical {
        Some(items) => {
            if request_matches_canonical_turn(request_fingerprint, items) {
                TurnStartRoute::ReplayCanonical
            } else {
                TurnStartRoute::Conflict(str_to_string("requestId 已绑定另一份 Turn，请为新请求生成新的 requestId"))
            }
        },
        None => match queued {
            Some(fp) => {
                if request_matches_queued_turn(request_fingerprint, fp) {
                    TurnStartRoute::ReplayQueued
                } else {
                    TurnStartRoute::Conflict(str_to_string("requestId 已绑定另一份排队 Turn，请为新请求生成新的 requestId"))
                }
            },
            None => TurnStartRoute::Submit,
        },
    }
}

/// What `turn/start` answers a request that it replays.
#[derive(Clone, Debug, PartialEq, Eq)]
pub struct TurnReplayAnswer {
    pub kind: String,
    pub replayed: bool,
    pub entry_id: String,
    pub event_id: String,
    pub turn_id: Option<String>,
    pub user_message_item_id: Option<String>,
}

fn first_user_item(items: &Vec<CanonicalTurnItemFacts>) -> (r: Option<String>)
    ensures
        opt_string_view(r) == first_user_item_id(items@),
{
    let mut i: usize = 0;
    assert(items@.skip(0) == items@);
    while i < items.len()
        invariant
            i <= items@.len(),
            first_user_item_id(items@) == first_user_item_id(items@.skip(i as int)),
        decreases items@.len() - i,
    {
        assert(items@.skip(i as int)[0] == items@[i as int]);
        if items[i].is_user_message {
            return Some(items[i].item_id.clone());
        }
        assert(items@.skip(i as int).drop_first() == items@.skip(i + 1));
        i = i + 1;
    }
    assert(items@.skip(i as int).len() == 0);
    None
}

/// The answer to a request whose persisted turn is replayed: `accepted`,
/// replayed, with the turn's timeline entry and event ids, the turn's id
/// and its first user message's id.
pub fn canonical_replay_answer(
    session_id: &str,
    turn_id: &str,
    accepted_at: u64,
    items: &Vec<CanonicalTurnItemFacts>,
) -> (r: TurnReplayAnswer)
    ensures
        r.kind@ == "accepted"@,
        r.replayed,
        r.entry_id@ == "timeline-"@ + session_id@ + "-"@ + crate::text::decimal(accepted_at as nat),
        r.event_id@ == "event-session-turn-task-"@ + crate::text::decimal(accepted_at as nat),
        opt_string_view(r.turn_id) == Some(turn_id@),
        opt_string_view(r.user_message_item_id) == first_user_item_id(items@),
{
    let (entry_id, event_id) = replayed_turn_ids(session_id, accepted_at);
    let user_item = first_user_item(items);
    TurnReplayAnswer {
        kind: str_to_string("accepted"),
        replayed: true,
        entry_id,
        event_id,
        turn_id: Some(str_to_string(turn_id)),
        user_message_item_id: user_item,
    }
}

/// The answer to a request whose queued turn is replayed: `queued`,
/// replayed, with the queue entry's id, the queued event id, no turn id
/// yet, and the user message id the request carries.
pub fn queued_replay_answer(queue_id: &str, accepted_at: u64, user_message_item_id: Option<&str>) -> (r: TurnReplayAnswer)
    ensures
        r.kind@ == "queued"@,
        r.replayed,
        r.entry_id@ == queue_id@,
        r.event_id@ == "event-session-turn-queued-"@ + crate::text::decimal(accepted_at as nat),
        r.turn_id is None,
        opt_string_view(r.user_message_item_id) == opt_str_view(user_message_item_id),
{
    TurnReplayAnswer {
        kind: str_to_string("queued"),
        replayed: true,
        entry_id: str_to_string(queue_id),
        event_id: queued_turn_event_id(accepted_at),
        turn_id: None,
        user_message_item_id: match user_message_item_id {
            Some(id) => Some(str_to_string(id)),
            None => None,
        },
    }
}

/// The timeline entry and event ids a replayed persisted turn reports:
/// `timeline-{session}-{accepted}` and `event-session-turn-task-{accepted}`.
pub fn replayed_turn_ids(session_id: &str, accepted_at: u64) -> (r: (String, String))
    ensures
        r.0@ == "timeline-"@ + session_id@ + "-"@ + crate::text::decimal(accepted_at as nat),
        r.1@ == "event-session-turn-task-"@ + crate::text::decimal(accepted_at as nat),
{
    let accepted = crate::text::u64_to_decimal(accepted_at);
    let mut entry = crate::text::concat("timeline-", session_id);
    entry.append("-");
    entry.append(accepted.as_str());
    let event = crate::text::concat("event-session-turn-task-", accepted.as_str());
    (entry, event)
}

/// `event-session-turn-queued-{accepted}`: the event id a replayed queued
/// turn reports.
pub fn queued_turn_event_id(accepted_at: u64) -> (r: String)
    ensures
        r@ == "event-session-turn-queued-"@ + crate::text::decimal(accepted_at as nat),
{
    let accepted = crate::text::u64_to_decimal(accepted_at);
    crate::text::concat("event-session-turn-queued-", accepted.as_str())
}


/// A turn that still runs: its status, trimmed and in any case of ASCII
/// letters, is one of `pending`, `queued`, `accepted`, `running`, `started`
/// and `streaming`.
pub open spec fn turn_still_running(status: Seq<char>) -> bool {
    let t = trim(status);
    ||| crate::redaction::ascii_lowercase_eq(t, "pending"@)
    ||| crate::redaction::ascii_lowercase_eq(t, "queued"@)
    ||| crate::redaction::ascii_lowercase_eq(t, "accepted"@)
    ||| crate::redaction::ascii_lowercase_eq(t, "running"@)
    ||| crate::redaction::ascii_lowercase_eq(t, "started"@)
    ||| crate::redaction::ascii_lowercase_eq(t, "streaming"@)
}

/// `browser/tool` runs within the session's current turn only while that
/// turn runs; otherwise the message says which status ended it.
pub fn browser_turn_status_error(status: &str) -> (r: Option<String>)
    ensures
        r is None <==> turn_still_running(status@),
        r matches Some(m) ==> m@ == "当前 Turn 已结束，不能执行浏览器工具: "@ + status@,
{
    let chars = crate::text::chars_of(status);
    let t = crate::text::trim_chars(chars.as_slice());
    let running = crate::redaction::ascii_lowercase_eq_exec(t.as_slice(), "pending")
        || crate::redaction::ascii_lowercase_eq_exec(t.as_slice(), "queued")
        || crate::redaction::ascii_lowercase_eq_exec(t.as_slice(), "accepted")
        || crate::redaction::ascii_lowercase_eq_exec(t.as_slice(), "running")
        || crate::redaction::ascii_lowercase_eq_exec(t.as_slice(), "started")
        || crate::redaction::ascii_lowercase_eq_exec(t.as_slice(), "streaming");
    if running {
        None
    } else {
        Some(crate::text::concat("当前 Turn 已结束，不能执行浏览器工具: ", status))
    }
}

/// `browser-tool-{call id}`: the turn item of a `browser/tool` call.
pub fn browser_tool_item_id(call_id: &str) -> (r: String)
    ensures
        r@ == "browser-tool-"@ + call_id@,
{
    crate::text::concat("browser-tool-", call_id)
}


/// A turn status that ends the turn: `completed`, `blocked`, `failed`,
/// `interrupted`, `cancelled` or `superseded`, trimmed and in any case of
/// ASCII letters.
pub open spec fn turn_finished(status: Seq<char>) -> bool {
    let t = trim(status);
    ||| crate::redaction::ascii_lowercase_eq(t, "completed"@)
    ||| crate::redaction::ascii_lowercase_eq(t, "blocked"@)
    ||| crate::redaction::ascii_lowercase_eq(t, "failed"@)
    ||| crate::redaction::ascii_lowercase_eq(t, "interrupted"@)
    ||| crate::redaction::ascii_lowercase_eq(t, "cancelled"@)
    ||| crate::redaction::ascii_lowercase_eq(t, "superseded"@)
}

/// Whether a session runs: it has a current turn (of this status) that
/// has not ended.
pub fn session_is_running(current_turn_status: Option<&str>) -> (r: bool)
    ensures
        r == match current_turn_status {
            Some(s) => !turn_finished(s@),
            None => false,
        },
{
    match current_turn_status {
        Some(status) => {
            let chars = crate::text::chars_of(status);
            let t = crate::text::trim_chars(chars.as_slice());
            !(crate::redaction::ascii_lowercase_eq_exec(t.as_slice(), "completed")
                || crate::redaction::ascii_lowercase_eq_exec(t.as_slice(), "blocked")
                || crate::redaction::ascii_lowercase_eq_exec(t.as_slice(), "failed")
                || crate::redaction::ascii_lowercase_eq_exec(t.as_slice(), "interrupted")
                || crate::redaction::ascii_lowercase_eq_exec(t.as_slice(), "cancelled")
                || crate::redaction::ascii_lowercase_eq_exec(t.as_slice(), "superseded"))
        },
        None => false,
    }
}


/// A subscription delivers only events of its scope, after its cursor.
pub proof fn lemma_delivered_in_scope(events: Seq<EventEnvelope>, subscription: EventSubscription, after_sequence: u64)
    ensures
        forall|i: int| 0 <= i < delivered(events, subscription, after_sequence).len() ==> {
            let e = #[trigger] delivered(events, subscription, after_sequence)[i];
            in_scope(e, subscription) && e.sequence > after_sequence
        },
{
    let keep = |e: EventEnvelope| in_scope(e, subscription) && e.sequence > after_sequence;
    broadcast use vstd::seq_lib::group_filter_ensures;
    assert forall|i: int| 0 <= i < delivered(events, subscription, after_sequence).len() implies {
        let e = #[trigger] delivered(events, subscription, after_sequence)[i];
        in_scope(e, subscription) && e.sequence > after_sequence
    } by {
        assert(keep(delivered(events, subscription, after_sequence)[i]));
    }
}

/// A subscription scoped to a session or a workspace delivers only events
/// that name exactly that session and that workspace: an event that names
/// no workspace never reaches a workspace-scoped subscription, nor one that
/// names no session a session-scoped one.
pub proof fn lemma_scoped_subscription_delivers_only_its_scope(
    events: Seq<EventEnvelope>,
    subscription: EventSubscription,
    after_sequence: u64,
    event: EventEnvelope,
)
    ensures
        subscription.workspace_id is Some && in_scope(event, subscription)
            ==> opt_string_view(event.workspace_id) == Some(subscription.workspace_id->0@),
        subscription.session_id is Some && in_scope(event, subscription)
            ==> opt_string_view(event.session_id) == Some(subscription.session_id->0@),
        subscription.workspace_id is Some && event.workspace_id is None ==> !in_scope(event, subscription),
        subscription.session_id is Some && event.session_id is None ==> !in_scope(event, subscription),
        forall|i: int| 0 <= i < delivered(events, subscription, after_sequence).len() ==> {
            let d = #[trigger] delivered(events, subscription, after_sequence)[i];
            &&& (subscription.workspace_id is Some ==> opt_string_view(d.workspace_id) == Some(subscription.workspace_id->0@))
            &&& (subscription.session_id is Some ==> opt_string_view(d.session_id) == Some(subscription.session_id->0@))
            &&& d.sequence > after_sequence
        },
{
    broadcast use vstd::seq_lib::group_filter_ensures;
    let keep = |e: EventEnvelope| in_scope(e, subscription) && e.sequence > after_sequence;
    assert forall|i: int| 0 <= i < delivered(events, subscription, after_sequence).len() implies {
        let d = #[trigger] delivered(events, subscription, after_sequence)[i];
        &&& (subscription.workspace_id is Some ==> opt_string_view(d.workspace_id) == Some(subscription.workspace_id->0@))
        &&& (subscription.session_id is Some ==> opt_string_view(d.session_id) == Some(subscription.session_id->0@))
        &&& d.sequence > after_sequence
    } by {
        assert(keep(delivered(events, subscription, after_sequence)[i]));
    }
}

/// A failed browser call is reported `indeterminate` only when its payload
/// says so, in its `status` member; the ordinary failure payload, whose
/// status is `failed`, is reported `failed`, whatever its tool, code,
/// message and details. A call that ran is never reported `cancelled`
/// unless the runtime said so.
pub proof fn lemma_indeterminate_only_when_reported(
    cancelled_before: bool,
    status: ExecutionResultStatus,
    document: Option<JsonView>,
    tool: Seq<char>,
    code: Seq<char>,
    message: Seq<char>,
    recoverable: bool,
    requires_user_action: bool,
    details: Option<JsonView>,
)
    ensures
        item_status_of(cancelled_before, status, document) == "indeterminate"@ ==> !cancelled_before
            && document is Some && json_as_str(json_get(document->0, "status"@)) == Some("indeterminate"@),
        (document is Some && json_as_str(json_get(document->0, "status"@)) != Some("indeterminate"@))
            ==> item_status_of(false, ExecutionResultStatus::Failed, document) == "failed"@,
        item_status_of(
            false,
            ExecutionResultStatus::Failed,
            Some(crate::browser::failure_document(tool, code, message, recoverable, requires_user_action, details, ExecutionResultStatus::Failed)),
        ) == "failed"@,
{
    reveal_strlit("indeterminate");
    reveal_strlit("failed");
    reveal_strlit("completed");
    reveal_strlit("blocked");
    reveal_strlit("cancelled");
    reveal_strlit("status");
    reveal_strlit("details");
    reveal_strlit("error");
    reveal_strlit("error_code");
    reveal_strlit("recoverable");
    reveal_strlit("requires_user_action");
    let r = item_status_of(cancelled_before, status, document);
    assert(r == "indeterminate"@ ==> (r.len(), r[0]) == (13nat, 'i'));
    let tail = seq![
        ("error"@, JsonView::Str(message)),
        ("error_code"@, JsonView::Str(code)),
        ("recoverable"@, JsonView::Bool(recoverable)),
        ("requires_user_action"@, JsonView::Bool(requires_user_action)),
        ("status"@, JsonView::Str("failed"@)),
        ("tool"@, JsonView::Str(tool)),
    ];
    let members = (match details {
        Some(d) => seq![("details"@, d)],
        None => Seq::empty(),
    }) + tail;
    assert(crate::browser::failure_document(tool, code, message, recoverable, requires_user_action, details, ExecutionResultStatus::Failed)
        == JsonView::Object(members));
    assert(tail.drop_first().drop_first().drop_first().drop_first()[0] == ("status"@, JsonView::Str("failed"@)));
    assert(entries_get(tail.drop_first().drop_first().drop_first().drop_first(), "status"@) == Some(JsonView::Str("failed"@)));
    assert("requires_user_action"@.len() != "status"@.len());
    assert("recoverable"@.len() != "status"@.len());
    assert("error_code"@.len() != "status"@.len());
    assert("error"@.len() != "status"@.len());
    assert(tail.drop_first().drop_first().drop_first()[0].0 == "requires_user_action"@);
    assert(tail.drop_first().drop_first()[0].0 == "recoverable"@);
    assert(tail.drop_first()[0].0 == "error_code"@);
    assert(tail[0].0 == "error"@);
    assert(entries_get(tail.drop_first().drop_first().drop_first(), "status"@) == Some(JsonView::Str("failed"@)));
    assert(entries_get(tail.drop_first().drop_first(), "status"@) == Some(JsonView::Str("failed"@)));
    assert(entries_get(tail.drop_first(), "status"@) == Some(JsonView::Str("failed"@)));
    assert(entries_get(tail, "status"@) == Some(JsonView::Str("failed"@)));
    if details is Some {
        assert(members.drop_first() == tail);
    } else {
        assert(members == tail);
    }
    assert(entries_get(members, "status"@) == Some(JsonView::Str("failed"@)));
    assert("failed"@.len() != "indeterminate"@.len());
}

} // verus!
