//! What the first load of the desktop shows of the runtime: the current
//! session's recent events (the last page of them), its runtime summary,
//! and the recoveries related to it.

use vstd::prelude::*;
use crate::app_events::EventEnvelope;
use crate::recovery_read_model::RecoverySummaryEntry;
use crate::session_summary::SessionRuntimeSummary;
use crate::text::{opt_str_view, opt_string_view, str_eq};

verus! {

/// What the first load reports of the agent: the epoch of its runtime.
#[derive(Clone, Debug)]
pub struct BootstrapAgentDto {
    pub runtime_epoch: String,
}

/// The most recent events the first load shows.
pub const BOOTSTRAP_RECENT_EVENT_PAGE_SIZE: usize = 200;

/// The most recent timeline entries the first load shows.
pub const BOOTSTRAP_TIMELINE_PAGE_SIZE: usize = 50;

/// The last `size` items, and whether earlier ones were left out.
pub fn last_page<T>(items: Vec<T>, size: usize) -> (r: (Vec<T>, bool))
    ensures
        r.0@ == if items@.len() > size { items@.skip(items@.len() - size) } else { items@ },
        r.1 == (items@.len() > size),
{
    let mut items = items;
    let ghost all = items@;
    if items.len() > size {
        let start = items.len() - size;
        let tail = items.split_off(start);
        assert(tail@ =~= all.skip(start as int));
        (tail, true)
    } else {
        (items, false)
    }
}

/// The session that a first load asked for becomes the current one, its
/// timeline, turns and notifications alone shown, where the store has it;
/// otherwise the store's own current session stays.
pub fn session_to_select(requested: Option<&str>, session_ids: &Vec<String>) -> (r: Option<String>)
    ensures
        opt_string_view(r) == match requested {
            Some(id) => if views_of(session_ids@).contains(id@) { Some(id@) } else { None },
            None => None,
        },
{
    match requested {
        None => None,
        Some(id) => {
            let mut i: usize = 0;
            while i < session_ids.len()
                invariant
                    i <= session_ids@.len(),
                    requested == Some(id),
                    forall|j: int| 0 <= j < i ==> session_ids@[j]@ != id@,
                decreases session_ids@.len() - i,
            {
                if str_eq(session_ids[i].as_str(), id) {
                    assert(views_of(session_ids@)[i as int] == id@);
                    return Some(crate::text::str_to_string(id));
                }
                i = i + 1;
            }
            assert(!views_of(session_ids@).contains(id@)) by {
                if views_of(session_ids@).contains(id@) {
                    let j = choose|j: int| 0 <= j < views_of(session_ids@).len() && views_of(session_ids@)[j] == id@;
                    assert(session_ids@[j]@ == id@);
                }
            }
            None
        },
    }
}

pub open spec fn views_of(v: Seq<String>) -> Seq<Seq<char>> {
    v.map_values(|s: String| s@)
}

/// An event the first load shows: one of the current session's, other than
/// the maintenance status.
pub open spec fn event_shown(event: EventEnvelope, current: Option<Seq<char>>) -> bool {
    event.event_type@ != "system.runtime.maintenance.status"@
        && current is Some && opt_string_view(event.session_id) == current
}

/// The current session's part of the runtime read model, as far as the
/// first load looks at it.
pub struct CurrentScope {
    pub session_id: Option<String>,
    pub recovery_ids: Vec<String>,
    pub recovery_ref: Option<String>,
    pub mission_id: Option<String>,
    pub execution_chain_ref: Option<String>,
}

/// A recovery is related to the current session when it belongs to the
/// session, is one of the session's recoveries, or belongs to its mission
/// or its chain.
pub open spec fn recovery_related(
    scope: CurrentScope,
    recovery_id: Seq<char>,
    session_id: Option<Seq<char>>,
    mission_id: Option<Seq<char>>,
    execution_chain_ref: Option<Seq<char>>,
) -> bool {
    ||| (opt_string_view(scope.session_id) is Some && session_id == opt_string_view(scope.session_id))
    ||| (exists|i: int| 0 <= i < scope.recovery_ids@.len() && (#[trigger] scope.recovery_ids@[i])@ == recovery_id)
    ||| opt_string_view(scope.recovery_ref) == Some(recovery_id)
    ||| (opt_string_view(scope.mission_id) is Some && mission_id == opt_string_view(scope.mission_id))
    ||| (opt_string_view(scope.execution_chain_ref) is Some && execution_chain_ref == opt_string_view(scope.execution_chain_ref))
}

pub open spec fn summary_related(scope: CurrentScope, s: RecoverySummaryEntry) -> bool {
    recovery_related(scope, s.recovery_id@, opt_string_view(s.session_id), opt_string_view(s.mission_id), opt_string_view(s.execution_chain_ref))
}

fn opt_matches(scope_value: &Option<String>, value: &Option<String>) -> (r: bool)
    ensures
        r == (opt_string_view(*scope_value) is Some && opt_string_view(*value) == opt_string_view(*scope_value)),
{
    match (scope_value, value) {
        (Some(a), Some(b)) => str_eq(a.as_str(), b.as_str()),
        _ => false,
    }
}

/// Whether a recovery is related to the current session.
pub fn recovery_is_related(
    scope: &CurrentScope,
    recovery_id: &str,
    session_id: &Option<String>,
    mission_id: &Option<String>,
    execution_chain_ref: &Option<String>,
) -> (r: bool)
    ensures
        r == recovery_related(*scope, recovery_id@, opt_string_view(*session_id), opt_string_view(*mission_id), opt_string_view(*execution_chain_ref)),
{
    if opt_matches(&scope.session_id, session_id) {
        return true;
    }
    let mut i: usize = 0;
    while i < scope.recovery_ids.len()
        invariant
            i <= scope.recovery_ids@.len(),
            forall|k: int| 0 <= k < i ==> (#[trigger] scope.recovery_ids@[k])@ != recovery_id@,
        decreases scope.recovery_ids@.len() - i,
    {
        if str_eq(scope.recovery_ids[i].as_str(), recovery_id) {
            return true;
        }
        i = i + 1;
    }
    let by_ref = match &scope.recovery_ref {
        Some(r) => str_eq(r.as_str(), recovery_id),
        None => false,
    };
    by_ref || opt_matches(&scope.mission_id, mission_id) || opt_matches(&scope.execution_chain_ref, execution_chain_ref)
}

/// The scope of the current session: its id, and what its runtime summary
/// (the first one, once only the current session's are kept) names.
pub open spec fn scope_of(current: Option<Seq<char>>, sessions: Seq<SessionRuntimeSummary>, scope: CurrentScope) -> bool {
    &&& opt_string_view(scope.session_id) == current
    &&& if sessions.len() > 0 {
        let s = sessions[0];
        &&& scope.recovery_ids@ == s.recovery_ids@
        &&& opt_string_view(scope.recovery_ref) == opt_string_view(s.recovery_ref)
        &&& opt_string_view(scope.mission_id) == opt_string_view(s.mission_id)
        &&& opt_string_view(scope.execution_chain_ref) == opt_string_view(s.execution_chain_ref)
    } else {
        &&& scope.recovery_ids@.len() == 0
        &&& scope.recovery_ref is None && scope.mission_id is None && scope.execution_chain_ref is None
    }
}

/// A recovery activity entry of the runtime read model: what the first
/// load reads of it, and the rest of it (`detail`), which it carries.
#[derive(Clone, Debug)]
pub struct RecoveryActivityEntry<D> {
    pub recovery_id: String,
    pub session_id: Option<String>,
    pub mission_id: Option<String>,
    pub execution_chain_ref: Option<String>,
    pub detail: D,
}

pub open spec fn entry_related<D>(scope: CurrentScope, e: RecoveryActivityEntry<D>) -> bool {
    recovery_related(scope, e.recovery_id@, opt_string_view(e.session_id), opt_string_view(e.mission_id), opt_string_view(e.execution_chain_ref))
}

/// What the first load shows of the runtime, with its recovery activity
/// entries (their details of type `D`) and the canonical turns of the
/// selected session (of type `C`).
pub struct InitialLoadDetails<D, C> {
    pub recent_events: Vec<EventEnvelope>,
    pub sessions: Vec<SessionRuntimeSummary>,
    pub recovery_summaries: Vec<RecoverySummaryEntry>,
    pub recovery_entries: Vec<RecoveryActivityEntry<D>>,
    pub active_recovery_ids: Vec<String>,
    pub canonical_turns: Vec<C>,
}

pub open spec fn summary_ids(summaries: Seq<RecoverySummaryEntry>) -> Set<Seq<char>> {
    Set::new(|id: Seq<char>| exists|i: int| 0 <= i < summaries.len() && (#[trigger] summaries[i]).recovery_id@ == id)
}

/// The first load's details pruned to the current session: its events,
/// the last page of them; its runtime summary, without its current turn or
/// the turn's items; the recovery summaries and activity entries related to
/// it (in `scope`); of the active recoveries, those still shown; and the
/// canonical turns, all kept.
pub open spec fn pruned<D, C>(
    after: InitialLoadDetails<D, C>,
    before: InitialLoadDetails<D, C>,
    current: Option<Seq<char>>,
    scope: CurrentScope,
) -> bool {
    let events = before.recent_events@.filter(|e: EventEnvelope| event_shown(e, current));
    let sessions = before.sessions@.filter(|s: SessionRuntimeSummary| current is Some && Some(s.session_id@) == current);
    &&& after.recent_events@ == if events.len() > BOOTSTRAP_RECENT_EVENT_PAGE_SIZE {
        events.skip(events.len() - BOOTSTRAP_RECENT_EVENT_PAGE_SIZE)
    } else {
        events
    }
    &&& after.sessions@.len() == sessions.len()
    &&& forall|i: int| 0 <= i < sessions.len() ==> turn_cleared(#[trigger] after.sessions@[i], sessions[i])
    &&& scope_of(current, sessions, scope)
    &&& after.recovery_summaries@ == before.recovery_summaries@.filter(|s: RecoverySummaryEntry| summary_related(scope, s))
    &&& after.recovery_entries@ == before.recovery_entries@.filter(|e: RecoveryActivityEntry<D>| entry_related(scope, e))
    &&& after.canonical_turns@ == before.canonical_turns@
    &&& after.active_recovery_ids@ == before.active_recovery_ids@.filter(
        |id: String| summary_ids(after.recovery_summaries@).contains(id@),
    )
}

fn keep_shown_events(events: Vec<EventEnvelope>, current: Option<&str>) -> (r: Vec<EventEnvelope>)
    ensures
        r@ == events@.filter(|e: EventEnvelope| event_shown(e, opt_str_view(current))),
{
    let ghost keep = |e: EventEnvelope| event_shown(e, opt_str_view(current));
    let ghost all = events@;
    let n = events.len();
    let mut rest = events;
    let mut out: Vec<EventEnvelope> = Vec::new();
    let mut k: usize = 0;
    assert(all.take(0).filter(keep) =~= out@) by {
        reveal(Seq::filter);
    }
    assert(all.skip(0) =~= all);
    while rest.len() > 0
        invariant
            k + rest@.len() == all.len(),
            all.len() == n,
            rest@ == all.skip(k as int),
            out@ == all.take(k as int).filter(keep),
            forall|e: EventEnvelope| #[trigger] keep(e) == event_shown(e, opt_str_view(current)),
        decreases rest@.len(),
    {
        let e = rest.remove(0);
        proof {
            reveal(Seq::filter);
            assert(e == all[k as int]);
            assert(rest@ =~= all.skip(k + 1));
            assert(all.take(k + 1).drop_last() == all.take(k as int));
            assert(all.take(k + 1).last() == e);
        }
        let shown = !str_eq(e.event_type.as_str(), "system.runtime.maintenance.status") && match current {
            Some(c) => match &e.session_id {
                Some(s) => str_eq(s.as_str(), c),
                None => false,
            },
            None => false,
        };
        if shown {
            out.push(e);
        }
        k = k + 1;
    }
    assert(all.take(k as int) == all);
    out
}

fn keep_current_sessions(sessions: Vec<SessionRuntimeSummary>, current: Option<&str>) -> (r: Vec<SessionRuntimeSummary>)
    ensures
        r@ == sessions@.filter(|s: SessionRuntimeSummary| opt_str_view(current) is Some && Some(s.session_id@) == opt_str_view(current)),
{
    let ghost keep = |s: SessionRuntimeSummary| opt_str_view(current) is Some && Some(s.session_id@) == opt_str_view(current);
    let ghost all = sessions@;
    let n = sessions.len();
    let mut rest = sessions;
    let mut out: Vec<SessionRuntimeSummary> = Vec::new();
    let mut k: usize = 0;
    assert(all.take(0).filter(keep) =~= out@) by {
        reveal(Seq::filter);
    }
    assert(all.skip(0) =~= all);
    while rest.len() > 0
        invariant
            k + rest@.len() == all.len(),
            all.len() == n,
            rest@ == all.skip(k as int),
            out@ == all.take(k as int).filter(keep),
            forall|s: SessionRuntimeSummary| #[trigger] keep(s) == (opt_str_view(current) is Some && Some(s.session_id@) == opt_str_view(current)),
        decreases rest@.len(),
    {
        let s = rest.remove(0);
        proof {
            reveal(Seq::filter);
            assert(s == all[k as int]);
            assert(rest@ =~= all.skip(k + 1));
            assert(all.take(k + 1).drop_last() == all.take(k as int));
            assert(all.take(k + 1).last() == s);
        }
        let is_current = match current {
            Some(c) => str_eq(s.session_id.as_str(), c),
            None => false,
        };
        if is_current {
            out.push(s);
        }
        k = k + 1;
    }
    assert(all.take(k as int) == all);
    out
}

/// `after` is `before` without its current turn and the turn's items.
pub open spec fn turn_cleared(after: SessionRuntimeSummary, before: SessionRuntimeSummary) -> bool {
    &&& after == SessionRuntimeSummary { current_turn: None, turn_items: after.turn_items, ..before }
    &&& after.turn_items@.len() == 0
}

fn clear_turns(sessions: Vec<SessionRuntimeSummary>) -> (r: Vec<SessionRuntimeSummary>)
    ensures
        r@.len() == sessions@.len(),
        forall|i: int| 0 <= i < sessions@.len() ==> turn_cleared(#[trigger] r@[i], sessions@[i]),
{
    let ghost all = sessions@;
    let n = sessions.len();
    let mut rest = sessions;
    let mut out: Vec<SessionRuntimeSummary> = Vec::new();
    let mut k: usize = 0;
    assert(all.skip(0) =~= all);
    while rest.len() > 0
        invariant
            k + rest@.len() == all.len(),
            all.len() == n,
            rest@ == all.skip(k as int),
            out@.len() == k,
            forall|i: int| 0 <= i < k ==> turn_cleared(#[trigger] out@[i], all[i]),
        decreases rest@.len(),
    {
        let mut s = rest.remove(0);
        proof {
            assert(s == all[k as int]);
            assert(rest@ =~= all.skip(k + 1));
        }
        s.current_turn = None;
        s.turn_items = Vec::new();
        out.push(s);
        k = k + 1;
    }
    out
}

fn copy_strings(v: &Vec<String>) -> (r: Vec<String>)
    ensures
        r@ == v@,
{
    let mut out: Vec<String> = Vec::new();
    let mut i: usize = 0;
    while i < v.len()
        invariant
            i <= v@.len(),
            out@ == v@.take(i as int),
        decreases v@.len() - i,
    {
        out.push(v[i].clone());
        assert(out@ =~= v@.take(i + 1));
        i = i + 1;
    }
    assert(v@.take(v@.len() as int) =~= v@);
    out
}

/// The scope of the current session, given its runtime summaries (only
/// the current session's).
pub fn current_scope(current: Option<&str>, sessions: &Vec<SessionRuntimeSummary>) -> (r: CurrentScope)
    ensures
        scope_of(opt_str_view(current), sessions@, r),
{
    let session_id = match current {
        Some(c) => Some(crate::text::str_to_string(c)),
        None => None,
    };
    if sessions.len() > 0 {
        let s = &sessions[0];
        CurrentScope {
            session_id,
            recovery_ids: copy_strings(&s.recovery_ids),
            recovery_ref: crate::text::copy_opt_string(&s.recovery_ref),
            mission_id: crate::text::copy_opt_string(&s.mission_id),
            execution_chain_ref: crate::text::copy_opt_string(&s.execution_chain_ref),
        }
    } else {
        CurrentScope { session_id, recovery_ids: Vec::new(), recovery_ref: None, mission_id: None, execution_chain_ref: None }
    }
}

fn keep_related_summaries(summaries: Vec<RecoverySummaryEntry>, scope: &CurrentScope) -> (r: Vec<RecoverySummaryEntry>)
    ensures
        r@ == summaries@.filter(|s: RecoverySummaryEntry| summary_related(*scope, s)),
{
    let ghost keep = |s: RecoverySummaryEntry| summary_related(*scope, s);
    let ghost all = summaries@;
    let n = summaries.len();
    let mut rest = summaries;
    let mut out: Vec<RecoverySummaryEntry> = Vec::new();
    let mut k: usize = 0;
    assert(all.take(0).filter(keep) =~= out@) by {
        reveal(Seq::filter);
    }
    assert(all.skip(0) =~= all);
    while rest.len() > 0
        invariant
            k + rest@.len() == all.len(),
            all.len() == n,
            rest@ == all.skip(k as int),
            out@ == all.take(k as int).filter(keep),
            forall|s: RecoverySummaryEntry| #[trigger] keep(s) == summary_related(*scope, s),
        decreases rest@.len(),
    {
        let s = rest.remove(0);
        proof {
            reveal(Seq::filter);
            assert(s == all[k as int]);
            assert(rest@ =~= all.skip(k + 1));
            assert(all.take(k + 1).drop_last() == all.take(k as int));
            assert(all.take(k + 1).last() == s);
        }
        if recovery_is_related(scope, s.recovery_id.as_str(), &s.session_id, &s.mission_id, &s.execution_chain_ref) {
            out.push(s);
        }
        k = k + 1;
    }
    assert(all.take(k as int) == all);
    out
}

fn keep_related_entries<D>(entries: Vec<RecoveryActivityEntry<D>>, scope: &CurrentScope) -> (r: Vec<RecoveryActivityEntry<D>>)
    ensures
        r@ == entries@.filter(|e: RecoveryActivityEntry<D>| entry_related(*scope, e)),
{
    let ghost keep = |e: RecoveryActivityEntry<D>| entry_related(*scope, e);
    let ghost all = entries@;
    let n = entries.len();
    let mut rest = entries;
    let mut out: Vec<RecoveryActivityEntry<D>> = Vec::new();
    let mut k: usize = 0;
    assert(all.take(0).filter(keep) =~= out@) by {
        reveal(Seq::filter);
    }
    assert(all.skip(0) =~= all);
    while rest.len() > 0
        invariant
            k + rest@.len() == all.len(),
            all.len() == n,
            rest@ == all.skip(k as int),
            out@ == all.take(k as int).filter(keep),
            forall|e: RecoveryActivityEntry<D>| #[trigger] keep(e) == entry_related(*scope, e),
        decreases rest@.len(),
    {
        let e = rest.remove(0);
        proof {
            reveal(Seq::filter);
            assert(e == all[k as int]);
            assert(rest@ =~= all.skip(k + 1));
            assert(all.take(k + 1).drop_last() == all.take(k as int));
            assert(all.take(k + 1).last() == e);
        }
        if recovery_is_related(scope, e.recovery_id.as_str(), &e.session_id, &e.mission_id, &e.execution_chain_ref) {
            out.push(e);
        }
        k = k + 1;
    }
    assert(all.take(k as int) == all);
    out
}

fn shown_summary(summaries: &Vec<RecoverySummaryEntry>, id: &str) -> (r: bool)
    ensures
        r == summary_ids(summaries@).contains(id@),
{
    let mut i: usize = 0;
    while i < summaries.len()
        invariant
            i <= summaries@.len(),
            forall|k: int| 0 <= k < i ==> (#[trigger] summaries@[k]).recovery_id@ != id@,
        decreases summaries@.len() - i,
    {
        if str_eq(summaries[i].recovery_id.as_str(), id) {
            assert(summaries@[i as int].recovery_id@ == id@);
            return true;
        }
        i = i + 1;
    }
    false
}

fn keep_shown_ids(ids: Vec<String>, summaries: &Vec<RecoverySummaryEntry>) -> (r: Vec<String>)
    ensures
        r@ == ids@.filter(|id: String| summary_ids(summaries@).contains(id@)),
{
    let ghost keep = |id: String| summary_ids(summaries@).contains(id@);
    let ghost all = ids@;
    let n = ids.len();
    let mut rest = ids;
    let mut out: Vec<String> = Vec::new();
    let mut k: usize = 0;
    assert(all.take(0).filter(keep) =~= out@) by {
        reveal(Seq::filter);
    }
    assert(all.skip(0) =~= all);
    while rest.len() > 0
        invariant
            k + rest@.len() == all.len(),
            all.len() == n,
            rest@ == all.skip(k as int),
            out@ == all.take(k as int).filter(keep),
            forall|id: String| #[trigger] keep(id) == summary_ids(summaries@).contains(id@),
        decreases rest@.len(),
    {
        let id = rest.remove(0);
        proof {
            reveal(Seq::filter);
            assert(id == all[k as int]);
            assert(rest@ =~= all.skip(k + 1));
            assert(all.take(k + 1).drop_last() == all.take(k as int));
            assert(all.take(k + 1).last() == id);
        }
        if shown_summary(summaries, id.as_str()) {
            out.push(id);
        }
        k = k + 1;
    }
    assert(all.take(k as int) == all);
    out
}

/// Prunes the first load's runtime details to the current session.
pub fn prune_initial_load_runtime_details<D, C>(
    details: InitialLoadDetails<D, C>,
    current_session_id: Option<&str>,
) -> (r: (InitialLoadDetails<D, C>, CurrentScope))
    ensures
        pruned(r.0, details, opt_str_view(current_session_id), r.1),
{
    let InitialLoadDetails {
        recent_events,
        sessions,
        recovery_summaries,
        recovery_entries,
        active_recovery_ids,
        canonical_turns,
    } = details;
    let shown = keep_shown_events(recent_events, current_session_id);
    let (recent_events, _) = last_page(shown, BOOTSTRAP_RECENT_EVENT_PAGE_SIZE);
    let sessions = keep_current_sessions(sessions, current_session_id);
    let scope = current_scope(current_session_id, &sessions);
    let sessions = clear_turns(sessions);
    let recovery_summaries = keep_related_summaries(recovery_summaries, &scope);
    let recovery_entries = keep_related_entries(recovery_entries, &scope);
    let active_recovery_ids = keep_shown_ids(active_recovery_ids, &recovery_summaries);
    (
        InitialLoadDetails {
            recent_events,
            sessions,
            recovery_summaries,
            recovery_entries,
            active_recovery_ids,
            canonical_turns,
        },
        scope,
    )
}

/// The first load shows only the current session: each event it keeps is
/// one of that session's (never the maintenance status), each runtime
/// summary is that session's and shows no turn, each recovery summary and
/// activity entry is related to it, each active recovery it reports has a
/// summary shown, and the canonical turns are all kept.
pub proof fn lemma_first_load_shows_only_current_session<D, C>(
    after: InitialLoadDetails<D, C>,
    before: InitialLoadDetails<D, C>,
    current: Option<Seq<char>>,
    scope: CurrentScope,
)
    requires
        pruned(after, before, current, scope),
    ensures
        forall|i: int| 0 <= i < after.recent_events@.len() ==> event_shown(#[trigger] after.recent_events@[i], current),
        forall|i: int| 0 <= i < after.sessions@.len() ==> current == Some((#[trigger] after.sessions@[i]).session_id@)
            && after.sessions@[i].current_turn is None && after.sessions@[i].turn_items@.len() == 0,
        forall|i: int| 0 <= i < after.recovery_summaries@.len() ==> summary_related(scope, #[trigger] after.recovery_summaries@[i]),
        forall|i: int| 0 <= i < after.recovery_entries@.len() ==> entry_related(scope, #[trigger] after.recovery_entries@[i]),
        after.canonical_turns@ == before.canonical_turns@,
        forall|i: int| 0 <= i < after.active_recovery_ids@.len()
            ==> summary_ids(after.recovery_summaries@).contains((#[trigger] after.active_recovery_ids@[i])@),
{
    let shown = |e: EventEnvelope| event_shown(e, current);
    let events = before.recent_events@.filter(shown);
    broadcast use vstd::seq_lib::group_filter_ensures;
    assert forall|i: int| 0 <= i < after.recent_events@.len() implies event_shown(#[trigger] after.recent_events@[i], current) by {
        if events.len() > BOOTSTRAP_RECENT_EVENT_PAGE_SIZE {
            let k = events.len() - BOOTSTRAP_RECENT_EVENT_PAGE_SIZE;
            assert(after.recent_events@[i] == events[i + k]);
            assert(shown(events[i + k]));
        } else {
            assert(shown(events[i]));
        }
    }
    let cur = |s: SessionRuntimeSummary| current is Some && Some(s.session_id@) == current;
    let sessions = before.sessions@.filter(cur);
    assert forall|i: int| 0 <= i < after.sessions@.len() implies current == Some((#[trigger] after.sessions@[i]).session_id@) by {
        assert(after.sessions@[i].session_id == sessions[i].session_id);
        assert(cur(sessions[i]));
    }
    let rel = |s: RecoverySummaryEntry| summary_related(scope, s);
    assert forall|i: int| 0 <= i < after.recovery_summaries@.len() implies summary_related(scope, #[trigger] after.recovery_summaries@[i]) by {
        assert(rel(after.recovery_summaries@[i]));
    }
    let rel_e = |e: RecoveryActivityEntry<D>| entry_related(scope, e);
    assert forall|i: int| 0 <= i < after.recovery_entries@.len() implies entry_related(scope, #[trigger] after.recovery_entries@[i]) by {
        assert(rel_e(after.recovery_entries@[i]));
    }
    let vis = |id: String| summary_ids(after.recovery_summaries@).contains(id@);
    assert forall|i: int| 0 <= i < after.active_recovery_ids@.len()
        implies summary_ids(after.recovery_summaries@).contains((#[trigger] after.active_recovery_ids@[i])@) by {
        assert(vis(after.active_recovery_ids@[i]));
    }
}

/// Each of these ties a recovery to the current session, and the first load
/// keeps its summary and its activity entries: it belongs to the session,
/// it is one of the session's recoveries or its recovery reference, or it
/// belongs to the session's mission or to its execution chain.
pub proof fn lemma_recoveries_of_the_session_are_kept<D, C>(
    after: InitialLoadDetails<D, C>,
    before: InitialLoadDetails<D, C>,
    current: Option<Seq<char>>,
    scope: CurrentScope,
    recovery_id: Seq<char>,
    session_id: Option<Seq<char>>,
    mission_id: Option<Seq<char>>,
    execution_chain_ref: Option<Seq<char>>,
)
    requires
        pruned(after, before, current, scope),
    ensures
        opt_string_view(scope.execution_chain_ref) is Some && execution_chain_ref == opt_string_view(scope.execution_chain_ref)
            ==> recovery_related(scope, recovery_id, session_id, mission_id, execution_chain_ref),
        opt_string_view(scope.mission_id) is Some && mission_id == opt_string_view(scope.mission_id)
            ==> recovery_related(scope, recovery_id, session_id, mission_id, execution_chain_ref),
        opt_string_view(scope.session_id) is Some && session_id == opt_string_view(scope.session_id)
            ==> recovery_related(scope, recovery_id, session_id, mission_id, execution_chain_ref),
        opt_string_view(scope.recovery_ref) == Some(recovery_id)
            ==> recovery_related(scope, recovery_id, session_id, mission_id, execution_chain_ref),
        views_of(scope.recovery_ids@).contains(recovery_id)
            ==> recovery_related(scope, recovery_id, session_id, mission_id, execution_chain_ref),
        forall|i: int| 0 <= i < before.recovery_summaries@.len() && opt_string_view(scope.execution_chain_ref) is Some
            && opt_string_view((#[trigger] before.recovery_summaries@[i]).execution_chain_ref) == opt_string_view(scope.execution_chain_ref)
            ==> after.recovery_summaries@.contains(before.recovery_summaries@[i]),
        forall|i: int| 0 <= i < before.recovery_entries@.len() && opt_string_view(scope.execution_chain_ref) is Some
            && opt_string_view((#[trigger] before.recovery_entries@[i]).execution_chain_ref) == opt_string_view(scope.execution_chain_ref)
            ==> after.recovery_entries@.contains(before.recovery_entries@[i]),
{
    if views_of(scope.recovery_ids@).contains(recovery_id) {
        let k = choose|k: int| 0 <= k < views_of(scope.recovery_ids@).len() && views_of(scope.recovery_ids@)[k] == recovery_id;
        assert(scope.recovery_ids@[k]@ == recovery_id);
    }
    broadcast use vstd::seq_lib::group_filter_ensures;
    let rel = |s: RecoverySummaryEntry| summary_related(scope, s);
    assert forall|i: int| 0 <= i < before.recovery_summaries@.len() && opt_string_view(scope.execution_chain_ref) is Some
        && opt_string_view((#[trigger] before.recovery_summaries@[i]).execution_chain_ref) == opt_string_view(scope.execution_chain_ref)
        implies after.recovery_summaries@.contains(before.recovery_summaries@[i]) by {
        assert(rel(before.recovery_summaries@[i]));
        assert(before.recovery_summaries@.contains(before.recovery_summaries@[i]));
    }
    let rel_e = |e: RecoveryActivityEntry<D>| entry_related(scope, e);
    assert forall|i: int| 0 <= i < before.recovery_entries@.len() && opt_string_view(scope.execution_chain_ref) is Some
        && opt_string_view((#[trigger] before.recovery_entries@[i]).execution_chain_ref) == opt_string_view(scope.execution_chain_ref)
        implies after.recovery_entries@.contains(before.recovery_entries@[i]) by {
        assert(rel_e(before.recovery_entries@[i]));
        assert(before.recovery_entries@.contains(before.recovery_entries@[i]));
    }
}

} // verus!
