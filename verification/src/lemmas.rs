//! What holds of the server's state across its operations.

use vstd::prelude::*;
use crate::server::{delivery_targets, is_broadcast, Delivery, ServerView};

verus! {

/// The state after the sessions `sinks` were registered one after another.
pub open spec fn after_connects<S>(view: ServerView<S>, sinks: Seq<S>) -> ServerView<S>
    decreases sinks.len(),
{
    if sinks.len() == 0 {
        view
    } else {
        after_connects(view, sinks.drop_last()).with_session(sinks.last())
    }
}

/// The state after the sessions `ids` were removed one after another.
pub open spec fn after_closes<S>(view: ServerView<S>, ids: Seq<u64>) -> ServerView<S>
    decreases ids.len(),
{
    if ids.len() == 0 {
        view
    } else {
        after_closes(view, ids.drop_last()).without_session(ids.last())
    }
}

/// Registering a session adds one to the count of sessions, under an
/// identifier that no session had, and keeps the state well formed.
pub proof fn lemma_connect_counts<S>(view: ServerView<S>, sink: S)
    requires
        view.wf(),
        view.next_id < u64::MAX,
    ensures
        view.with_session(sink).wf(),
        !view.sessions.contains_key(view.next_id as u64),
        view.with_session(sink).sessions.len() == view.sessions.len() + 1,
{
    let id = view.next_id as u64;
    if view.sessions.contains_key(id) {
        assert(id < view.next_id);
    }
}

/// Removing a connected session takes one from the count of sessions;
/// removing one that is not connected changes nothing.
pub proof fn lemma_close_counts<S>(view: ServerView<S>, id: u64)
    requires
        view.wf(),
    ensures
        view.without_session(id).wf(),
        view.sessions.contains_key(id) ==> view.without_session(id).sessions.len()
            == view.sessions.len() - 1,
        !view.sessions.contains_key(id) ==> view.without_session(id) == view,
{
    if !view.sessions.contains_key(id) {
        assert(view.sessions.remove(id) =~= view.sessions);
    }
}

/// Removing a session twice leaves what removing it once leaves: the second
/// removal changes nothing, and so not the count of sessions.
pub proof fn lemma_remove_idempotent<S>(view: ServerView<S>, id: u64)
    ensures
        view.without_session(id).without_session(id) == view.without_session(id),
        view.without_session(id).without_session(id).sessions.len() == view.without_session(
            id,
        ).sessions.len(),
{
    assert(view.sessions.remove(id).remove(id) =~= view.sessions.remove(id));
}

/// Registering `sinks` one after another adds their number to the count of
/// sessions; the new sessions get the identifiers from `view.next_id` on,
/// and the sessions that were there stay.
pub proof fn lemma_connects_count<S>(view: ServerView<S>, sinks: Seq<S>)
    requires
        view.wf(),
        view.next_id + sinks.len() <= u64::MAX,
    ensures
        after_connects(view, sinks).wf(),
        after_connects(view, sinks).next_id == view.next_id + sinks.len(),
        after_connects(view, sinks).sessions.len() == view.sessions.len() + sinks.len(),
        after_connects(view, sinks).service_name == view.service_name,
        after_connects(view, sinks).initialized == view.initialized,
        forall|id: u64|
            #[trigger] after_connects(view, sinks).sessions.contains_key(id) <==> (
            view.sessions.contains_key(id) || view.next_id <= id < view.next_id + sinks.len()),
    decreases sinks.len(),
{
    if sinks.len() > 0 {
        let before = after_connects(view, sinks.drop_last());
        lemma_connects_count(view, sinks.drop_last());
        lemma_connect_counts(before, sinks.last());
    }
}

/// Removing distinct connected sessions one after another takes their number
/// from the count of sessions.
pub proof fn lemma_closes_count<S>(view: ServerView<S>, ids: Seq<u64>)
    requires
        view.wf(),
        ids.no_duplicates(),
        forall|i: int| 0 <= i < ids.len() ==> view.sessions.contains_key(#[trigger] ids[i]),
    ensures
        after_closes(view, ids).wf(),
        after_closes(view, ids).sessions.len() == view.sessions.len() - ids.len(),
        after_closes(view, ids).sessions == view.sessions.remove_keys(ids.to_set()),
        after_closes(view, ids).next_id == view.next_id,
    decreases ids.len(),
{
    if ids.len() == 0 {
        assert(ids.to_set() =~= Set::<u64>::empty());
        assert(view.sessions.remove_keys(Set::<u64>::empty()) =~= view.sessions);
    } else {
        let rest = ids.drop_last();
        let last = ids.last();
        let before = after_closes(view, rest);
        assert forall|i: int| 0 <= i < rest.len() implies view.sessions.contains_key(
            #[trigger] rest[i],
        ) by {
            assert(rest[i] == ids[i]);
        }
        lemma_closes_count(view, rest);
        assert(!rest.to_set().contains(last)) by {
            if rest.contains(last) {
                let j = choose|j: int| 0 <= j < rest.len() && rest[j] == last;
                assert(ids[j] == ids[ids.len() - 1]);
            }
        }
        assert(view.sessions.contains_key(ids[ids.len() - 1]));
        assert(before.sessions.contains_key(last));
        lemma_close_counts(before, last);
        assert(ids =~= rest.push(last));
        rest.lemma_push_to_set_commute(last);
        assert(before.sessions.remove(last) =~= view.sessions.remove_keys(ids.to_set()));
    }
}

/// After `sinks` were connected to a server without sessions, and the
/// distinct sessions `closed` among them were closed, the count of sessions
/// is the number connected less the number closed. This holds as long as
/// the server has an identifier left for each of the sessions that connect.
pub proof fn lemma_client_count<S>(view: ServerView<S>, sinks: Seq<S>, closed: Seq<u64>)
    requires
        view.wf(),
        view.sessions.len() == 0,
        view.next_id + sinks.len() <= u64::MAX,
        closed.no_duplicates(),
        forall|i: int|
            0 <= i < closed.len() ==> view.next_id <= (#[trigger] closed[i]) < view.next_id
                + sinks.len(),
    ensures
        closed.len() <= sinks.len(),
        after_closes(after_connects(view, sinks), closed).sessions.len() == sinks.len()
            - closed.len(),
{
    let connected = after_connects(view, sinks);
    lemma_connects_count(view, sinks);
    assert forall|i: int| 0 <= i < closed.len() implies connected.sessions.contains_key(
        #[trigger] closed[i],
    ) by {
        assert(view.next_id <= closed[i] < view.next_id + sinks.len());
    }
    lemma_closes_count(connected, closed);
}

/// A server that was not started broadcasts no log call, whatever sessions
/// it has; nor does a started server without sessions.
pub proof fn lemma_silent_states<S>(view: ServerView<S>)
    requires
        view.wf(),
    ensures
        !view.initialized ==> !view.accepts_logs(),
        view.sessions.dom() == Set::<u64>::empty() ==> !view.accepts_logs(),
        view.fresh() ==> !view.accepts_logs(),
{
    if view.sessions.dom() == Set::<u64>::empty() {
        assert(view.sessions.len() == 0);
    }
}

/// A broadcast to a single session is a single delivery, to that session,
/// of the payload.
pub proof fn lemma_single_session_broadcast(
    deliveries: Seq<Delivery>,
    session: u64,
    payload: Seq<char>,
)
    requires
        is_broadcast(deliveries, set![session], payload),
    ensures
        deliveries.len() == 1,
        deliveries[0].session == session,
        deliveries[0].frame@ == payload,
{
    let targets = delivery_targets(deliveries);
    targets.unique_seq_to_set();
    assert(set![session].len() == 1);
    assert(targets.len() == 1);
    assert(targets.to_set().contains(targets[0]));
}

/// In one broadcast, any two connected sessions are each addressed by
/// exactly one delivery, and the two deliveries carry the same frame.
pub proof fn lemma_same_frame_for_all(
    deliveries: Seq<Delivery>,
    sessions: Set<u64>,
    payload: Seq<char>,
    a: u64,
    b: u64,
)
    requires
        is_broadcast(deliveries, sessions, payload),
        sessions.contains(a),
        sessions.contains(b),
        a != b,
    ensures
        exists|i: int, j: int|
            0 <= i < deliveries.len() && 0 <= j < deliveries.len() && i != j
                && #[trigger] deliveries[i].session == a && #[trigger] deliveries[j].session == b
                && deliveries[i].frame@ == deliveries[j].frame@,
        forall|i: int, k: int|
            0 <= i < deliveries.len() && 0 <= k < deliveries.len() && deliveries[i].session
                == deliveries[k].session ==> i == k,
{
    let targets = delivery_targets(deliveries);
    assert(targets.to_set().contains(a));
    assert(targets.to_set().contains(b));
    let i = choose|i: int| 0 <= i < targets.len() && targets[i] == a;
    let j = choose|j: int| 0 <= j < targets.len() && targets[j] == b;
    assert(deliveries[i].session == a && deliveries[j].session == b);
    assert forall|x: int, k: int|
        0 <= x < deliveries.len() && 0 <= k < deliveries.len() && deliveries[x].session
            == deliveries[k].session implies x == k by {
        assert(targets[x] == targets[k]);
    }
}

} // verus!
