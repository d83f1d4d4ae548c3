//! Sessions: what holds of the service after any sequence of events, and of
//! the messages that a connection gets along the way.

use crate::broadcast::Broadcast;
use crate::message::{BallotRequest, ClientMessageView};
use crate::outbound::ServerMessageView;
use crate::service::{
    lemma_connect_preserves_wf, lemma_disconnect_preserves_wf, lemma_receive_preserves_wf,
    ConnectionPhase, Outcome, Refusal, ServiceView,
};
use crate::votes::{
    lemma_tally_after_removal, lemma_tally_counts_every_vote, lemma_tally_of_no_votes, total,
};
use vstd::prelude::*;

verus! {

/// What can happen to the service.
pub enum Event {
    /// A connection with the given capability is accepted.
    Connect { admin: bool },
    /// Connection `id` sends `message` at `now`.
    Receive { id: usize, message: ClientMessageView, now: int },
    /// Connection `id` has gone.
    Disconnect { id: usize },
    /// The timer of the periodic publication fires.
    Tick,
}

/// How a connection came to be live.
pub struct Admission {
    /// The state in which the connection was accepted.
    pub before: ServiceView,
    /// The capability with which it was accepted.
    pub admin: bool,
}

impl ServiceView {
    /// The transition that `event` causes. A connection for which no id is
    /// left is not accepted.
    pub open spec fn step(self, event: Event) -> Outcome {
        match event {
            Event::Connect { admin } => if self.registry.next_id < usize::MAX {
                self.connect(admin)
            } else {
                self.ignored()
            },
            Event::Receive { id, message, now } => self.receive(id, message, now),
            Event::Disconnect { id } => self.disconnect(id),
            Event::Tick => Outcome { state: self, sent: self.publish() },
        }
    }

    /// The state after all of `events`, with every broadcast on the way, in
    /// the order in which they went out.
    pub open spec fn run(self, events: Seq<Event>) -> Outcome
        decreases events.len(),
    {
        if events.len() == 0 {
            self.ignored()
        } else {
            let before = self.run(events.drop_last());
            let last = before.state.step(events.last());
            Outcome { state: last.state, sent: before.sent + last.sent }
        }
    }

    /// How connection `id` was accepted in the course of `events`, if it was
    /// accepted in it.
    pub open spec fn admission(self, events: Seq<Event>, id: usize) -> Option<Admission>
        decreases events.len(),
    {
        if events.len() == 0 {
            None
        } else {
            let before = self.run(events.drop_last()).state;
            match events.last() {
                Event::Connect { admin } => if before.registry.next_id == id && id < usize::MAX {
                    Some(Admission { before, admin })
                } else {
                    self.admission(events.drop_last(), id)
                },
                _ => self.admission(events.drop_last(), id),
            }
        }
    }
}

/// The messages that connection `id` gets out of the broadcasts, in order.
pub open spec fn inbox(sent: Seq<Broadcast>, id: usize) -> Seq<ServerMessageView>
    decreases sent.len(),
{
    if sent.len() == 0 {
        Seq::empty()
    } else if sent.last().audience.contains(id) {
        inbox(sent.drop_last(), id).push(sent.last().message)
    } else {
        inbox(sent.drop_last(), id)
    }
}

/// Whether every broadcast reaches live connections only, and the metadata
/// live admins only.
pub open spec fn reach_is_proper(state: ServiceView, sent: Seq<Broadcast>) -> bool {
    forall|i: int, id: usize|
        0 <= i < sent.len() && #[trigger] sent[i].audience.contains(id) ==> state.is_live(id) && (
        sent[i].message is Metadata ==> state.is_admin(id))
}

/// The inbox of two runs of broadcasts, one after the other.
pub proof fn lemma_inbox_of_concatenation(first: Seq<Broadcast>, second: Seq<Broadcast>, id: usize)
    ensures
        inbox(first + second, id) == inbox(first, id) + inbox(second, id),
    decreases second.len(),
{
    if second.len() == 0 {
        assert(first + second =~= first);
        assert(inbox(first, id) + inbox(second, id) =~= inbox(first, id));
    } else {
        lemma_inbox_of_concatenation(first, second.drop_last(), id);
        assert((first + second).drop_last() =~= first + second.drop_last());
        assert((first + second).last() == second.last());
        if second.last().audience.contains(id) {
            assert(inbox(first, id) + inbox(second.drop_last(), id).push(second.last().message)
                =~= (inbox(first, id) + inbox(second.drop_last(), id)).push(second.last().message));
        }
    }
}

/// A connection that is not reached by any of the broadcasts gets nothing
/// out of them.
pub proof fn lemma_inbox_of_unreached(sent: Seq<Broadcast>, id: usize)
    requires
        forall|i: int| 0 <= i < sent.len() ==> !(#[trigger] sent[i]).audience.contains(id),
    ensures
        inbox(sent, id) == Seq::<ServerMessageView>::empty(),
    decreases sent.len(),
{
    if sent.len() > 0 {
        assert(!sent[sent.len() - 1].audience.contains(id));
        let rest = sent.drop_last();
        assert forall|i: int| 0 <= i < rest.len() implies !(#[trigger] rest[i]).audience.contains(
            id,
        ) by {
            assert(rest[i] == sent[i]);
        }
        lemma_inbox_of_unreached(rest, id);
    }
}

/// No metadata is among the messages that a connection gets out of
/// broadcasts whose metadata does not reach it.
pub proof fn lemma_inbox_without_metadata(sent: Seq<Broadcast>, id: usize)
    requires
        forall|i: int|
            0 <= i < sent.len() && (#[trigger] sent[i]).audience.contains(id) ==> !(
            sent[i].message is Metadata),
    ensures
        forall|k: int|
            0 <= k < inbox(sent, id).len() ==> !(#[trigger] inbox(sent, id)[k] is Metadata),
    decreases sent.len(),
{
    if sent.len() > 0 {
        let last = sent.len() - 1;
        let rest = sent.drop_last();
        assert(sent[last].audience.contains(id) ==> !(sent[last].message is Metadata));
        assert forall|i: int| 0 <= i < rest.len() && (#[trigger] rest[i]).audience.contains(id)
            implies !(rest[i].message is Metadata) by {
            assert(rest[i] == sent[i]);
        }
        lemma_inbox_without_metadata(rest, id);
    }
}

/// Every event leads from a well-formed state to a well-formed state.
pub proof fn lemma_step_preserves_wf(state: ServiceView, event: Event)
    requires
        state.wf(),
    ensures
        state.step(event).state.wf(),
{
    match event {
        Event::Connect { admin } => {
            if state.registry.next_id < usize::MAX {
                lemma_connect_preserves_wf(state, admin);
            }
        },
        Event::Receive { id, message, now } => {
            lemma_receive_preserves_wf(state, id, message, now);
        },
        Event::Disconnect { id } => {
            lemma_disconnect_preserves_wf(state, id);
        },
        Event::Tick => {},
    }
}

/// Every state that a session reaches from a well-formed state is well
/// formed.
pub proof fn lemma_run_preserves_wf(start: ServiceView, events: Seq<Event>)
    requires
        start.wf(),
    ensures
        start.run(events).state.wf(),
    decreases events.len(),
{
    if events.len() > 0 {
        lemma_run_preserves_wf(start, events.drop_last());
        lemma_step_preserves_wf(start.run(events.drop_last()).state, events.last());
    }
}

/// A well-formed state holds finitely many votes.
pub proof fn lemma_votes_are_finite(state: ServiceView)
    requires
        state.wf(),
    ensures
        state.votes.dom().finite(),
{
    assert(state.votes.dom().subset_of(state.registry.members.dom())) by {
        assert forall|id: usize|
            state.votes.dom().contains(id) implies state.registry.members.dom().contains(id) by {
            assert(state.votes.contains_key(id));
        }
    }
    vstd::set_lib::lemma_set_subset_finite(state.registry.members.dom(), state.votes.dom());
}

/// The broadcasts that an event causes reach only connections that are live
/// after it, and the metadata only admins among them.
pub proof fn lemma_step_reaches_properly(state: ServiceView, event: Event)
    requires
        state.wf(),
    ensures
        reach_is_proper(state.step(event).state, state.step(event).sent),
{
}

/// An event leaves the admin flag of a connection as it is while the
/// connection lives, never brings a closed connection back, never takes an id
/// back that was handed out, and accepts a connection only under the next
/// id.
pub proof fn lemma_step_keeps_identity(state: ServiceView, event: Event, id: usize)
    requires
        state.wf(),
    ensures
        state.is_live(id) && state.step(event).state.is_live(id) ==> state.step(
            event,
        ).state.is_admin(id) == state.is_admin(id),
        state.phase(id) == ConnectionPhase::Closed ==> state.step(event).state.phase(id)
            == ConnectionPhase::Closed,
        state.step(event).state.phase(id) == ConnectionPhase::Connecting ==> state.phase(id)
            == ConnectionPhase::Connecting,
        state.phase(id) == ConnectionPhase::Connecting && state.step(event).state.phase(id)
            != ConnectionPhase::Connecting ==> event is Connect && id == state.registry.next_id,
{
}

/// In every state that a session reaches, the counts of the tally add up to
/// the number of connections with a recorded vote.
pub proof fn lemma_tally_counts_the_voters(start: ServiceView, events: Seq<Event>)
    requires
        start.wf(),
    ensures
        total(start.run(events).state.tally()) == start.run(events).state.votes.len(),
{
    lemma_run_preserves_wf(start, events);
    let state = start.run(events).state;
    lemma_votes_are_finite(state);
    lemma_tally_counts_every_vote(state.votes, state.ballot.choices.len());
}

/// A vote for an index that names no choice of the active ballot changes
/// nothing: the votes and the tally stay as they were, the voter stays
/// connected, and nothing goes out.
pub proof fn lemma_vote_out_of_range_is_dropped(
    state: ServiceView,
    id: usize,
    choice: usize,
    now: int,
)
    requires
        choice >= state.ballot.choices.len(),
    ensures
        state.is_live(id) ==> state.refusal(id, ClientMessageView::Vote(choice), now) == Some(
            Refusal::VoteOutOfRange,
        ),
        state.receive(id, ClientMessageView::Vote(choice), now) == state.ignored(),
        state.receive(id, ClientMessageView::Vote(choice), now).state.tally() == state.tally(),
        state.receive(id, ClientMessageView::Vote(choice), now).state.phase(id) == state.phase(id),
{
}

/// A message that is dropped changes nothing, and nothing goes out.
pub proof fn lemma_refused_message_is_dropped(
    state: ServiceView,
    id: usize,
    message: ClientMessageView,
    now: int,
)
    requires
        state.refusal(id, message, now) is Some,
    ensures
        state.receive(id, message, now) == state.ignored(),
{
}

/// After a ballot is applied, the new ballot is active and every count of
/// the tally is zero, whatever votes were recorded before.
pub proof fn lemma_ballot_resets_tally(
    state: ServiceView,
    id: usize,
    request: BallotRequest,
    now: int,
)
    requires
        state.ballot_refusal(id, request, now) is None,
    ensures
        state.set_ballot(id, request, now).state.ballot.choices == request.choices,
        state.set_ballot(id, request, now).state.ballot.expires == now + request.duration,
        state.set_ballot(id, request, now).state.votes == Map::<usize, usize>::empty(),
        state.set_ballot(id, request, now).state.tally() == Seq::new(
            request.choices.len(),
            |choice: int| 0nat,
        ),
{
    lemma_tally_of_no_votes(request.choices.len());
}

/// When a connection that had voted goes, the count of its choice goes down
/// by exactly one and every other count stays as it was.
pub proof fn lemma_disconnect_takes_one_vote(state: ServiceView, id: usize)
    requires
        state.wf(),
        state.votes.contains_key(id),
    ensures
        state.disconnect(id).state.tally().len() == state.tally().len(),
        state.tally()[state.votes[id] as int] >= 1,
        forall|choice: int|
            0 <= choice < state.tally().len() ==> #[trigger] state.disconnect(
                id,
            ).state.tally()[choice] == if choice == state.votes[id] {
                (state.tally()[choice] - 1) as nat
            } else {
                state.tally()[choice]
            },
{
    lemma_votes_are_finite(state);
    lemma_tally_after_removal(state.votes, id, state.ballot.choices.len());
}

/// A connection is past waiting for its id exactly if it was accepted in the
/// session, and while it lives its admin flag is the capability with which it
/// was accepted.
pub proof fn lemma_accepted_at_most_once(start: ServiceView, events: Seq<Event>, id: usize)
    requires
        start.wf(),
        start.phase(id) == ConnectionPhase::Connecting,
    ensures
        start.admission(events, id) is None <==> start.run(events).state.phase(id)
            == ConnectionPhase::Connecting,
        start.run(events).state.is_live(id) ==> start.admission(events, id)->Some_0.admin
            == start.run(events).state.registry.members[id],
    decreases events.len(),
{
    if events.len() > 0 {
        let earlier = events.drop_last();
        lemma_accepted_at_most_once(start, earlier, id);
        lemma_run_preserves_wf(start, earlier);
        let before = start.run(earlier).state;
        lemma_step_preserves_wf(before, events.last());
        lemma_step_keeps_identity(before, events.last(), id);
    }
}

/// How a connection was accepted in a part of a session is how it was
/// accepted in the whole session: no id is handed out twice.
pub proof fn lemma_accepted_for_good(start: ServiceView, events: Seq<Event>, id: usize, n: int)
    requires
        start.wf(),
        start.phase(id) == ConnectionPhase::Connecting,
        0 <= n <= events.len(),
        start.admission(events.take(n), id) is Some,
    ensures
        start.admission(events, id) == start.admission(events.take(n), id),
    decreases events.len() - n,
{
    if n == events.len() {
        assert(events.take(n) =~= events);
    } else {
        let earlier = events.drop_last();
        assert(earlier.take(n) =~= events.take(n));
        lemma_accepted_for_good(start, earlier, id, n);
        lemma_accepted_at_most_once(start, earlier, id);
        lemma_run_preserves_wf(start, earlier);
    }
}

/// A connection that joins in the course of a session gets nothing before
/// it is accepted, and then first the ballot that is active at that moment
/// and second the tally of that moment, before any broadcast.
pub proof fn lemma_join_snapshot_comes_first(start: ServiceView, events: Seq<Event>, id: usize)
    requires
        start.wf(),
        start.phase(id) == ConnectionPhase::Connecting,
    ensures
        match start.admission(events, id) {
            None => inbox(start.run(events).sent, id).len() == 0,
            Some(admission) => {
                &&& inbox(start.run(events).sent, id).len() >= 2
                &&& inbox(start.run(events).sent, id)[0] == ServerMessageView::SetBallot(
                    admission.before.ballot,
                )
                &&& inbox(start.run(events).sent, id)[1] == ServerMessageView::SetVotes(
                    admission.before.tally(),
                )
            },
        },
    decreases events.len(),
{
    if events.len() > 0 {
        let earlier = events.drop_last();
        lemma_join_snapshot_comes_first(start, earlier, id);
        lemma_accepted_at_most_once(start, earlier, id);
        lemma_accepted_at_most_once(start, events, id);
        lemma_run_preserves_wf(start, earlier);
        let before = start.run(earlier);
        let event = events.last();
        let last = before.state.step(event);
        let got = inbox(before.sent, id);
        let more = inbox(last.sent, id);
        lemma_step_reaches_properly(before.state, event);
        lemma_step_keeps_identity(before.state, event, id);
        lemma_inbox_of_concatenation(before.sent, last.sent, id);
        if start.admission(events, id) is None {
            assert forall|i: int| 0 <= i < last.sent.len() implies !(#[trigger] last.sent[i])
                .audience.contains(id) by {
                if last.sent[i].audience.contains(id) {
                    assert(last.state.is_live(id));
                }
            }
            lemma_inbox_of_unreached(last.sent, id);
        } else if start.admission(earlier, id) is None {
            assert(event is Connect && id == before.state.registry.next_id);
            assert(last.sent[0].audience.contains(id));
            assert(last.sent[1].audience.contains(id));
            assert(last.sent.drop_last() =~= seq![last.sent[0]]);
            assert(last.sent.drop_last().drop_last() =~= Seq::<Broadcast>::empty());
            assert(inbox(last.sent.drop_last().drop_last(), id) =~= Seq::<
                ServerMessageView,
            >::empty());
            assert(inbox(last.sent.drop_last(), id) =~= seq![last.sent[0].message]);
            assert(more =~= seq![last.sent[0].message, last.sent[1].message]);
            assert(got + more =~= more);
        } else {
            lemma_accepted_for_good(start, events, id, events.len() - 1);
            assert(events.take(events.len() - 1) =~= earlier);
            assert((got + more)[0] == got[0]);
            assert((got + more)[1] == got[1]);
        }
    }
}

/// Whether connection `id` is at no point of the session a live admin.
pub open spec fn never_admin(start: ServiceView, events: Seq<Event>, id: usize) -> bool {
    forall|n: int|
        0 <= n <= events.len() ==> !(#[trigger] start.run(events.take(n))).state.is_admin(id)
}

/// A connection that is at no point of a session a live admin gets no
/// metadata in the whole of it.
pub proof fn lemma_metadata_reaches_admins_only(start: ServiceView, events: Seq<Event>, id: usize)
    requires
        start.wf(),
        never_admin(start, events, id),
    ensures
        forall|k: int|
            0 <= k < inbox(start.run(events).sent, id).len() ==> !(#[trigger] inbox(
                start.run(events).sent,
                id,
            )[k] is Metadata),
    decreases events.len(),
{
    if events.len() > 0 {
        let earlier = events.drop_last();
        assert forall|n: int| 0 <= n <= earlier.len() implies !(#[trigger] start.run(
            earlier.take(n),
        )).state.is_admin(id) by {
            assert(earlier.take(n) =~= events.take(n));
        }
        lemma_metadata_reaches_admins_only(start, earlier, id);
        lemma_run_preserves_wf(start, earlier);
        let before = start.run(earlier);
        let last = before.state.step(events.last());
        lemma_step_reaches_properly(before.state, events.last());
        assert(events.take(events.len() as int) =~= events);
        assert(!start.run(events.take(events.len() as int)).state.is_admin(id));
        lemma_inbox_without_metadata(last.sent, id);
        lemma_inbox_of_concatenation(before.sent, last.sent, id);
    }
}

/// A connection that was not accepted as an admin gets no metadata in the
/// whole of the session.
pub proof fn lemma_non_admin_gets_no_metadata(start: ServiceView, events: Seq<Event>, id: usize)
    requires
        start.wf(),
        start.phase(id) == ConnectionPhase::Connecting,
        !(start.admission(events, id) matches Some(admission) && admission.admin),
    ensures
        forall|k: int|
            0 <= k < inbox(start.run(events).sent, id).len() ==> !(#[trigger] inbox(
                start.run(events).sent,
                id,
            )[k] is Metadata),
{
    assert forall|n: int| 0 <= n <= events.len() implies !(#[trigger] start.run(
        events.take(n),
    )).state.is_admin(id) by {
        if start.run(events.take(n)).state.is_admin(id) {
            lemma_accepted_at_most_once(start, events.take(n), id);
            lemma_accepted_for_good(start, events, id, n);
        }
    }
    lemma_metadata_reaches_admins_only(start, events, id);
}

} // verus!
