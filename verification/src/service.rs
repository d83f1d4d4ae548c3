//! The service: registry, votes and ballot as one unit, and the transitions
//! that the events of a session cause. Each transition takes the state as a
//! whole, so a replaced ballot and the cleared votes are never seen apart.

use crate::ballot::{activated_ballot, placeholder_ballot, BallotStore};
use crate::broadcast::{broadcast_to_admins, broadcast_to_all, carry, send_to, Broadcast, Dispatch};
use crate::message::{
    message_of_text, BallotRequest, ClientMessage, ClientMessageView, ParseError,
};
use crate::outbound::{BallotView, ServerMessage, ServerMessageView, ServerSetBallotData};
use crate::registry::{Audience, Registry, RegistryView, FIRST_ID};
use crate::votes::{counts_view, tally, VoteStore};
use vstd::prelude::*;

verus! {

/// Where a connection stands in its life.
#[derive(Clone, Copy, Debug, PartialEq, Eq)]
pub enum ConnectionPhase {
    /// Not accepted yet: its id has not been handed out.
    Connecting,
    /// Registered: its messages are applied and broadcasts reach it.
    Active,
    /// Gone: its id is spent and its vote is forgotten.
    Closed,
}

/// Why a message of a client was dropped.
#[derive(Clone, Copy, Debug, PartialEq, Eq)]
pub enum Refusal {
    /// The text is no message.
    Malformed(ParseError),
    /// The sender is no live connection.
    UnknownSender,
    /// The vote names no choice of the active ballot.
    VoteOutOfRange,
    /// The sender of a ballot does not hold the admin capability.
    NotAdmin,
    /// The voting window has no end that a ballot can hold.
    WindowOverflow,
}

/// What the service does about a message of a client.
#[derive(Clone, Debug, PartialEq, Eq)]
pub struct Reaction {
    /// Why the message was dropped, if it was.
    pub refused: Option<Refusal>,
    /// What goes out, in order.
    pub dispatches: Vec<Dispatch>,
}

/// The state of the service as a mathematical value.
pub struct ServiceView {
    pub registry: RegistryView,
    /// The recorded votes: connection id to index of the chosen choice.
    pub votes: Map<usize, usize>,
    /// The active ballot.
    pub ballot: BallotView,
    /// Whether a recorded vote is followed by a tally for everyone at once,
    /// or only by the next periodic one.
    pub on_vote_broadcast: bool,
}

/// What a transition leads to: the next state and the broadcasts that it
/// causes, in the order in which they go out.
pub struct Outcome {
    pub state: ServiceView,
    pub sent: Seq<Broadcast>,
}

impl ServiceView {
    /// What holds of every state that a session can reach: only live
    /// connections have a vote, and every vote names a choice of the active
    /// ballot.
    pub open spec fn wf(self) -> bool {
        &&& self.registry.wf()
        &&& forall|id: usize| #[trigger]
            self.votes.contains_key(id) ==> self.registry.members.contains_key(id)
        &&& forall|id: usize| #[trigger]
            self.votes.contains_key(id) ==> self.votes[id] < self.ballot.choices.len()
    }

    /// The state at process start: no connection, no vote, the placeholder
    /// ballot.
    pub open spec fn initial(now: int, on_vote_broadcast: bool) -> ServiceView {
        ServiceView {
            registry: RegistryView::empty(),
            votes: Map::empty(),
            ballot: placeholder_ballot(now),
            on_vote_broadcast,
        }
    }

    /// Whether connection `id` is live.
    pub open spec fn is_live(self, id: usize) -> bool {
        self.registry.members.contains_key(id)
    }

    /// Whether connection `id` is live and holds the admin capability.
    pub open spec fn is_admin(self, id: usize) -> bool {
        self.is_live(id) && self.registry.members[id]
    }

    /// Where connection `id` stands in its life.
    pub open spec fn phase(self, id: usize) -> ConnectionPhase {
        if self.is_live(id) {
            ConnectionPhase::Active
        } else if FIRST_ID <= id < self.registry.next_id {
            ConnectionPhase::Closed
        } else {
            ConnectionPhase::Connecting
        }
    }

    /// The tally: one count per choice of the active ballot.
    pub open spec fn tally(self) -> Seq<nat> {
        tally(self.votes, self.ballot.choices.len())
    }

    /// The active ballot, for every live connection.
    pub open spec fn ballot_push(self) -> Broadcast {
        Broadcast {
            audience: self.registry.reached(Audience::Everyone),
            message: ServerMessageView::SetBallot(self.ballot),
        }
    }

    /// The tally, for every live connection.
    pub open spec fn tally_push(self) -> Broadcast {
        Broadcast {
            audience: self.registry.reached(Audience::Everyone),
            message: ServerMessageView::SetVotes(self.tally()),
        }
    }

    /// The number of live connections, for the admins among them.
    pub open spec fn metadata_push(self) -> Broadcast {
        Broadcast {
            audience: self.registry.reached(Audience::Admins),
            message: ServerMessageView::Metadata { users: self.registry.members.len() },
        }
    }

    /// Nothing changes and nothing goes out.
    pub open spec fn ignored(self) -> Outcome {
        Outcome { state: self, sent: Seq::empty() }
    }

    /// A connection is accepted: it gets the next id, and it alone gets the
    /// active ballot and then the tally.
    pub open spec fn connect(self, admin: bool) -> Outcome {
        let id = self.registry.next_id;
        Outcome {
            state: ServiceView { registry: self.registry.register(admin), ..self },
            sent: seq![
                Broadcast {
                    audience: set![id],
                    message: ServerMessageView::SetBallot(self.ballot),
                },
                Broadcast {
                    audience: set![id],
                    message: ServerMessageView::SetVotes(self.tally()),
                },
            ],
        }
    }

    /// Why a vote of connection `id` for `choice` is dropped, if it is: the
    /// connection is not live, or the index names no choice of the active
    /// ballot.
    pub open spec fn vote_refusal(self, id: usize, choice: usize) -> Option<Refusal> {
        if !self.is_live(id) {
            Some(Refusal::UnknownSender)
        } else if choice >= self.ballot.choices.len() {
            Some(Refusal::VoteOutOfRange)
        } else {
            None
        }
    }

    /// Connection `id` votes for `choice`. A vote that is not dropped is
    /// recorded and replaces an earlier one of the same connection.
    pub open spec fn vote(self, id: usize, choice: usize) -> Outcome {
        if self.vote_refusal(id, choice) is None {
            let state = ServiceView { votes: self.votes.insert(id, choice), ..self };
            Outcome {
                state,
                sent: if self.on_vote_broadcast {
                    seq![state.tally_push()]
                } else {
                    Seq::empty()
                },
            }
        } else {
            self.ignored()
        }
    }

    /// Whether a voting window of `duration` seconds that starts at `now` has
    /// an end that the ballot can hold.
    pub open spec fn window_fits(now: int, duration: int) -> bool {
        i64::MIN <= now + duration <= i64::MAX
    }

    /// Why a ballot that connection `id` submits at `now` is dropped, if it
    /// is: the connection is not live or no admin, or the voting window does
    /// not fit.
    pub open spec fn ballot_refusal(self, id: usize, request: BallotRequest, now: int) -> Option<
        Refusal,
    > {
        if !self.is_live(id) {
            Some(Refusal::UnknownSender)
        } else if !self.is_admin(id) {
            Some(Refusal::NotAdmin)
        } else if !Self::window_fits(now, request.duration) {
            Some(Refusal::WindowOverflow)
        } else {
            None
        }
    }

    /// Connection `id` submits a ballot at `now`. A ballot that is not
    /// dropped replaces the active one and clears the votes; everyone gets the
    /// new ballot and then the tally.
    pub open spec fn set_ballot(self, id: usize, request: BallotRequest, now: int) -> Outcome {
        if self.ballot_refusal(id, request, now) is None {
            let state = ServiceView {
                ballot: activated_ballot(request.question, request.choices, request.duration, now),
                votes: Map::empty(),
                ..self
            };
            Outcome { state, sent: seq![state.ballot_push(), state.tally_push()] }
        } else {
            self.ignored()
        }
    }

    /// Why the message that connection `id` sends at `now` is dropped, if it
    /// is.
    pub open spec fn refusal(self, id: usize, message: ClientMessageView, now: int) -> Option<
        Refusal,
    > {
        match message {
            ClientMessageView::SetBallot(request) => self.ballot_refusal(id, request, now),
            ClientMessageView::Vote(choice) => self.vote_refusal(id, choice),
        }
    }

    /// Connection `id` sends `message` at `now`. A message that is dropped
    /// changes nothing, and nothing goes out.
    pub open spec fn receive(self, id: usize, message: ClientMessageView, now: int) -> Outcome {
        match message {
            ClientMessageView::SetBallot(request) => self.set_ballot(id, request, now),
            ClientMessageView::Vote(choice) => self.vote(id, choice),
        }
    }

    /// Connection `id` has gone: it leaves the registry, its vote is
    /// forgotten and everyone who is left gets the tally. A connection that is
    /// not live changes nothing.
    pub open spec fn disconnect(self, id: usize) -> Outcome {
        if self.is_live(id) {
            let state = ServiceView {
                registry: self.registry.deregister(id),
                votes: self.votes.remove(id),
                ..self
            };
            Outcome { state, sent: seq![state.tally_push()] }
        } else {
            self.ignored()
        }
    }

    /// The periodic publication: the tally for everyone, then the metadata
    /// for the admins.
    pub open spec fn publish(self) -> Seq<Broadcast> {
        seq![self.tally_push(), self.metadata_push()]
    }
}

/// The state at process start is well formed, and every connection is still
/// to come.
pub proof fn lemma_initial_is_wf(now: int, on_vote_broadcast: bool)
    ensures
        ServiceView::initial(now, on_vote_broadcast).wf(),
        forall|id: usize| #[trigger]
            ServiceView::initial(now, on_vote_broadcast).phase(id) == ConnectionPhase::Connecting,
{
}

/// Accepting a connection keeps the state well formed, as long as an id is
/// left.
pub proof fn lemma_connect_preserves_wf(state: ServiceView, admin: bool)
    requires
        state.wf(),
        state.registry.next_id < usize::MAX,
    ensures
        state.connect(admin).state.wf(),
{
    let joined = state.connect(admin).state;
    assert forall|other: usize| #[trigger]
        joined.votes.contains_key(other) implies joined.registry.members.contains_key(other) by {
        assert(state.votes.contains_key(other));
    }
}

/// Applying a message keeps the state well formed.
pub proof fn lemma_receive_preserves_wf(
    state: ServiceView,
    id: usize,
    message: ClientMessageView,
    now: int,
)
    requires
        state.wf(),
    ensures
        state.receive(id, message, now).state.wf(),
{
    let applied = state.receive(id, message, now).state;
    assert forall|other: usize| #[trigger]
        applied.votes.contains_key(other) implies applied.registry.members.contains_key(other)
        && applied.votes[other] < applied.ballot.choices.len() by {
        if other != id {
            assert(state.votes.contains_key(other));
        }
    }
}

/// Removing a connection keeps the state well formed.
pub proof fn lemma_disconnect_preserves_wf(state: ServiceView, id: usize)
    requires
        state.wf(),
    ensures
        state.disconnect(id).state.wf(),
{
    let left = state.disconnect(id).state;
    assert forall|other: usize| #[trigger]
        left.votes.contains_key(other) implies left.registry.members.contains_key(other)
        && left.votes[other] < left.ballot.choices.len() by {
        assert(state.votes.contains_key(other));
    }
}

/// The wall clock of `time::OffsetDateTime::now_utc`, read through
/// `unix_timestamp` as seconds since the Unix epoch. Nothing is known of the
/// value.
#[verifier::external_body]
fn unix_now() -> i64 {
    time::OffsetDateTime::now_utc().unix_timestamp()
}

/// Registry, votes and ballot of one process.
pub struct Service {
    registry: Registry,
    votes: VoteStore,
    ballot: BallotStore,
    on_vote_broadcast: bool,
}

impl View for Service {
    type V = ServiceView;

    closed spec fn view(&self) -> ServiceView {
        ServiceView {
            registry: self.registry@,
            votes: self.votes@,
            ballot: self.ballot@,
            on_vote_broadcast: self.on_vote_broadcast,
        }
    }
}

impl Service {
    /// Whether the service is in a state that its own operations produce.
    pub open spec fn wf(&self) -> bool {
        self@.wf()
    }

    /// The service at process start, with the clock read at `now`.
    pub fn new_at(now: i64, on_vote_broadcast: bool) -> (service: Service)
        ensures
            service.wf(),
            service@ == ServiceView::initial(now as int, on_vote_broadcast),
    {
        Service {
            registry: Registry::new(),
            votes: VoteStore::new(),
            ballot: BallotStore::new(now),
            on_vote_broadcast,
        }
    }

    /// The service at process start.
    pub fn new(on_vote_broadcast: bool) -> (service: Service)
        ensures
            service.wf(),
            exists|now: int| service@ == #[trigger] ServiceView::initial(now, on_vote_broadcast),
    {
        let now = unix_now();
        let service = Service::new_at(now, on_vote_broadcast);
        assert(service@ == ServiceView::initial(now as int, on_vote_broadcast));
        service
    }

    /// Whether an id is left for one more connection.
    pub fn can_accept(&self) -> (free: bool)
        ensures
            free == (self@.registry.next_id < usize::MAX),
    {
        self.registry.has_free_id()
    }

    /// Where connection `id` stands in its life.
    pub fn phase(&self, id: usize) -> (phase: ConnectionPhase)
        ensures
            phase == self@.phase(id),
    {
        if self.registry.contains(id) {
            ConnectionPhase::Active
        } else if FIRST_ID <= id && id < self.registry.next_id() {
            ConnectionPhase::Closed
        } else {
            ConnectionPhase::Connecting
        }
    }

    /// Number of live connections.
    pub fn connection_count(&self) -> (n: usize)
        ensures
            n == self@.registry.members.len(),
    {
        self.registry.count()
    }

    /// A copy of the active ballot.
    pub fn current_ballot(&self) -> (ballot: ServerSetBallotData)
        ensures
            ballot@ == self@.ballot,
    {
        self.ballot.current()
    }

    /// The tally: one count per choice of the active ballot.
    pub fn tally(&self) -> (counts: Vec<usize>)
        ensures
            counts_view(counts@) == self@.tally(),
    {
        self.votes.snapshot_tally(self.ballot.choice_count())
    }

    /// The tally, for every live connection.
    fn tally_dispatch(&self) -> (dispatch: Dispatch)
        ensures
            dispatch.carries(self@.tally_push()),
    {
        broadcast_to_all(&self.registry, ServerMessage::SetVotes(self.tally()))
    }

    /// Accepts a connection with the given capability. Returns its id and
    /// the join snapshot: the active ballot and then the tally, for the new
    /// connection alone.
    pub fn connect(&mut self, admin: bool) -> (joined: (usize, Vec<Dispatch>))
        requires
            old(self).wf(),
            old(self)@.registry.next_id < usize::MAX,
        ensures
            final(self).wf(),
            joined.0 == old(self)@.registry.next_id,
            final(self)@ == old(self)@.connect(admin).state,
            carry(joined.1@, old(self)@.connect(admin).sent),
    {
        let id = self.registry.register(admin);
        let mut dispatches: Vec<Dispatch> = Vec::new();
        dispatches.push(send_to(id, ServerMessage::SetBallot(self.ballot.current())));
        dispatches.push(send_to(id, ServerMessage::SetVotes(self.tally())));
        proof {
            lemma_connect_preserves_wf(old(self)@, admin);
        }
        (id, dispatches)
    }

    /// Applies a message that connection `id` sent at `now`.
    pub fn apply(&mut self, id: usize, message: ClientMessage, now: i64) -> (reaction: Reaction)
        requires
            old(self).wf(),
        ensures
            final(self).wf(),
            reaction.refused == old(self)@.refusal(id, message@, now as int),
            final(self)@ == old(self)@.receive(id, message@, now as int).state,
            carry(reaction.dispatches@, old(self)@.receive(id, message@, now as int).sent),
    {
        let mut dispatches: Vec<Dispatch> = Vec::new();
        let flag = self.registry.admin_flag(id);
        let refused = match message {
            ClientMessage::ClientSetBallot(data) => {
                if flag.is_none() {
                    Some(Refusal::UnknownSender)
                } else if flag != Some(true) {
                    Some(Refusal::NotAdmin)
                } else if now.checked_add(data.duration).is_none() {
                    Some(Refusal::WindowOverflow)
                } else {
                    let activated = self.ballot.replace(
                        data.question,
                        data.choices,
                        data.duration,
                        now,
                    );
                    self.votes.clear_all();
                    dispatches.push(
                        broadcast_to_all(&self.registry, ServerMessage::SetBallot(activated)),
                    );
                    dispatches.push(self.tally_dispatch());
                    None
                }
            },
            ClientMessage::ClientVote(choice) => {
                if flag.is_none() {
                    Some(Refusal::UnknownSender)
                } else if self.votes.set_vote(id, choice, self.ballot.choice_count()).is_err() {
                    Some(Refusal::VoteOutOfRange)
                } else {
                    if self.on_vote_broadcast {
                        dispatches.push(self.tally_dispatch());
                    }
                    None
                }
            },
        };
        proof {
            lemma_receive_preserves_wf(old(self)@, id, message@, now as int);
        }
        Reaction { refused, dispatches }
    }

    /// Reads the message that connection `id` sent as `text` and applies it
    /// at the time that the wall clock shows. A text that is no message is
    /// dropped like a message that is refused: nothing changes and nothing
    /// goes out.
    pub fn receive(&mut self, id: usize, text: &str) -> (reaction: Reaction)
        requires
            old(self).wf(),
        ensures
            final(self).wf(),
            match message_of_text(text@) {
                Ok(message) => exists|now: int|
                    {
                        &&& i64::MIN <= now <= i64::MAX
                        &&& reaction.refused == old(self)@.refusal(id, message, now)
                        &&& final(self)@ == (#[trigger] old(self)@.receive(id, message, now)).state
                        &&& carry(reaction.dispatches@, old(self)@.receive(id, message, now).sent)
                    },
                Err(error) => {
                    &&& reaction.refused == Some(Refusal::Malformed(error))
                    &&& final(self)@ == old(self)@
                    &&& reaction.dispatches@.len() == 0
                },
            },
    {
        match ClientMessage::parse(text) {
            Ok(message) => {
                let now = unix_now();
                let ghost wanted = old(self)@.receive(id, message@, now as int);
                let reaction = self.apply(id, message, now);
                assert(final(self)@ == wanted.state && carry(reaction.dispatches@, wanted.sent));
                reaction
            },
            Err(error) => Reaction {
                refused: Some(Refusal::Malformed(error)),
                dispatches: Vec::new(),
            },
        }
    }

    /// Removes connection `id` with its vote and tells everyone who is left
    /// the tally. A connection that is not live changes nothing.
    pub fn disconnect(&mut self, id: usize) -> (dispatches: Vec<Dispatch>)
        requires
            old(self).wf(),
        ensures
            final(self).wf(),
            final(self)@ == old(self)@.disconnect(id).state,
            carry(dispatches@, old(self)@.disconnect(id).sent),
    {
        let mut dispatches: Vec<Dispatch> = Vec::new();
        if self.registry.contains(id) {
            self.registry.deregister(id);
            self.votes.remove_vote(id);
            dispatches.push(self.tally_dispatch());
        }
        proof {
            lemma_disconnect_preserves_wf(old(self)@, id);
        }
        dispatches
    }

    /// The periodic publication: the tally for everyone, then the number of
    /// live connections for the admins.
    pub fn publish(&self) -> (dispatches: Vec<Dispatch>)
        ensures
            carry(dispatches@, self@.publish()),
    {
        let mut dispatches: Vec<Dispatch> = Vec::new();
        dispatches.push(self.tally_dispatch());
        dispatches.push(
            broadcast_to_admins(
                &self.registry,
                ServerMessage::Metadata { users: self.registry.count() },
            ),
        );
        dispatches
    }
}

} // verus!
