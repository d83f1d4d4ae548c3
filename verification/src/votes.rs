//! The vote store: at most one recorded choice per connection, and the tally
//! that is derived from it.

use std::collections::HashMap;
use vstd::prelude::*;
use vstd::std_specs::iter::IteratorSpec;

verus! {

broadcast use vstd::std_specs::hash::group_hash_axioms;

/// The connections whose recorded choice is `choice`.
pub open spec fn voters_for(votes: Map<usize, usize>, choice: int) -> Set<usize> {
    votes.dom().filter(|id: usize| votes[id] == choice)
}

/// Number of connections whose recorded choice is `choice`.
pub open spec fn votes_for(votes: Map<usize, usize>, choice: int) -> nat {
    voters_for(votes, choice).len()
}

/// The tally of `votes` over a ballot with `choice_count` choices: one count
/// per choice, in the order of the choices. A recorded choice that is not
/// below `choice_count` is counted nowhere.
pub open spec fn tally(votes: Map<usize, usize>, choice_count: nat) -> Seq<nat> {
    Seq::new(choice_count, |choice: int| votes_for(votes, choice))
}

/// What a vector of counts stands for.
pub open spec fn counts_view(counts: Seq<usize>) -> Seq<nat> {
    counts.map_values(|count: usize| count as nat)
}

/// How many of `entries` carry the choice `choice`.
pub open spec fn occurrences(entries: Seq<(usize, usize)>, choice: int) -> nat
    decreases entries.len(),
{
    if entries.len() == 0 {
        0
    } else {
        occurrences(entries.drop_last(), choice) + if entries.last().1 == choice {
            1nat
        } else {
            0nat
        }
    }
}

/// A duplicate-free listing of all entries of a finite map holds each choice
/// as often as the map has voters for it.
pub proof fn lemma_occurrences_of_listing(
    entries: Seq<(usize, usize)>,
    votes: Map<usize, usize>,
    choice: int,
)
    requires
        entries.no_duplicates(),
        entries.to_set() == votes.kv_pairs(),
        votes.dom().finite(),
    ensures
        occurrences(entries, choice) == votes_for(votes, choice),
    decreases entries.len(),
{
    if entries.len() == 0 {
        assert forall|id: usize| !votes.dom().contains(id) by {
            if votes.dom().contains(id) {
                assert(votes.kv_pairs().contains((id, votes[id])));
                assert(entries.to_set().contains((id, votes[id])));
            }
        }
        assert(voters_for(votes, choice) =~= Set::<usize>::empty());
    } else {
        let (id, voted) = entries.last();
        let last = entries.len() - 1;
        let rest = entries.drop_last();
        let others = votes.remove(id);
        assert(entries.to_set().contains(entries[last]));
        assert(votes.kv_pairs().contains((id, voted)));
        assert(votes.dom().contains(id) && votes[id] == voted);
        assert forall|pair: (usize, usize)|
            rest.to_set().contains(pair) implies others.kv_pairs().contains(pair) by {
            let i = choose|i: int| 0 <= i < rest.len() && rest[i] == pair;
            assert(entries[i] == pair);
            assert(entries.to_set().contains(pair));
            assert(votes.kv_pairs().contains(pair));
        }
        assert forall|pair: (usize, usize)|
            others.kv_pairs().contains(pair) implies rest.to_set().contains(pair) by {
            assert(votes.kv_pairs().contains(pair));
            assert(entries.to_set().contains(pair));
            let i = choose|i: int| 0 <= i < entries.len() && entries[i] == pair;
            assert(rest[i] == pair);
        }
        assert(rest.to_set() =~= others.kv_pairs());
        lemma_occurrences_of_listing(rest, others, choice);
        let before = voters_for(others, choice);
        vstd::set_lib::lemma_set_subset_finite(others.dom(), before);
        if voted == choice {
            assert(voters_for(votes, choice) =~= before.insert(id));
        } else {
            assert(voters_for(votes, choice) =~= before);
        }
    }
}

/// The sum of the counts.
pub open spec fn total(counts: Seq<nat>) -> nat
    decreases counts.len(),
{
    if counts.len() == 0 {
        0
    } else {
        total(counts.drop_last()) + counts.last()
    }
}

/// The connections whose recorded choice names one of the first
/// `choice_count` choices.
pub open spec fn valid_voters(votes: Map<usize, usize>, choice_count: nat) -> Set<usize> {
    votes.dom().filter(|id: usize| votes[id] < choice_count)
}

/// The counts of a tally add up to the number of connections with a recorded
/// vote that names a choice of the ballot.
pub proof fn lemma_tally_total(votes: Map<usize, usize>, choice_count: nat)
    requires
        votes.dom().finite(),
    ensures
        total(tally(votes, choice_count)) == valid_voters(votes, choice_count).len(),
    decreases choice_count,
{
    if choice_count == 0 {
        assert(valid_voters(votes, 0) =~= Set::<usize>::empty());
    } else {
        let fewer = (choice_count - 1) as nat;
        lemma_tally_total(votes, fewer);
        assert(tally(votes, choice_count).drop_last() =~= tally(votes, fewer));
        let earlier = valid_voters(votes, fewer);
        let latest = voters_for(votes, fewer as int);
        vstd::set_lib::lemma_set_subset_finite(votes.dom(), earlier);
        vstd::set_lib::lemma_set_subset_finite(votes.dom(), latest);
        assert(earlier.disjoint(latest));
        vstd::set_lib::lemma_set_disjoint_lens(earlier, latest);
        assert(valid_voters(votes, choice_count) =~= earlier + latest);
    }
}

/// Where every recorded vote names a choice of the ballot, the counts of the
/// tally add up to the number of recorded votes.
pub proof fn lemma_tally_counts_every_vote(votes: Map<usize, usize>, choice_count: nat)
    requires
        votes.dom().finite(),
        forall|id: usize| #[trigger] votes.contains_key(id) ==> votes[id] < choice_count,
    ensures
        total(tally(votes, choice_count)) == votes.len(),
{
    lemma_tally_total(votes, choice_count);
    assert(valid_voters(votes, choice_count) =~= votes.dom());
}

/// With no recorded vote every count of the tally is zero.
pub proof fn lemma_tally_of_no_votes(choice_count: nat)
    ensures
        tally(Map::<usize, usize>::empty(), choice_count) == Seq::new(
            choice_count,
            |choice: int| 0nat,
        ),
{
    assert forall|choice: int| 0 <= choice < choice_count implies tally(
        Map::<usize, usize>::empty(),
        choice_count,
    )[choice] == 0 by {
        assert(voters_for(Map::<usize, usize>::empty(), choice) =~= Set::<usize>::empty());
    }
    assert(tally(Map::<usize, usize>::empty(), choice_count) =~= Seq::new(
        choice_count,
        |choice: int| 0nat,
    ));
}

/// Forgetting the vote of a connection takes exactly one from the count of
/// the choice that it had voted for and leaves every other count as it was.
pub proof fn lemma_tally_after_removal(votes: Map<usize, usize>, id: usize, choice_count: nat)
    requires
        votes.dom().finite(),
        votes.contains_key(id),
    ensures
        tally(votes.remove(id), choice_count).len() == choice_count,
        forall|choice: int|
            0 <= choice < choice_count ==> #[trigger] tally(votes.remove(id), choice_count)[choice]
                == if choice == votes[id] {
                (tally(votes, choice_count)[choice] - 1) as nat
            } else {
                tally(votes, choice_count)[choice]
            },
        votes[id] < choice_count ==> tally(votes, choice_count)[votes[id] as int] >= 1,
{
    assert forall|choice: int| 0 <= choice < choice_count implies #[trigger] tally(
        votes.remove(id),
        choice_count,
    )[choice] == if choice == votes[id] {
        (tally(votes, choice_count)[choice] - 1) as nat
    } else {
        tally(votes, choice_count)[choice]
    } by {
        let before = voters_for(votes, choice);
        let after = voters_for(votes.remove(id), choice);
        vstd::set_lib::lemma_set_subset_finite(votes.dom(), before);
        if choice == votes[id] {
            assert(after =~= before.remove(id));
            assert(before.contains(id));
        } else {
            assert(after =~= before);
        }
    }
    if votes[id] < choice_count {
        let before = voters_for(votes, votes[id] as int);
        vstd::set_lib::lemma_set_subset_finite(votes.dom(), before);
        assert(before.contains(id));
    }
}

/// Why a vote was not recorded.
#[derive(Clone, Copy, Debug, PartialEq, Eq)]
pub enum VoteError {
    /// The index does not name a choice of the active ballot.
    OutOfRange,
}

/// Mapping from connection id to the index of the choice it voted for.
pub struct VoteStore {
    votes: HashMap<usize, usize>,
}

impl View for VoteStore {
    type V = Map<usize, usize>;

    closed spec fn view(&self) -> Map<usize, usize> {
        self.votes@
    }
}

impl VoteStore {
    /// A store with no recorded vote.
    pub fn new() -> (store: VoteStore)
        ensures
            store@ == Map::<usize, usize>::empty(),
    {
        VoteStore { votes: HashMap::new() }
    }

    /// Records `choice` as the vote of connection `id`, replacing any earlier
    /// vote of that connection, unless `choice` is not below `choice_count`.
    pub fn set_vote(&mut self, id: usize, choice: usize, choice_count: usize) -> (r: Result<
        (),
        VoteError,
    >)
        ensures
            choice < choice_count ==> r is Ok && final(self)@ == old(self)@.insert(id, choice),
            choice >= choice_count ==> r == Err::<(), VoteError>(VoteError::OutOfRange)
                && final(self)@ == old(self)@,
    {
        if choice >= choice_count {
            return Err(VoteError::OutOfRange);
        }
        self.votes.insert(id, choice);
        Ok(())
    }

    /// Forgets the vote of connection `id`; a connection without a vote is
    /// left as it is.
    pub fn remove_vote(&mut self, id: usize)
        ensures
            final(self)@ == old(self)@.remove(id),
    {
        self.votes.remove(&id);
    }

    /// Forgets every vote.
    pub fn clear_all(&mut self)
        ensures
            final(self)@ == Map::<usize, usize>::empty(),
    {
        self.votes.clear();
    }

    /// The choice recorded for connection `id`, if it has voted.
    pub fn vote_of(&self, id: usize) -> (choice: Option<usize>)
        ensures
            choice == if self@.contains_key(id) {
                Some(self@[id])
            } else {
                None
            },
    {
        match self.votes.get(&id) {
            Some(choice) => Some(*choice),
            None => None,
        }
    }

    /// Number of recorded votes.
    pub fn len(&self) -> (n: usize)
        ensures
            n == self@.len(),
            self@.dom().finite(),
    {
        self.votes.len()
    }

    /// Counts the recorded votes per choice of a ballot with `choice_count`
    /// choices.
    pub fn snapshot_tally(&self, choice_count: usize) -> (counts: Vec<usize>)
        ensures
            counts_view(counts@) == tally(self@, choice_count as nat),
    {
        let mut counts: Vec<usize> = Vec::new();
        let mut filled: usize = 0;
        while filled < choice_count
            invariant
                filled <= choice_count,
                counts@.len() == filled,
                forall|c: int| 0 <= c < filled ==> counts@[c] == 0,
            decreases choice_count - filled,
        {
            counts.push(0);
            filled += 1;
        }
        let total = self.votes.len();
        for entry in it: self.votes.iter()
            invariant
                counts@.len() == choice_count,
                it.seq() == self.votes.iter().remaining(),
                it.seq().len() == total,
                it.seq().no_duplicates(),
                forall|c: int|
                    0 <= c < choice_count ==> #[trigger] counts@[c] == occurrences(
                        it.seq().unref().take(it.index()),
                        c,
                    ),
                forall|c: int| 0 <= c < choice_count ==> #[trigger] counts@[c] <= it.index(),
        {
            let choice = *entry.1;
            proof {
                let listed = it.seq().unref();
                assert(listed.take(it.index() + 1).drop_last() =~= listed.take(it.index()));
                assert(listed.take(it.index() + 1).last() == (*entry.0, *entry.1));
            }
            if choice < choice_count {
                let seen = counts[choice];
                counts.set(choice, seen + 1);
            }
        }
        proof {
            let listed = self.votes.iter().remaining().unref();
            assert(listed.take(listed.len() as int) =~= listed);
            assert forall|i: int, j: int|
                0 <= i < listed.len() && 0 <= j < listed.len() && i != j implies listed[i]
                != listed[j] by {
                assert(self.votes.iter().remaining()[i] != self.votes.iter().remaining()[j]);
            }
            assert forall|c: int| 0 <= c < choice_count implies counts_view(counts@)[c] == tally(
                self@,
                choice_count as nat,
            )[c] by {
                lemma_occurrences_of_listing(listed, self@, c);
            }
            assert(counts_view(counts@) =~= tally(self@, choice_count as nat));
        }
        counts
    }
}

} // verus!
