//! The ballot store: the one ballot that is active.

use crate::message::texts;
use crate::outbound::{BallotView, ServerSetBallotData};
use vstd::prelude::*;
use vstd::string::*;

verus! {

/// Number of choices of the ballot that is active before any was submitted.
pub const PLACEHOLDER_CHOICES: usize = 4;

/// The ballot that is active before any was submitted: its voting window
/// is empty and ends at `now`.
pub open spec fn placeholder_ballot(now: int) -> BallotView {
    BallotView {
        choices: Seq::new(PLACEHOLDER_CHOICES as nat, |i: int| "Init choice"@),
        question: "Question from server"@,
        duration: 0,
        expires: now,
    }
}

/// The ballot that a submission activated at `now` stands for: its voting
/// window ends `duration` seconds after `now`.
pub open spec fn activated_ballot(
    question: Seq<char>,
    choices: Seq<Seq<char>>,
    duration: int,
    now: int,
) -> BallotView {
    BallotView { choices, question, duration, expires: now + duration }
}

/// Holder of the active ballot.
pub struct BallotStore {
    ballot: ServerSetBallotData,
}

impl View for BallotStore {
    type V = BallotView;

    closed spec fn view(&self) -> BallotView {
        self.ballot@
    }
}

impl BallotStore {
    /// A store that holds the placeholder ballot.
    pub fn new(now: i64) -> (store: BallotStore)
        ensures
            store@ == placeholder_ballot(now as int),
    {
        let mut choices: Vec<String> = Vec::new();
        while choices.len() < PLACEHOLDER_CHOICES
            invariant
                choices@.len() <= PLACEHOLDER_CHOICES,
                forall|i: int|
                    0 <= i < choices@.len() ==> (#[trigger] choices@[i])@ == "Init choice"@,
            decreases PLACEHOLDER_CHOICES - choices@.len(),
        {
            choices.push(String::from_str("Init choice"));
        }
        let ballot = ServerSetBallotData {
            choices,
            question: String::from_str("Question from server"),
            duration: 0,
            expires: now,
        };
        assert(ballot@.choices =~= placeholder_ballot(now as int).choices);
        BallotStore { ballot }
    }

    /// Replaces the active ballot as a whole and returns a copy of the new
    /// one. The voting window starts at `now`.
    pub fn replace(
        &mut self,
        question: String,
        choices: Vec<String>,
        duration: i64,
        now: i64,
    ) -> (activated: ServerSetBallotData)
        requires
            i64::MIN <= now + duration <= i64::MAX,
        ensures
            final(self)@ == activated_ballot(
                question@,
                texts(choices@),
                duration as int,
                now as int,
            ),
            activated@ == final(self)@,
    {
        self.ballot = ServerSetBallotData { choices, question, duration, expires: now + duration };
        self.ballot.copy()
    }

    /// A copy of the active ballot.
    pub fn current(&self) -> (ballot: ServerSetBallotData)
        ensures
            ballot@ == self@,
    {
        self.ballot.copy()
    }

    /// Number of choices of the active ballot.
    pub fn choice_count(&self) -> (n: usize)
        ensures
            n == self@.choices.len(),
    {
        self.ballot.choices.len()
    }
}

} // verus!
