//! What the server sends: the active ballot, the tally and the metadata for
//! admins, each with its JSON text, and the fan-out of a message to the
//! connections that are to get it.

use crate::decimal::{append_decimal, append_signed_decimal, decimal, signed_decimal};
use crate::json::{json_string_literal, quote_text};
use crate::message::{clone_texts, texts};
use crate::votes::counts_view;
use vstd::prelude::*;
use vstd::string::*;

verus! {

/// The active ballot as every client sees it.
#[derive(Clone, Debug, PartialEq, Eq)]
pub struct ServerSetBallotData {
    /// The choices, in the order in which votes index them.
    pub choices: Vec<String>,
    pub question: String,
    /// Length of the voting window, in seconds.
    pub duration: i64,
    /// When the voting window ends, in seconds since the Unix epoch.
    pub expires: i64,
}

/// A ballot as a mathematical value.
pub struct BallotView {
    pub choices: Seq<Seq<char>>,
    pub question: Seq<char>,
    pub duration: int,
    pub expires: int,
}

impl View for ServerSetBallotData {
    type V = BallotView;

    open spec fn view(&self) -> BallotView {
        BallotView {
            choices: texts(self.choices@),
            question: self.question@,
            duration: self.duration as int,
            expires: self.expires as int,
        }
    }
}

/// A message from the server.
#[derive(Clone, Debug, PartialEq, Eq)]
pub enum ServerMessage {
    /// The active ballot.
    SetBallot(ServerSetBallotData),
    /// The tally: one count per choice of the active ballot.
    SetVotes(Vec<usize>),
    /// The number of live connections; for admins only.
    Metadata { users: usize },
}

/// A message from the server as a mathematical value.
pub enum ServerMessageView {
    SetBallot(BallotView),
    SetVotes(Seq<nat>),
    Metadata { users: nat },
}

impl View for ServerMessage {
    type V = ServerMessageView;

    open spec fn view(&self) -> ServerMessageView {
        match self {
            ServerMessage::SetBallot(ballot) => ServerMessageView::SetBallot(ballot@),
            ServerMessage::SetVotes(counts) => ServerMessageView::SetVotes(counts_view(counts@)),
            ServerMessage::Metadata { users } => ServerMessageView::Metadata {
                users: *users as nat,
            },
        }
    }
}

/// The parts, with a comma between each two.
pub open spec fn comma_separated(parts: Seq<Seq<char>>) -> Seq<char>
    decreases parts.len(),
{
    if parts.len() == 0 {
        Seq::empty()
    } else if parts.len() == 1 {
        parts[0]
    } else {
        comma_separated(parts.drop_last()) + seq![','] + parts.last()
    }
}

/// The JSON text of a ballot message. The members of each object stand in
/// the order of their keys.
pub open spec fn ballot_text(ballot: BallotView) -> Seq<char> {
    "{\"code\":\"setBallot\",\"data\":{\"choices\":["@ + comma_separated(
        ballot.choices.map_values(|choice: Seq<char>| json_string_literal(choice)),
    ) + "],\"duration\":"@ + signed_decimal(ballot.duration) + ",\"expires\":"@ + signed_decimal(
        ballot.expires,
    ) + ",\"question\":"@ + json_string_literal(ballot.question) + "}}"@
}

/// The JSON text of a tally message.
pub open spec fn tally_text(counts: Seq<nat>) -> Seq<char> {
    "{\"code\":\"setVotes\",\"data\":["@ + comma_separated(
        counts.map_values(|count: nat| decimal(count)),
    ) + "]}"@
}

/// The JSON text of a metadata message.
pub open spec fn metadata_text(users: nat) -> Seq<char> {
    "{\"code\":\"metadata\",\"data\":{\"users\":"@ + decimal(users) + "}}"@
}

/// The JSON text of a message.
pub open spec fn message_text(message: ServerMessageView) -> Seq<char> {
    match message {
        ServerMessageView::SetBallot(ballot) => ballot_text(ballot),
        ServerMessageView::SetVotes(counts) => tally_text(counts),
        ServerMessageView::Metadata { users } => metadata_text(users),
    }
}

/// One more part after a comma-separated list.
proof fn lemma_comma_separated_step(parts: Seq<Seq<char>>, n: int)
    requires
        0 <= n < parts.len(),
    ensures
        comma_separated(parts.take(n + 1)) == if n == 0 {
            parts[0]
        } else {
            comma_separated(parts.take(n)) + seq![','] + parts[n]
        },
{
    assert(parts.take(n + 1).drop_last() =~= parts.take(n));
}

/// Writes the choices as JSON string literals, separated by commas, at the
/// end of `out`.
fn append_choices(out: &mut String, choices: &Vec<String>)
    ensures
        final(out)@ == old(out)@ + comma_separated(
            texts(choices@).map_values(|choice: Seq<char>| json_string_literal(choice)),
        ),
{
    let ghost parts = texts(choices@).map_values(|choice: Seq<char>| json_string_literal(choice));
    let mut at: usize = 0;
    assert(out@ =~= old(out)@ + comma_separated(parts.take(0)));
    while at < choices.len()
        invariant
            at <= choices.len(),
            parts.len() == choices@.len(),
            forall|i: int|
                0 <= i < parts.len() ==> #[trigger] parts[i] == json_string_literal(choices@[i]@),
            out@ == old(out)@ + comma_separated(parts.take(at as int)),
        decreases choices.len() - at,
    {
        if at > 0 {
            out.append(",");
        }
        let literal = quote_text(choices[at].as_str());
        out.append(literal.as_str());
        proof {
            lemma_comma_separated_step(parts, at as int);
            reveal_strlit(",");
            assert(","@ =~= seq![',']);
            assert(out@ =~= old(out)@ + comma_separated(parts.take(at as int + 1)));
        }
        at += 1;
    }
    assert(parts.take(at as int) =~= parts);
}

/// Writes the counts in decimal notation, separated by commas, at the end of
/// `out`.
fn append_counts(out: &mut String, counts: &Vec<usize>)
    ensures
        final(out)@ == old(out)@ + comma_separated(
            counts_view(counts@).map_values(|count: nat| decimal(count)),
        ),
{
    let ghost parts = counts_view(counts@).map_values(|count: nat| decimal(count));
    let mut at: usize = 0;
    assert(out@ =~= old(out)@ + comma_separated(parts.take(0)));
    while at < counts.len()
        invariant
            at <= counts.len(),
            parts.len() == counts@.len(),
            forall|i: int|
                0 <= i < parts.len() ==> #[trigger] parts[i] == decimal(counts@[i] as nat),
            out@ == old(out)@ + comma_separated(parts.take(at as int)),
        decreases counts.len() - at,
    {
        if at > 0 {
            out.append(",");
        }
        append_decimal(out, counts[at] as u64);
        proof {
            lemma_comma_separated_step(parts, at as int);
            reveal_strlit(",");
            assert(","@ =~= seq![',']);
            assert(out@ =~= old(out)@ + comma_separated(parts.take(at as int + 1)));
        }
        at += 1;
    }
    assert(parts.take(at as int) =~= parts);
}

impl ServerSetBallotData {
    /// A copy of the ballot.
    pub fn copy(&self) -> (ballot: ServerSetBallotData)
        ensures
            ballot@ == self@,
    {
        ServerSetBallotData {
            choices: clone_texts(&self.choices),
            question: self.question.clone(),
            duration: self.duration,
            expires: self.expires,
        }
    }

    /// The ballot as the JSON text of a ballot message.
    pub fn serialize(&self) -> (text: String)
        ensures
            text@ == ballot_text(self@),
    {
        let mut out = String::from_str("{\"code\":\"setBallot\",\"data\":{\"choices\":[");
        append_choices(&mut out, &self.choices);
        out.append("],\"duration\":");
        append_signed_decimal(&mut out, self.duration);
        out.append(",\"expires\":");
        append_signed_decimal(&mut out, self.expires);
        out.append(",\"question\":");
        let question = quote_text(self.question.as_str());
        out.append(question.as_str());
        out.append("}}");
        out
    }
}

/// The JSON text of a tally message for `counts`.
pub fn render_tally(counts: &Vec<usize>) -> (text: String)
    ensures
        text@ == tally_text(counts_view(counts@)),
{
    let mut out = String::from_str("{\"code\":\"setVotes\",\"data\":[");
    append_counts(&mut out, counts);
    out.append("]}");
    out
}

/// The JSON text of a metadata message for `users` live connections.
pub fn render_metadata(users: usize) -> (text: String)
    ensures
        text@ == metadata_text(users as nat),
{
    let mut out = String::from_str("{\"code\":\"metadata\",\"data\":{\"users\":");
    append_decimal(&mut out, users as u64);
    out.append("}}");
    out
}

impl ServerMessage {
    /// The message as JSON text.
    pub fn render(&self) -> (text: String)
        ensures
            text@ == message_text(self@),
    {
        match self {
            ServerMessage::SetBallot(ballot) => ballot.serialize(),
            ServerMessage::SetVotes(counts) => render_tally(counts),
            ServerMessage::Metadata { users } => render_metadata(*users),
        }
    }
}

} // verus!
