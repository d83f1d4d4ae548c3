//! What a client may send: a vote or, from an admin, a new ballot, each in an
//! envelope that names its kind, and how such a message is read from JSON.

use crate::json::{json_document, Json, JsonValue};
use vstd::prelude::*;
use vstd::string::*;

verus! {

/// The texts that a vector of strings holds.
pub open spec fn texts(strings: Seq<String>) -> Seq<Seq<char>> {
    strings.map_values(|s: String| s@)
}

/// A copy of `strings`.
pub fn clone_texts(strings: &Vec<String>) -> (copy: Vec<String>)
    ensures
        texts(copy@) == texts(strings@),
{
    let mut copy: Vec<String> = Vec::new();
    let mut at: usize = 0;
    while at < strings.len()
        invariant
            at <= strings.len(),
            copy@.len() == at,
            forall|i: int| 0 <= i < at ==> (#[trigger] copy@[i])@ == strings@[i]@,
        decreases strings.len() - at,
    {
        copy.push(strings[at].clone());
        at += 1;
    }
    assert(texts(copy@) =~= texts(strings@));
    copy
}

/// A ballot as an admin submits it.
#[derive(Clone, Debug, PartialEq, Eq)]
pub struct ClientSetBallotData {
    /// The choices, in the order in which votes index them.
    pub choices: Vec<String>,
    pub question: String,
    /// Length of the voting window, in seconds.
    pub duration: i64,
}

/// A submitted ballot as a mathematical value.
pub struct BallotRequest {
    pub choices: Seq<Seq<char>>,
    pub question: Seq<char>,
    pub duration: int,
}

impl View for ClientSetBallotData {
    type V = BallotRequest;

    open spec fn view(&self) -> BallotRequest {
        BallotRequest {
            choices: texts(self.choices@),
            question: self.question@,
            duration: self.duration as int,
        }
    }
}

/// A message from a client.
#[derive(Clone, Debug, PartialEq, Eq)]
pub enum ClientMessage {
    /// Replace the active ballot.
    ClientSetBallot(ClientSetBallotData),
    /// Vote for the choice with this index.
    ClientVote(usize),
}

/// A message from a client as a mathematical value.
pub enum ClientMessageView {
    SetBallot(BallotRequest),
    Vote(usize),
}

impl View for ClientMessage {
    type V = ClientMessageView;

    open spec fn view(&self) -> ClientMessageView {
        match self {
            ClientMessage::ClientSetBallot(data) => ClientMessageView::SetBallot(data@),
            ClientMessage::ClientVote(choice) => ClientMessageView::Vote(*choice),
        }
    }
}

/// Why a text is no message of a client.
#[derive(Clone, Copy, Debug, PartialEq, Eq)]
pub enum ParseError {
    /// The text is no JSON document.
    Syntax,
    /// The document is no object with a string member `code`.
    NoCode,
    /// The member `code` names no kind of message.
    UnknownCode,
    /// The object has no member `data`.
    NoData,
    /// The member `data` of a vote is no index.
    InvalidVote,
    /// The member `data` of a ballot is no ballot.
    InvalidBallot,
}

/// The index that the payload of a vote denotes: a number that is an
/// unsigned integer and fits the machine's index type. Nothing else is an
/// index, a string of digits no more than any other string.
pub open spec fn vote_of(data: JsonValue) -> Option<usize> {
    match data {
        JsonValue::Number(number) => match number.unsigned {
            Some(index) => if index <= usize::MAX {
                Some(index as usize)
            } else {
                None
            },
            None => None,
        },
        _ => None,
    }
}

/// The texts of `items`, where each of them is a string.
pub open spec fn texts_of(items: Seq<JsonValue>) -> Option<Seq<Seq<char>>> {
    if forall|i: int| 0 <= i < items.len() ==> #[trigger] items[i] is Text {
        Some(Seq::new(items.len(), |i: int| items[i]->Text_0))
    } else {
        None
    }
}

/// The ballot that the payload of a `setBallot` message denotes: an object
/// with an array of strings `choices`, a string `question` and a signed
/// integer `duration`.
pub open spec fn ballot_of(data: JsonValue) -> Option<BallotRequest> {
    match (data.member("choices"@), data.member("question"@), data.member("duration"@)) {
        (
            Some(JsonValue::Array(items)),
            Some(JsonValue::Text(question)),
            Some(JsonValue::Number(number)),
        ) => match (texts_of(items), number.signed) {
            (Some(choices), Some(duration)) => Some(
                BallotRequest { choices, question, duration: duration as int },
            ),
            _ => None,
        },
        _ => None,
    }
}

/// The message that a JSON document denotes: an object whose member `code`
/// names the kind of message and whose member `data` is the payload.
pub open spec fn message_of(json: JsonValue) -> Result<ClientMessageView, ParseError> {
    match json.member("code"@) {
        Some(JsonValue::Text(code)) => if code == "setBallot"@ {
            match json.member("data"@) {
                Some(data) => match ballot_of(data) {
                    Some(ballot) => Ok(ClientMessageView::SetBallot(ballot)),
                    None => Err(ParseError::InvalidBallot),
                },
                None => Err(ParseError::NoData),
            }
        } else if code == "vote"@ {
            match json.member("data"@) {
                Some(data) => match vote_of(data) {
                    Some(choice) => Ok(ClientMessageView::Vote(choice)),
                    None => Err(ParseError::InvalidVote),
                },
                None => Err(ParseError::NoData),
            }
        } else {
            Err(ParseError::UnknownCode)
        },
        _ => Err(ParseError::NoCode),
    }
}

/// The message that a text denotes.
pub open spec fn message_of_text(text: Seq<char>) -> Result<ClientMessageView, ParseError> {
    match json_document(text) {
        Some(json) => message_of(json),
        None => Err(ParseError::Syntax),
    }
}

/// Whether `found` is what `wanted` describes.
pub open spec fn is_message(
    found: Result<ClientMessage, ParseError>,
    wanted: Result<ClientMessageView, ParseError>,
) -> bool {
    match found {
        Ok(message) => wanted == Ok::<ClientMessageView, ParseError>(message@),
        Err(error) => wanted == Err::<ClientMessageView, ParseError>(error),
    }
}

/// Reads the index of a vote from its payload.
fn decode_vote(data: &Json) -> (choice: Option<usize>)
    ensures
        choice == vote_of(data@),
{
    match data {
        Json::Number(number) => match number.unsigned {
            Some(index) => if index <= usize::MAX as u64 {
                Some(index as usize)
            } else {
                None
            },
            None => None,
        },
        _ => None,
    }
}

/// The items of an array as mathematical values.
pub open spec fn items_of(items: Vec<Json>) -> Seq<JsonValue> {
    Json::Array(items)@->Array_0
}

/// Reads the choices of a ballot from the items of an array.
fn decode_choices(items: &Vec<Json>) -> (choices: Option<Vec<String>>)
    ensures
        match choices {
            Some(found) => texts_of(items_of(*items)) == Some(texts(found@)),
            None => texts_of(items_of(*items)) is None,
        },
{
    let ghost wanted = items_of(*items);
    let mut found: Vec<String> = Vec::new();
    let mut at: usize = 0;
    while at < items.len()
        invariant
            at <= items.len(),
            wanted == items_of(*items),
            wanted.len() == items@.len(),
            forall|i: int| 0 <= i < items@.len() ==> #[trigger] wanted[i] == items[i]@,
            found@.len() == at,
            forall|i: int| 0 <= i < at ==> #[trigger] wanted[i] == JsonValue::Text(found@[i]@),
        decreases items.len() - at,
    {
        match &items[at] {
            Json::Text(text) => {
                found.push(text.clone());
            },
            _ => {
                assert(!(wanted[at as int] is Text));
                return None;
            },
        }
        at += 1;
    }
    assert(texts_of(wanted)->Some_0 =~= texts(found@));
    Some(found)
}

/// Reads a ballot from the payload of a `setBallot` message.
fn decode_ballot(data: &Json) -> (ballot: Option<ClientSetBallotData>)
    ensures
        match ballot {
            Some(found) => ballot_of(data@) == Some(found@),
            None => ballot_of(data@) is None,
        },
{
    let choices = match data.member("choices") {
        Some(Json::Array(items)) => match decode_choices(items) {
            Some(choices) => choices,
            None => {
                return None;
            },
        },
        _ => {
            return None;
        },
    };
    let question = match data.member("question") {
        Some(Json::Text(text)) => text.clone(),
        _ => {
            return None;
        },
    };
    let duration = match data.member("duration") {
        Some(Json::Number(number)) => match number.signed {
            Some(seconds) => seconds,
            None => {
                return None;
            },
        },
        _ => {
            return None;
        },
    };
    Some(ClientSetBallotData { choices, question, duration })
}

impl ClientMessage {
    /// Reads a message from a JSON document.
    pub fn decode(json: &Json) -> (r: Result<ClientMessage, ParseError>)
        ensures
            is_message(r, message_of(json@)),
    {
        let code = match json.member("code") {
            Some(Json::Text(code)) => code,
            _ => {
                return Err(ParseError::NoCode);
            },
        };
        if *code == String::from_str("setBallot") {
            match json.member("data") {
                Some(data) => match decode_ballot(data) {
                    Some(ballot) => Ok(ClientMessage::ClientSetBallot(ballot)),
                    None => Err(ParseError::InvalidBallot),
                },
                None => Err(ParseError::NoData),
            }
        } else if *code == String::from_str("vote") {
            match json.member("data") {
                Some(data) => match decode_vote(data) {
                    Some(choice) => Ok(ClientMessage::ClientVote(choice)),
                    None => Err(ParseError::InvalidVote),
                },
                None => Err(ParseError::NoData),
            }
        } else {
            Err(ParseError::UnknownCode)
        }
    }

    /// Reads a message from JSON text.
    pub fn parse(json_str: &str) -> (r: Result<ClientMessage, ParseError>)
        ensures
            is_message(r, message_of_text(json_str@)),
    {
        match Json::from_text(json_str) {
            Ok(json) => ClientMessage::decode(&json),
            Err(_) => Err(ParseError::Syntax),
        }
    }
}

} // verus!
