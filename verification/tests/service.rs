use backend::broadcast::Dispatch;
use backend::service::{ConnectionPhase, Reaction, Refusal};
use backend::{
    ClientMessage, ClientSetBallotData, ParseError, ServerMessage, ServerSetBallotData, Service,
};

fn sorted(ids: &[usize]) -> Vec<usize> {
    let mut ids = ids.to_vec();
    ids.sort();
    ids
}

fn set_ballot(choices: &[&str], question: &str, duration: i64) -> ClientMessage {
    ClientMessage::ClientSetBallot(ClientSetBallotData {
        choices: choices.iter().map(|c| String::from(*c)).collect(),
        question: String::from(question),
        duration,
    })
}

fn ballot(choices: &[&str], question: &str, duration: i64, expires: i64) -> ServerSetBallotData {
    ServerSetBallotData {
        choices: choices.iter().map(|c| String::from(*c)).collect(),
        question: String::from(question),
        duration,
        expires,
    }
}

fn dropped(why: Refusal) -> Reaction {
    Reaction { refused: Some(why), dispatches: Vec::new() }
}

fn recorded() -> Reaction {
    Reaction { refused: None, dispatches: Vec::new() }
}

fn inbox(log: &[Dispatch], id: usize) -> Vec<ServerMessage> {
    log.iter().filter(|d| d.recipients.contains(&id)).map(|d| d.message.clone()).collect()
}

#[test]
fn service_starts_with_the_placeholder_ballot() {
    let service = Service::new_at(1700000000, false);
    assert_eq!(
        service.current_ballot(),
        ballot(&["Init choice", "Init choice", "Init choice", "Init choice"], "Question from server", 0, 1700000000)
    );
    assert_eq!(service.tally(), vec![0, 0, 0, 0]);
    assert_eq!(service.connection_count(), 0);
    assert!(service.can_accept());
}

#[test]
fn service_reads_the_clock_at_start() {
    let before = std::time::SystemTime::now().duration_since(std::time::UNIX_EPOCH).unwrap().as_secs() as i64;
    let service = Service::new(true);
    let after = std::time::SystemTime::now().duration_since(std::time::UNIX_EPOCH).unwrap().as_secs() as i64;
    let expires = service.current_ballot().expires;
    assert!(before <= expires && expires <= after);
}

#[test]
fn join_snapshot_is_ballot_then_tally_for_the_newcomer_alone() {
    let mut service = Service::new_at(50, true);
    let (first, _) = service.connect(true);
    assert_eq!(service.apply(first, set_ballot(&["A", "B"], "Q", 60), 100).dispatches.len(), 2);
    assert_eq!(service.apply(first, ClientMessage::ClientVote(1), 101).dispatches.len(), 1);
    let (second, snapshot) = service.connect(false);
    assert_eq!(second, 2);
    assert_eq!(snapshot.len(), 2);
    assert_eq!(snapshot[0].recipients, vec![second]);
    assert_eq!(snapshot[0].message, ServerMessage::SetBallot(ballot(&["A", "B"], "Q", 60, 160)));
    assert_eq!(snapshot[1].recipients, vec![second]);
    assert_eq!(snapshot[1].message, ServerMessage::SetVotes(vec![0, 1]));
}

#[test]
fn first_message_of_a_connection_is_the_ballot() {
    let mut service = Service::new_at(0, true);
    let mut log: Vec<Dispatch> = Vec::new();
    let (admin, sent) = service.connect(true);
    log.extend(sent);
    log.extend(service.publish());
    log.extend(service.apply(admin, set_ballot(&["A", "B"], "Q", 60), 10).dispatches);
    log.extend(service.apply(admin, ClientMessage::ClientVote(0), 11).dispatches);
    assert_eq!(inbox(&log, 2), Vec::<ServerMessage>::new());
    let (late, sent) = service.connect(false);
    assert_eq!(late, 2);
    log.extend(sent);
    log.extend(service.publish());
    log.extend(service.apply(admin, set_ballot(&["C"], "R", 1), 20).dispatches);
    let got = inbox(&log, late);
    assert_eq!(got[0], ServerMessage::SetBallot(ballot(&["A", "B"], "Q", 60, 70)));
    assert_eq!(got[1], ServerMessage::SetVotes(vec![1, 0]));
    assert_eq!(got.len(), 5);
}

#[test]
fn scenario_two_voters_one_leaves_then_a_new_ballot() {
    let mut service = Service::new_at(1000, false);
    let (admin, _) = service.connect(true);
    let applied = service.apply(admin, set_ballot(&["A", "B"], "Q", 60), 2000);
    assert_eq!(applied.refused, None);
    let applied = applied.dispatches;
    assert_eq!(applied.len(), 2);
    assert_eq!(applied[0].message, ServerMessage::SetBallot(ballot(&["A", "B"], "Q", 60, 2060)));
    assert_eq!(applied[1].message, ServerMessage::SetVotes(vec![0, 0]));
    let (x, _) = service.connect(false);
    let (y, _) = service.connect(false);
    assert_eq!(service.apply(x, ClientMessage::ClientVote(0), 2001), recorded());
    assert_eq!(service.apply(y, ClientMessage::ClientVote(1), 2002), recorded());
    assert_eq!(service.tally(), vec![1, 1]);
    let left = service.disconnect(x);
    assert_eq!(left.len(), 1);
    assert_eq!(sorted(&left[0].recipients), vec![admin, y]);
    assert_eq!(left[0].message, ServerMessage::SetVotes(vec![0, 1]));
    assert_eq!(service.tally(), vec![0, 1]);
    let replaced = service.apply(admin, set_ballot(&["C", "D", "E"], "Q2", 30), 3000).dispatches;
    assert_eq!(replaced.len(), 2);
    assert_eq!(sorted(&replaced[0].recipients), vec![admin, y]);
    assert_eq!(replaced[0].message, ServerMessage::SetBallot(ballot(&["C", "D", "E"], "Q2", 30, 3030)));
    assert_eq!(sorted(&replaced[1].recipients), vec![admin, y]);
    assert_eq!(replaced[1].message, ServerMessage::SetVotes(vec![0, 0, 0]));
    assert_eq!(service.tally(), vec![0, 0, 0]);
}

#[test]
fn scenario_vote_beyond_the_choices_is_dropped() {
    let mut service = Service::new_at(0, true);
    let (admin, _) = service.connect(true);
    service.apply(admin, set_ballot(&["A", "B"], "Q", 60), 1);
    let (voter, _) = service.connect(false);
    assert_eq!(service.apply(voter, ClientMessage::ClientVote(1), 2).dispatches.len(), 1);
    assert_eq!(service.tally(), vec![0, 1]);
    assert_eq!(service.apply(voter, ClientMessage::ClientVote(5), 3), dropped(Refusal::VoteOutOfRange));
    assert_eq!(service.apply(voter, ClientMessage::ClientVote(2), 3), dropped(Refusal::VoteOutOfRange));
    assert_eq!(
        service.receive(voter, r#"{"code":"vote","data":5}"#),
        dropped(Refusal::VoteOutOfRange)
    );
    assert_eq!(service.tally(), vec![0, 1]);
    assert_eq!(service.phase(voter), ConnectionPhase::Active);
    assert_eq!(service.connection_count(), 2);
}

#[test]
fn tally_sum_is_the_number_of_connections_that_voted() {
    let mut service = Service::new_at(0, false);
    let (admin, _) = service.connect(true);
    service.apply(admin, set_ballot(&["A", "B", "C"], "Q", 60), 1);
    let mut ids = Vec::new();
    for _ in 0..9 {
        ids.push(service.connect(false).0);
    }
    for (k, id) in ids.iter().enumerate() {
        if k % 4 != 3 {
            service.apply(*id, ClientMessage::ClientVote(k % 3), 2);
        }
    }
    service.apply(ids[0], ClientMessage::ClientVote(2), 3);
    service.apply(ids[1], ClientMessage::ClientVote(7), 3);
    service.disconnect(ids[2]);
    let counts = service.tally();
    assert_eq!(counts, vec![1, 2, 3]);
    assert_eq!(counts.iter().sum::<usize>(), 6);
}

#[test]
fn new_ballot_clears_the_votes() {
    let mut service = Service::new_at(0, false);
    let (admin, _) = service.connect(true);
    let (voter, _) = service.connect(false);
    service.apply(voter, ClientMessage::ClientVote(3), 1);
    service.apply(admin, ClientMessage::ClientVote(3), 1);
    assert_eq!(service.tally(), vec![0, 0, 0, 2]);
    let sent = service.apply(admin, set_ballot(&["A", "B", "C", "D"], "Q", 0), 5).dispatches;
    assert_eq!(sent[1].message, ServerMessage::SetVotes(vec![0, 0, 0, 0]));
    assert_eq!(service.tally(), vec![0, 0, 0, 0]);
    assert_eq!(service.current_ballot(), ballot(&["A", "B", "C", "D"], "Q", 0, 5));
}

#[test]
fn disconnect_takes_exactly_one_from_the_bucket() {
    let mut service = Service::new_at(0, false);
    let (a, _) = service.connect(false);
    let (b, _) = service.connect(false);
    let (c, _) = service.connect(false);
    service.apply(a, ClientMessage::ClientVote(2), 1);
    service.apply(b, ClientMessage::ClientVote(2), 1);
    assert_eq!(service.tally(), vec![0, 0, 2, 0]);
    service.disconnect(c);
    assert_eq!(service.tally(), vec![0, 0, 2, 0]);
    service.disconnect(a);
    assert_eq!(service.tally(), vec![0, 0, 1, 0]);
    assert_eq!(service.disconnect(a), Vec::<Dispatch>::new());
    assert_eq!(service.tally(), vec![0, 0, 1, 0]);
}

#[test]
fn disconnect_of_an_unknown_connection_changes_nothing() {
    let mut service = Service::new_at(0, true);
    let (a, _) = service.connect(false);
    assert_eq!(service.disconnect(0), Vec::<Dispatch>::new());
    assert_eq!(service.disconnect(17), Vec::<Dispatch>::new());
    assert_eq!(service.connection_count(), 1);
    assert_eq!(service.phase(a), ConnectionPhase::Active);
}

#[test]
fn phases_go_from_connecting_to_active_to_closed() {
    let mut service = Service::new_at(0, true);
    assert_eq!(service.phase(0), ConnectionPhase::Connecting);
    assert_eq!(service.phase(1), ConnectionPhase::Connecting);
    let (a, _) = service.connect(false);
    assert_eq!(a, 1);
    assert_eq!(service.phase(a), ConnectionPhase::Active);
    assert_eq!(service.phase(2), ConnectionPhase::Connecting);
    service.disconnect(a);
    assert_eq!(service.phase(a), ConnectionPhase::Closed);
    let (b, _) = service.connect(false);
    assert_eq!(b, 2);
    assert_eq!(service.phase(a), ConnectionPhase::Closed);
    assert_eq!(service.apply(a, ClientMessage::ClientVote(0), 1), dropped(Refusal::UnknownSender));
    assert_eq!(service.tally(), vec![0, 0, 0, 0]);
}

#[test]
fn metadata_goes_to_admins_only() {
    let mut service = Service::new_at(0, true);
    let mut log: Vec<Dispatch> = Vec::new();
    let (user, sent) = service.connect(false);
    log.extend(sent);
    log.extend(service.publish());
    let (admin, sent) = service.connect(true);
    log.extend(sent);
    let (other, sent) = service.connect(false);
    log.extend(sent);
    let published = service.publish();
    assert_eq!(published.len(), 2);
    assert_eq!(sorted(&published[0].recipients), vec![user, admin, other]);
    assert_eq!(published[0].message, ServerMessage::SetVotes(vec![0, 0, 0, 0]));
    assert_eq!(published[1].recipients, vec![admin]);
    assert_eq!(published[1].message, ServerMessage::Metadata { users: 3 });
    log.extend(published);
    log.extend(service.apply(admin, set_ballot(&["A"], "Q", 1), 1).dispatches);
    log.extend(service.apply(user, ClientMessage::ClientVote(0), 2).dispatches);
    log.extend(service.disconnect(other));
    log.extend(service.publish());
    for id in [user, other] {
        assert!(inbox(&log, id).iter().all(|m| !matches!(m, ServerMessage::Metadata { .. })));
        assert!(!inbox(&log, id).is_empty());
    }
    assert_eq!(
        inbox(&log, admin).iter().filter(|m| matches!(m, ServerMessage::Metadata { .. })).count(),
        2
    );
    assert_eq!(log.last().unwrap().message, ServerMessage::Metadata { users: 2 });
}

#[test]
fn ballot_of_a_connection_without_the_capability_is_dropped() {
    let mut service = Service::new_at(7, true);
    let (user, _) = service.connect(false);
    let before = service.current_ballot();
    service.apply(user, ClientMessage::ClientVote(1), 8);
    assert_eq!(service.apply(user, set_ballot(&["A"], "Q", 1), 9), dropped(Refusal::NotAdmin));
    assert_eq!(service.apply(99, set_ballot(&["A"], "Q", 1), 9), dropped(Refusal::UnknownSender));
    assert_eq!(service.current_ballot(), before);
    assert_eq!(service.tally(), vec![0, 1, 0, 0]);
}

#[test]
fn ballot_whose_window_has_no_end_is_dropped() {
    let mut service = Service::new_at(7, true);
    let (admin, _) = service.connect(true);
    let before = service.current_ballot();
    assert_eq!(
        service.apply(admin, set_ballot(&["A"], "Q", i64::MAX), 1),
        dropped(Refusal::WindowOverflow)
    );
    assert_eq!(
        service.apply(admin, set_ballot(&["A"], "Q", i64::MIN), -1),
        dropped(Refusal::WindowOverflow)
    );
    assert_eq!(service.current_ballot(), before);
    assert_eq!(service.apply(admin, set_ballot(&["A"], "Q", i64::MAX), 0).dispatches.len(), 2);
    assert_eq!(service.current_ballot(), ballot(&["A"], "Q", i64::MAX, i64::MAX));
}

#[test]
fn vote_is_told_at_once_only_where_the_policy_says_so() {
    let mut quiet = Service::new_at(0, false);
    let (a, _) = quiet.connect(false);
    assert_eq!(quiet.apply(a, ClientMessage::ClientVote(1), 1), recorded());
    assert_eq!(quiet.tally(), vec![0, 1, 0, 0]);
    let mut loud = Service::new_at(0, true);
    let (a, _) = loud.connect(false);
    let (b, _) = loud.connect(true);
    let sent = loud.apply(a, ClientMessage::ClientVote(1), 1).dispatches;
    assert_eq!(sent.len(), 1);
    assert_eq!(sorted(&sent[0].recipients), vec![a, b]);
    assert_eq!(sent[0].message, ServerMessage::SetVotes(vec![0, 1, 0, 0]));
}

#[test]
fn receive_applies_what_the_text_says() {
    let mut service = Service::new_at(0, true);
    let (admin, _) = service.connect(true);
    let (voter, _) = service.connect(false);
    let before = std::time::SystemTime::now().duration_since(std::time::UNIX_EPOCH).unwrap().as_secs() as i64;
    let sent = service
        .receive(
            admin,
            r#"{"code":"setBallot","data":{"choices":["A","B"],"question":"Q","duration":60}}"#,
        )
        .dispatches;
    let after = std::time::SystemTime::now().duration_since(std::time::UNIX_EPOCH).unwrap().as_secs() as i64;
    assert_eq!(sent.len(), 2);
    let active = service.current_ballot();
    assert_eq!(active.choices, vec![String::from("A"), String::from("B")]);
    assert_eq!(active.question, "Q");
    assert_eq!(active.duration, 60);
    assert!(before + 60 <= active.expires && active.expires <= after + 60);
    assert_eq!(sent[0].message, ServerMessage::SetBallot(active));
    let sent = service.receive(voter, r#"{"code":"vote","data":1}"#).dispatches;
    assert_eq!(sent.len(), 1);
    assert_eq!(sent[0].message, ServerMessage::SetVotes(vec![0, 1]));
}

#[test]
fn receive_drops_a_vote_whose_index_is_a_string() {
    let mut service = Service::new_at(0, true);
    let (voter, _) = service.connect(false);
    assert_eq!(service.receive(voter, r#"{"code":"vote","data":0}"#).refused, None);
    assert_eq!(service.tally(), vec![1, 0, 0, 0]);
    for bad in [r#"{"code":"vote","data":"1"}"#, r#"{"code":"vote","data":"+1"}"#] {
        assert_eq!(
            service.receive(voter, bad),
            dropped(Refusal::Malformed(ParseError::InvalidVote)),
            "for {:?}",
            bad
        );
    }
    assert_eq!(service.tally(), vec![1, 0, 0, 0]);
    assert_eq!(service.phase(voter), ConnectionPhase::Active);
}

#[test]
fn receive_drops_what_is_no_message() {
    let mut service = Service::new_at(0, true);
    let (a, _) = service.connect(true);
    service.apply(a, ClientMessage::ClientVote(0), 1);
    let before = service.current_ballot();
    let cases = [
        ("", ParseError::Syntax),
        ("garbage", ParseError::Syntax),
        ("{}", ParseError::NoCode),
        (r#"{"code":"dance","data":1}"#, ParseError::UnknownCode),
        (r#"{"code":"vote"}"#, ParseError::NoData),
        (r#"{"code":"vote","data":-1}"#, ParseError::InvalidVote),
        (r#"{"code":"vote","data":"0"}"#, ParseError::InvalidVote),
        (r#"{"code":"setBallot","data":{"choices":[1]}}"#, ParseError::InvalidBallot),
    ];
    for (bad, why) in cases {
        assert_eq!(service.receive(a, bad), dropped(Refusal::Malformed(why)), "for {:?}", bad);
    }
    assert_eq!(service.current_ballot(), before);
    assert_eq!(service.tally(), vec![1, 0, 0, 0]);
    assert_eq!(service.phase(a), ConnectionPhase::Active);
}
