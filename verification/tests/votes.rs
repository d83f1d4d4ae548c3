use backend::votes::{VoteError, VoteStore};

#[test]
fn out_of_range_vote_is_refused() {
    let mut store = VoteStore::new();
    assert_eq!(store.set_vote(7, 5, 2), Err(VoteError::OutOfRange));
    assert_eq!(store.set_vote(7, 2, 2), Err(VoteError::OutOfRange));
    assert_eq!(store.vote_of(7), None);
    assert_eq!(store.len(), 0);
    assert_eq!(store.snapshot_tally(2), vec![0, 0]);
}

#[test]
fn latest_vote_of_a_connection_replaces_the_earlier_one() {
    let mut store = VoteStore::new();
    assert_eq!(store.set_vote(1, 0, 2), Ok(()));
    assert_eq!(store.set_vote(2, 1, 2), Ok(()));
    assert_eq!(store.snapshot_tally(2), vec![1, 1]);
    assert_eq!(store.set_vote(2, 0, 2), Ok(()));
    assert_eq!(store.vote_of(2), Some(0));
    assert_eq!(store.len(), 2);
    assert_eq!(store.snapshot_tally(2), vec![2, 0]);
}

#[test]
fn tally_sum_is_the_number_of_voters() {
    let mut store = VoteStore::new();
    for id in 1..=10usize {
        assert_eq!(store.set_vote(id, id % 3, 3), Ok(()));
    }
    let counts = store.snapshot_tally(3);
    assert_eq!(counts, vec![3, 4, 3]);
    assert_eq!(counts.iter().sum::<usize>(), store.len());
}

#[test]
fn tally_leaves_out_votes_beyond_the_choices() {
    let mut store = VoteStore::new();
    assert_eq!(store.set_vote(1, 0, 4), Ok(()));
    assert_eq!(store.set_vote(2, 3, 4), Ok(()));
    assert_eq!(store.snapshot_tally(2), vec![1, 0]);
    assert_eq!(store.snapshot_tally(0), Vec::<usize>::new());
}

#[test]
fn removing_a_vote_takes_one_from_its_bucket() {
    let mut store = VoteStore::new();
    assert_eq!(store.set_vote(1, 1, 3), Ok(()));
    assert_eq!(store.set_vote(2, 1, 3), Ok(()));
    assert_eq!(store.set_vote(3, 2, 3), Ok(()));
    assert_eq!(store.snapshot_tally(3), vec![0, 2, 1]);
    store.remove_vote(2);
    assert_eq!(store.snapshot_tally(3), vec![0, 1, 1]);
    store.remove_vote(2);
    store.remove_vote(99);
    assert_eq!(store.snapshot_tally(3), vec![0, 1, 1]);
}

#[test]
fn clearing_forgets_every_vote() {
    let mut store = VoteStore::new();
    assert_eq!(store.set_vote(1, 1, 3), Ok(()));
    assert_eq!(store.set_vote(2, 0, 3), Ok(()));
    store.clear_all();
    assert_eq!(store.len(), 0);
    assert_eq!(store.vote_of(1), None);
    assert_eq!(store.snapshot_tally(3), vec![0, 0, 0]);
}
