use ckboots::dispatch::resolve_args;
use ckboots::transition::Error;
use ckboots::CellManager;

fn snapshot() -> CellManager {
    CellManager::new(vec![
        ("frog", vec![100, 0]),
        ("cat", vec![1]),
        ("frog", vec![9, 9]),
    ])
}

#[test]
fn lookup_finds_the_committed_payload() {
    let store = snapshot();
    assert_eq!(store.get_by_id("cat"), Some(&[1u8][..]));
    assert_eq!(store.get_by_id("dog"), None);
    assert_eq!(store.get_by_id(""), None);
}

#[test]
fn earlier_entry_of_a_snapshot_counts() {
    let store = snapshot();
    assert_eq!(store.get_by_id("frog"), Some(&[100u8, 0][..]));
}

#[test]
fn empty_store_knows_nothing() {
    let store = CellManager::new(vec![]);
    assert_eq!(store.get_by_id("frog"), None);
}

#[test]
fn staged_payload_is_not_seen_before_commit() {
    let mut store = snapshot();
    store.set_pending("frog", vec![99, 1]);
    assert_eq!(store.get_by_id("frog"), Some(&[100u8, 0][..]));
    store.set_pending("dog", vec![7]);
    assert_eq!(store.get_by_id("dog"), None);
    assert_eq!(store.get_by_id("cat"), Some(&[1u8][..]));
}

#[test]
fn commit_moves_every_staged_payload() {
    let mut store = snapshot();
    store.set_pending("frog", vec![99, 1]);
    store.set_pending("dog", vec![7]);
    store.commit();
    assert_eq!(store.get_by_id("frog"), Some(&[99u8, 1][..]));
    assert_eq!(store.get_by_id("dog"), Some(&[7u8][..]));
    assert_eq!(store.get_by_id("cat"), Some(&[1u8][..]));
}

#[test]
fn later_staging_of_one_identifier_counts() {
    let mut store = snapshot();
    store.set_pending("frog", vec![1]);
    store.set_pending("cat", vec![5]);
    store.set_pending("frog", vec![2]);
    store.commit();
    assert_eq!(store.get_by_id("frog"), Some(&[2u8][..]));
    assert_eq!(store.get_by_id("cat"), Some(&[5u8][..]));
}

#[test]
fn commit_empties_the_staging_area() {
    let mut store = snapshot();
    store.set_pending("frog", vec![1]);
    store.commit();
    store.set_pending("cat", vec![3]);
    // a second commit brings only what was staged after the first
    store.commit();
    assert_eq!(store.get_by_id("frog"), Some(&[1u8][..]));
    assert_eq!(store.get_by_id("cat"), Some(&[3u8][..]));
    store.commit();
    assert_eq!(store.get_by_id("frog"), Some(&[1u8][..]));
}

#[test]
fn arguments_are_resolved_in_order() {
    let store = snapshot();
    let input = vec![42u8];
    let ids = vec!["cat", "user_input", "frog"];
    let args = resolve_args(&store, &ids, &input).unwrap();
    assert_eq!(args, vec![&[1u8][..], &[42u8][..], &[100u8, 0][..]]);
}

#[test]
fn unregistered_identifier_fails_the_resolution() {
    let store = snapshot();
    let input = vec![];
    let ids = vec!["cat", "dog"];
    assert_eq!(
        resolve_args(&store, &ids, &input),
        Err(Error::MissingIdentifier)
    );
}

#[test]
fn staged_cells_do_not_resolve() {
    let mut store = snapshot();
    store.set_pending("dog", vec![7]);
    let input = vec![];
    let ids = vec!["dog"];
    assert_eq!(
        resolve_args(&store, &ids, &input),
        Err(Error::MissingIdentifier)
    );
}
