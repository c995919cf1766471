use mail_notifier::config_locate::{after_attempt, Attempt, Meta, ReadError, Search};
use std::path::PathBuf;

#[test]
fn the_first_file_that_exists_ends_the_search() {
    let search = after_attempt::<String>(
        PathBuf::from("a.yaml"),
        Attempt::Contents("config1 content".to_string()),
    );
    match search {
        Search::Ended(Ok(Meta { payload, path })) => {
            assert_eq!(payload, "config1 content");
            assert_eq!(path, PathBuf::from("a.yaml"));
        }
        other => panic!("unexpected: {other:?}"),
    }
}

#[test]
fn a_missing_file_leaves_the_search_to_the_next_candidate() {
    assert!(matches!(
        after_attempt::<String>(PathBuf::from("a.yaml"), Attempt::Missing),
        Search::Continues
    ));
}

#[test]
fn a_file_that_cannot_be_read_ends_the_search() {
    let search = after_attempt(PathBuf::from("a.yaml"), Attempt::Failed("denied".to_string()));
    match search {
        Search::Ended(Err(ReadError::Read { path, source })) => {
            assert_eq!(path, PathBuf::from("a.yaml"));
            assert_eq!(source, "denied");
        }
        other => panic!("unexpected: {other:?}"),
    }
}
