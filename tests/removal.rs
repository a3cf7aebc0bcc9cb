use profile_cleaner::prompt::{answer, Mode};
use profile_cleaner::removal::{action_for, directory_outcome, file_outcome, reclaimed, Action, Kind, RemoveError, Tally};

fn cause(s: &str) -> String {
    s.to_string()
}

#[test]
fn entry_kinds_decide_the_action() {
    assert_eq!(action_for(Kind::Directory), Action::RemoveTree);
    assert_eq!(action_for(Kind::File { len: 42 }), Action::Unlink { len: 42 });
    assert_eq!(action_for(Kind::Symlink), Action::Unlink { len: 0 });
    assert_eq!(action_for(Kind::Other), Action::Leave);
}

#[test]
fn removed_file_reports_its_length() {
    assert_eq!(file_outcome(b"/f".to_vec(), 42, Ok(())), Ok(42));
    assert_eq!(
        file_outcome(b"/f".to_vec(), 42, Err(cause("denied"))),
        Err(RemoveError::FailedToRemoveFile { path: b"/f".to_vec(), cause: cause("denied") })
    );
}

#[test]
fn directory_with_all_children_removed_reports_their_sum() {
    let children = vec![Ok(10), Ok(0), Ok(32)];
    assert_eq!(directory_outcome(b"/d".to_vec(), &children, Ok(())), Ok(42));
    assert_eq!(directory_outcome(b"/d".to_vec(), &Vec::new(), Ok(())), Ok(0));
}

#[test]
fn nested_directory_counts_through() {
    let inner = directory_outcome(b"/d/e".to_vec(), &vec![Ok(5), Ok(6)], Ok(()));
    assert_eq!(directory_outcome(b"/d".to_vec(), &vec![inner, Ok(1)], Ok(())), Ok(12));
}

#[test]
fn unremovable_child_fails_the_directory() {
    let children = vec![
        Ok(10),
        Err(RemoveError::FailedToRemoveFile { path: b"/d/x".to_vec(), cause: cause("denied") }),
        Ok(32),
    ];
    let out = directory_outcome(b"/d".to_vec(), &children, Err(cause("not empty")));
    assert_eq!(out, Err(RemoveError::FailedToRemoveDirectory { path: b"/d".to_vec(), cause: cause("not empty") }));
    assert_eq!(reclaimed(&out), 0);
}

#[test]
fn failed_children_add_nothing() {
    let children = vec![
        Err(RemoveError::FailedToRemoveDirectory { path: b"/d/s".to_vec(), cause: cause("busy") }),
        Err(RemoveError::FailedToInspectPath { path: b"/d/g".to_vec(), cause: cause("gone") }),
        Err(RemoveError::FailedToReadDirectory { path: b"/d/r".to_vec(), cause: cause("denied") }),
        Ok(3),
    ];
    assert_eq!(directory_outcome(b"/d".to_vec(), &children, Ok(())), Ok(3));
}

#[test]
fn directory_sum_saturates() {
    let children = vec![Ok(u64::MAX), Ok(1)];
    assert_eq!(directory_outcome(b"/d".to_vec(), &children, Ok(())), Ok(u64::MAX));
}

#[test]
fn tally_counts_only_successes() {
    let mut t = Tally::new();
    assert_eq!((t.removed, t.reclaimed), (0, 0));
    t.record(&Ok(100));
    t.record(&Err(RemoveError::FailedToInspectPath { path: b"/g".to_vec(), cause: cause("gone") }));
    t.record(&Err(RemoveError::FailedToRemoveDirectory { path: b"/d".to_vec(), cause: cause("busy") }));
    t.record(&Ok(0));
    t.record(&Ok(5));
    assert_eq!(t.removed, 3);
    assert_eq!(t.reclaimed, 105);
}

#[test]
fn prompt_answers() {
    assert_eq!(answer(b""), Some(true));
    assert_eq!(answer(b"y"), Some(true));
    assert_eq!(answer(b"Y"), Some(true));
    assert_eq!(answer(b"n"), Some(false));
    assert_eq!(answer(b"N"), Some(false));
    assert_eq!(answer(b"yes"), None);
    assert_eq!(answer(b"x"), None);
    assert!(Mode::EveryPath.asks_per_path() && !Mode::EveryPath.asks_per_entry());
    assert!(Mode::EveryEntry.asks_per_entry() && !Mode::Silent.asks_per_path());
}
