use profile_cleaner::order::{compare, Candidate, Order};
use profile_cleaner::profile::{Entry, EntryError};
use profile_cleaner::ranking::{apply_exception, apply_retention, find_exempt, rank, select, Exception, Retention, RetentionRule};

fn stamped(path: &str, modified: i128) -> Candidate {
    Candidate { path: path.as_bytes().to_vec(), name: None, created: None, modified: Some(modified) }
}

fn named(path: &str) -> Candidate {
    let name = path.rsplit('/').next().map(|n| n.as_bytes().to_vec());
    Candidate { path: path.as_bytes().to_vec(), name, created: None, modified: None }
}

fn paths(v: &[&str]) -> Vec<Vec<u8>> {
    v.iter().map(|p| p.as_bytes().to_vec()).collect()
}

#[test]
fn literal_path_expands_to_itself() {
    let entry = Entry::Path { path: b"/tmp/missing".to_vec() };
    let found = Err(glob::Pattern::new("[").unwrap_err());
    assert_eq!(entry.expand(found).unwrap(), paths(&["/tmp/missing"]));
}

#[test]
fn literal_path_has_no_pattern() {
    let entry = Entry::Path { path: b"/a".to_vec() };
    assert!(entry.pattern().is_none());
    let entry = Entry::Pattern { pattern: "/a/*".to_string(), retention: None };
    assert_eq!(entry.pattern(), Some(&"/a/*".to_string()));
}

#[test]
fn invalid_pattern_is_reported() {
    let entry = Entry::Pattern { pattern: "/a/[".to_string(), retention: None };
    let found = Err(glob::Pattern::new("/a/[").unwrap_err());
    match entry.expand(found) {
        Err(EntryError::FailedToParse { pattern, error }) => {
            assert_eq!(pattern, "/a/[");
            assert_eq!(error.msg, "invalid range pattern");
        }
        Ok(_) => panic!("expected an error"),
    }
}

#[test]
fn pattern_without_retention_hands_on_every_match() {
    let entry = Entry::Pattern { pattern: "/x/*".to_string(), retention: None };
    let found = vec![stamped("/x/b", 1), stamped("/x/a", 2), stamped("/x/c", 0)];
    assert_eq!(entry.expand(Ok(found)).unwrap(), paths(&["/x/b", "/x/a", "/x/c"]));
}

#[test]
fn modified_retention_keeps_the_newest() {
    let retention = Retention { order: Order::Modified, count: 1 };
    let entry = Entry::Pattern { pattern: "/tmp/x/*.log".to_string(), retention: Some(RetentionRule::Count(retention)) };
    let found = vec![stamped("/tmp/x/a.log", 200), stamped("/tmp/x/b.log", 300), stamped("/tmp/x/c.log", 100)];
    assert_eq!(entry.expand(Ok(found)).unwrap(), paths(&["/tmp/x/a.log", "/tmp/x/c.log"]));
}

#[test]
fn retention_count_covering_all_matches_deletes_nothing() {
    let found = vec![stamped("/a", 1), stamped("/b", 2)];
    assert!(apply_retention(Retention { order: Order::Modified, count: 2 }, &found).is_empty());
    assert!(apply_retention(Retention { order: Order::Modified, count: 9 }, &found).is_empty());
    assert!(apply_retention(Retention { order: Order::Created, count: 0 }, &Vec::new()).is_empty());
}

#[test]
fn retention_count_zero_deletes_all_in_rank_order() {
    let found = vec![stamped("/a", 1), stamped("/b", 3), stamped("/c", 2)];
    let out = apply_retention(Retention { order: Order::Modified, count: 0 }, &found);
    assert_eq!(out, paths(&["/b", "/c", "/a"]));
}

#[test]
fn ties_keep_enumeration_order() {
    let found = vec![stamped("/a", 5), stamped("/b", 5), stamped("/c", 7), stamped("/d", 5)];
    assert_eq!(rank(Order::Modified, &found), vec![2, 0, 1, 3]);
    let out = apply_retention(Retention { order: Order::Modified, count: 2 }, &found);
    assert_eq!(out, paths(&["/b", "/d"]));
}

#[test]
fn unreadable_metadata_ranks_last() {
    let mut missing = stamped("/m", 0);
    missing.modified = None;
    let found = vec![missing, stamped("/a", -5), stamped("/b", 10)];
    let out = apply_retention(Retention { order: Order::Modified, count: 2 }, &found);
    assert_eq!(out, paths(&["/m"]));
}

#[test]
fn created_order_reads_creation_time() {
    let mut a = stamped("/a", 1);
    a.created = Some(50);
    let mut b = stamped("/b", 2);
    b.created = Some(10);
    let out = apply_retention(Retention { order: Order::Created, count: 1 }, &vec![a, b]);
    assert_eq!(out, paths(&["/b"]));
}

#[test]
fn file_name_order_is_descending_by_bytes() {
    let found = vec![named("/d/alpha"), named("/d/beta"), named("/d/al"), named("/d/Zed")];
    assert_eq!(rank(Order::FileName, &found), vec![1, 0, 2, 3]);
    let out = apply_retention(Retention { order: Order::FileName, count: 1 }, &found);
    assert_eq!(out, paths(&["/d/alpha", "/d/al", "/d/Zed"]));
}

#[test]
fn compare_is_three_way() {
    let a = named("/x/ab");
    let b = named("/x/abc");
    assert_eq!(compare(Order::FileName, &a, &b), -1);
    assert_eq!(compare(Order::FileName, &b, &a), 1);
    assert_eq!(compare(Order::FileName, &a, &a), 0);
    assert_eq!(compare(Order::Modified, &stamped("/p", 3), &stamped("/q", 3)), 0);
}

#[test]
fn exception_with_no_match_deletes_nothing() {
    for x in [Exception::FirstAscending, Exception::FirstDescending, Exception::MostRecent] {
        assert!(apply_exception(x, &Vec::new()).is_empty());
    }
}

#[test]
fn exception_first_ascending_keeps_smallest_name() {
    let found = vec![named("/d/b"), named("/d/a"), named("/d/c")];
    assert_eq!(find_exempt(Exception::FirstAscending, &found), 1);
    assert_eq!(apply_exception(Exception::FirstAscending, &found), paths(&["/d/b", "/d/c"]));
}

#[test]
fn exception_first_descending_keeps_largest_name() {
    let found = vec![named("/d/b"), named("/d/a"), named("/d/c")];
    assert_eq!(apply_exception(Exception::FirstDescending, &found), paths(&["/d/b", "/d/a"]));
}

#[test]
fn exception_most_recent_keeps_first_newest() {
    let found = vec![stamped("/a", 4), stamped("/b", 9), stamped("/c", 9)];
    assert_eq!(find_exempt(Exception::MostRecent, &found), 1);
    assert_eq!(apply_exception(Exception::MostRecent, &found), paths(&["/a", "/c"]));
}

#[test]
fn select_applies_the_given_rule() {
    let found = vec![stamped("/a", 1), stamped("/b", 2), stamped("/c", 3)];
    let out = select(&found, Some(RetentionRule::Count(Retention { order: Order::Modified, count: 2 })));
    assert_eq!(out, paths(&["/a"]));
    let out = select(&found, Some(RetentionRule::Exception(Exception::MostRecent)));
    assert_eq!(out, paths(&["/a", "/b"]));
    assert_eq!(select(&found, None), paths(&["/a", "/b", "/c"]));
}

#[test]
fn non_utf8_paths_are_kept() {
    let odd = Candidate { path: vec![b'/', 0xff, 0xfe], name: Some(vec![0xff, 0xfe]), created: None, modified: Some(1) };
    let found = vec![odd, stamped("/b", 2)];
    let out = apply_retention(Retention { order: Order::Modified, count: 1 }, &found);
    assert_eq!(out, vec![vec![b'/', 0xff, 0xfe]]);
}
