use bitpet::{commits_from_git_log, parse_commit_block, Commit, GitError};

const BLOCK: &str = "3f2b1a\nAuthor: Jane Doe <jane@example.com>\nDate:   Fri Sep 19 20:12:42 2025 +0530\n\n    fix the parser\n";

#[test]
fn parses_a_matching_commit_block() {
    let r = parse_commit_block(BLOCK, "Jane Doe", "jane@example.com");
    let c = r.unwrap().unwrap();
    assert_eq!(c.hash, "3f2b1a");
    // 2025-09-19 20:12:42 at +05:30 is 14:42:42 UTC.
    assert_eq!(c.time_since_epoch_ms, 1758292962000);
}

#[test]
fn matches_on_name_or_email_alone() {
    let by_name = parse_commit_block(BLOCK, "Jane Doe", "someone@else").unwrap();
    assert!(by_name.is_some());
    let by_email = parse_commit_block(BLOCK, "Somebody Else", "jane@example.com").unwrap();
    assert!(by_email.is_some());
    let neither = parse_commit_block(BLOCK, "Somebody Else", "someone@else").unwrap();
    assert!(neither.is_none());
}

#[test]
fn skips_malformed_blocks() {
    assert!(parse_commit_block("", "u", "e").unwrap().is_none());
    assert!(parse_commit_block("one\ntwo", "u", "e").unwrap().is_none());
    assert!(parse_commit_block("   \nAuthor: u <e>\nDate: x", "u", "e").unwrap().is_none());
    assert!(parse_commit_block("abc\nCommitter: u <e>\nDate: x", "u", "e").unwrap().is_none());
    assert!(parse_commit_block("abc\nAuthor: u <e>\nTime: x", "u", "e").unwrap().is_none());
}

#[test]
fn unparseable_date_of_a_matching_commit_is_an_error() {
    let block = "abc\nAuthor: u <e>\nDate:   not a date";
    let r = parse_commit_block(block, "u", "e");
    match r {
        Err(GitError::GitLogError(msg, _)) => {
            assert!(msg.contains("not a date"));
        },
        other => panic!("expected a git log error, got {:?}", other),
    }
}

#[test]
fn gathers_commits_from_a_whole_log() {
    let log = "commit aaa111\nAuthor: Jane Doe <jane@example.com>\nDate:   Fri Sep 19 20:12:42 2025 +0530\n\n    one\n\ncommit bbb222\nAuthor: Somebody Else <other@example.com>\nDate:   Fri Sep 19 20:12:42 2025 +0530\n\n    two\n\ncommit ccc333\nAuthor: Jane Doe <jane@example.com>\nDate:   Sat Sep 20 10:00:00 2025 +0000\n\n    three\n";
    let commits: Vec<Commit> =
        commits_from_git_log(log, "Jane Doe", "jane@example.com").unwrap();
    assert_eq!(commits.len(), 2);
    assert_eq!(commits[0].hash, "aaa111");
    assert_eq!(commits[0].time_since_epoch_ms, 1758292962000);
    assert_eq!(commits[1].hash, "ccc333");
    // 2025-09-20 10:00:00 UTC.
    assert_eq!(commits[1].time_since_epoch_ms, 1758362400000);
}

#[test]
fn empty_log_gives_no_commits() {
    assert!(commits_from_git_log("", "u", "e").unwrap().is_empty());
    assert!(commits_from_git_log("  \n \n", "u", "e").unwrap().is_empty());
}

#[test]
fn commit_display_names_hash_and_time() {
    let c = Commit { hash: "abc".to_string(), time_since_epoch_ms: 1234 };
    assert_eq!(c.display_string(), "Commit: abc\nTime since epoch: 1234");
}
