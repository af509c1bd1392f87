//! Parsing `git log` output into the commits of the logged-in author.
//!
//! The caller runs git and hands the raw log text over; everything from
//! there on — splitting into commit blocks, matching the author, reading
//! the date — is decided here.

use vstd::prelude::*;

use crate::error::{capture_backtrace, CustomErrorTrait, WithBacktrace};
use crate::numfmt::{spec_u64_dec, u64_to_string};
use crate::paths::NormalisedPathError;
use crate::text::{
    find_str_from, lemma_find_bounds, spec_find, spec_lines, spec_split, spec_trim, split_lines,
    split_on, starts_with_str, str_eq, trim,
};

verus! {

/// One commit: its hash and its author date in milliseconds since the
/// epoch.
#[derive(Clone, Debug)]
pub struct Commit {
    pub hash: String,
    pub time_since_epoch_ms: u64,
}

impl Commit {
    /// The commit as the terminal shows it.
    pub fn display_string(&self) -> (r: String)
        ensures
            r@ == "Commit: "@ + self.hash@ + "\nTime since epoch: "@ + spec_u64_dec(
                self.time_since_epoch_ms as int,
            ),
    {
        let mut s = String::from_str("Commit: ");
        s.append(self.hash.as_str());
        s.append("\nTime since epoch: ");
        let t = u64_to_string(self.time_since_epoch_ms);
        s.append(t.as_str());
        s
    }
}

/// Why the commits could not be gathered.
#[derive(Debug)]
pub enum GitError {
    UnableToFetchGitUsername(String, String),
    UnableToFetchGitEmail(String, String),
    PathError(NormalisedPathError, String),
    GitLogError(String, String),
}

impl WithBacktrace for GitError {
    fn backtrace(&self) -> &String {
        match self {
            GitError::UnableToFetchGitUsername(_, s) => s,
            GitError::UnableToFetchGitEmail(_, s) => s,
            GitError::PathError(_, s) => s,
            GitError::GitLogError(_, s) => s,
        }
    }
}

impl CustomErrorTrait for GitError {
}

impl GitError {
    /// Wraps a path error, capturing the backtrace here.
    pub fn from_path_error(e: NormalisedPathError) -> (r: GitError)
        ensures
            r matches GitError::PathError(inner, _) && inner == e,
    {
        GitError::PathError(e, capture_backtrace())
    }
}

/// Whether a git author date parses, and the instant it denotes, as a
/// function of the date text alone.
pub uninterp spec fn git_date_timestamp_ms(s: Seq<char>) -> Option<i64>;

/// Relies on chrono's `DateTime::parse_from_str` with the git log date
/// format `%a %b %d %H:%M:%S %Y %z`, and on its `timestamp_millis`: both
/// are fixed functions of the date text.
#[verifier::external_body]
fn parse_git_date_ms(s: &str) -> (r: Option<i64>)
    ensures
        r == git_date_timestamp_ms(s@),
{
    match chrono::DateTime::parse_from_str(s, "%a %b %d %H:%M:%S %Y %z") {
        Ok(d) => Some(d.timestamp_millis()),
        Err(_) => None,
    }
}

/// The name and email of a commit block's `Author:` line, given the line
/// without its prefix: the part before ` <` (or everything, with an empty
/// email, if there is none) and the part inside `<...>`, both trimmed.
pub open spec fn spec_author_name_email(info: Seq<char>) -> (Seq<char>, Seq<char>) {
    match spec_find(info, " <"@, 0) {
        Some(i) => {
            let name = spec_trim(info.subrange(0, i));
            let rest = info.subrange(i + " <"@.len() as int, info.len() as int);
            let email = match spec_find(rest, ">"@, 0) {
                Some(j) => spec_trim(rest.subrange(0, j)),
                None => spec_trim(rest),
            };
            (name, email)
        },
        None => (spec_trim(info), Seq::empty()),
    }
}

/// Does `s` begin with `p`?
pub open spec fn spec_has_prefix(s: Seq<char>, p: Seq<char>) -> bool {
    s.len() >= p.len() && s.subrange(0, p.len() as int) == p
}

/// Is this commit block skipped without an error: too short, an empty
/// hash, a malformed author or date line, or an author who is neither the
/// expected user name nor the expected email?
pub open spec fn spec_block_skips(block: Seq<char>, u: Seq<char>, e: Seq<char>) -> bool {
    let lines = spec_lines(block);
    ||| lines.len() < 3
    ||| spec_trim(lines[0]).len() == 0
    ||| !spec_has_prefix(lines[1], "Author: "@)
    ||| ({
        let (name, email) = spec_author_name_email(
            lines[1].subrange("Author: "@.len() as int, lines[1].len() as int),
        );
        name != u && email != e
    })
    ||| !spec_has_prefix(lines[2], "Date:"@)
}

/// The date text of a commit block: the third line after `Date:`, trimmed.
pub open spec fn spec_block_date_str(block: Seq<char>) -> Seq<char> {
    let lines = spec_lines(block);
    spec_trim(lines[2].subrange("Date:"@.len() as int, lines[2].len() as int))
}

/// Parses one commit block of `git log` output. A block that is not a
/// well-formed commit of the expected author is skipped (`Ok(None)`); a
/// matching block whose date does not parse is an error; otherwise the
/// commit's trimmed hash and its date are returned.
pub fn parse_commit_block(block: &str, expected_username: &str, expected_email: &str) -> (r:
    Result<Option<Commit>, GitError>)
    ensures
        spec_block_skips(block@, expected_username@, expected_email@) ==> r == Ok::<
            Option<Commit>,
            GitError,
        >(None),
        !spec_block_skips(block@, expected_username@, expected_email@) ==> match
            git_date_timestamp_ms(spec_block_date_str(block@)) {
            Some(ms) => r matches Ok(Some(c)) && c.hash@ == spec_trim(spec_lines(block@)[0])
                && c.time_since_epoch_ms == ms as u64,
            None => r matches Err(err) && err is GitLogError,
        },
{
    proof {
        reveal_strlit("Author: ");
        reveal_strlit("Date:");
        reveal_strlit(" <");
        reveal_strlit(">");
    }
    let lines = split_lines(block);
    if lines.len() < 3 {
        return Ok(None);
    }
    proof {
        assert(lines.deep_view()[0] == lines@[0]@);
        assert(lines.deep_view()[1] == lines@[1]@);
        assert(lines.deep_view()[2] == lines@[2]@);
    }
    let hash = trim(lines[0].as_str());
    if hash.as_str().unicode_len() == 0 {
        return Ok(None);
    }
    let author_line = lines[1].as_str();
    if !starts_with_str(author_line, "Author: ") {
        return Ok(None);
    }
    let author_info = author_line.substring_char(8, author_line.unicode_len());
    let (author_name, author_email) = match find_str_from(author_info, " <", 0) {
        Some(i) => {
            proof {
                lemma_find_bounds(author_info@, " <"@, 0);
            }
            let name = trim(author_info.substring_char(0, i));
            let rest = author_info.substring_char(i + 2, author_info.unicode_len());
            let email = match find_str_from(rest, ">", 0) {
                Some(j) => {
                    proof {
                        lemma_find_bounds(rest@, ">"@, 0);
                    }
                    trim(rest.substring_char(0, j))
                },
                None => trim(rest),
            };
            (name, email)
        },
        None => (trim(author_info), String::new()),
    };
    if !str_eq(author_name.as_str(), expected_username) && !str_eq(
        author_email.as_str(),
        expected_email,
    ) {
        return Ok(None);
    }
    let date_line = lines[2].as_str();
    if !starts_with_str(date_line, "Date:") {
        return Ok(None);
    }
    let date_str = trim(date_line.substring_char(5, date_line.unicode_len()));
    match parse_git_date_ms(date_str.as_str()) {
        Some(ms) => Ok(
            Some(Commit { hash, time_since_epoch_ms: #[verifier::truncate] (ms as u64) }),
        ),
        None => {
            let mut msg = String::from_str("Failed to parse git date '");
            msg.append(date_str.as_str());
            msg.append("'");
            Err(GitError::GitLogError(msg, capture_backtrace()))
        },
    }
}

/// Does block `i` of the split log keep its text, or lose a leading
/// `commit ` marker? Only the first block carries one, because the
/// separator that the log is split on ends with the marker.
pub open spec fn spec_block_at(blocks: Seq<Seq<char>>, i: int) -> Seq<char> {
    if i == 0 && spec_has_prefix(blocks[0], "commit "@) {
        blocks[0].subrange("commit "@.len() as int, blocks[0].len() as int)
    } else {
        blocks[i]
    }
}

/// Does this block make the gathering fail: a well-formed commit of the
/// expected author whose date does not parse?
pub open spec fn spec_block_errs(block: Seq<char>, u: Seq<char>, e: Seq<char>) -> bool {
    !spec_block_skips(block, u, e) && git_date_timestamp_ms(spec_block_date_str(block)) is None
}

/// The commits gathered from blocks `i..`: hash and date of every block
/// that is neither skipped nor failing.
pub open spec fn spec_log_commits(
    blocks: Seq<Seq<char>>,
    u: Seq<char>,
    e: Seq<char>,
    i: int,
) -> Seq<(Seq<char>, u64)>
    decreases blocks.len() - i,
{
    if i < 0 || i >= blocks.len() {
        Seq::empty()
    } else {
        let b = spec_block_at(blocks, i);
        (if spec_block_skips(b, u, e) {
            Seq::empty()
        } else {
            seq![
                (
                    spec_trim(spec_lines(b)[0]),
                    #[verifier::truncate] (git_date_timestamp_ms(spec_block_date_str(b))->0 as u64),
                ),
            ]
        }) + spec_log_commits(blocks, u, e, i + 1)
    }
}

/// The commit views of a gathered list.
pub open spec fn spec_commit_views(cs: Seq<Commit>) -> Seq<(Seq<char>, u64)> {
    Seq::new(cs.len(), |k: int| (cs[k].hash@, cs[k].time_since_epoch_ms))
}

/// Gathers the expected author's commits from raw `git log` output: the
/// text is trimmed, split into blocks on the line a new commit starts
/// with, and each block parsed; the first block whose date cannot be read
/// fails the whole gathering.
pub fn commits_from_git_log(text: &str, expected_username: &str, expected_email: &str) -> (r:
    Result<Vec<Commit>, GitError>)
    ensures
        spec_trim(text@).len() == 0 ==> (r matches Ok(cs) && cs@.len() == 0),
        spec_trim(text@).len() > 0 ==> ({
            let blocks = spec_split(spec_trim(text@), "\ncommit "@);
            if exists|j: int|
                0 <= j < blocks.len() && spec_block_errs(
                    #[trigger] spec_block_at(blocks, j),
                    expected_username@,
                    expected_email@,
                ) {
                r matches Err(err) && err is GitLogError
            } else {
                r matches Ok(cs) && spec_commit_views(cs@) == spec_log_commits(
                    blocks,
                    expected_username@,
                    expected_email@,
                    0,
                )
            }
        }),
{
    let trimmed = trim(text);
    if trimmed.as_str().unicode_len() == 0 {
        return Ok(Vec::new());
    }
    proof {
        reveal_strlit("\ncommit ");
    }
    let blocks = split_on(trimmed.as_str(), "\ncommit ");
    let ghost bdv = blocks.deep_view();
    let ghost u = expected_username@;
    let ghost e = expected_email@;
    let mut commits: Vec<Commit> = Vec::new();
    let mut i: usize = 0;
    proof {
        assert(spec_commit_views(commits@) =~= Seq::<(Seq<char>, u64)>::empty());
        assert(spec_commit_views(commits@) + spec_log_commits(bdv, u, e, 0) =~= spec_log_commits(
            bdv,
            u,
            e,
            0,
        ));
    }
    while i < blocks.len()
        invariant
            i <= blocks.len(),
            bdv == blocks.deep_view(),
            bdv.len() == blocks.len(),
            u == expected_username@,
            e == expected_email@,
            trimmed@ == spec_trim(text@),
            trimmed@.len() > 0,
            bdv == spec_split(spec_trim(text@), "\ncommit "@),
            forall|j: int| 0 <= j < i ==> !spec_block_errs(#[trigger] spec_block_at(bdv, j), u, e),
            spec_log_commits(bdv, u, e, 0) == spec_commit_views(commits@) + spec_log_commits(
                bdv,
                u,
                e,
                i as int,
            ),
        decreases blocks.len() - i,
    {
        proof {
            reveal_strlit("commit ");
            assert(bdv[i as int] == blocks@[i as int]@);
        }
        let raw = blocks[i].as_str();
        let block = if i == 0 && starts_with_str(raw, "commit ") {
            raw.substring_char(7, raw.unicode_len())
        } else {
            raw
        };
        proof {
            assert(block@ == spec_block_at(bdv, i as int));
        }
        let ghost before = spec_commit_views(commits@);
        match parse_commit_block(block, expected_username, expected_email) {
            Ok(Some(c)) => {
                commits.push(c);
                proof {
                    let b = spec_block_at(bdv, i as int);
                    assert(spec_commit_views(commits@) =~= before.push(
                        (spec_trim(spec_lines(b)[0]), #[verifier::truncate] (git_date_timestamp_ms(
                            spec_block_date_str(b),
                        )->0 as u64)),
                    ));
                    assert(before + (seq![
                        (
                            spec_trim(spec_lines(b)[0]),
                            #[verifier::truncate] (git_date_timestamp_ms(
                                spec_block_date_str(b),
                            )->0 as u64),
                        ),
                    ] + spec_log_commits(bdv, u, e, i + 1)) =~= spec_commit_views(commits@)
                        + spec_log_commits(bdv, u, e, i + 1));
                }
            },
            Ok(None) => {
                proof {
                    let b = spec_block_at(bdv, i as int);
                    assert(spec_block_skips(b, u, e));
                    assert(before + (Seq::<(Seq<char>, u64)>::empty() + spec_log_commits(
                        bdv,
                        u,
                        e,
                        i + 1,
                    )) =~= spec_commit_views(commits@) + spec_log_commits(bdv, u, e, i + 1));
                }
            },
            Err(err) => {
                proof {
                    assert(spec_block_errs(spec_block_at(bdv, i as int), u, e));
                    assert(spec_trim(text@).len() > 0);
                    assert(bdv == spec_split(spec_trim(text@), "\ncommit "@));
                    assert(exists|j: int|
                        0 <= j < spec_split(spec_trim(text@), "\ncommit "@).len()
                            && spec_block_errs(
                            #[trigger] spec_block_at(spec_split(spec_trim(text@), "\ncommit "@), j),
                            expected_username@,
                            expected_email@,
                        ));
                    assert(err is GitLogError);
                }
                return Err(err);
            },
        }
        i += 1;
    }
    proof {
        assert(spec_log_commits(bdv, u, e, bdv.len() as int) =~= Seq::<(Seq<char>, u64)>::empty());
        assert(spec_commit_views(commits@) + Seq::<(Seq<char>, u64)>::empty() =~= spec_commit_views(
            commits@,
        ));
    }
    Ok(commits)
}

} // verus!
