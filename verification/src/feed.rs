//! The feed payload's repository keys: each registered repository is keyed
//! by the lowercase hex SHA-256 digest of its canonical path.

use vstd::prelude::*;

use sha2::Digest;

use crate::text::push_char;

verus! {

/// The SHA-256 digest of the UTF-8 bytes of a string; a fixed function of
/// the string alone, named rather than spelled out.
pub uninterp spec fn sha256_of(s: Seq<char>) -> Seq<u8>;

/// Relies on sha2's `Sha256::digest`: the SHA-256 digest of the string's
/// bytes, 32 bytes long.
#[verifier::external_body]
fn sha256_digest(s: &String) -> (r: Vec<u8>)
    ensures
        r@ == sha256_of(s@),
        r@.len() == 32,
{
    sha2::Sha256::digest(s.as_bytes()).to_vec()
}

/// The lowercase hex digit for a value below sixteen.
pub open spec fn spec_hex_char(d: int) -> char
    recommends
        0 <= d < 16,
{
    if d < 10 {
        (('0' as u8) + d) as char
    } else {
        (('a' as u8) + (d - 10)) as char
    }
}

/// The lowercase hex rendering of a byte string, two digits per byte.
pub open spec fn spec_bytes_hex(bs: Seq<u8>) -> Seq<char> {
    Seq::new(
        2 * bs.len(),
        |i: int|
            if i % 2 == 0 {
                spec_hex_char(bs[i / 2] as int / 16)
            } else {
                spec_hex_char(bs[i / 2] as int % 16)
            },
    )
}

/// Renders bytes as lowercase hex.
pub fn bytes_to_lower_hex(bytes: &Vec<u8>) -> (r: String)
    ensures
        r@ == spec_bytes_hex(bytes@),
{
    let mut s = String::new();
    let mut i: usize = 0;
    while i < bytes.len()
        invariant
            i <= bytes.len(),
            s@.len() == 2 * i,
            forall|k: int| 0 <= k < 2 * i ==> s@[k] == spec_bytes_hex(bytes@)[k],
        decreases bytes.len() - i,
    {
        let b = bytes[i];
        let hi = b / 16;
        let lo = b % 16;
        let hc = if hi < 10 {
            (('0' as u8) + hi) as char
        } else {
            (('a' as u8) + (hi - 10)) as char
        };
        let lc = if lo < 10 {
            (('0' as u8) + lo) as char
        } else {
            (('a' as u8) + (lo - 10)) as char
        };
        push_char(&mut s, hc);
        push_char(&mut s, lc);
        proof {
            assert(spec_bytes_hex(bytes@)[2 * i as int] == spec_hex_char(b as int / 16));
            assert(spec_bytes_hex(bytes@)[2 * i as int + 1] == spec_hex_char(b as int % 16));
        }
        i += 1;
    }
    proof {
        assert(s@ =~= spec_bytes_hex(bytes@));
    }
    s
}

/// The key of a repository in the feed payload.
pub open spec fn spec_repo_key(repo: Seq<char>) -> Seq<char> {
    spec_bytes_hex(sha256_of(repo))
}

/// The feed-payload key of each repository path, in order.
pub fn feed_repo_keys(repos: &Vec<String>) -> (r: Vec<String>)
    ensures
        r.deep_view().len() == repos.deep_view().len(),
        forall|i: int|
            0 <= i < repos.deep_view().len() ==> #[trigger] r.deep_view()[i] == spec_repo_key(
                repos.deep_view()[i],
            ),
{
    let mut out: Vec<String> = Vec::new();
    let mut i: usize = 0;
    while i < repos.len()
        invariant
            i <= repos.len(),
            repos.deep_view().len() == repos.len(),
            out.deep_view().len() == i,
            forall|k: int|
                0 <= k < i ==> #[trigger] out.deep_view()[k] == spec_repo_key(
                    repos.deep_view()[k],
                ),
        decreases repos.len() - i,
    {
        proof {
            assert(repos.deep_view()[i as int] == repos@[i as int]@);
        }
        let digest = sha256_digest(&repos[i]);
        let key = bytes_to_lower_hex(&digest);
        let ghost before = out.deep_view();
        out.push(key);
        proof {
            assert(out.deep_view() =~= before.push(spec_repo_key(repos.deep_view()[i as int])));
        }
        i += 1;
    }
    out
}

} // verus!
