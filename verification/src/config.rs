//! The on-disk configuration's data model and the decisions made on it: who
//! is logged in, which repositories feed the pet, and the pending challenge.
//! Reading and writing the file itself is the caller's concern.

use vstd::prelude::*;

use crate::paths::NormalisedGitPath;
use crate::pet::Challenge;
use crate::text::str_eq;

verus! {

/// The logged-in user.
#[derive(Clone, Debug)]
pub struct UserInfo {
    pub username: String,
    pub email: String,
    pub token: String,
}

/// The persisted configuration.
#[derive(Clone, Debug)]
pub struct Config {
    pub user: Option<UserInfo>,
    pub repos: Vec<String>,
    pub challenge: Option<Challenge>,
    pub last_update_check_time_ms: u128,
}

/// The repository strings kept when each is paired with the outcome of
/// normalising it: the ones whose outcome is a path.
pub open spec fn spec_kept_repos(
    repos: Seq<Seq<char>>,
    norm: Seq<Option<Seq<char>>>,
    i: int,
) -> Seq<Seq<char>>
    decreases repos.len() - i,
{
    if i < 0 || i >= repos.len() {
        Seq::empty()
    } else {
        (if norm[i] is Some {
            seq![repos[i]]
        } else {
            Seq::empty()
        }) + spec_kept_repos(repos, norm, i + 1)
    }
}

/// The normalised paths of the kept repositories, in order.
pub open spec fn spec_kept_paths(norm: Seq<Option<Seq<char>>>, i: int) -> Seq<Seq<char>>
    decreases norm.len() - i,
{
    if i < 0 || i >= norm.len() {
        Seq::empty()
    } else {
        (if norm[i] is Some {
            seq![norm[i]->0]
        } else {
            Seq::empty()
        }) + spec_kept_paths(norm, i + 1)
    }
}

impl Config {
    /// A configuration with nobody logged in and nothing registered.
    pub fn empty() -> (r: Self)
        ensures
            r.user is None,
            r.repos@.len() == 0,
            r.challenge is None,
            r.last_update_check_time_ms == 0,
    {
        Config { user: None, repos: Vec::new(), challenge: None, last_update_check_time_ms: 0 }
    }

    /// Keeps exactly the repositories whose normalisation succeeded — the
    /// caller supplies one outcome per registered repository — and returns
    /// their normalised paths; the caller persists the pruned list.
    pub fn get_valid_normalised_paths_and_save(&mut self, normalised: &Vec<Option<String>>) -> (r:
        Vec<NormalisedGitPath>)
        requires
            normalised@.len() == old(self).repos@.len(),
        ensures
            final(self).repos.deep_view() == spec_kept_repos(
                old(self).repos.deep_view(),
                normalised.deep_view(),
                0,
            ),
            r.deep_view() == spec_kept_paths(normalised.deep_view(), 0),
            final(self).user == old(self).user,
            final(self).challenge == old(self).challenge,
            final(self).last_update_check_time_ms == old(self).last_update_check_time_ms,
    {
        let ghost repos_dv = self.repos.deep_view();
        let ghost norm_dv = normalised.deep_view();
        let mut valid_repos: Vec<String> = Vec::new();
        let mut valid_paths: Vec<NormalisedGitPath> = Vec::new();
        let mut i: usize = 0;
        proof {
            assert(valid_repos.deep_view() + spec_kept_repos(repos_dv, norm_dv, 0)
                =~= spec_kept_repos(repos_dv, norm_dv, 0));
            assert(valid_paths.deep_view() + spec_kept_paths(norm_dv, 0) =~= spec_kept_paths(
                norm_dv,
                0,
            ));
        }
        while i < self.repos.len()
            invariant
                i <= self.repos.len(),
                repos_dv == self.repos.deep_view(),
                norm_dv == normalised.deep_view(),
                repos_dv.len() == self.repos.len(),
                norm_dv.len() == repos_dv.len(),
                spec_kept_repos(repos_dv, norm_dv, 0) == valid_repos.deep_view() + spec_kept_repos(
                    repos_dv,
                    norm_dv,
                    i as int,
                ),
                spec_kept_paths(norm_dv, 0) == valid_paths.deep_view() + spec_kept_paths(
                    norm_dv,
                    i as int,
                ),
            decreases self.repos.len() - i,
        {
            let ghost old_repos_out = valid_repos.deep_view();
            let ghost old_paths_out = valid_paths.deep_view();
            proof {
                assert(norm_dv[i as int] == normalised@[i as int].deep_view());
                assert(repos_dv[i as int] == self.repos@[i as int]@);
            }
            match &normalised[i] {
                Some(p) => {
                    valid_repos.push(self.repos[i].clone());
                    valid_paths.push(NormalisedGitPath::from_canonical(p.clone()));
                    proof {
                        assert(valid_repos.deep_view() =~= old_repos_out.push(repos_dv[i as int]));
                        assert(valid_paths.deep_view() =~= old_paths_out.push(norm_dv[i as int]->0));
                        assert(old_repos_out + (seq![repos_dv[i as int]] + spec_kept_repos(
                            repos_dv,
                            norm_dv,
                            i + 1,
                        )) =~= valid_repos.deep_view() + spec_kept_repos(repos_dv, norm_dv, i + 1));
                        assert(old_paths_out + (seq![norm_dv[i as int]->0] + spec_kept_paths(
                            norm_dv,
                            i + 1,
                        )) =~= valid_paths.deep_view() + spec_kept_paths(norm_dv, i + 1));
                    }
                },
                None => {
                    proof {
                        assert(old_repos_out + (Seq::<Seq<char>>::empty() + spec_kept_repos(
                            repos_dv,
                            norm_dv,
                            i + 1,
                        )) =~= valid_repos.deep_view() + spec_kept_repos(repos_dv, norm_dv, i + 1));
                        assert(old_paths_out + (Seq::<Seq<char>>::empty() + spec_kept_paths(
                            norm_dv,
                            i + 1,
                        )) =~= valid_paths.deep_view() + spec_kept_paths(norm_dv, i + 1));
                    }
                },
            }
            i += 1;
        }
        proof {
            assert(spec_kept_repos(repos_dv, norm_dv, repos_dv.len() as int) =~= Seq::<
                Seq<char>,
            >::empty());
            assert(spec_kept_paths(norm_dv, norm_dv.len() as int) =~= Seq::<Seq<char>>::empty());
            assert(valid_repos.deep_view() + Seq::<Seq<char>>::empty() =~= valid_repos.deep_view());
            assert(valid_paths.deep_view() + Seq::<Seq<char>>::empty() =~= valid_paths.deep_view());
        }
        self.repos = valid_repos;
        valid_paths
    }

    /// Registers a repository unless it is already registered; says whether
    /// it was added.
    pub fn add_repo(&mut self, path: String) -> (added: bool)
        ensures
            added == !old(self).repos.deep_view().contains(path@),
            added ==> final(self).repos.deep_view() == old(self).repos.deep_view().push(path@),
            !added ==> final(self).repos == old(self).repos,
            final(self).user == old(self).user,
            final(self).challenge == old(self).challenge,
            final(self).last_update_check_time_ms == old(self).last_update_check_time_ms,
    {
        let mut i: usize = 0;
        let ghost dv = self.repos.deep_view();
        while i < self.repos.len()
            invariant
                i <= self.repos.len(),
                dv == self.repos.deep_view(),
                dv.len() == self.repos.len(),
                forall|j: int| 0 <= j < i ==> dv[j] != path@,
            decreases self.repos.len() - i,
        {
            proof {
                assert(dv[i as int] == self.repos@[i as int]@);
            }
            if str_eq(self.repos[i].as_str(), path.as_str()) {
                proof {
                    assert(dv.contains(path@));
                }
                return false;
            }
            i += 1;
        }
        let ghost before = self.repos.deep_view();
        self.repos.push(path);
        proof {
            assert(!before.contains(path@));
            assert(self.repos.deep_view() =~= before.push(path@));
        }
        true
    }

    /// Unregisters the first occurrence of a repository; says whether one
    /// was there to remove.
    pub fn remove_repo(&mut self, path: &String) -> (removed: bool)
        ensures
            removed == old(self).repos.deep_view().contains(path@),
            removed ==> exists|k: int|
                {
                    &&& 0 <= k < old(self).repos.deep_view().len()
                    &&& old(self).repos.deep_view()[k] == path@
                    &&& (forall|j: int| 0 <= j < k ==> old(self).repos.deep_view()[j] != path@)
                    &&& final(self).repos@ == old(self).repos@.remove(k)
                },
            !removed ==> final(self).repos == old(self).repos,
            final(self).user == old(self).user,
            final(self).challenge == old(self).challenge,
            final(self).last_update_check_time_ms == old(self).last_update_check_time_ms,
    {
        let mut i: usize = 0;
        let ghost dv = self.repos.deep_view();
        while i < self.repos.len()
            invariant
                i <= self.repos.len(),
                *self == *old(self),
                dv == self.repos.deep_view(),
                dv.len() == self.repos.len(),
                forall|j: int| 0 <= j < i ==> dv[j] != path@,
            decreases self.repos.len() - i,
        {
            proof {
                assert(dv[i as int] == self.repos@[i as int]@);
            }
            if str_eq(self.repos[i].as_str(), path.as_str()) {
                self.repos.remove(i);
                proof {
                    assert(dv[i as int] == path@);
                    assert(dv.contains(path@));
                    assert(self.repos@ == old(self).repos@.remove(i as int));
                    assert({
                        &&& 0 <= (i as int) && (i as int) < old(self).repos.deep_view().len()
                        &&& old(self).repos.deep_view()[i as int] == path@
                        &&& (forall|j: int|
                            0 <= j < i as int ==> old(self).repos.deep_view()[j] != path@)
                        &&& self.repos@ == old(self).repos@.remove(i as int)
                    });
                }
                return true;
            }
            i += 1;
        }
        proof {
            assert forall|k: int| 0 <= k < dv.len() implies dv[k] != path@ by {}
            assert(!dv.contains(path@));
        }
        false
    }

    /// Records a fresh login.
    pub fn record_login(&mut self, username: String, email: String, token: String)
        ensures
            final(self).user == Some(UserInfo { username, email, token }),
            final(self).repos == old(self).repos,
            final(self).challenge == old(self).challenge,
            final(self).last_update_check_time_ms == old(self).last_update_check_time_ms,
    {
        self.user = Some(UserInfo { username, email, token });
    }

    /// Forgets the logged-in user.
    pub fn record_logout(&mut self)
        ensures
            final(self).user is None,
            final(self).repos == old(self).repos,
            final(self).challenge == old(self).challenge,
            final(self).last_update_check_time_ms == old(self).last_update_check_time_ms,
    {
        self.user = None;
    }
}

} // verus!
