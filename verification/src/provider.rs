//! The provider half of description synchronization: the metadata endpoint
//! address a remote identity's description is fetched from.

use vstd::prelude::*;
use vstd::string::{StrSliceExecFns, StringExecFns};

use crate::repo::{provider_github, Repo};

verus! {

broadcast use vstd::string::group_string_axioms;

/// The GitHub repository-metadata endpoint, up to the owner.
pub open spec fn github_api_prefix() -> Seq<char> {
    "https://api.github.com/repos/"@
}

/// The GitLab project-metadata endpoint, up to the owner.
pub open spec fn gitlab_api_prefix() -> Seq<char> {
    "https://gitlab.com/api/v4/projects/"@
}

/// The address a remote identity's description is fetched from: GitHub
/// takes `owner/name` as two path segments, GitLab a single segment
/// `owner%2Fname`, joined with a literal percent-encoded slash.
pub open spec fn spec_url(provider: Seq<char>, user: Seq<char>, name: Seq<char>) -> Seq<char> {
    if provider == provider_github() {
        github_api_prefix() + user + "/"@ + name
    } else {
        gitlab_api_prefix() + user + "%2F"@ + name
    }
}

/// Whether two texts are equal character for character.
pub fn str_eq(a: &str, b: &str) -> (r: bool)
    ensures
        r == (a@ == b@),
{
    let n = a.unicode_len();
    if n != b.unicode_len() {
        return false;
    }
    let mut i: usize = 0;
    while i < n
        invariant
            n == a@.len(),
            n == b@.len(),
            i <= n,
            forall|k: int| 0 <= k < i ==> a@[k] == b@[k],
        decreases n - i,
    {
        if a.get_char(i) != b.get_char(i) {
            return false;
        }
        i = i + 1;
    }
    proof {
        assert(a@ =~= b@);
    }
    true
}

/// The metadata address for a remote identity.  A well-formed remote
/// identity names GitHub or GitLab and nothing else, so the two branches
/// are exhaustive.
pub fn build_url(repo: &Repo) -> (u: String)
    requires
        repo.wf(),
        repo.remote,
    ensures
        u@ == spec_url(repo.provider@, repo.user@, repo.repo@),
{
    if str_eq(repo.provider.as_str(), "github") {
        let mut u = String::from_str("https://api.github.com/repos/");
        u.append(repo.user.as_str());
        u.append("/");
        u.append(repo.repo.as_str());
        u
    } else {
        let mut u = String::from_str("https://gitlab.com/api/v4/projects/");
        u.append(repo.user.as_str());
        u.append("%2F");
        u.append(repo.repo.as_str());
        u
    }
}

} // verus!
