//! The classified identity of a git working copy: local only, or linked to
//! one of the two recognized remote hosting providers.

use vstd::prelude::*;
use vstd::string::StringExecFns;

verus! {

/// The provider name a remote identity carries when its configuration names
/// a GitHub origin.
pub open spec fn provider_github() -> Seq<char> {
    "github"@
}

/// The provider name a remote identity carries when its configuration names
/// a GitLab origin.
pub open spec fn provider_gitlab() -> Seq<char> {
    "gitlab"@
}

/// A repository identity.  `remote` says whether the working copy's
/// configuration names a recognized hosting provider; `provider`, `user`
/// and `repo` are filled exactly in that case.  `description` is populated
/// only after a successful local read or remote fetch.
#[derive(Debug, Clone, PartialEq)]
pub struct Repo {
    pub remote: bool,
    pub provider: String,
    pub user: String,
    pub repo: String,
    pub description: Option<String>,
}

impl Repo {
    /// A remote identity names one of the two recognized providers; a local
    /// identity carries no provider, owner or name.
    pub open spec fn wf(self) -> bool {
        if self.remote {
            self.provider@ == provider_github() || self.provider@ == provider_gitlab()
        } else {
            &&& self.provider@ == Seq::<char>::empty()
            &&& self.user@ == Seq::<char>::empty()
            &&& self.repo@ == Seq::<char>::empty()
        }
    }

    /// A remote identity, before any description is known.
    pub fn from(provider: &str, user: &str, repo: &str) -> (r: Self)
        ensures
            r.remote,
            r.provider@ == provider@,
            r.user@ == user@,
            r.repo@ == repo@,
            r.description is None,
    {
        Self {
            remote: true,
            provider: String::from_str(provider),
            user: String::from_str(user),
            repo: String::from_str(repo),
            description: None,
        }
    }

    /// A working copy with no recognized remote.
    pub fn local() -> (r: Self)
        ensures
            r.wf(),
            !r.remote,
            r.provider@ == Seq::<char>::empty(),
            r.user@ == Seq::<char>::empty(),
            r.repo@ == Seq::<char>::empty(),
            r.description is None,
    {
        Self {
            remote: false,
            provider: String::new(),
            user: String::new(),
            repo: String::new(),
            description: None,
        }
    }

    /// A local identity that already carries a description.
    pub fn with_descripion(description: String) -> (r: Self)
        ensures
            r.wf(),
            !r.remote,
            r.provider@ == Seq::<char>::empty(),
            r.user@ == Seq::<char>::empty(),
            r.repo@ == Seq::<char>::empty(),
            r.description == Some(description),
    {
        let mut local = Self::local();
        local.description = Some(description);
        local
    }
}

} // verus!
