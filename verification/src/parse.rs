//! Classification of a git config text into a repository identity, and the
//! reading of an entry's description file.
//!
//! The remote-URL pattern recognizes the two supported hosting providers,
//! `github.com` and `gitlab.com`, in SSH style (`host:owner/name`) or HTTPS
//! style (`host/owner/name`), with one trailing `.git` stripped from the
//! name.  When a config names several remotes the first occurrence of the
//! pattern wins; for remotes of different providers the result is therefore
//! order-dependent, and deliberately so.

use vstd::prelude::*;
use vstd::string::StrSliceExecFns;

use crate::file::File;
use crate::repo::{provider_github, provider_gitlab, Repo};

verus! {

broadcast use vstd::string::group_string_axioms;

/// The host text that marks a GitHub remote.
pub open spec fn github_host() -> Seq<char> {
    "github.com"@
}

/// The host text that marks a GitLab remote.
pub open spec fn gitlab_host() -> Seq<char> {
    "gitlab.com"@
}

/// The suffix stripped once from a remote repository name.
pub open spec fn git_suffix() -> Seq<char> {
    ".git"@
}

/// The placeholder git writes into the description file of a repository
/// whose description was never set.
pub open spec fn sentinel_text() -> Seq<char> {
    "Unnamed repository"@
}

/// Position `i` starts a recognized host name, followed by the separator
/// of an SSH-style (`:`) or HTTPS-style (`/`) remote URL.
pub open spec fn host_match_at(s: Seq<char>, i: int) -> bool {
    &&& 0 <= i
    &&& i + 11 <= s.len()
    &&& (s.subrange(i, i + 10) == github_host() || s.subrange(i, i + 10) == gitlab_host())
    &&& (s[i + 10] == ':' || s[i + 10] == '/')
}

/// The end of the line that position `i` lies on: the first newline at or
/// after `i`, or the end of the text.
pub open spec fn line_end_from(s: Seq<char>, i: int) -> int
    decreases s.len() - i when 0 <= i <= s.len()
{
    if i >= s.len() {
        s.len() as int
    } else if s[i] == '\n' {
        i
    } else {
        line_end_from(s, i + 1)
    }
}

/// A complete remote-URL occurrence: a recognized host at `i` and, later on
/// the same line, the slash that separates owner from name.
pub open spec fn occurrence_at(s: Seq<char>, i: int) -> bool {
    &&& host_match_at(s, i)
    &&& exists|k: int| i + 11 <= k < line_end_from(s, i + 11) && s[k] == '/'
}

/// Some position of the text starts a remote-URL occurrence.
pub open spec fn has_occurrence(s: Seq<char>) -> bool {
    exists|i: int| occurrence_at(s, i)
}

/// `i` is the first position of the text where the pattern matches.
pub open spec fn is_first_occurrence(s: Seq<char>, i: int) -> bool {
    occurrence_at(s, i) && (forall|j: int| 0 <= j < i ==> !occurrence_at(s, j))
}

/// `p` is the last slash in the range `[r, e)`.
pub open spec fn is_last_slash(s: Seq<char>, r: int, e: int, p: int) -> bool {
    &&& r <= p < e <= s.len()
    &&& s[p] == '/'
    &&& forall|q: int| p < q < e ==> s[q] != '/'
}

/// `s` ends with `suffix`.
pub open spec fn ends_with(s: Seq<char>, suffix: Seq<char>) -> bool {
    s.len() >= suffix.len() && s.subrange(s.len() - suffix.len(), s.len() as int) == suffix
}

/// The name with one trailing `.git` removed, if it carries one.
pub open spec fn strip_git(n: Seq<char>) -> Seq<char> {
    if ends_with(n, git_suffix()) {
        n.subrange(0, n.len() - git_suffix().len())
    } else {
        n
    }
}

/// The identity that a remote occurrence at `i` classifies to: the provider
/// is the first six characters of the host, the owner runs from after the
/// separator to the last slash of the line, and the name is the rest of the
/// line with one `.git` suffix stripped.
pub open spec fn remote_repo_from(s: Seq<char>, i: int, r: Repo) -> bool {
    let e = line_end_from(s, i + 11);
    &&& r.remote
    &&& r.description is None
    &&& r.provider@ == s.subrange(i, i + 6)
    &&& exists|p: int|
        #[trigger] is_last_slash(s, i + 11, e, p)
        && r.user@ == s.subrange(i + 11, p)
        && r.repo@ == strip_git(s.subrange(p + 1, e))
}

/// What classification says of a readable config text: a remote identity
/// taken from the first occurrence of the pattern, or a local identity when
/// the pattern matches nowhere.
pub open spec fn classify_matches(s: Seq<char>, r: Repo) -> bool {
    if has_occurrence(s) {
        exists|i: int| is_first_occurrence(s, i) && remote_repo_from(s, i, r)
    } else {
        &&& !r.remote
        &&& r.provider@ == Seq::<char>::empty()
        &&& r.user@ == Seq::<char>::empty()
        &&& r.repo@ == Seq::<char>::empty()
        &&& r.description is None
    }
}

/// `pat` occurs in `s` at position `i`.
pub open spec fn contains_at(s: Seq<char>, pat: Seq<char>, i: int) -> bool {
    0 <= i && i + pat.len() <= s.len() && s.subrange(i, i + pat.len()) == pat
}

/// `pat` occurs somewhere in `s`.
pub open spec fn contains_sub(s: Seq<char>, pat: Seq<char>) -> bool {
    exists|i: int| contains_at(s, pat, i)
}

proof fn lemma_host_chars(s: Seq<char>, i: int)
    requires
        0 <= i,
        i + 10 <= s.len(),
    ensures
        (s.subrange(i, i + 10) == github_host()) <==> (s[i] == 'g' && s[i + 1] == 'i' && s[i + 2]
            == 't' && s[i + 3] == 'h' && s[i + 4] == 'u' && s[i + 5] == 'b' && s[i + 6] == '.' && s[
            i + 7] == 'c' && s[i + 8] == 'o' && s[i + 9] == 'm'),
        (s.subrange(i, i + 10) == gitlab_host()) <==> (s[i] == 'g' && s[i + 1] == 'i' && s[i + 2]
            == 't' && s[i + 3] == 'l' && s[i + 4] == 'a' && s[i + 5] == 'b' && s[i + 6] == '.' && s[
            i + 7] == 'c' && s[i + 8] == 'o' && s[i + 9] == 'm'),
{
    reveal_strlit("github.com");
    reveal_strlit("gitlab.com");
    let sub = s.subrange(i, i + 10);
    assert(sub[0] == s[i] && sub[1] == s[i + 1] && sub[2] == s[i + 2] && sub[3] == s[i + 3]
        && sub[4] == s[i + 4] && sub[5] == s[i + 5] && sub[6] == s[i + 6] && sub[7] == s[i + 7]
        && sub[8] == s[i + 8] && sub[9] == s[i + 9]);
    if s[i] == 'g' && s[i + 1] == 'i' && s[i + 2] == 't' && s[i + 3] == 'h' && s[i + 4] == 'u' && s[
        i + 5] == 'b' && s[i + 6] == '.' && s[i + 7] == 'c' && s[i + 8] == 'o' && s[i + 9] == 'm' {
        assert(sub =~= github_host());
    }
    if s[i] == 'g' && s[i + 1] == 'i' && s[i + 2] == 't' && s[i + 3] == 'l' && s[i + 4] == 'a' && s[
        i + 5] == 'b' && s[i + 6] == '.' && s[i + 7] == 'c' && s[i + 8] == 'o' && s[i + 9] == 'm' {
        assert(sub =~= gitlab_host());
    }
}

proof fn lemma_provider_of_host(s: Seq<char>, i: int)
    requires
        0 <= i,
        i + 10 <= s.len(),
    ensures
        s.subrange(i, i + 10) == github_host() ==> s.subrange(i, i + 6) == provider_github(),
        s.subrange(i, i + 10) == gitlab_host() ==> s.subrange(i, i + 6) == provider_gitlab(),
{
    reveal_strlit("github");
    reveal_strlit("gitlab");
    lemma_host_chars(s, i);
    let sub = s.subrange(i, i + 6);
    assert(sub[0] == s[i] && sub[1] == s[i + 1] && sub[2] == s[i + 2] && sub[3] == s[i + 3]
        && sub[4] == s[i + 4] && sub[5] == s[i + 5]);
    if s.subrange(i, i + 10) == github_host() {
        assert(sub =~= provider_github());
    }
    if s.subrange(i, i + 10) == gitlab_host() {
        assert(sub =~= provider_gitlab());
    }
}

proof fn lemma_git_suffix_chars(n: Seq<char>)
    requires
        n.len() >= 4,
    ensures
        git_suffix().len() == 4,
        ends_with(n, git_suffix()) <==> (n[n.len() - 4] == '.' && n[n.len() - 3] == 'g' && n[n.len()
            - 2] == 'i' && n[n.len() - 1] == 't'),
{
    reveal_strlit(".git");
    let sub = n.subrange(n.len() - 4, n.len() as int);
    assert(sub[0] == n[n.len() - 4] && sub[1] == n[n.len() - 3] && sub[2] == n[n.len() - 2]
        && sub[3] == n[n.len() - 1]);
    if n[n.len() - 4] == '.' && n[n.len() - 3] == 'g' && n[n.len() - 2] == 'i' && n[n.len() - 1]
        == 't' {
        assert(sub =~= git_suffix());
    }
}

/// The first position where the pattern matches is the only one.
pub proof fn lemma_first_occurrence_unique(s: Seq<char>, i1: int, i2: int)
    requires
        is_first_occurrence(s, i1),
        is_first_occurrence(s, i2),
    ensures
        i1 == i2,
{
    if i1 < i2 {
        assert(!occurrence_at(s, i1));
    }
    if i2 < i1 {
        assert(!occurrence_at(s, i2));
    }
}

/// The last slash of a range is the only one.
pub proof fn lemma_last_slash_unique(s: Seq<char>, r: int, e: int, p1: int, p2: int)
    requires
        is_last_slash(s, r, e, p1),
        is_last_slash(s, r, e, p2),
    ensures
        p1 == p2,
{
    if p1 < p2 {
        assert(s[p2] != '/');
    }
    if p2 < p1 {
        assert(s[p1] != '/');
    }
}

fn host_check(s: &str, i: usize, n: usize) -> (b: bool)
    requires
        n == s@.len(),
    ensures
        b == host_match_at(s@, i as int),
{
    if n < 11 || i > n - 11 {
        return false;
    }
    let c0 = s.get_char(i);
    let c1 = s.get_char(i + 1);
    let c2 = s.get_char(i + 2);
    let c3 = s.get_char(i + 3);
    let c4 = s.get_char(i + 4);
    let c5 = s.get_char(i + 5);
    let c6 = s.get_char(i + 6);
    let c7 = s.get_char(i + 7);
    let c8 = s.get_char(i + 8);
    let c9 = s.get_char(i + 9);
    let c10 = s.get_char(i + 10);
    let host_ok = c0 == 'g' && c1 == 'i' && c2 == 't' && ((c3 == 'h' && c4 == 'u' && c5 == 'b') || (
    c3 == 'l' && c4 == 'a' && c5 == 'b')) && c6 == '.' && c7 == 'c' && c8 == 'o' && c9 == 'm';
    proof {
        lemma_host_chars(s@, i as int);
    }
    host_ok && (c10 == ':' || c10 == '/')
}

fn find_line_end(s: &str, from: usize, n: usize) -> (e: usize)
    requires
        n == s@.len(),
        from <= n,
    ensures
        from <= e <= n,
        e == line_end_from(s@, from as int),
{
    let mut j = from;
    while j < n && s.get_char(j) != '\n'
        invariant
            from <= j <= n,
            n == s@.len(),
            line_end_from(s@, from as int) == line_end_from(s@, j as int),
        decreases n - j,
    {
        j = j + 1;
    }
    j
}

fn find_last_slash(s: &str, r: usize, e: usize) -> (res: Option<usize>)
    requires
        r <= e <= s@.len(),
    ensures
        match res {
            Some(p) => is_last_slash(s@, r as int, e as int, p as int),
            None => forall|k: int| r <= k < e ==> s@[k] != '/',
        },
{
    let mut j = r;
    let mut last: Option<usize> = None;
    while j < e
        invariant
            r <= j <= e <= s@.len(),
            match last {
                Some(p) => r <= p < j && s@[p as int] == '/' && (forall|q: int|
                    p < q < j ==> s@[q] != '/'),
                None => forall|k: int| r <= k < j ==> s@[k] != '/',
            },
        decreases e - j,
    {
        if s.get_char(j) == '/' {
            last = Some(j);
        }
        j = j + 1;
    }
    last
}

fn check_occurrence(s: &str, i: usize, n: usize) -> (res: Option<(usize, usize)>)
    requires
        n == s@.len(),
    ensures
        match res {
            Some(ep) => {
                &&& host_match_at(s@, i as int)
                &&& ep.0 == line_end_from(s@, i as int + 11)
                &&& is_last_slash(s@, i as int + 11, ep.0 as int, ep.1 as int)
                &&& occurrence_at(s@, i as int)
            },
            None => !occurrence_at(s@, i as int),
        },
{
    if !host_check(s, i, n) {
        return None;
    }
    let e = find_line_end(s, i + 11, n);
    match find_last_slash(s, i + 11, e) {
        Some(p) => Some((e, p)),
        None => None,
    }
}

/// Parse a readable config text into a repository identity: the first
/// occurrence of the remote pattern decides the provider, owner and name,
/// and a text with no occurrence yields the local identity.
pub fn classify(config: &str) -> (r: Repo)
    ensures
        r.wf(),
        classify_matches(config@, r),
{
    let n = config.unicode_len();
    let mut i: usize = 0;
    while i < n
        invariant
            n == config@.len(),
            i <= n,
            forall|j: int| 0 <= j < i ==> !occurrence_at(config@, j),
        decreases n - i,
    {
        match check_occurrence(config, i, n) {
            Some(ep) => {
                let (e, p) = ep;
                let provider = config.substring_char(i, i + 6);
                let user = config.substring_char(i + 11, p);
                let name_raw = config.substring_char(p + 1, e);
                let name = strip_git_suffix(name_raw);
                let result = Repo::from(provider, user, name);
                proof {
                    let s = config@;
                    let ii = i as int;
                    lemma_provider_of_host(s, ii);
                    assert(is_first_occurrence(s, ii));
                    assert(is_last_slash(s, ii + 11, e as int, p as int) && result.user@
                        == s.subrange(ii + 11, p as int) && result.repo@ == strip_git(
                        s.subrange(p as int + 1, e as int)));
                    assert(remote_repo_from(s, ii, result));
                    assert(has_occurrence(s));
                }
                return result;
            },
            None => {
                i = i + 1;
            },
        }
    }
    proof {
        assert(forall|j: int| !occurrence_at(config@, j)) by {
            assert(forall|j: int| j < 0 || j >= n ==> !occurrence_at(config@, j));
            assert(forall|j: int| 0 <= j < n ==> !occurrence_at(config@, j));
        }
        assert(!has_occurrence(config@));
    }
    Repo::local()
}

/// Remove one trailing `.git` from a name, when it carries one.
fn strip_git_suffix(name: &str) -> (r: &str)
    ensures
        r@ == strip_git(name@),
{
    let n = name.unicode_len();
    if n >= 4 {
        proof {
            lemma_git_suffix_chars(name@);
        }
        let c0 = name.get_char(n - 4);
        let c1 = name.get_char(n - 3);
        let c2 = name.get_char(n - 2);
        let c3 = name.get_char(n - 1);
        if c0 == '.' && c1 == 'g' && c2 == 'i' && c3 == 't' {
            return name.substring_char(0, n - 4);
        }
        name
    } else {
        proof {
            reveal_strlit(".git");
        }
        name
    }
}

/// `pat` occurs in `s` starting at `i`.
fn match_at(s: &str, pat: &str, i: usize, n: usize, m: usize) -> (b: bool)
    requires
        n == s@.len(),
        m == pat@.len(),
        i + m <= n,
    ensures
        b == contains_at(s@, pat@, i as int),
{
    let mut k: usize = 0;
    while k < m
        invariant
            n == s@.len(),
            m == pat@.len(),
            i + m <= n,
            k <= m,
            forall|t: int| 0 <= t < k ==> s@[i + t] == pat@[t],
        decreases m - k,
    {
        if s.get_char(i + k) != pat.get_char(k) {
            proof {
                assert(s@.subrange(i as int, i as int + m as int)[k as int] == s@[i as int
                    + k as int]);
            }
            return false;
        }
        k = k + 1;
    }
    proof {
        assert(s@.subrange(i as int, i as int + m as int) =~= pat@);
    }
    true
}

/// Whether `pat` occurs anywhere in `s`.
pub fn contains_str(s: &str, pat: &str) -> (b: bool)
    ensures
        b == contains_sub(s@, pat@),
{
    let n = s.unicode_len();
    let m = pat.unicode_len();
    if m > n {
        return false;
    }
    if m == 0 {
        proof {
            assert(s@.subrange(0, 0) =~= pat@);
            assert(contains_at(s@, pat@, 0));
        }
        return true;
    }
    let mut i: usize = 0;
    while i <= n - m
        invariant
            n == s@.len(),
            m == pat@.len(),
            0 < m <= n,
            i <= n - m + 1,
            forall|j: int| 0 <= j < i ==> !contains_at(s@, pat@, j),
        decreases n - i,
    {
        if match_at(s, pat, i, n, m) {
            return true;
        }
        i = i + 1;
    }
    false
}

/// How classification records a config read: an unreadable config is no
/// repository at all, and a readable one is classified by `classify`.
pub open spec fn repo_for_config(config: Option<String>, repo: Option<Repo>) -> bool {
    match config {
        None => repo is None,
        Some(c) => match repo {
            Some(rep) => rep.wf() && classify_matches(c@, rep),
            None => false,
        },
    }
}

/// Assign an entry the identity its config text classifies to.  A missing
/// or unreadable config (`None`) marks the entry as no repository.
pub fn parse_config(file: File, config: Option<String>) -> (r: File)
    ensures
        r.wf(),
        r.path == file.path,
        r.name == file.name,
        r.is_hidden == file.is_hidden,
        r.is_dir == file.is_dir,
        repo_for_config(config, r.repo),
{
    let mut f = file;
    f.repo = match config {
        Some(conf) => Some(classify(conf.as_str())),
        None => None,
    };
    f
}

/// How a listing's description read changes an entry's identity: the
/// classified identity is kept field for field, and only its description
/// is populated from what the read returned — the text verbatim, with the
/// sentinel and every unreadable file collapsed to none.  An entry that is
/// no repository has nowhere to put a description and stays one.
pub open spec fn repo_for_description(
    before: Option<Repo>,
    description: Option<String>,
    after: Option<Repo>,
) -> bool {
    match before {
        None => after is None,
        Some(r0) => match after {
            Some(r1) => {
                &&& r1.remote == r0.remote
                &&& r1.provider == r0.provider
                &&& r1.user == r0.user
                &&& r1.repo == r0.repo
                &&& r1.description == local_description_of(description)
            },
            None => false,
        },
    }
}

/// Populate an entry's description from its description file when a
/// listing is asked for, keeping the classified identity as it is; without
/// `list` the entry is returned unchanged.
pub fn parse_description(file: File, list: bool, description: Option<String>) -> (r: File)
    ensures
        r.path == file.path,
        r.name == file.name,
        r.is_hidden == file.is_hidden,
        r.is_dir == file.is_dir,
        !list ==> r == file,
        list ==> repo_for_description(file.repo, description, r.repo),
        file.wf() ==> r.wf(),
{
    if !list {
        return file;
    }
    let File { path, repo, is_hidden, name, is_dir } = file;
    let repo = match repo {
        Some(r0) => {
            let mut r1 = r0;
            r1.description = read_local_description(description);
            Some(r1)
        },
        None => None,
    };
    File { path, repo, is_hidden, name, is_dir }
}

/// The local half of the description store: the text read from an entry's
/// description file, with git's placeholder for an unset description
/// collapsed to `None`.  An absent or unreadable file is handed in as
/// `None` and stays `None`.
pub open spec fn local_description_of(content: Option<String>) -> Option<String> {
    match content {
        Some(d) => if contains_sub(d@, sentinel_text()) {
            None
        } else {
            Some(d)
        },
        None => None,
    }
}

/// Read a description file's content: the sentinel collapses to `None`,
/// any other text is returned verbatim.
pub fn read_local_description(content: Option<String>) -> (r: Option<String>)
    ensures
        r == local_description_of(content),
{
    match content {
        Some(d) => {
            if contains_str(d.as_str(), "Unnamed repository") {
                None
            } else {
                Some(d)
            }
        },
        None => None,
    }
}

/// Writing a description and reading it back yields it verbatim: the
/// description store applies no transformation to any text that is not the
/// placeholder sentinel.
pub proof fn lemma_description_round_trip(text: String)
    requires
        !contains_sub(text@, sentinel_text()),
    ensures
        local_description_of(Some(text)) == Some(text),
{
}

/// A config text in which the remote pattern matches nowhere classifies to
/// a local identity: still a repository, but with no remote.
pub proof fn lemma_no_remote_is_local(s: Seq<char>, r: Repo)
    requires
        classify_matches(s, r),
        !has_occurrence(s),
    ensures
        !r.remote,
        r.provider@ == Seq::<char>::empty(),
        r.user@ == Seq::<char>::empty(),
        r.repo@ == Seq::<char>::empty(),
        r.description is None,
{
}

/// A config whose first remote occurrence is GitHub-hosted classifies to a
/// remote GitHub identity whose owner and name come verbatim from the URL,
/// with the name's single `.git` suffix stripped.  Names that still end in
/// `.git` after one strip (a raw name ending `.git.git`) are left out.
pub proof fn lemma_github_classification(s: Seq<char>, r: Repo, i: int, p: int)
    requires
        classify_matches(s, r),
        is_first_occurrence(s, i),
        s.subrange(i, i + 10) == github_host(),
        is_last_slash(s, i + 11, line_end_from(s, i + 11), p),
        ends_with(s.subrange(p + 1, line_end_from(s, i + 11)), git_suffix()) ==> !ends_with(
            s.subrange(p + 1, line_end_from(s, i + 11)).subrange(
                0,
                s.subrange(p + 1, line_end_from(s, i + 11)).len() - 4,
            ),
            git_suffix(),
        ),
    ensures
        r.remote,
        r.provider@ == provider_github(),
        r.user@ == s.subrange(i + 11, p),
        r.repo@ == strip_git(s.subrange(p + 1, line_end_from(s, i + 11))),
        !ends_with(r.repo@, git_suffix()),
{
    assert(has_occurrence(s));
    let i2 = choose|i2: int| is_first_occurrence(s, i2) && remote_repo_from(s, i2, r);
    lemma_first_occurrence_unique(s, i, i2);
    let e = line_end_from(s, i + 11);
    let p2 = choose|p2: int|
        #[trigger] is_last_slash(s, i + 11, e, p2) && r.user@ == s.subrange(i + 11, p2) && r.repo@
            == strip_git(s.subrange(p2 + 1, e));
    lemma_last_slash_unique(s, i + 11, e, p, p2);
    lemma_provider_of_host(s, i);
    let nm = s.subrange(p + 1, e);
    reveal_strlit(".git");
    if ends_with(nm, git_suffix()) {
        assert(r.repo@ == nm.subrange(0, nm.len() - 4));
    } else {
        assert(r.repo@ == nm);
    }
}

} // verus!

