use gls::provider::{build_url, str_eq};
use gls::repo::Repo;

#[test]
fn github_metadata_address() {
    let repo = Repo::from("github", "alice", "myrepo");
    let url = build_url(&repo);
    assert_eq!(url, "https://api.github.com/repos/alice/myrepo");
}

#[test]
fn gitlab_metadata_address_joins_with_encoded_slash() {
    let repo = Repo::from("gitlab", "bob", "tool");
    let url = build_url(&repo);
    assert_eq!(url, "https://gitlab.com/api/v4/projects/bob%2Ftool");
}

#[test]
fn str_eq_compares_characters() {
    assert!(str_eq("abc", "abc"));
    assert!(!str_eq("abc", "abd"));
    assert!(!str_eq("abc", "ab"));
    assert!(str_eq("", ""));
}
