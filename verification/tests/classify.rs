use gls::file::File;
use gls::parse::{classify, contains_str, parse_config};

fn entry(name: &str) -> File {
    File::new(format!("/tmp/{}", name), name.to_string(), true)
}

#[test]
fn github_ssh_url_is_classified() {
    let config = "[core]\n\trepositoryformatversion = 0\n[remote \"origin\"]\n\turl = git@github.com:alice/myrepo.git\n\tfetch = +refs/heads/*:refs/remotes/origin/*\n";
    let repo = classify(config);
    assert!(repo.remote);
    assert_eq!(repo.provider, "github");
    assert_eq!(repo.user, "alice");
    assert_eq!(repo.repo, "myrepo");
    assert!(repo.description.is_none());
}

#[test]
fn github_https_url_is_classified() {
    let config = "[remote \"origin\"]\n\turl = https://github.com/alice/myrepo.git\n";
    let repo = classify(config);
    assert!(repo.remote);
    assert_eq!(repo.provider, "github");
    assert_eq!(repo.user, "alice");
    assert_eq!(repo.repo, "myrepo");
}

#[test]
fn gitlab_ssh_url_is_classified() {
    let config = "[remote \"origin\"]\n\turl = git@gitlab.com:bob/tool\n";
    let repo = classify(config);
    assert!(repo.remote);
    assert_eq!(repo.provider, "gitlab");
    assert_eq!(repo.user, "bob");
    assert_eq!(repo.repo, "tool");
}

#[test]
fn config_without_remote_is_local() {
    let config = "[core]\n\trepositoryformatversion = 0\n\tfilemode = true\n";
    let repo = classify(config);
    assert!(!repo.remote);
    assert_eq!(repo.provider, "");
    assert_eq!(repo.user, "");
    assert_eq!(repo.repo, "");
    assert!(repo.description.is_none());
}

#[test]
fn empty_config_is_local() {
    let repo = classify("");
    assert!(!repo.remote);
}

#[test]
fn first_occurrence_wins() {
    let config = "url = git@gitlab.com:first/one\nurl = git@github.com:second/two\n";
    let repo = classify(config);
    assert_eq!(repo.provider, "gitlab");
    assert_eq!(repo.user, "first");
    assert_eq!(repo.repo, "one");
}

#[test]
fn host_without_owner_slash_is_skipped() {
    let config = "github.com: nothing here\nurl = git@gitlab.com:a/b\n";
    let repo = classify(config);
    assert_eq!(repo.provider, "gitlab");
    assert_eq!(repo.user, "a");
    assert_eq!(repo.repo, "b");
}

#[test]
fn owner_keeps_extra_path_segments() {
    let config = "url = https://github.com/alice/nested/tool\n";
    let repo = classify(config);
    assert_eq!(repo.user, "alice/nested");
    assert_eq!(repo.repo, "tool");
}

#[test]
fn git_suffix_is_stripped_once() {
    let repo = classify("url = git@github.com:alice/odd.git.git\n");
    assert_eq!(repo.repo, "odd.git");
}

#[test]
fn unreadable_config_is_no_repository() {
    let file = parse_config(entry("a"), None);
    assert!(file.repo.is_none());
}

#[test]
fn readable_config_yields_identity() {
    let file = parse_config(entry("a"), Some("url = git@github.com:x/y\n".to_string()));
    let repo = file.repo.expect("a readable config always yields an identity");
    assert!(repo.remote);
    assert_eq!(repo.user, "x");
    assert_eq!(repo.repo, "y");
}

#[test]
fn contains_str_finds_patterns() {
    assert!(contains_str("Unnamed repository; edit this file", "Unnamed repository"));
    assert!(!contains_str("a fine description", "Unnamed repository"));
    assert!(contains_str("abc", ""));
    assert!(!contains_str("ab", "abc"));
}
