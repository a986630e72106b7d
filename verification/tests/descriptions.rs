use gls::file::File;
use gls::parse::{parse_description, read_local_description};
use gls::repo::Repo;

fn plain_entry() -> File {
    File::new("/tmp/x".to_string(), "x".to_string(), true)
}

fn remote_entry() -> File {
    let mut file = plain_entry();
    file.repo = Some(Repo::from("github", "alice", "myrepo"));
    file
}

#[test]
fn plain_text_reads_back_verbatim() {
    let read = read_local_description(Some("hello".to_string()));
    assert_eq!(read, Some("hello".to_string()));
}

#[test]
fn sentinel_reads_as_no_description() {
    let content = "Unnamed repository; edit this file 'description' to name the repository.\n";
    assert_eq!(read_local_description(Some(content.to_string())), None);
}

#[test]
fn unreadable_file_reads_as_none() {
    assert_eq!(read_local_description(None), None);
}

#[test]
fn without_list_the_entry_is_unchanged() {
    let file = parse_description(remote_entry(), false, Some("hello".to_string()));
    let repo = file.repo.expect("the classified identity is kept");
    assert_eq!(repo.description, None);
}

#[test]
fn listed_description_populates_only_the_description() {
    let file = parse_description(remote_entry(), true, Some("hello".to_string()));
    let repo = file.repo.expect("the classified identity is kept");
    assert!(repo.remote);
    assert_eq!(repo.provider, "github");
    assert_eq!(repo.user, "alice");
    assert_eq!(repo.repo, "myrepo");
    assert_eq!(repo.description, Some("hello".to_string()));
}

#[test]
fn listed_sentinel_leaves_description_unset() {
    let content = "Unnamed repository; edit this file to name it.";
    let file = parse_description(remote_entry(), true, Some(content.to_string()));
    let repo = file.repo.expect("the classified identity is kept");
    assert!(repo.remote);
    assert_eq!(repo.user, "alice");
    assert_eq!(repo.description, None);
}

#[test]
fn listed_unreadable_description_keeps_the_identity() {
    let mut before = plain_entry();
    before.repo = Some(Repo::local());
    let file = parse_description(before, true, None);
    let repo = file.repo.expect("the classified identity is kept");
    assert!(!repo.remote);
    assert_eq!(repo.description, None);
}

#[test]
fn listed_non_repository_stays_one() {
    let file = parse_description(plain_entry(), true, Some("hello".to_string()));
    assert!(file.repo.is_none());
}
