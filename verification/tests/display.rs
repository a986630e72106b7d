use gls::file::{keep_entry, File};
use gls::format::{format_file, format_files};
use gls::repo::Repo;
use gls::Args;

fn args(list: bool) -> Args {
    Args { path: None, all: false, list, sync: false }
}

fn plain(name: &str) -> File {
    File::new(format!("/tmp/{}", name), name.to_string(), false)
}

fn with_description(name: &str, description: Option<&str>) -> File {
    let mut file = File::new(format!("/tmp/{}", name), name.to_string(), true);
    file.repo = Some(match description {
        Some(d) => Repo::with_descripion(d.to_string()),
        None => Repo::local(),
    });
    file
}

#[test]
fn plain_entry_is_its_name() {
    assert_eq!(format_file(plain("notes.txt"), &args(false)), "notes.txt");
}

#[test]
fn plain_entry_gets_no_listing_suffix() {
    assert_eq!(format_file(plain("notes.txt"), &args(true)), "notes.txt");
}

#[test]
fn repository_line_shows_description() {
    let line = format_file(with_description("proj", Some("cool tool")), &args(true));
    assert!(line.contains("proj"));
    assert!(line.ends_with(", cool tool"));
}

#[test]
fn repository_without_description_shows_placeholder() {
    let line = format_file(with_description("proj", None), &args(true));
    assert!(line.contains("proj"));
    assert!(line.ends_with(", No description"));
}

#[test]
fn repository_line_without_list_has_no_suffix() {
    let line = format_file(with_description("proj", Some("cool tool")), &args(false));
    assert!(line.contains("proj"));
    assert!(!line.contains(","));
}

#[test]
fn directory_line_shows_its_name() {
    let dir = File::new("/tmp/sub".to_string(), "sub".to_string(), true);
    let line = format_file(dir, &args(false));
    assert!(line.contains("sub"));
}

#[test]
fn listing_keeps_order_and_length() {
    let files = vec![plain("one"), plain("two"), plain("three")];
    let lines = format_files(files, &args(false));
    assert_eq!(lines, vec!["one", "two", "three"]);
}

#[test]
fn error_entry_has_placeholder_name() {
    let file = File::new_error_file();
    assert!(file.name.contains("Unknown path"));
    assert!(file.repo.is_none());
    assert!(!file.is_hidden);
    assert!(!file.is_dir);
    assert_eq!(file.path, "");
}

#[test]
fn hidden_entries_are_detected_and_filtered() {
    let hidden = File::new("/tmp/.config".to_string(), ".config".to_string(), true);
    let shown = File::new("/tmp/data".to_string(), "data".to_string(), true);
    assert!(hidden.is_hidden);
    assert!(!shown.is_hidden);
    assert!(!keep_entry(&hidden, false));
    assert!(keep_entry(&hidden, true));
    assert!(keep_entry(&shown, false));
}

#[test]
fn identity_constructors_fill_their_fields() {
    let remote = Repo::from("github", "alice", "myrepo");
    assert!(remote.remote);
    assert_eq!(remote.provider, "github");
    assert_eq!(remote.user, "alice");
    assert_eq!(remote.repo, "myrepo");
    assert_eq!(remote.description, None);

    let local = Repo::local();
    assert!(!local.remote);
    assert_eq!(local.provider, "");
    assert_eq!(local.user, "");
    assert_eq!(local.repo, "");
    assert_eq!(local.description, None);

    let described = Repo::with_descripion("hello".to_string());
    assert!(!described.remote);
    assert_eq!(described.description, Some("hello".to_string()));
}
