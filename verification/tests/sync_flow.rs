use gls::file::File;
use gls::repo::Repo;
use gls::sync::{
    after_fetch, failure_notice, sync_plan, unit_outcome, Batch, FailureKind, FetchEvent,
    StoreEvent, StorePlan, SyncCommand, SyncOutcome,
};

fn remote_entry(name: &str, user: &str, repo: &str) -> File {
    let mut file = File::new(format!("/tmp/{}", name), name.to_string(), true);
    file.repo = Some(Repo::from("github", user, repo));
    file
}

fn local_entry(name: &str) -> File {
    let mut file = File::new(format!("/tmp/{}", name), name.to_string(), true);
    file.repo = Some(Repo::local());
    file
}

#[test]
fn plan_for_plain_entry_does_nothing() {
    let file = File::new("/tmp/notes".to_string(), "notes".to_string(), false);
    assert_eq!(sync_plan(&file), SyncCommand::KeepAsIs);
}

#[test]
fn plan_for_local_repository_stores_the_note() {
    match sync_plan(&local_entry("here")) {
        SyncCommand::StoreLocalNote(note) => {
            assert!(note.contains("repository not linked to a remote"));
        }
        other => panic!("expected a local note, got {:?}", other),
    }
}

#[test]
fn plan_for_unknown_provider_fails_for_that_entry_alone() {
    let mut file = File::new("/tmp/odd".to_string(), "odd".to_string(), true);
    file.repo = Some(Repo::from("sourcehut", "alice", "myrepo"));
    assert_eq!(sync_plan(&file), SyncCommand::Unsupported);

    // Handed on as one entry's address failure, it is one notice in the
    // batch and nothing more.
    let mut batch = Batch::new(vec![file]);
    let oc = unit_outcome(0, StorePlan::Failed(FailureKind::AddressFailure), StoreEvent::NotAttempted);
    batch.record_outcome(oc);
    assert_eq!(batch.files.len(), 1);
    assert_eq!(batch.reports.len(), 1);
    assert!(batch.reports[0].contains("Error parsing url"));
}

#[test]
fn plan_for_remote_repository_fetches_its_address() {
    match sync_plan(&remote_entry("proj", "alice", "myrepo")) {
        SyncCommand::FetchRemote(url) => {
            assert_eq!(url, "https://api.github.com/repos/alice/myrepo");
        }
        other => panic!("expected a fetch, got {:?}", other),
    }
}

#[test]
fn fetch_events_map_to_store_plans() {
    assert_eq!(
        after_fetch(FetchEvent::BadAddress),
        StorePlan::Failed(FailureKind::AddressFailure)
    );
    assert_eq!(
        after_fetch(FetchEvent::TransportFailed),
        StorePlan::Failed(FailureKind::NetworkFailure)
    );
    assert_eq!(
        after_fetch(FetchEvent::DecodeFailed),
        StorePlan::Failed(FailureKind::DecodeFailure)
    );
    assert_eq!(
        after_fetch(FetchEvent::Payload(Some("d".to_string()))),
        StorePlan::Store("d".to_string())
    );
    assert_eq!(after_fetch(FetchEvent::Payload(None)), StorePlan::NothingToStore);
}

#[test]
fn unit_outcomes_follow_plan_and_write() {
    assert_eq!(
        unit_outcome(3, StorePlan::Failed(FailureKind::DecodeFailure), StoreEvent::NotAttempted),
        SyncOutcome::Failure { index: 3, kind: FailureKind::DecodeFailure }
    );
    assert_eq!(
        unit_outcome(1, StorePlan::NothingToStore, StoreEvent::NotAttempted),
        SyncOutcome::Success { index: 1, stored: None }
    );
    assert_eq!(
        unit_outcome(0, StorePlan::Store("d".to_string()), StoreEvent::Stored),
        SyncOutcome::Success { index: 0, stored: Some("d".to_string()) }
    );
    assert_eq!(
        unit_outcome(0, StorePlan::Store("d".to_string()), StoreEvent::StoreFailed),
        SyncOutcome::Failure { index: 0, kind: FailureKind::PersistFailure }
    );
}

#[test]
fn failure_notice_names_entry_and_category() {
    let notice = failure_notice(&FailureKind::AddressFailure, "proj");
    assert!(notice.contains("Error!"));
    assert!(notice.contains("Error parsing url"));
    assert!(notice.ends_with(" for proj"));
}

#[test]
fn completions_are_recorded_as_they_arrive() {
    let files = vec![
        remote_entry("a", "ua", "ra"),
        remote_entry("b", "ub", "rb"),
        remote_entry("c", "uc", "rc"),
    ];
    let mut batch = Batch::new(files);

    // The last-submitted entry finishes first; recording it does not wait
    // for the other two.
    batch.record_outcome(SyncOutcome::Success { index: 2, stored: Some("gamma".to_string()) });
    assert_eq!(batch.files[2].repo.as_ref().unwrap().description, Some("gamma".to_string()));
    assert_eq!(batch.done, vec![false, false, true]);
    assert_eq!(batch.reports.len(), 0);

    batch.record_outcome(SyncOutcome::Failure { index: 0, kind: FailureKind::NetworkFailure });
    assert_eq!(batch.reports.len(), 1);
    assert!(batch.reports[0].contains("Error syncing repo"));
    assert!(batch.reports[0].contains("a"));

    batch.record_outcome(SyncOutcome::Success { index: 1, stored: Some("beta".to_string()) });

    // All three entries survive; exactly the failed one has no description.
    assert_eq!(batch.files.len(), 3);
    assert_eq!(batch.files[0].repo.as_ref().unwrap().description, None);
    assert_eq!(batch.files[1].repo.as_ref().unwrap().description, Some("beta".to_string()));
    assert_eq!(batch.files[2].repo.as_ref().unwrap().description, Some("gamma".to_string()));
    assert_eq!(batch.done, vec![true, true, true]);
    assert_eq!(batch.reports.len(), 1);
}

#[test]
fn failures_leave_other_entries_alone() {
    let files = vec![remote_entry("a", "ua", "ra"), remote_entry("b", "ub", "rb")];
    let mut batch = Batch::new(files);
    batch.record_outcome(SyncOutcome::Failure { index: 1, kind: FailureKind::PersistFailure });
    batch.record_outcome(SyncOutcome::Success { index: 0, stored: Some("alpha".to_string()) });
    assert_eq!(batch.files[0].repo.as_ref().unwrap().description, Some("alpha".to_string()));
    assert_eq!(batch.files[1].repo.as_ref().unwrap().description, None);
    assert_eq!(batch.reports.len(), 1);
    assert!(batch.reports[0].contains("Error saving description"));
}

#[test]
fn empty_batch_reports_nothing() {
    let batch = Batch::new(Vec::new());
    assert_eq!(batch.files.len(), 0);
    assert_eq!(batch.done.len(), 0);
    assert_eq!(batch.reports.len(), 0);
}
