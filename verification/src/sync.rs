//! The synchronization coordinator: per-entry decisions for the concurrent
//! description fan-out, and the batch bookkeeping that records completions
//! as they arrive.
//!
//! The caller owns the actual concurrency.  It launches one unit of work
//! per entry, performs the network fetch and the description write, and
//! hands each observed result back in as a plain event.  Every decision —
//! what a unit has to do, what to store after a fetch, what a completion
//! means for the batch — is taken here.  A completion is recorded the
//! moment it arrives: recording touches only its own entry, so no entry
//! ever waits for another, and one entry's failure never aborts the rest.

use vstd::prelude::*;
use vstd::string::{StrSliceExecFns, StringExecFns};

use crate::file::File;
use crate::paint::{esc_free, paint_bold_red, paint_red, wrapped};
use crate::provider::{build_url, spec_url, str_eq};
use crate::repo::{provider_github, provider_gitlab, Repo};

verus! {

broadcast use vstd::string::group_string_axioms;

/// The note persisted for a repository that has no recognized remote.
pub open spec fn local_note_text() -> Seq<char> {
    "repository not linked to a remote"@
}

/// The text shown for each way one entry's synchronization can fail.
pub open spec fn failure_message(kind: FailureKind) -> Seq<char> {
    match kind {
        FailureKind::NetworkFailure => "Error syncing repo"@,
        FailureKind::PersistFailure => "Error saving description"@,
        FailureKind::AddressFailure => "Error parsing url"@,
        FailureKind::DecodeFailure => "Error deserializing response"@,
    }
}

/// The four ways one entry's synchronization can fail.  Each is terminal
/// for that entry alone and never aborts the batch.
#[derive(Debug, Clone, Copy, PartialEq, Eq, Structural)]
pub enum FailureKind {
    /// The entry's metadata address was not a valid URL.
    AddressFailure,
    /// The fetch failed at the transport level.
    NetworkFailure,
    /// The response body was not the expected shape.
    DecodeFailure,
    /// The description file could not be written.
    PersistFailure,
}

/// What one entry's unit of work has to do.
#[derive(Debug, Clone, PartialEq)]
pub enum SyncCommand {
    /// The entry is no repository: nothing to do.
    KeepAsIs,
    /// A local repository: persist this note, touching no network.
    StoreLocalNote(String),
    /// A remote repository: fetch its description from this address.
    FetchRemote(String),
    /// A remote identity naming no recognized provider: no address can be
    /// built for it, so its unit fails at address construction — for this
    /// entry alone, never aborting the batch.
    Unsupported,
}

/// What the caller observed when it performed a fetch.
#[derive(Debug, Clone, PartialEq)]
pub enum FetchEvent {
    /// The metadata address was rejected as a URL.
    BadAddress,
    /// The request failed below the protocol: DNS, connection, transport.
    TransportFailed,
    /// The response body did not decode to the expected shape.
    DecodeFailed,
    /// A decoded response: the provider's description field, which the
    /// provider may leave unset.
    Payload(Option<String>),
}

/// What to do with an entry after its fetch came back.
#[derive(Debug, Clone, PartialEq)]
pub enum StorePlan {
    /// Persist this text as the entry's description.
    Store(String),
    /// Nothing to persist; the entry is done.
    NothingToStore,
    /// The entry's unit failed; nothing is persisted.
    Failed(FailureKind),
}

/// What the caller observed at the description write.
#[derive(Debug, Clone, Copy, PartialEq, Eq, Structural)]
pub enum StoreEvent {
    /// The description file was written.
    Stored,
    /// The description file could not be written.
    StoreFailed,
    /// No write was asked for.
    NotAttempted,
}

/// The terminal outcome of one entry's unit of work.
#[derive(Debug, Clone, PartialEq)]
pub enum SyncOutcome {
    /// The unit finished; `stored` is the text persisted for the entry,
    /// when there was one.
    Success { index: usize, stored: Option<String> },
    /// The unit failed, terminally for this entry alone.
    Failure { index: usize, kind: FailureKind },
}

/// The entry an outcome belongs to.
pub open spec fn oc_index(oc: SyncOutcome) -> usize {
    match oc {
        SyncOutcome::Success { index, .. } => index,
        SyncOutcome::Failure { index, .. } => index,
    }
}

/// What one entry's unit of work has to do: nothing for a non-repository,
/// a local note write for a repository without a remote, a fetch from the
/// provider's metadata address for a remote-linked one, and — should a
/// remote identity name no recognized provider — a per-entry give-up that
/// never aborts the batch.
pub fn sync_plan(file: &File) -> (c: SyncCommand)
    ensures
        match file.repo {
            None => c == SyncCommand::KeepAsIs,
            Some(r) => if !r.remote {
                c matches SyncCommand::StoreLocalNote(t) && wrapped(local_note_text(), t@)
            } else if r.provider@ == provider_github() || r.provider@ == provider_gitlab() {
                c matches SyncCommand::FetchRemote(u) && u@ == spec_url(
                    r.provider@,
                    r.user@,
                    r.repo@,
                )
            } else {
                c == SyncCommand::Unsupported
            },
        },
{
    match &file.repo {
        None => SyncCommand::KeepAsIs,
        Some(r) => {
            if !r.remote {
                proof {
                    reveal_strlit("repository not linked to a remote");
                    assert(esc_free(local_note_text()));
                }
                SyncCommand::StoreLocalNote(paint_red("repository not linked to a remote"))
            } else if str_eq(r.provider.as_str(), "github") || str_eq(
                r.provider.as_str(),
                "gitlab",
            ) {
                SyncCommand::FetchRemote(build_url(r))
            } else {
                SyncCommand::Unsupported
            }
        },
    }
}

/// What to do once a fetch came back: store a present description, finish
/// without storing when the provider left it unset, and turn each observed
/// failure into its failure kind.
pub fn after_fetch(ev: FetchEvent) -> (p: StorePlan)
    ensures
        match ev {
            FetchEvent::BadAddress => p == StorePlan::Failed(FailureKind::AddressFailure),
            FetchEvent::TransportFailed => p == StorePlan::Failed(FailureKind::NetworkFailure),
            FetchEvent::DecodeFailed => p == StorePlan::Failed(FailureKind::DecodeFailure),
            FetchEvent::Payload(d) => match d {
                Some(text) => p == StorePlan::Store(text),
                None => p == StorePlan::NothingToStore,
            },
        },
{
    match ev {
        FetchEvent::BadAddress => StorePlan::Failed(FailureKind::AddressFailure),
        FetchEvent::TransportFailed => StorePlan::Failed(FailureKind::NetworkFailure),
        FetchEvent::DecodeFailed => StorePlan::Failed(FailureKind::DecodeFailure),
        FetchEvent::Payload(d) => match d {
            Some(text) => StorePlan::Store(text),
            None => StorePlan::NothingToStore,
        },
    }
}

/// The terminal outcome of one unit, from its store plan and what the
/// caller observed at the write: a failed plan keeps its kind, a stored
/// text succeeds with that text, and a failed write is a persist failure.
pub fn unit_outcome(index: usize, plan: StorePlan, store: StoreEvent) -> (oc: SyncOutcome)
    requires
        plan matches StorePlan::Store(_) ==> !(store is NotAttempted),
    ensures
        match plan {
            StorePlan::Failed(k) => oc == (SyncOutcome::Failure { index, kind: k }),
            StorePlan::NothingToStore => oc == (SyncOutcome::Success { index, stored: None }),
            StorePlan::Store(d) => match store {
                StoreEvent::Stored => oc == (SyncOutcome::Success { index, stored: Some(d) }),
                _ => oc == (SyncOutcome::Failure { index, kind: FailureKind::PersistFailure }),
            },
        },
{
    match plan {
        StorePlan::Failed(k) => SyncOutcome::Failure { index, kind: k },
        StorePlan::NothingToStore => SyncOutcome::Success { index, stored: None },
        StorePlan::Store(d) => match store {
            StoreEvent::Stored => SyncOutcome::Success { index, stored: Some(d) },
            _ => SyncOutcome::Failure { index, kind: FailureKind::PersistFailure },
        },
    }
}

/// One failure notice: the styled alarm word, then the failure category,
/// then the failing entry's name.
pub open spec fn is_failure_notice(kind: FailureKind, name: Seq<char>, notice: Seq<char>) -> bool {
    exists|styled: Seq<char>|
        #[trigger] wrapped("Error!"@, styled) && notice == styled + " "@ + failure_message(kind)
            + " for "@ + name
}

fn failure_message_of(kind: &FailureKind) -> (m: &str)
    ensures
        m@ == failure_message(*kind),
{
    match kind {
        FailureKind::NetworkFailure => "Error syncing repo",
        FailureKind::PersistFailure => "Error saving description",
        FailureKind::AddressFailure => "Error parsing url",
        FailureKind::DecodeFailure => "Error deserializing response",
    }
}

/// The diagnostic line reported for one failed entry.
pub fn failure_notice(kind: &FailureKind, name: &str) -> (notice: String)
    ensures
        is_failure_notice(*kind, name@, notice@),
{
    proof {
        reveal_strlit("Error!");
        assert(esc_free("Error!"@));
    }
    let mut n = paint_bold_red("Error!");
    let ghost styled = n@;
    n.append(" ");
    n.append(failure_message_of(kind));
    n.append(" for ");
    n.append(name);
    proof {
        assert(n@ =~= styled + " "@ + failure_message(*kind) + " for "@ + name@);
    }
    n
}

/// `after` is `before` with only its identity's description set to `d`:
/// the entry's own fields and the identity's classification are kept field
/// for field.
pub open spec fn entry_described(before: File, after: File, d: String) -> bool {
    &&& after.path == before.path
    &&& after.name == before.name
    &&& after.is_hidden == before.is_hidden
    &&& after.is_dir == before.is_dir
    &&& match (before.repo, after.repo) {
        (Some(r0), Some(r1)) => {
            &&& r1.remote == r0.remote
            &&& r1.provider == r0.provider
            &&& r1.user == r0.user
            &&& r1.repo == r0.repo
            &&& r1.description == Some(d)
        },
        _ => false,
    }
}

/// The description an entry currently carries, as plain text.
pub open spec fn desc_of(f: File) -> Option<Seq<char>> {
    match f.repo {
        Some(r) => match r.description {
            Some(d) => Some(d@),
            None => None,
        },
        None => None,
    }
}

/// The descriptions a list of entries carries.
pub open spec fn descs_of(files: Seq<File>) -> Seq<Option<Seq<char>>> {
    Seq::new(files.len(), |i: int| desc_of(files[i]))
}

/// How one recorded outcome changes the entries' descriptions: a success
/// with a stored text sets that entry's description, everything else
/// leaves every description as it was.
pub open spec fn step_descs(descs: Seq<Option<Seq<char>>>, oc: SyncOutcome) -> Seq<
    Option<Seq<char>>,
> {
    match oc {
        SyncOutcome::Success { index, stored } => match stored {
            Some(d) => descs.update(index as int, Some(d@)),
            None => descs,
        },
        SyncOutcome::Failure { .. } => descs,
    }
}

/// The descriptions after a whole run: the outcomes folded in arrival
/// order.
pub open spec fn run_descs(descs: Seq<Option<Seq<char>>>, ocs: Seq<SyncOutcome>) -> Seq<
    Option<Seq<char>>,
>
    decreases ocs.len(),
{
    if ocs.len() == 0 {
        descs
    } else {
        run_descs(step_descs(descs, ocs[0]), ocs.drop_first())
    }
}

/// How many outcomes of a run failed.
pub open spec fn count_failures(ocs: Seq<SyncOutcome>) -> nat
    decreases ocs.len(),
{
    if ocs.len() == 0 {
        0
    } else {
        (if ocs[0] is Failure {
            1nat
        } else {
            0nat
        }) + count_failures(ocs.drop_first())
    }
}

/// The notice count after a whole run: starting from `count` notices, one
/// more per failure and none per success, folded in arrival order.
pub open spec fn run_reports(count: nat, ocs: Seq<SyncOutcome>) -> nat
    decreases ocs.len(),
{
    if ocs.len() == 0 {
        count
    } else {
        run_reports(
            count + (if ocs[0] is Failure {
                1nat
            } else {
                0nat
            }),
            ocs.drop_first(),
        )
    }
}

/// How many entries carry no description.
pub open spec fn count_none(descs: Seq<Option<Seq<char>>>) -> nat
    decreases descs.len(),
{
    if descs.len() == 0 {
        0
    } else {
        (if descs[0] is None {
            1nat
        } else {
            0nat
        }) + count_none(descs.drop_first())
    }
}

/// The running state of one synchronization batch: the entries, which of
/// them have completed, and the failure notices reported so far.
#[derive(Debug)]
pub struct Batch {
    pub files: Vec<File>,
    pub done: Vec<bool>,
    pub reports: Vec<String>,
}

impl Batch {
    /// One completion flag per entry.
    pub open spec fn wf(self) -> bool {
        self.done@.len() == self.files@.len()
    }

    /// A batch over the given entries, none of them completed yet and
    /// nothing reported.
    pub fn new(files: Vec<File>) -> (b: Batch)
        ensures
            b.wf(),
            b.files == files,
            forall|i: int| 0 <= i < b.done@.len() ==> !b.done@[i],
            b.reports@.len() == 0,
    {
        let n = files.len();
        let mut done: Vec<bool> = Vec::new();
        while done.len() < n
            invariant
                done@.len() <= n,
                forall|i: int| 0 <= i < done@.len() ==> !done@[i],
            decreases n - done@.len(),
        {
            done.push(false);
        }
        Batch { files, done, reports: Vec::new() }
    }

    /// Record one completed unit of work, the moment it arrives.  A
    /// success with a stored text sets its entry's description — and
    /// nothing else of that entry; every other outcome leaves its entry
    /// untouched in every field, and a failure appends exactly one notice.
    /// No other entry is read or written, so entries still in flight are
    /// never waited for.
    pub fn record_outcome(&mut self, oc: SyncOutcome)
        requires
            old(self).wf(),
            oc_index(oc) < old(self).files@.len(),
            oc matches SyncOutcome::Success { stored: Some(_), .. } ==> old(self).files@[oc_index(
                oc,
            ) as int].repo is Some,
        ensures
            final(self).wf(),
            final(self).files@.len() == old(self).files@.len(),
            final(self).done@ == old(self).done@.update(oc_index(oc) as int, true),
            descs_of(final(self).files@) == step_descs(descs_of(old(self).files@), oc),
            forall|j: int|
                0 <= j < old(self).files@.len() && j != oc_index(oc) ==> final(self).files@[j]
                    == old(self).files@[j],
            oc matches SyncOutcome::Success { index, stored: Some(d) } ==> entry_described(
                old(self).files@[index as int],
                final(self).files@[index as int],
                d,
            ),
            oc is Failure ==> final(self).files@[oc_index(oc) as int] == old(self).files@[oc_index(
                oc,
            ) as int],
            oc matches SyncOutcome::Success { stored: None, .. } ==> final(self).files@[oc_index(
                oc,
            ) as int] == old(self).files@[oc_index(oc) as int],
            oc matches SyncOutcome::Failure { index, kind } ==> final(self).reports@.len() == old(
                self,
            ).reports@.len() + 1 && is_failure_notice(
                kind,
                old(self).files@[index as int].name@,
                final(self).reports@.last()@,
            ) && final(self).reports@.subrange(0, old(self).reports@.len() as int) == old(
                self,
            ).reports@,
            oc is Success ==> final(self).reports@ == old(self).reports@,
    {
        let ghost descs0 = descs_of(self.files@);
        let index = match &oc {
            SyncOutcome::Success { index, .. } => *index,
            SyncOutcome::Failure { index, .. } => *index,
        };
        match oc {
            SyncOutcome::Success { index, stored } => {
                match stored {
                    Some(d) => {
                        let mut f = self.files.remove(index);
                        match f.repo {
                            Some(r) => {
                                let mut r2 = r;
                                r2.description = Some(d);
                                f.repo = Some(r2);
                            },
                            None => {
                                proof {
                                    assert(false);
                                }
                            },
                        }
                        self.files.insert(index, f);
                        proof {
                            assert(self.files@ =~= old(self).files@.update(index as int, f));
                            assert(descs_of(self.files@) =~= step_descs(descs0, oc));
                        }
                    },
                    None => {
                        proof {
                            assert(descs_of(self.files@) =~= step_descs(descs0, oc));
                        }
                    },
                }
            },
            SyncOutcome::Failure { index, kind } => {
                let notice = failure_notice(&kind, self.files[index].name.as_str());
                self.reports.push(notice);
                proof {
                    assert(self.reports@.subrange(0, old(self).reports@.len() as int) =~= old(
                        self,
                    ).reports@);
                    assert(descs_of(self.files@) =~= step_descs(descs0, oc));
                }
            },
        }
        self.done.remove(index);
        self.done.insert(index, true);
        proof {
            assert(self.done@ =~= old(self).done@.update(oc_index(oc) as int, true));
        }
    }
}

proof fn lemma_count_none_update(descs: Seq<Option<Seq<char>>>, i: int, d: Seq<char>)
    requires
        0 <= i < descs.len(),
        descs[i] is None,
    ensures
        count_none(descs.update(i, Some(d))) + 1 == count_none(descs),
    decreases descs.len(),
{
    if i == 0 {
        assert(descs.update(0, Some(d)).drop_first() =~= descs.drop_first());
    } else {
        assert(descs.update(i, Some(d)).drop_first() =~= descs.drop_first().update(i - 1, Some(d)));
        lemma_count_none_update(descs.drop_first(), i - 1, d);
    }
}

/// A run whose outcomes all belong to other entries leaves an entry's
/// description alone.
proof fn lemma_run_descs_untouched(descs: Seq<Option<Seq<char>>>, ocs: Seq<SyncOutcome>, i: int)
    requires
        0 <= i < descs.len(),
        forall|k: int| 0 <= k < ocs.len() ==> oc_index(#[trigger] ocs[k]) != i,
        forall|k: int| 0 <= k < ocs.len() ==> oc_index(#[trigger] ocs[k]) < descs.len(),
    ensures
        run_descs(descs, ocs).len() == descs.len(),
        run_descs(descs, ocs)[i] == descs[i],
    decreases ocs.len(),
{
    if ocs.len() > 0 {
        let descs1 = step_descs(descs, ocs[0]);
        assert(descs1.len() == descs.len());
        assert(descs1[i] == descs[i]);
        assert(forall|k: int|
            0 <= k < ocs.drop_first().len() ==> #[trigger] ocs.drop_first()[k] == ocs[k + 1]);
        lemma_run_descs_untouched(descs1, ocs.drop_first(), i);
    }
}

/// After a whole run with one outcome per entry, an entry's description
/// reflects its own outcome alone, whatever order the rest arrived in.
pub proof fn lemma_run_descs_entry(descs: Seq<Option<Seq<char>>>, ocs: Seq<SyncOutcome>, k: int)
    requires
        0 <= k < ocs.len(),
        forall|k1: int, k2: int|
            0 <= k1 < k2 < ocs.len() ==> oc_index(#[trigger] ocs[k1]) != oc_index(
                #[trigger] ocs[k2],
            ),
        forall|k1: int| 0 <= k1 < ocs.len() ==> oc_index(#[trigger] ocs[k1]) < descs.len(),
    ensures
        run_descs(descs, ocs).len() == descs.len(),
        ocs[k] matches SyncOutcome::Success { index, stored: Some(d) } ==> run_descs(descs, ocs)[index as int] == Some(d@),
        ocs[k] matches SyncOutcome::Success { index, stored: None } ==> run_descs(descs, ocs)[index as int] == descs[index as int],
        ocs[k] matches SyncOutcome::Failure { index, .. } ==> run_descs(descs, ocs)[index as int]
            == descs[index as int],
    decreases ocs.len(),
{
    let descs1 = step_descs(descs, ocs[0]);
    assert(descs1.len() == descs.len());
    let rest = ocs.drop_first();
    assert(forall|k1: int| 0 <= k1 < rest.len() ==> #[trigger] rest[k1] == ocs[k1 + 1]);
    if k == 0 {
        let i = oc_index(ocs[0]) as int;
        assert(forall|k1: int| 0 <= k1 < rest.len() ==> oc_index(#[trigger] rest[k1]) != i);
        lemma_run_descs_untouched(descs1, rest, i);
    } else {
        lemma_run_descs_entry(descs1, rest, k - 1);
        assert(descs1[oc_index(ocs[k]) as int] == descs[oc_index(ocs[k]) as int]);
    }
}

/// The count bookkeeping of a whole run: every success stores a text on an
/// entry that had none and that no other outcome touches, so each success
/// fills exactly one empty description and each failure fills none.
proof fn lemma_run_descs_count(descs: Seq<Option<Seq<char>>>, ocs: Seq<SyncOutcome>)
    requires
        forall|k1: int, k2: int|
            0 <= k1 < k2 < ocs.len() ==> oc_index(#[trigger] ocs[k1]) != oc_index(
                #[trigger] ocs[k2],
            ),
        forall|k: int| 0 <= k < ocs.len() ==> oc_index(#[trigger] ocs[k]) < descs.len(),
        forall|k: int| 0 <= k < ocs.len() ==> descs[oc_index(#[trigger] ocs[k]) as int] is None,
        forall|k: int|
            0 <= k < ocs.len() ==> (#[trigger] ocs[k] matches SyncOutcome::Success { stored, .. }
                ==> stored is Some),
    ensures
        run_descs(descs, ocs).len() == descs.len(),
        count_none(run_descs(descs, ocs)) + ocs.len() == count_none(descs) + count_failures(ocs),
    decreases ocs.len(),
{
    if ocs.len() == 0 {
    } else {
        let descs1 = step_descs(descs, ocs[0]);
        let rest = ocs.drop_first();
        assert(forall|k1: int| 0 <= k1 < rest.len() ==> #[trigger] rest[k1] == ocs[k1 + 1]);
        match ocs[0] {
            SyncOutcome::Success { index, stored } => {
                let d = stored.unwrap();
                lemma_count_none_update(descs, index as int, d@);
                assert(forall|k: int|
                    0 <= k < rest.len() ==> descs1[oc_index(#[trigger] rest[k]) as int] is None);
            },
            SyncOutcome::Failure { .. } => {
                assert(descs1 =~= descs);
            },
        }
        lemma_run_descs_count(descs1, rest);
    }
}

/// However a batch's completions are ordered: with one outcome per entry,
/// over entries that start without descriptions, a run keeps every entry,
/// gives exactly the successfully fetched entries their description,
/// leaves exactly as many entries without one as there were failures, and
/// reports exactly one notice per failure over the whole run.
pub proof fn lemma_fanout_isolation(descs: Seq<Option<Seq<char>>>, ocs: Seq<SyncOutcome>)
    requires
        ocs.len() == descs.len(),
        forall|i: int| 0 <= i < descs.len() ==> descs[i] is None,
        forall|k1: int, k2: int|
            0 <= k1 < k2 < ocs.len() ==> oc_index(#[trigger] ocs[k1]) != oc_index(
                #[trigger] ocs[k2],
            ),
        forall|k: int| 0 <= k < ocs.len() ==> oc_index(#[trigger] ocs[k]) < descs.len(),
        forall|k: int|
            0 <= k < ocs.len() ==> (#[trigger] ocs[k] matches SyncOutcome::Success { stored, .. }
                ==> stored is Some),
    ensures
        run_descs(descs, ocs).len() == descs.len(),
        count_none(run_descs(descs, ocs)) == count_failures(ocs),
        forall|k: int|
            0 <= k < ocs.len() ==> (#[trigger] ocs[k] matches SyncOutcome::Success {
                index,
                stored: Some(d),
            } ==> run_descs(descs, ocs)[index as int] == Some(d@)),
        forall|k: int|
            0 <= k < ocs.len() ==> (#[trigger] ocs[k] matches SyncOutcome::Failure { index, .. }
                ==> run_descs(descs, ocs)[index as int] is None),
        run_reports(0, ocs) == count_failures(ocs),
{
    lemma_run_descs_count(descs, ocs);
    lemma_run_reports(0, ocs);
    assert forall|k: int| 0 <= k < ocs.len() implies (#[trigger] ocs[k]
        matches SyncOutcome::Success { index, stored: Some(d) } ==> run_descs(descs, ocs)[index as int] == Some(d@)) && (ocs[k] matches SyncOutcome::Failure { index, .. } ==> run_descs(descs, ocs)[index as int] is None) by {
        lemma_run_descs_entry(descs, ocs, k);
    }
    lemma_count_none_all(descs);
}

proof fn lemma_run_reports(count: nat, ocs: Seq<SyncOutcome>)
    ensures
        run_reports(count, ocs) == count + count_failures(ocs),
    decreases ocs.len(),
{
    if ocs.len() > 0 {
        lemma_run_reports(
            count + (if ocs[0] is Failure {
                1nat
            } else {
                0nat
            }),
            ocs.drop_first(),
        );
    }
}

proof fn lemma_count_none_all(descs: Seq<Option<Seq<char>>>)
    requires
        forall|i: int| 0 <= i < descs.len() ==> descs[i] is None,
    ensures
        count_none(descs) == descs.len(),
    decreases descs.len(),
{
    if descs.len() > 0 {
        lemma_count_none_all(descs.drop_first());
    }
}

} // verus!
