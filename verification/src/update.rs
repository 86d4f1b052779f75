//! Moving the actions of workflow files to the latest version of their repository.

use vstd::prelude::*;

use crate::api::{Document, Progress, ProgressView};
use crate::calls::latest;
use crate::github::{GitHubClient, LatestReference, LatestView};
use crate::model::{
    count_files, touched_files, ActionView, FileUpdate, FileUpdateView, PinChange, PinChangeView,
    UpdateChange, UpdateChangeKind, UpdateChangeView,
};
use crate::pinning::{all_actions, collect_actions, lemma_all_action_lines};
use crate::text::{option_view, same, views};
use crate::workflow::{
    apply_changes, changes_for, file_updates, first_failure, WorkflowFile, WorkflowFileView,
};

verus! {

/// Whether files are rewritten, changes only shown, or versions only reported.
#[derive(Debug, Clone, Copy, PartialEq, Eq, Structural)]
pub enum UpdateMode {
    Apply,
    DryRun,
    Status,
}

/// What is to be updated, and in which mode.
#[derive(Debug, Clone, PartialEq, Eq)]
pub struct UpdateOptions {
    pub repo_root: String,
    pub workflows_path: String,
    pub mode: UpdateMode,
}

/// The version that an action is at, and the latest one.
#[derive(Debug, Clone, PartialEq, Eq)]
pub struct VersionEntry {
    pub file: String,
    pub line_number: usize,
    pub action_slug: String,
    pub pinned: bool,
    pub current_version: String,
    pub current_sha: Option<String>,
    pub latest_version: String,
    pub latest_sha: String,
    pub update_needed: bool,
}

/// What a `VersionEntry` stands for.
pub struct VersionEntryView {
    pub file: Seq<char>,
    pub line_number: nat,
    pub action_slug: Seq<char>,
    pub pinned: bool,
    pub current_version: Seq<char>,
    pub current_sha: Option<Seq<char>>,
    pub latest_version: Seq<char>,
    pub latest_sha: Seq<char>,
    pub update_needed: bool,
}

impl View for VersionEntry {
    type V = VersionEntryView;

    open spec fn view(&self) -> VersionEntryView {
        VersionEntryView {
            file: self.file@,
            line_number: self.line_number as nat,
            action_slug: self.action_slug@,
            pinned: self.pinned,
            current_version: self.current_version@,
            current_sha: option_view(self.current_sha),
            latest_version: self.latest_version@,
            latest_sha: self.latest_sha@,
            update_needed: self.update_needed,
        }
    }
}

/// What updating found and changes. `file_updates` is what the changed files are to
/// hold.
#[derive(Debug, Clone, PartialEq, Eq)]
pub struct UpdateReport {
    pub workflow_files: usize,
    pub references_scanned: usize,
    pub already_pinned: usize,
    pub entries: Vec<VersionEntry>,
    pub changes: Vec<PinChange>,
    pub file_updates: Vec<FileUpdate>,
}

/// Updates actions.
#[derive(Debug, Clone, PartialEq, Eq)]
pub struct WorkflowUpdater {
    pub github: GitHubClient,
}

/// The latest versions of the repositories of the actions from the `i`-th on, behind
/// those found so far.
pub open spec fn versions_from(
    actions: Seq<ActionView>,
    i: int,
    so_far: Seq<LatestView>,
    docs: Seq<Document>,
    at: int,
) -> ProgressView<Seq<LatestView>>
    decreases actions.len() - i,
{
    if i < 0 || i >= actions.len() {
        ProgressView::Done(so_far, at)
    } else {
        match latest(actions[i].owner, actions[i].repository, docs, at) {
            ProgressView::Ask(request) => ProgressView::Ask(request),
            ProgressView::Failed(message) => ProgressView::Failed(message),
            ProgressView::Done(found, next) => versions_from(
                actions,
                i + 1,
                so_far.push(found),
                docs,
                next,
            ),
        }
    }
}

/// The latest versions of the repositories of the actions.
pub open spec fn versions_of(actions: Seq<ActionView>, docs: Seq<Document>) -> ProgressView<
    Seq<LatestView>,
> {
    versions_from(actions, 0, Seq::empty(), docs, 0)
}

/// The action is not pinned to the latest commit under the latest version.
pub open spec fn needs_update(action: ActionView, latest: LatestView) -> bool {
    ||| !action.is_pinned()
    ||| action.version != latest.sha
    ||| action.logical_version() != latest.version
}

/// The version that an action is at, and the latest one.
pub open spec fn entry_for(action: ActionView, latest: LatestView) -> VersionEntryView {
    VersionEntryView {
        file: action.file,
        line_number: action.line_number,
        action_slug: action.action_slug,
        pinned: action.is_pinned(),
        current_version: action.logical_version(),
        current_sha: if action.is_pinned() {
            Some(action.version)
        } else {
            None
        },
        latest_version: latest.version,
        latest_sha: latest.sha,
        update_needed: needs_update(action, latest),
    }
}

/// The change of a line that moves its action to the latest version.
pub open spec fn update_change(action: ActionView, latest: LatestView) -> PinChangeView {
    PinChangeView {
        file: action.file,
        line_number: action.line_number,
        action_slug: action.action_slug,
        from_version: action.logical_version(),
        to_sha: latest.sha,
        original_line: action.original_line,
        rewritten_line: action.rendered_line(latest.sha, latest.version),
    }
}

/// The entries of the actions.
pub open spec fn entries_for(actions: Seq<ActionView>, latest: Seq<LatestView>) -> Seq<
    VersionEntryView,
> {
    Seq::new(actions.len(), |i: int| entry_for(actions[i], latest[i]))
}

/// The changes that move the first `n` actions to the latest version, where they
/// are not at it.
pub open spec fn changes_among(actions: Seq<ActionView>, latest: Seq<LatestView>, n: int) -> Seq<
    PinChangeView,
>
    decreases n,
{
    if n <= 0 {
        Seq::empty()
    } else {
        let before = changes_among(actions, latest, n - 1);
        if needs_update(actions[n - 1], latest[n - 1]) {
            before.push(update_change(actions[n - 1], latest[n - 1]))
        } else {
            before
        }
    }
}

/// The changes that move the actions to the latest version; none in `Status` mode.
pub open spec fn update_changes(
    mode: UpdateMode,
    actions: Seq<ActionView>,
    latest: Seq<LatestView>,
) -> Seq<PinChangeView> {
    if mode == UpdateMode::Status {
        Seq::empty()
    } else {
        changes_among(actions, latest, actions.len() as int)
    }
}

/// How many of the actions are pinned.
pub open spec fn count_pinned(actions: Seq<ActionView>) -> nat
    decreases actions.len(),
{
    if actions.len() == 0 {
        0
    } else {
        count_pinned(actions.drop_last()) + if actions.last().is_pinned() {
            1nat
        } else {
            0
        }
    }
}

/// A change of a line, as a change of a version.
pub open spec fn as_update(change: PinChangeView, number: usize) -> UpdateChangeView {
    UpdateChangeView {
        kind: UpdateChangeKind::GitHubAction,
        file: change.file,
        line_number: Some(number),
        subject: change.action_slug,
        from_version: change.from_version,
        to_version: change.to_sha,
    }
}

impl UpdateReport {
    /// How many files the changes touch.
    pub fn changed_files(&self) -> (result: usize)
        ensures
            result == touched_files(views(self.changes@)).len(),
    {
        count_files(&self.changes)
    }

    /// The changes as changes of versions.
    pub fn update_changes(&self) -> (result: Vec<UpdateChange>)
        ensures
            result@.len() == self.changes@.len(),
            forall|i: int|
                0 <= i < result@.len() ==> (#[trigger] result@[i])@ == as_update(
                    self.changes@[i]@,
                    self.changes@[i].line_number,
                ),
    {
        let mut result: Vec<UpdateChange> = Vec::new();
        let mut i: usize = 0;
        while i < self.changes.len()
            invariant
                i <= self.changes.len(),
                result.len() == i,
                forall|k: int|
                    0 <= k < i ==> (#[trigger] result@[k])@ == as_update(
                        self.changes@[k]@,
                        self.changes@[k].line_number,
                    ),
            decreases self.changes.len() - i,
        {
            let change = &self.changes[i];
            result.push(
                UpdateChange {
                    kind: UpdateChangeKind::GitHubAction,
                    file: change.file.clone(),
                    line_number: Some(change.line_number),
                    subject: change.action_slug.clone(),
                    from_version: change.from_version.clone(),
                    to_version: change.to_sha.clone(),
                },
            );
            i = i + 1;
        }
        result
    }
}

/// The result is what updating the actions of the files to the latest versions comes
/// to.
pub open spec fn is_update(
    result: Result<UpdateReport, String>,
    mode: UpdateMode,
    files: Seq<WorkflowFileView>,
    latest: Seq<LatestView>,
) -> bool {
    let actions = all_actions(files);
    let changes = update_changes(mode, actions, latest);
    match result {
        Ok(report) => {
            &&& first_failure(files, changes) is None
            &&& report.workflow_files == files.len()
            &&& report.references_scanned == actions.len()
            &&& report.already_pinned == count_pinned(actions)
            &&& views(report.entries@) == entries_for(actions, latest)
            &&& views(report.changes@) == changes
            &&& views(report.file_updates@) == file_updates(files, changes)
        },
        Err(message) => first_failure(files, changes) == Some(message@),
    }
}

impl WorkflowUpdater {
    /// An updater that asks the given client.
    pub fn new(github: GitHubClient) -> (result: Self)
        ensures
            result.github == github,
    {
        WorkflowUpdater { github }
    }

    /// Reports for every action of the files the version that it is at and the latest
    /// one, and moves it there except in `Status` mode. `docs` are the answers so far;
    /// the result is the next request, the report, or why there is none.
    pub fn update(
        &self,
        options: &UpdateOptions,
        files: &Vec<WorkflowFile>,
        docs: &Vec<Document>,
    ) -> (result: Progress<UpdateReport>)
        ensures
            match versions_of(all_actions(views(files@)), docs@) {
                ProgressView::Ask(request) => result matches Progress::Ask(asked) && asked@
                    == request,
                ProgressView::Failed(message) => result matches Progress::Failed(told) && told@
                    == message,
                ProgressView::Done(found, next) => match result {
                    Progress::Done(report, read) => read == next && is_update(
                        Ok(report),
                        options.mode,
                        views(files@),
                        found,
                    ),
                    Progress::Failed(message) => is_update(
                        Err(message),
                        options.mode,
                        views(files@),
                        found,
                    ),
                    Progress::Ask(_) => false,
                },
            },
    {
        let actions = collect_actions(files);
        let ghost all = views(actions@);
        let mut found: Vec<LatestReference> = Vec::new();
        let mut at: usize = 0;
        let mut i: usize = 0;
        assert(views(found@) == Seq::<LatestView>::empty());
        while i < actions.len()
            invariant
                i <= actions.len(),
                at <= docs.len(),
                found.len() == i,
                all == views(actions@),
                all == all_actions(views(files@)),
                versions_of(all, docs@) == versions_from(
                    all,
                    i as int,
                    views(found@),
                    docs@,
                    at as int,
                ),
            decreases actions.len() - i,
        {
            let action = &actions[i];
            let ghost before = views(found@);
            assert(action@ == all[i as int]);
            match self.github.latest_reference(&action.owner, &action.repository, docs, at) {
                Progress::Ask(request) => {
                    return Progress::Ask(request);
                },
                Progress::Failed(message) => {
                    return Progress::Failed(message);
                },
                Progress::Done(newest, next) => {
                    found.push(newest);
                    assert(views(found@) == before.push(newest@));
                    at = next;
                },
            }
            i = i + 1;
        }
        match self.update_to(options, files, &found) {
            Ok(report) => Progress::Done(report, at),
            Err(message) => Progress::Failed(message),
        }
    }

    /// Reports for every action of the files the version that it is at and the latest
    /// one, which `latest` gives for each action. Except in `Status` mode, actions that
    /// are not pinned to the latest version are moved to it, and `file_updates` is what
    /// the files are to hold.
    fn update_to(
        &self,
        options: &UpdateOptions,
        files: &Vec<WorkflowFile>,
        latest: &Vec<LatestReference>,
    ) -> (result: Result<UpdateReport, String>)
        requires
            latest@.len() == all_actions(views(files@)).len(),
        ensures
            is_update(result, options.mode, views(files@), views(latest@)),
    {
        let actions = collect_actions(files);
        let ghost all = views(actions@);
        let ghost newest = views(latest@);
        let mut already_pinned: usize = 0;
        let mut entries: Vec<VersionEntry> = Vec::new();
        let mut changes: Vec<PinChange> = Vec::new();
        let mut i: usize = 0;
        proof {
            lemma_all_action_lines(views(files@));
        }
        assert(views(changes@) == Seq::<PinChangeView>::empty());
        while i < actions.len()
            invariant
                i <= actions.len(),
                actions@.len() == latest@.len(),
                all == views(actions@),
                all == all_actions(views(files@)),
                newest == views(latest@),
                already_pinned <= i,
                already_pinned == count_pinned(all.take(i as int)),
                entries.len() == i,
                forall|k: int|
                    0 <= k < i ==> (#[trigger] entries@[k])@ == entry_for(all[k], newest[k]),
                options.mode != UpdateMode::Status ==> views(changes@) == changes_among(
                    all,
                    newest,
                    i as int,
                ),
                options.mode == UpdateMode::Status ==> changes@.len() == 0,
                forall|k: int| 0 <= k < all.len() ==> (#[trigger] all[k]).line_number >= 1,
                forall|k: int|
                    0 <= k < changes@.len() ==> (#[trigger] changes@[k]).line_number >= 1,
            decreases actions.len() - i,
        {
            let action = &actions[i];
            let pinned = action.is_pinned();
            proof {
                assert(all.take(i + 1).drop_last() == all.take(i as int));
                assert(all.take(i + 1).last() == action@);
                assert(all[i as int] == action@);
                assert(newest[i as int] == latest@[i as int]@);
            }
            if pinned {
                already_pinned = already_pinned + 1;
            }
            let current_version = action.logical_version();
            let update_needed = !pinned || !same(&action.version, &latest[i].sha) || !same(
                &current_version,
                &latest[i].version,
            );
            let current_sha = if pinned {
                Some(action.version.clone())
            } else {
                None
            };
            entries.push(
                VersionEntry {
                    file: action.file.clone(),
                    line_number: action.line_number,
                    action_slug: action.action_slug.clone(),
                    pinned,
                    current_version: current_version.clone(),
                    current_sha,
                    latest_version: latest[i].version.clone(),
                    latest_sha: latest[i].sha.clone(),
                    update_needed,
                },
            );
            if update_needed && options.mode != UpdateMode::Status {
                let ghost before = changes@;
                let change = PinChange {
                    file: action.file.clone(),
                    line_number: action.line_number,
                    action_slug: action.action_slug.clone(),
                    from_version: current_version,
                    to_sha: latest[i].sha.clone(),
                    original_line: action.original_line.clone(),
                    rewritten_line: action.rendered_line(&latest[i].sha, &latest[i].version),
                };
                changes.push(change);
                assert(views(changes@) == views(before).push(change@));
            }
            i = i + 1;
        }
        proof {
            assert(all.take(i as int) == all);
            assert(views(entries@) == entries_for(all, newest));
            assert(views(changes@) == update_changes(options.mode, all, newest));
        }
        match apply_changes(files, &changes) {
            Ok(file_updates) => Ok(
                UpdateReport {
                    workflow_files: files.len(),
                    references_scanned: actions.len(),
                    already_pinned,
                    entries,
                    changes,
                    file_updates,
                },
            ),
            Err(failure) => Err(failure.message),
        }
    }
}

proof fn lemma_no_changes_no_updates(files: Seq<WorkflowFileView>)
    ensures
        file_updates(files, Seq::empty()) == Seq::<FileUpdateView>::empty(),
        first_failure(files, Seq::empty()) is None,
    decreases files.len(),
{
    if files.len() > 0 {
        lemma_no_changes_no_updates(files.drop_last());
        reveal(Seq::filter);
        assert(changes_for(files.last().path, Seq::empty()) == Seq::<PinChangeView>::empty());
    }
}

/// Reporting the versions changes nothing: there are no changes and no files to write,
/// and it never fails.
pub proof fn law_status_changes_nothing(
    files: Seq<WorkflowFileView>,
    actions: Seq<ActionView>,
    latest: Seq<LatestView>,
)
    ensures
        update_changes(UpdateMode::Status, actions, latest) == Seq::<PinChangeView>::empty(),
        file_updates(files, update_changes(UpdateMode::Status, actions, latest)) == Seq::<
            FileUpdateView,
        >::empty(),
        first_failure(files, update_changes(UpdateMode::Status, actions, latest)) is None,
{
    lemma_no_changes_no_updates(files);
}

} // verus!
