//! Pinning the actions of workflow files to the commits that their references name.

use vstd::prelude::*;

use crate::api::{name_for, Document, Progress, ProgressView};
use crate::github::GitHubClient;
use crate::model::{
    ActionView, FileUpdate, FileUpdateView, PinChange, PinChangeView, PinReport, WorkflowAction,
};
use crate::requests::resolve_request;
use crate::text::views;
use crate::workflow::{
    actions_of, apply_changes, file_updates, first_failure, scan_workflow, WorkflowFile,
    WorkflowFileView,
};

verus! {

/// Whether files are rewritten.
#[derive(Debug, Clone, Copy, PartialEq, Eq, Structural)]
pub enum PinMode {
    Apply,
    DryRun,
}

/// What is to be pinned, and whether files are rewritten.
#[derive(Debug, Clone, PartialEq, Eq)]
pub struct PinOptions {
    pub repo_root: String,
    pub workflows_path: String,
    pub mode: PinMode,
}

/// Pins actions.
#[derive(Debug, Clone, PartialEq, Eq)]
pub struct WorkflowPinner {
    pub github: GitHubClient,
}

/// What pinning comes to: the report, and what files are to hold.
#[derive(Debug, Clone, PartialEq, Eq)]
pub struct PinOutcome {
    pub report: PinReport,
    pub file_updates: Vec<FileUpdate>,
}

/// The actions of all files, file by file.
pub open spec fn all_actions(files: Seq<WorkflowFileView>) -> Seq<ActionView>
    decreases files.len(),
{
    if files.len() == 0 {
        Seq::empty()
    } else {
        all_actions(files.drop_last()) + actions_of(files.last())
    }
}

/// The actions that are not pinned.
pub open spec fn unpinned(actions: Seq<ActionView>) -> Seq<ActionView> {
    actions.filter(|action: ActionView| !action.is_pinned())
}

/// The commits that the references of the actions from the `i`-th on name, behind those
/// found so far.
pub open spec fn commits_from(
    actions: Seq<ActionView>,
    i: int,
    so_far: Seq<Seq<char>>,
    docs: Seq<Document>,
    at: int,
) -> ProgressView<Seq<Seq<char>>>
    decreases actions.len() - i,
{
    if i < 0 || i >= actions.len() {
        ProgressView::Done(so_far, at)
    } else {
        match name_for(
            docs,
            at,
            resolve_request(actions[i].owner, actions[i].repository, actions[i].version),
        ) {
            ProgressView::Ask(request) => ProgressView::Ask(request),
            ProgressView::Failed(message) => ProgressView::Failed(message),
            ProgressView::Done(sha, next) => commits_from(
                actions,
                i + 1,
                so_far.push(sha),
                docs,
                next,
            ),
        }
    }
}

/// The commits that the references of the actions name.
pub open spec fn commits_of(actions: Seq<ActionView>, docs: Seq<Document>) -> ProgressView<
    Seq<Seq<char>>,
> {
    commits_from(actions, 0, Seq::empty(), docs, 0)
}

/// The change of a line that pins its action and keeps the reference in a comment.
pub open spec fn pin_change(action: ActionView, sha: Seq<char>) -> PinChangeView {
    PinChangeView {
        file: action.file,
        line_number: action.line_number,
        action_slug: action.action_slug,
        from_version: action.version,
        to_sha: sha,
        original_line: action.original_line,
        rewritten_line: action.rendered_line(sha, action.version),
    }
}

/// The changes that pin the actions to the commits.
pub open spec fn pin_changes(actions: Seq<ActionView>, shas: Seq<Seq<char>>) -> Seq<
    PinChangeView,
> {
    let loose = unpinned(actions);
    Seq::new(loose.len(), |i: int| pin_change(loose[i], shas[i]))
}

/// The result is what pinning the actions of the files to the commits comes to.
pub open spec fn is_pinning(
    result: Result<PinOutcome, String>,
    mode: PinMode,
    files: Seq<WorkflowFileView>,
    shas: Seq<Seq<char>>,
) -> bool {
    let actions = all_actions(files);
    let changes = pin_changes(actions, shas);
    let failure = first_failure(files, changes);
    match result {
        Ok(outcome) => {
            &&& mode == PinMode::Apply ==> failure is None
            &&& outcome.report.workflow_files == files.len()
            &&& outcome.report.references_scanned == actions.len()
            &&& outcome.report.already_pinned == actions.len() - unpinned(actions).len()
            &&& views(outcome.report.changes@) == changes
            &&& views(outcome.file_updates@) == if mode == PinMode::Apply {
                file_updates(files, changes)
            } else {
                Seq::empty()
            }
        },
        Err(message) => mode == PinMode::Apply && failure == Some(message@),
    }
}

/// All actions of the files, in one list.
pub(crate) fn collect_actions(files: &Vec<WorkflowFile>) -> (result: Vec<WorkflowAction>)
    ensures
        views(result@) == all_actions(views(files@)),
{
    let ghost all = views(files@);
    let mut result: Vec<WorkflowAction> = Vec::new();
    let mut i: usize = 0;
    assert(views(result@) == all_actions(all.take(0)));
    while i < files.len()
        invariant
            i <= files.len(),
            all == views(files@),
            views(result@) == all_actions(all.take(i as int)),
        decreases files.len() - i,
    {
        let ghost before = result@;
        let mut found = scan_workflow(&files[i]);
        let ghost more = found@;
        result.append(&mut found);
        proof {
            assert(views(result@) == views(before) + views(more));
            assert(all.take(i + 1).drop_last() == all.take(i as int));
            assert(all.take(i + 1).last() == files@[i as int]@);
        }
        i = i + 1;
    }
    assert(all.take(i as int) == all);
    result
}

/// The places of the actions that are not pinned.
fn unpinned_places(actions: &Vec<WorkflowAction>) -> (result: Vec<usize>)
    ensures
        result@.len() == unpinned(views(actions@)).len(),
        result@.len() <= actions@.len(),
        forall|i: int|
            0 <= i < result@.len() ==> (#[trigger] result@[i]) < actions@.len() && actions@[result@[i] as int]@
                == unpinned(views(actions@))[i],
{
    let ghost all = views(actions@);
    let mut result: Vec<usize> = Vec::new();
    let mut i: usize = 0;
    proof {
        reveal(Seq::filter);
    }
    assert(unpinned(all.take(0)) == Seq::<ActionView>::empty());
    while i < actions.len()
        invariant
            i <= actions.len(),
            all == views(actions@),
            result@.len() == unpinned(all.take(i as int)).len(),
            result@.len() <= i,
            forall|k: int|
                0 <= k < result@.len() ==> (#[trigger] result@[k]) < i && actions@[result@[k] as int]@
                    == unpinned(all.take(i as int))[k],
        decreases actions.len() - i,
    {
        proof {
            reveal(Seq::filter);
            assert(all.take(i + 1).drop_last() == all.take(i as int));
            assert(all.take(i + 1).last() == actions@[i as int]@);
        }
        if !actions[i].is_pinned() {
            result.push(i);
        }
        i = i + 1;
    }
    assert(all.take(i as int) == all);
    result
}

impl WorkflowPinner {
    /// A pinner that asks the given client.
    pub fn new(github: GitHubClient) -> (result: Self)
        ensures
            result.github == github,
    {
        WorkflowPinner { github }
    }

    /// Pins the actions of the files to the commits that their references name. `docs`
    /// are the answers so far; the result is the next request, what pinning comes to, or
    /// why it fails.
    pub fn pin(
        &self,
        options: &PinOptions,
        files: &Vec<WorkflowFile>,
        docs: &Vec<Document>,
    ) -> (result: Progress<PinOutcome>)
        ensures
            match commits_of(unpinned(all_actions(views(files@))), docs@) {
                ProgressView::Ask(request) => result matches Progress::Ask(asked) && asked@
                    == request,
                ProgressView::Failed(message) => result matches Progress::Failed(told) && told@
                    == message,
                ProgressView::Done(shas, next) => match result {
                    Progress::Done(outcome, read) => read == next && is_pinning(
                        Ok(outcome),
                        options.mode,
                        views(files@),
                        shas,
                    ),
                    Progress::Failed(message) => is_pinning(
                        Err(message),
                        options.mode,
                        views(files@),
                        shas,
                    ),
                    Progress::Ask(_) => false,
                },
            },
    {
        let actions = collect_actions(files);
        let places = unpinned_places(&actions);
        let ghost loose = unpinned(views(actions@));
        let mut shas: Vec<String> = Vec::new();
        let mut at: usize = 0;
        let mut i: usize = 0;
        assert(views(shas@) == Seq::<Seq<char>>::empty());
        while i < places.len()
            invariant
                i <= places.len(),
                at <= docs.len(),
                places@.len() == loose.len(),
                shas.len() == i,
                loose == unpinned(all_actions(views(files@))),
                forall|k: int|
                    0 <= k < places@.len() ==> (#[trigger] places@[k]) < actions@.len()
                        && actions@[places@[k] as int]@ == loose[k],
                commits_of(loose, docs@) == commits_from(
                    loose,
                    i as int,
                    views(shas@),
                    docs@,
                    at as int,
                ),
            decreases places.len() - i,
        {
            let action = &actions[places[i]];
            let ghost before = views(shas@);
            assert(action@ == loose[i as int]);
            match self.github.resolve_reference(
                &action.owner,
                &action.repository,
                &action.version,
                docs,
                at,
            ) {
                Progress::Ask(request) => {
                    return Progress::Ask(request);
                },
                Progress::Failed(message) => {
                    return Progress::Failed(message);
                },
                Progress::Done(sha, next) => {
                    shas.push(sha);
                    assert(views(shas@) == before.push(sha@));
                    at = next;
                },
            }
            i = i + 1;
        }
        match self.pin_to(options, files, &shas) {
            Ok(outcome) => Progress::Done(outcome, at),
            Err(message) => Progress::Failed(message),
        }
    }

    /// Pins the actions of the files to commits, one for each action that is not
    /// pinned. Actions that are pinned already stay as they are. Only in `Apply` mode is
    /// there anything to write.
    fn pin_to(
        &self,
        options: &PinOptions,
        files: &Vec<WorkflowFile>,
        shas: &Vec<String>,
    ) -> (result: Result<PinOutcome, String>)
        requires
            shas@.len() == unpinned(all_actions(views(files@))).len(),
        ensures
            is_pinning(result, options.mode, views(files@), views(shas@)),
    {
        let actions = collect_actions(files);
        let places = unpinned_places(&actions);
        let ghost loose = unpinned(views(actions@));
        let mut changes: Vec<PinChange> = Vec::new();
        let mut i: usize = 0;
        while i < places.len()
            invariant
                i <= places.len(),
                places@.len() == loose.len() == shas@.len(),
                changes.len() == i,
                forall|k: int|
                    0 <= k < places@.len() ==> (#[trigger] places@[k]) < actions@.len()
                        && actions@[places@[k] as int]@ == loose[k],
                forall|k: int|
                    0 <= k < i ==> (#[trigger] changes@[k])@ == pin_change(loose[k], shas@[k]@),
            decreases places.len() - i,
        {
            let at = places[i];
            assert(actions@[places@[i as int] as int]@ == loose[i as int]);
            changes.push(
                PinChange {
                    file: actions[at].file.clone(),
                    line_number: actions[at].line_number,
                    action_slug: actions[at].action_slug.clone(),
                    from_version: actions[at].version.clone(),
                    to_sha: shas[i].clone(),
                    original_line: actions[at].original_line.clone(),
                    rewritten_line: actions[at].rendered_line(&shas[i], &actions[at].version),
                },
            );
            i = i + 1;
        }
        proof {
            assert(views(changes@) == pin_changes(views(actions@), views(shas@)));
            lemma_unpinned_lines(views(files@));
            assert forall|k: int| 0 <= k < changes@.len() implies (
            #[trigger] changes@[k]).line_number >= 1 by {
                assert(changes@[k]@ == pin_change(loose[k], shas@[k]@));
            }
        }
        let mut file_updates: Vec<FileUpdate> = Vec::new();
        if options.mode == PinMode::Apply {
            match apply_changes(files, &changes) {
                Ok(updates) => {
                    file_updates = updates;
                },
                Err(failure) => {
                    return Err(failure.message);
                },
            }
        } else {
            assert(views(file_updates@) == Seq::<FileUpdateView>::empty());
        }
        let report = PinReport {
            workflow_files: files.len(),
            references_scanned: actions.len(),
            already_pinned: actions.len() - places.len(),
            changes,
        };
        Ok(PinOutcome { report, file_updates })
    }
}

/// An action stands on a line of its file.
pub(crate) proof fn lemma_action_lines(file: Seq<char>, all: Seq<Seq<char>>)
    ensures
        forall|i: int|
            0 <= i < crate::workflow::actions_on(file, all).len() ==> {
                let action = #[trigger] crate::workflow::actions_on(file, all)[i];
                &&& 1 <= action.line_number <= all.len()
                &&& action.file == file
                &&& crate::workflow::action_on_line(
                    file,
                    all[action.line_number - 1],
                    action.line_number,
                ) == Some(action)
            },
    decreases all.len(),
{
    if all.len() > 0 {
        lemma_action_lines(file, all.drop_last());
    }
}

/// Every action of the files stands on a line of a file.
pub(crate) proof fn lemma_all_action_lines(files: Seq<WorkflowFileView>)
    ensures
        forall|i: int|
            0 <= i < all_actions(files).len() ==> (#[trigger] all_actions(files)[i]).line_number
                >= 1,
    decreases files.len(),
{
    if files.len() > 0 {
        lemma_all_action_lines(files.drop_last());
        lemma_action_lines(
            files.last().path,
            crate::text::lines(files.last().content),
        );
    }
}

/// What a filter keeps was there before.
pub(crate) proof fn lemma_unpinned_from(actions: Seq<ActionView>)
    ensures
        unpinned(actions).len() <= actions.len(),
        forall|i: int|
            0 <= i < unpinned(actions).len() ==> actions.contains(#[trigger] unpinned(actions)[i])
                && !unpinned(actions)[i].is_pinned(),
    decreases actions.len(),
{
    reveal(Seq::filter);
    if actions.len() > 0 {
        let before = actions.drop_last();
        lemma_unpinned_from(before);
        assert forall|i: int| 0 <= i < unpinned(actions).len() implies actions.contains(
            #[trigger] unpinned(actions)[i],
        ) && !unpinned(actions)[i].is_pinned() by {
            if i < unpinned(before).len() {
                assert(unpinned(actions)[i] == unpinned(before)[i]);
                let k = choose|k: int| 0 <= k < before.len() && before[k] == unpinned(before)[i];
                assert(actions[k] == before[k]);
            } else {
                assert(actions[actions.len() - 1] == actions.last());
            }
        }
    }
}

proof fn lemma_unpinned_lines(files: Seq<WorkflowFileView>)
    ensures
        forall|i: int|
            0 <= i < unpinned(all_actions(files)).len() ==> (
            #[trigger] unpinned(all_actions(files))[i]).line_number >= 1,
{
    let actions = all_actions(files);
    lemma_all_action_lines(files);
    lemma_unpinned_from(actions);
    assert forall|i: int| 0 <= i < unpinned(actions).len() implies (
    #[trigger] unpinned(actions)[i]).line_number >= 1 by {
        let k = choose|k: int| 0 <= k < actions.len() && actions[k] == unpinned(actions)[i];
        assert(actions[k].line_number >= 1);
    }
}

} // verus!
