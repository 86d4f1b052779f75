//! What a run asks for each action, what its report tells, and where files are looked for.

use vstd::prelude::*;

use crate::api::{
    carried_out, carried_out_or_refused, name_for, name_if_there, pull_request_for, tags_for,
    Document, ProgressView, RequestView,
};
use crate::calls::latest;
use crate::cargo::{has_lockfile, is_skipped_directory, ManifestFileView};
use crate::change_laws::{is_moved, is_touched, law_pinned_actions_are_counted, written};
use crate::github::LatestView;
use crate::manifest::{parsed_toml, toml_error, NodeView, TableView};
use crate::model::ActionView;
use crate::pinning::{all_actions, commits_from, commits_of, is_pinning, PinMode, PinOutcome};
use crate::publish_laws::{are_names, is_name};
use crate::requests::{resolve_request, url_encoded};
use crate::scan_laws::is_commit;
use crate::text::views;
use crate::update::{is_update, versions_from, versions_of, UpdateMode, UpdateReport};
use crate::versioning::{locked, lockfile_changes, plan_failure, version_of, version_result};
use crate::workflow::{file_updates, WorkflowFileView};

verus! {

// ---------------------------------------------------------------------------
// Questions
// ---------------------------------------------------------------------------
/// The version of every action is resolved in its own repository, in the order of the actions;
/// the answers are their commits.
pub proof fn law_every_version_is_resolved(
    actions: Seq<ActionView>,
    docs: Seq<Document>,
    names: Seq<Seq<char>>,
)
    requires
        are_names(docs, 0, names),
        names.len() <= actions.len(),
    ensures
        names.len() == actions.len() ==> commits_of(actions, docs) == ProgressView::Done(
            names,
            names.len() as int,
        ),
        names.len() < actions.len() && names.len() == docs.len() ==> (commits_of(
            actions,
            docs,
        ) matches ProgressView::Ask(request) && request.path == "/repos/"@
            + actions[names.len() as int].owner + "/"@ + actions[names.len() as int].repository + (
        "/commits/"@ + url_encoded(actions[names.len() as int].version))),
{
    assert(names.take(0) == Seq::<Seq<char>>::empty());
    lemma_commits(actions, docs, names, 0);
}

proof fn lemma_commits(
    actions: Seq<ActionView>,
    docs: Seq<Document>,
    names: Seq<Seq<char>>,
    i: int,
)
    requires
        are_names(docs, 0, names),
        0 <= i <= names.len() <= actions.len(),
    ensures
        names.len() == actions.len() ==> commits_from(actions, i, names.take(i), docs, i)
            == ProgressView::Done(names, names.len() as int),
        names.len() < actions.len() && names.len() == docs.len() ==> commits_from(
            actions,
            i,
            names.take(i),
            docs,
            i,
        ) == ProgressView::<Seq<Seq<char>>>::Ask(
            resolve_request(
                actions[names.len() as int].owner,
                actions[names.len() as int].repository,
                actions[names.len() as int].version,
            ),
        ),
    decreases names.len() - i,
{
    if i < names.len() {
        assert(is_name(docs[0 + i], names[i]));
        assert(names.take(i).push(names[i]) == names.take(i + 1));
        lemma_commits(actions, docs, names, i + 1);
    } else {
        assert(names.take(i) == names);
    }
}

/// The answers hold the latest version of each action, each behind that of the action before.
pub open spec fn are_latest(
    actions: Seq<ActionView>,
    docs: Seq<Document>,
    found: Seq<LatestView>,
    ends: Seq<int>,
) -> bool {
    &&& ends.len() == found.len() + 1
    &&& ends[0] == 0
    &&& found.len() <= actions.len()
    &&& forall|i: int|
        0 <= i < found.len() ==> latest(
            actions[i].owner,
            actions[i].repository,
            docs,
            ends[i],
        ) == ProgressView::Done(#[trigger] found[i], ends[i + 1])
}

/// The latest version of every action is looked for in its own repository, in the order of the
/// actions.
pub proof fn law_every_latest_version_is_found(
    actions: Seq<ActionView>,
    docs: Seq<Document>,
    found: Seq<LatestView>,
    ends: Seq<int>,
)
    requires
        are_latest(actions, docs, found, ends),
    ensures
        found.len() == actions.len() ==> versions_of(actions, docs) == ProgressView::Done(
            found,
            ends.last(),
        ),
        forall|request: RequestView|
            found.len() < actions.len() && latest(
                actions[found.len() as int].owner,
                actions[found.len() as int].repository,
                docs,
                ends.last(),
            ) == ProgressView::<LatestView>::Ask(request) ==> #[trigger] asks(
                versions_of(actions, docs),
                request,
            ),
{
    assert(found.take(0) == Seq::<LatestView>::empty());
    lemma_versions(actions, docs, found, ends, 0);
}

/// The request is asked for.
pub open spec fn asks(progress: ProgressView<Seq<LatestView>>, request: RequestView) -> bool {
    progress == ProgressView::<Seq<LatestView>>::Ask(request)
}

proof fn lemma_versions(
    actions: Seq<ActionView>,
    docs: Seq<Document>,
    found: Seq<LatestView>,
    ends: Seq<int>,
    i: int,
)
    requires
        are_latest(actions, docs, found, ends),
        0 <= i <= found.len(),
    ensures
        found.len() == actions.len() ==> versions_from(actions, i, found.take(i), docs, ends[i])
            == ProgressView::Done(found, ends.last()),
        forall|request: RequestView|
            found.len() < actions.len() && latest(
                actions[found.len() as int].owner,
                actions[found.len() as int].repository,
                docs,
                ends.last(),
            ) == ProgressView::<LatestView>::Ask(request) ==> #[trigger] asks(
                versions_from(actions, i, found.take(i), docs, ends[i]),
                request,
            ),
    decreases found.len() - i,
{
    if i < found.len() {
        assert(latest(actions[i].owner, actions[i].repository, docs, ends[i])
            == ProgressView::Done(found[i], ends[i + 1]));
        assert(found.take(i).push(found[i]) == found.take(i + 1));
        lemma_versions(actions, docs, found, ends, i + 1);
    } else {
        assert(found.take(i) == found);
        assert(ends[i] == ends.last());
    }
}

/// An answer of another sort than was asked for is a failure that tells what was asked.
pub proof fn law_unexpected_answers_fail(docs: Seq<Document>, at: int, request: RequestView)
    requires
        0 <= at < docs.len(),
    ensures
        !(docs[at] is Name) ==> name_for(docs, at, request) == ProgressView::<Seq<char>>::Failed(
            request.context + ": unexpected answer"@,
        ),
        !(docs[at] is Name) && !(docs[at] is Missing) ==> name_if_there(docs, at, request) is Failed,
        !(docs[at] is Nothing) ==> carried_out(docs, at, request) is Failed,
        !(docs[at] is Nothing) && !(docs[at] is Refused) ==> carried_out_or_refused(
            docs,
            at,
            request,
        ) is Failed,
        !(docs[at] is PullRequest) ==> pull_request_for(docs, at, request) is Failed,
        !(docs[at] is Tags) ==> tags_for(docs, at, request) is Failed,
        docs[at] is Missing ==> name_if_there(docs, at, request) == ProgressView::Done(
            None::<Seq<char>>,
            at + 1,
        ),
        docs[at] is Nothing ==> carried_out(docs, at, request) == ProgressView::Done((), at + 1),
        docs[at] is Nothing ==> carried_out_or_refused(docs, at, request) == ProgressView::Done(
            true,
            at + 1,
        ),
        docs[at] is Refused ==> carried_out_or_refused(docs, at, request) == ProgressView::Done(
            false,
            at + 1,
        ),
{
}

// ---------------------------------------------------------------------------
// Reports
// ---------------------------------------------------------------------------
/// The report of pinning counts all references: those that were pinned already and those with
/// a change. Files are written only where the changes are applied, and then every file that a
/// change names.
pub proof fn law_pinning_tells_what_it_does(
    outcome: PinOutcome,
    mode: PinMode,
    files: Seq<WorkflowFileView>,
    shas: Seq<Seq<char>>,
)
    requires
        is_pinning(Ok(outcome), mode, files, shas),
    ensures
        outcome.report.workflow_files == files.len(),
        outcome.report.references_scanned == all_actions(files).len(),
        outcome.report.already_pinned + outcome.report.changes@.len()
            == outcome.report.references_scanned,
        outcome.report.already_pinned == all_actions(files).filter(
            |action: ActionView| is_commit(action.version),
        ).len(),
        mode == PinMode::DryRun ==> outcome.file_updates@.len() == 0,
        mode == PinMode::Apply ==> forall|f: int|
            0 <= f < files.len() && is_touched(files[f].path, views(outcome.report.changes@))
                ==> views(outcome.file_updates@).contains(
                written(#[trigger] files[f], views(outcome.report.changes@)),
            ),
{
    law_pinned_actions_are_counted(all_actions(files));
    crate::change_laws::law_touched_files_are_written(files, views(outcome.report.changes@));
    assert(views(outcome.file_updates@).len() == outcome.file_updates@.len());
    assert(views(outcome.report.changes@).len() == outcome.report.changes@.len());
}

/// Pinning fails only where it applies its changes.
pub proof fn law_dry_pinning_does_not_fail(
    message: String,
    files: Seq<WorkflowFileView>,
    shas: Seq<Seq<char>>,
)
    ensures
        !is_pinning(Err(message), PinMode::DryRun, files, shas),
{
}

/// The report of an update tells of every reference, counts the pinned ones, and moves and
/// writes what is not current unless only the state is asked for.
pub proof fn law_updating_tells_what_it_does(
    report: UpdateReport,
    mode: UpdateMode,
    files: Seq<WorkflowFileView>,
    found: Seq<LatestView>,
)
    requires
        is_update(Ok(report), mode, files, found),
    ensures
        report.workflow_files == files.len(),
        report.references_scanned == all_actions(files).len(),
        report.entries@.len() == all_actions(files).len(),
        report.already_pinned == all_actions(files).filter(
            |action: ActionView| is_commit(action.version),
        ).len(),
        mode == UpdateMode::Status ==> report.changes@.len() == 0 && report.file_updates@.len() == 0,
        mode != UpdateMode::Status ==> forall|k: int|
            0 <= k < all_actions(files).len() && !crate::change_laws::is_current(
                all_actions(files)[k],
                found[k],
            ) ==> is_moved(views(report.changes@), #[trigger] all_actions(files)[k], found[k]),
        forall|f: int|
            0 <= f < files.len() && is_touched(files[f].path, views(report.changes@)) ==> views(
                report.file_updates@,
            ).contains(written(#[trigger] files[f], views(report.changes@))),
{
    law_pinned_actions_are_counted(all_actions(files));
    crate::change_laws::law_every_stale_action_is_moved(mode, all_actions(files), found);
    crate::change_laws::law_touched_files_are_written(files, views(report.changes@));
    crate::update::law_status_changes_nothing(files, all_actions(files), found);
    assert(views(report.entries@).len() == report.entries@.len());
    assert(views(report.changes@).len() == report.changes@.len());
    assert(views(report.file_updates@).len() == report.file_updates@.len());
}

// ---------------------------------------------------------------------------
// Manifests and lockfiles
// ---------------------------------------------------------------------------
/// Build outputs, version control and installed packages are not searched.
pub proof fn law_generated_directories_are_skipped(name: Seq<char>)
    ensures
        is_skipped_directory(name) == (seq![
            "target"@,
            "node_modules"@,
            ".git"@,
            ".hg"@,
            ".svn"@,
        ]).contains(name),
{
    let all = seq!["target"@, "node_modules"@, ".git"@, ".hg"@, ".svn"@];
    if is_skipped_directory(name) {
        assert(all[0] == "target"@ && all[1] == "node_modules"@ && all[2] == ".git"@);
        assert(all[3] == ".hg"@ && all[4] == ".svn"@);
    }
    if all.contains(name) {
        let i = choose|i: int| 0 <= i < all.len() && all[i] == name;
    }
}

/// A manifest has a lockfile when a `Cargo.lock` stands beside it.
pub proof fn law_lockfile_stands_beside_its_manifest(
    files: Seq<Seq<char>>,
    directory: Seq<char>,
)
    ensures
        has_lockfile(files, directory + "/Cargo.toml"@) == (files.contains(
            directory + "/Cargo.toml"@,
        ) && files.contains(directory + "/Cargo.lock"@)),
{
    reveal_strlit("/Cargo.toml");
    reveal_strlit("/Cargo.lock");
    reveal_strlit("Cargo.lock");
    reveal_strlit("Cargo.toml");
    let manifest = directory + "/Cargo.toml"@;
    let lock = directory + "/Cargo.lock"@;
    assert(!"Cargo.lock"@.contains('/'));
    assert(!"Cargo.toml"@.contains('/'));
    assert("/Cargo.lock"@ == seq!['/'] + "Cargo.lock"@);
    assert("/Cargo.toml"@ == seq!['/'] + "Cargo.toml"@);
    assert(lock == directory + seq!['/'] + "Cargo.lock"@);
    crate::member_laws::law_manifest_is_in_the_same_directory(directory, "Cargo.lock"@);
    crate::path_laws::law_name_stands_behind_the_last_slash(directory, "Cargo.lock"@);
    if files.contains(lock) {
        let i = choose|i: int| 0 <= i < files.len() && files[i] == lock;
        assert(crate::paths::file_name(files[i]) == "Cargo.lock"@);
        assert(crate::cargo::manifest_beside(files[i]) == manifest);
    }
    if has_lockfile(files, manifest) {
        let i = choose|i: int|
            0 <= i < files.len() && crate::paths::file_name(#[trigger] files[i]) == "Cargo.lock"@
                && crate::cargo::manifest_beside(files[i]) == manifest;
        lemma_lock(files[i], directory);
        assert(files[i] == lock);
    }
}

proof fn lemma_lock(path: Seq<char>, directory: Seq<char>)
    requires
        crate::paths::file_name(path) == "Cargo.lock"@,
        crate::cargo::manifest_beside(path) == directory + "/Cargo.toml"@,
    ensures
        path == directory + "/Cargo.lock"@,
{
    reveal_strlit("/Cargo.toml");
    reveal_strlit("/Cargo.lock");
    reveal_strlit("Cargo.lock");
    reveal_strlit("Cargo.toml");
    reveal_strlit("/");
    crate::workflow_laws::lemma_find_last(path, '/', path.len() as int);
    let at = crate::text::find_last_before(path, '/', path.len() as int);
    if at >= 0 {
        let parent = path.take(at);
        assert(parent + "/"@ + "Cargo.toml"@ == directory + "/Cargo.toml"@);
        assert((parent + "/"@ + "Cargo.toml"@).len() == parent.len() + 11);
        assert(parent == directory) by {
            let whole = directory + "/Cargo.toml"@;
            assert(whole.take(parent.len() as int) == parent);
            assert(whole.take(directory.len() as int) == directory);
        }
        assert(path == parent + seq!['/'] + path.skip(at + 1));
        assert(path == directory + "/Cargo.lock"@);
    } else {
        assert("Cargo.toml"@.len() == 10);
        assert((directory + "/Cargo.toml"@).len() >= 11);
    }
}

/// A plan fails on the first thing that is wrong: the version of the first manifest, then a
/// manifest that cannot be read, then a lockfile that cannot be.
pub proof fn law_plan_fails_on_what_is_wrong(
    files: Seq<ManifestFileView>,
    lockfile: Option<ManifestFileView>,
)
    requires
        files.len() > 0,
    ensures
        plan_failure(files, lockfile) is None ==> {
            &&& parsed_toml(files[0].content) is Some
            &&& version_of(parsed_toml(files[0].content)->0) is Some
            &&& forall|f: int|
                0 <= f < files.len() ==> parsed_toml((#[trigger] files[f]).content) is Some
            &&& lockfile is Some ==> parsed_toml(lockfile->0.content) is Some
        },
        parsed_toml(files[0].content) is None ==> plan_failure(files, lockfile) == Some(
            "failed to parse Cargo manifest '"@ + files[0].path + "': "@ + toml_error(
                files[0].content,
            ),
        ),
        (parsed_toml(files[0].content) matches Some(nodes) && version_of(nodes) is None)
            ==> plan_failure(files, lockfile) == Some(
            "unable to determine current version from '"@ + files[0].path + "'"@,
        ),
        version_result(files[0]) is Ok && (forall|f: int|
            0 <= f < files.len() ==> parsed_toml((#[trigger] files[f]).content) is Some) && (
        lockfile matches Some(lock) && parsed_toml(lock.content) is None) ==> plan_failure(
            files,
            lockfile,
        ) == Some(
            "failed to parse lockfile '"@ + lockfile->0.path + "': "@ + toml_error(
                lockfile->0.content,
            ),
        ),
{
    crate::rewrite_laws::law_first_broken_manifest_is_told(files, 0);
}

/// A lockfile changes when it holds a package of the workspace, and only its packages do.
pub proof fn law_lockfile_changes_with_its_packages(
    file: ManifestFileView,
    packages: Seq<TableView>,
    internal: Seq<Seq<char>>,
    version: Seq<char>,
)
    requires
        parsed_toml(file.content) is Some,
        parsed_toml(file.content)->0.contains_key(seq!["package"@]),
        parsed_toml(file.content)->0[seq!["package"@]] == NodeView::Tables(packages),
    ensures
        lockfile_changes(file, internal) == (exists|i: int|
            0 <= i < packages.len() && is_own(#[trigger] packages[i], internal)),
        ({
            let nodes = parsed_toml(file.content)->0;
            let after = locked(nodes, internal, version);
            &&& after.dom() == nodes.dom()
            &&& forall|path: Seq<Seq<char>>|
                #[trigger] nodes.contains_key(path) && path != seq!["package"@] ==> after[path]
                    == nodes[path]
        }),
{
    let nodes = parsed_toml(file.content)->0;
    if exists|i: int| 0 <= i < packages.len() && is_own(#[trigger] packages[i], internal) {
        let i = choose|i: int| 0 <= i < packages.len() && is_own(#[trigger] packages[i], internal);
        assert(crate::versioning::is_internal(packages[i], internal));
    }
    if lockfile_changes(file, internal) {
        let i = choose|i: int|
            0 <= i < packages.len() && crate::versioning::is_internal(
                #[trigger] packages[i],
                internal,
            );
        assert(is_own(packages[i], internal));
    }
    assert(locked(nodes, internal, version).dom() == nodes.dom());
}

/// The package is one of the workspace: it has such a name and a version, and no source.
pub open spec fn is_own(package: TableView, internal: Seq<Seq<char>>) -> bool {
    &&& package.contains_key("name"@) && package["name"@] is Some && internal.contains(
        package["name"@]->0,
    )
    &&& !package.contains_key("source"@)
    &&& package.contains_key("version"@) && package["version"@] is Some
}

} // verus!
