//! What holds of every release.

use vstd::prelude::*;

use crate::api::{name_for, tags_for, Document, Method, ProgressView, RequestView, TagView};
use crate::calls::{commit_infos, compared_from, listed_from, newest_tag, tags_from};
use crate::cargo::ManifestFileView;
use crate::conventional::{law_required_bump_is_the_strongest, CommitKind};
use crate::github::{CommitView, TreeEntryView};
use crate::manifest::parsed_toml;
use crate::model::FileUpdateView;
use crate::paths::repository_path;
use crate::release::{
    advanced, alias_of, analyzed, are_updates_of_run, commit_built, decided, initial_view,
    is_release_branch, is_updated, landed, outputs, published_release, release_base, release_run,
    released_version, tree_manifests, with_extra_from, AnalysisView, DecisionView, ExtraFile,
    PreparedView, ReleaseOptions, ReleaseOutcome, ReleasePhase, ReleaseView, WorkingTree,
};
use crate::remote::blobs_from;
use crate::requests::{
    branch_request, commit_tree_request, create_blob_request, create_pull_request_request,
    create_ref_request, create_release_request, create_tag_request, fast_forward_request, repo_path,
    tags_page_request, update_pull_request_request, update_ref_request,
};
use crate::text::{decimal, option_view, starts_with};
use crate::version::{law_version_text_is_unique, parsed_version, writes, VersionView};
use crate::versioning::{
    are_release_updates, has_places, is_plan, is_release_update, law_released_version_is_read_back,
    lemma_version_has_a_place, lockfile_changes, package_names, plan_failure, reads_as_released,
    version_result,
};

verus! {

/// The request stores a blob, a tree or a commit, which no reference names yet.
pub open spec fn stores_object(owner: Seq<char>, repo: Seq<char>, request: RequestView) -> bool {
    request.method == Method::Post && (request.path == repo_path(owner, repo, "/git/blobs"@)
        || request.path == repo_path(owner, repo, "/git/trees"@) || request.path == repo_path(
        owner,
        repo,
        "/git/commits"@,
    ))
}

/// The request moves the branch forward.
pub open spec fn moves_forward(
    owner: Seq<char>,
    repo: Seq<char>,
    branch: Seq<char>,
    request: RequestView,
) -> bool {
    exists|commit: Seq<char>|
        request == #[trigger] fast_forward_request(owner, repo, "heads/"@ + branch, commit)
}

/// The request creates the reference, or moves it wherever it was.
pub open spec fn sets_reference(
    owner: Seq<char>,
    repo: Seq<char>,
    reference: Seq<char>,
    request: RequestView,
) -> bool {
    ||| exists|commit: Seq<char>|
        request == #[trigger] update_ref_request(owner, repo, reference, commit, true)
    ||| exists|commit: Seq<char>|
        request == #[trigger] create_ref_request(owner, repo, reference, commit)
}

/// The request creates the tag or its tag object, or publishes the release under it.
pub open spec fn releases_tag(
    owner: Seq<char>,
    repo: Seq<char>,
    tag: Seq<char>,
    request: RequestView,
) -> bool {
    ||| exists|message: Seq<char>, commit: Seq<char>|
        request == #[trigger] create_tag_request(owner, repo, tag, message, commit)
    ||| exists|target: Seq<char>|
        request == #[trigger] create_ref_request(owner, repo, "tags/"@ + tag, target)
    ||| exists|name: Seq<char>, body: Seq<char>, commit: Seq<char>|
        request == #[trigger] create_release_request(owner, repo, tag, name, body, commit)
}

/// The request opens or rewrites a pull request from one branch into another.
pub open spec fn sets_pull_request(
    owner: Seq<char>,
    repo: Seq<char>,
    head: Seq<char>,
    base: Seq<char>,
    request: RequestView,
) -> bool {
    ||| exists|title: Seq<char>, body: Seq<char>|
        request == #[trigger] create_pull_request_request(owner, repo, title, body, head, base)
    ||| exists|number: u64, title: Seq<char>, body: Seq<char>|
        request == #[trigger] update_pull_request_request(owner, repo, number, title, body)
}

proof fn lemma_tags_are_read(
    owner: Seq<char>,
    repo: Seq<char>,
    page: nat,
    max_pages: nat,
    docs: Seq<Document>,
    at: int,
    so_far: Seq<TagView>,
)
    ensures
        tags_from(owner, repo, page, max_pages, docs, at, so_far).is_harmless(),
    decreases max_pages - page,
{
    if page < max_pages {
        match tags_for(docs, at, tags_page_request(owner, repo, page + 1)) {
            ProgressView::Done(found, next) => {
                lemma_tags_are_read(owner, repo, page + 1, max_pages, docs, next, so_far + found);
            },
            _ => {},
        }
    }
}

proof fn lemma_comparison_is_read(
    owner: Seq<char>,
    repo: Seq<char>,
    base: Seq<char>,
    head: Seq<char>,
    page: nat,
    max_pages: nat,
    docs: Seq<Document>,
    at: int,
    so_far: Seq<CommitView>,
    total: nat,
)
    ensures
        compared_from(
            owner,
            repo,
            base,
            head,
            page,
            max_pages,
            docs,
            at,
            so_far,
            total,
        ).is_harmless(),
    decreases max_pages - page,
{
    if page < max_pages && at < docs.len() {
        match docs[at] {
            Document::Comparison { total_commits, commits } => {
                lemma_comparison_is_read(
                    owner,
                    repo,
                    base,
                    head,
                    page + 1,
                    max_pages,
                    docs,
                    at + 1,
                    so_far + commit_infos(commits@),
                    total_commits as nat,
                );
            },
            _ => {},
        }
    }
}

proof fn lemma_commits_are_read(
    owner: Seq<char>,
    repo: Seq<char>,
    head: Seq<char>,
    page: nat,
    max_pages: nat,
    docs: Seq<Document>,
    at: int,
    so_far: Seq<CommitView>,
    full: bool,
)
    ensures
        listed_from(owner, repo, head, page, max_pages, docs, at, so_far, full).is_harmless(),
    decreases max_pages - page,
{
    if page < max_pages && at < docs.len() {
        match docs[at] {
            Document::Commits(commits) => {
                lemma_commits_are_read(
                    owner,
                    repo,
                    head,
                    page + 1,
                    max_pages,
                    docs,
                    at + 1,
                    so_far + commit_infos(commits@),
                    true,
                );
            },
            _ => {},
        }
    }
}

proof fn lemma_analysis_only_reads(
    options: ReleaseOptions,
    tree: WorkingTree,
    docs: Seq<Document>,
)
    ensures
        analyzed(options, tree, docs).is_harmless(),
{
    let owner = options.owner@;
    let repo = options.repo@;
    match release_base(options, docs) {
        ProgressView::Done(branch, next) => match name_for(
            docs,
            next,
            branch_request(owner, repo, branch),
        ) {
            ProgressView::Done(head, next) => {
                lemma_tags_are_read(owner, repo, 0, 10, docs, next, Seq::empty());
                match newest_tag(owner, repo, options.tag_prefix@, docs, next) {
                    ProgressView::Done(Some(tag), next) => {
                        lemma_comparison_is_read(
                            owner,
                            repo,
                            tag.name,
                            head,
                            0,
                            10,
                            docs,
                            next,
                            Seq::empty(),
                            0,
                        );
                    },
                    ProgressView::Done(None, next) => {
                        lemma_commits_are_read(
                            owner,
                            repo,
                            head,
                            0,
                            3,
                            docs,
                            next,
                            Seq::empty(),
                            false,
                        );
                    },
                    _ => {},
                }
            },
            _ => {},
        },
        _ => {},
    }
}

/// A run that comes to no release changes nothing: where nothing asks for a version,
/// the tag exists already, the options do not go together or there is no token, every
/// request of the run only reads. So does every request until that is decided.
pub proof fn law_nothing_changes_without_a_release(
    has_token: bool,
    options: ReleaseOptions,
    tree: WorkingTree,
    updates: Result<Seq<FileUpdateView>, Seq<char>>,
    docs: Seq<Document>,
)
    requires
        released_version(has_token, options, tree, docs) is None,
    ensures
        release_run(has_token, options, tree, updates, docs).is_harmless(),
{
    lemma_analysis_only_reads(options, tree, docs);
}

/// A dry run changes nothing.
pub proof fn law_dry_run_changes_nothing(
    has_token: bool,
    options: ReleaseOptions,
    tree: WorkingTree,
    updates: Result<Seq<FileUpdateView>, Seq<char>>,
    docs: Seq<Document>,
)
    requires
        options.dry_run,
    ensures
        release_run(has_token, options, tree, updates, docs).is_harmless(),
{
    lemma_analysis_only_reads(options, tree, docs);
}

proof fn lemma_blobs_are_objects(
    owner: Seq<char>,
    repo: Seq<char>,
    root: Seq<char>,
    updates: Seq<FileUpdateView>,
    i: int,
    so_far: Seq<TreeEntryView>,
    docs: Seq<Document>,
    at: int,
)
    ensures
        blobs_from(owner, repo, root, updates, i, so_far, docs, at) matches ProgressView::Ask(
            request,
        ) ==> stores_object(owner, repo, request),
    decreases updates.len() - i,
{
    if 0 <= i < updates.len() {
        match repository_path(root, updates[i].file) {
            Err(_) => {},
            Ok(path) => match name_for(
                docs,
                at,
                create_blob_request(owner, repo, updates[i].updated_content),
            ) {
                ProgressView::Done(sha, next) => {
                    lemma_blobs_are_objects(
                        owner,
                        repo,
                        root,
                        updates,
                        i + 1,
                        so_far.push(TreeEntryView { path, sha }),
                        docs,
                        next,
                    );
                },
                _ => {},
            },
        }
    }
}

/// Until the commit is built, requests only read and store objects.
proof fn lemma_commit_stores_objects(
    options: ReleaseOptions,
    root: Seq<char>,
    prepared: PreparedView,
    updates: Seq<FileUpdateView>,
    docs: Seq<Document>,
    at: int,
)
    ensures
        commit_built(options, root, prepared, updates, docs, at) matches ProgressView::Ask(request)
            ==> !request.changes_something() || stores_object(
            options.owner@,
            options.repo@,
            request,
        ),
{
    if updates.len() > 0 {
        match name_for(
            docs,
            at,
            commit_tree_request(options.owner@, options.repo@, prepared.head_sha),
        ) {
            ProgressView::Done(base_tree, next) => {
                lemma_blobs_are_objects(
                    options.owner@,
                    options.repo@,
                    root,
                    updates,
                    0,
                    Seq::empty(),
                    docs,
                    next,
                );
            },
            _ => {},
        }
    }
}

/// Everything that publishing may change.
pub open spec fn is_release_change(
    options: ReleaseOptions,
    prepared: PreparedView,
    request: RequestView,
) -> bool {
    let owner = options.owner@;
    let repo = options.repo@;
    ||| stores_object(owner, repo, request)
    ||| options.create_pr && sets_reference(
        owner,
        repo,
        "heads/"@ + options.release_branch@,
        request,
    )
    ||| options.create_pr && sets_pull_request(
        owner,
        repo,
        options.release_branch@,
        prepared.branch,
        request,
    )
    ||| !options.create_pr && moves_forward(owner, repo, prepared.branch, request)
    ||| !options.create_pr && options.phase != ReleasePhase::Bump && releases_tag(
        owner,
        repo,
        prepared.tag,
        request,
    )
    ||| !options.create_pr && options.phase != ReleasePhase::Bump && options.update_major_alias
        && sets_reference(owner, repo, "tags/"@ + alias_of(options, prepared), request)
}

proof fn lemma_publishing(
    options: ReleaseOptions,
    root: Seq<char>,
    prepared: PreparedView,
    updates: Seq<FileUpdateView>,
    report: ReleaseView,
    docs: Seq<Document>,
    at: int,
)
    ensures
        published_release(options, root, prepared, updates, report, docs, at) matches
            ProgressView::Ask(request) ==> !request.changes_something() || is_release_change(
            options,
            prepared,
            request,
        ),
{
    lemma_commit_stores_objects(options, root, prepared, updates, docs, at);
}

/// What a run releases: the version, under its tag, on top of the head of the branch.
pub open spec fn prepared_release(
    options: ReleaseOptions,
    analysis: AnalysisView,
    version: VersionView,
) -> PreparedView {
    PreparedView {
        branch: analysis.branch,
        head_sha: analysis.head_sha,
        version,
        tag: options.tag_prefix@ + version.text(),
    }
}

/// A release changes nothing but what it releases. It stores objects. With
/// `create_pr` it sets the release branch and its pull request. Without, it moves the
/// branch forward and, unless the phase is the bump, creates the tag and the release
/// and sets the alias of the major version.
pub proof fn law_release_changes_only_what_it_releases(
    has_token: bool,
    options: ReleaseOptions,
    tree: WorkingTree,
    updates: Result<Seq<FileUpdateView>, Seq<char>>,
    docs: Seq<Document>,
)
    ensures
        release_run(has_token, options, tree, updates, docs) matches ProgressView::Ask(request)
            ==> request.changes_something() ==> analyzed(options, tree, docs) is Done
            && released_version(has_token, options, tree, docs) is Some && is_release_change(
            options,
            prepared_release(
                options,
                analyzed(options, tree, docs)->Done_0,
                released_version(has_token, options, tree, docs)->0,
            ),
            request,
        ),
{
    lemma_analysis_only_reads(options, tree, docs);
    match (analyzed(options, tree, docs), updates) {
        (ProgressView::Done(analysis, next), Ok(updates)) => {
            match decided(options, analysis, docs, next) {
                ProgressView::Done(DecisionView::Release { version, tag, report }, next) => {
                    lemma_publishing(
                        options,
                        tree.root@,
                        prepared_release(options, analysis, version),
                        updates,
                        ReleaseView {
                            files_updated: updates.map_values(
                                |update: FileUpdateView| update.file,
                            ),
                            ..report
                        },
                        docs,
                        next,
                    );
                },
                _ => {},
            }
        },
        _ => {},
    }
}

/// The bump phase leaves the version untagged: all that it changes besides stored
/// objects is the branch, and that only forward.
pub proof fn law_bump_phase_never_tags(
    has_token: bool,
    options: ReleaseOptions,
    tree: WorkingTree,
    updates: Result<Seq<FileUpdateView>, Seq<char>>,
    docs: Seq<Document>,
)
    requires
        options.phase == ReleasePhase::Bump,
    ensures
        release_run(has_token, options, tree, updates, docs) matches ProgressView::Ask(request)
            ==> request.changes_something() ==> stores_object(
            options.owner@,
            options.repo@,
            request,
        ) || moves_forward(
            options.owner@,
            options.repo@,
            analyzed(options, tree, docs)->Done_0.branch,
            request,
        ),
{
    law_release_changes_only_what_it_releases(has_token, options, tree, updates, docs);
}

/// A release pull request leaves the base branch and the tags alone: all that it
/// changes besides stored objects is the release branch and the pull request.
pub proof fn law_release_pull_request_leaves_the_base_branch(
    has_token: bool,
    options: ReleaseOptions,
    tree: WorkingTree,
    updates: Result<Seq<FileUpdateView>, Seq<char>>,
    docs: Seq<Document>,
)
    requires
        options.create_pr,
    ensures
        release_run(has_token, options, tree, updates, docs) matches ProgressView::Ask(request)
            ==> request.changes_something() ==> is_release_branch(options.release_branch@) && (
        stores_object(options.owner@, options.repo@, request) || sets_reference(
            options.owner@,
            options.repo@,
            "heads/"@ + options.release_branch@,
            request,
        ) || sets_pull_request(
            options.owner@,
            options.repo@,
            options.release_branch@,
            analyzed(options, tree, docs)->Done_0.branch,
            request,
        )),
{
    law_release_changes_only_what_it_releases(has_token, options, tree, updates, docs);
}

/// Where the branch advanced since the run began, the run skips: it ends there,
/// and reports no commit.
pub proof fn law_advanced_branch_is_skipped(
    options: ReleaseOptions,
    root: Seq<char>,
    prepared: PreparedView,
    updates: Seq<FileUpdateView>,
    report: ReleaseView,
    docs: Seq<Document>,
    at: int,
)
    requires
        commit_built(options, root, prepared, updates, docs, at) matches ProgressView::Done(_, next)
            && name_for(
            docs,
            next,
            branch_request(options.owner@, options.repo@, prepared.branch),
        ) matches ProgressView::Done(head, _) && head != prepared.head_sha,
    ensures
        published_release(options, root, prepared, updates, report, docs, at) matches
            ProgressView::Done(outcome, _) && outcome == (ReleaseView {
            outcome: ReleaseOutcome::SkippedRace,
            ..report
        }),
{
}

/// No reference is set before the branch was read again: until then requests only
/// read and store objects.
pub proof fn law_branch_is_read_again_first(
    options: ReleaseOptions,
    root: Seq<char>,
    prepared: PreparedView,
    updates: Seq<FileUpdateView>,
    report: ReleaseView,
    docs: Seq<Document>,
    at: int,
)
    requires
        commit_built(options, root, prepared, updates, docs, at) matches ProgressView::Done(_, next)
            ==> next >= docs.len(),
    ensures
        published_release(options, root, prepared, updates, report, docs, at) matches
            ProgressView::Ask(request) ==> !request.changes_something() || stores_object(
            options.owner@,
            options.repo@,
            request,
        ),
{
    lemma_commit_stores_objects(options, root, prepared, updates, docs, at);
}

/// Where GitHub refuses to move the branch forward, the run skips: nothing is tagged.
pub proof fn law_refused_move_is_skipped(
    options: ReleaseOptions,
    prepared: PreparedView,
    commit: Seq<char>,
    report: ReleaseView,
    docs: Seq<Document>,
    at: int,
)
    requires
        0 <= at < docs.len(),
        docs[at] is Refused,
    ensures
        landed(options, prepared, true, commit, report, docs, at) == ProgressView::Done(
            ReleaseView { outcome: ReleaseOutcome::SkippedRace, ..report },
            at + 1,
        ),
{
}

/// The tag phase without extra files commits nothing: the tag lands on the head of the
/// branch, which is not moved.
pub proof fn law_tag_phase_commits_nothing(
    options: ReleaseOptions,
    tree: WorkingTree,
    updates: Result<Seq<FileUpdateView>, Seq<char>>,
    docs: Seq<Document>,
)
    requires
        options.phase == ReleasePhase::Tag,
        tree.extra_files@.len() == 0,
        are_updates_of_run(true, options, tree, docs, updates),
    ensures
        release_run(true, options, tree, updates, docs) matches ProgressView::Done(report, _)
            ==> report.outcome == ReleaseOutcome::Released ==> report.commit_sha == Some(
            analyzed(options, tree, docs)->Done_0.head_sha,
        ) && report.next_version == Some(analyzed(options, tree, docs)->Done_0.current.text()),
        release_run(true, options, tree, updates, docs) matches ProgressView::Ask(request)
            ==> request.changes_something() ==> releases_tag(
            options.owner@,
            options.repo@,
            options.tag_prefix@ + analyzed(options, tree, docs)->Done_0.current.text(),
            request,
        ) || sets_reference(
            options.owner@,
            options.repo@,
            "tags/"@ + (options.tag_prefix@ + decimal(
                analyzed(options, tree, docs)->Done_0.current.major as nat,
            )),
            request,
        ),
{
    lemma_analysis_only_reads(options, tree, docs);
}

/// A version that is bumped goes up, and has neither pre-release nor build metadata.
pub proof fn law_released_version_goes_up(
    has_token: bool,
    options: ReleaseOptions,
    tree: WorkingTree,
    docs: Seq<Document>,
)
    requires
        options.phase != ReleasePhase::Tag,
        released_version(has_token, options, tree, docs) is Some,
    ensures
        analyzed(options, tree, docs) matches ProgressView::Done(analysis, _)
            && analysis.current.core_less(
            released_version(has_token, options, tree, docs)->0,
        ),
        released_version(has_token, options, tree, docs)->0.pre.len() == 0,
        released_version(has_token, options, tree, docs)->0.build.len() == 0,
{
}

/// Extra files never replace what the release rewrites: the planned updates stay as
/// they are, in front. Every other update is an extra file inside the repository, and
/// none occurs twice.
pub proof fn law_extra_files_keep_the_plan(
    root: Seq<char>,
    extra: Seq<ExtraFile>,
    from: int,
    planned: Seq<FileUpdateView>,
)
    requires
        with_extra_from(root, extra, from, planned) is Ok,
    ensures
        ({
            let updates = with_extra_from(root, extra, from, planned)->Ok_0;
            &&& planned.is_prefix_of(updates)
            &&& forall|i: int|
                planned.len() <= i < updates.len() ==> repository_path(
                    root,
                    (#[trigger] updates[i]).file,
                ) is Ok
            &&& forall|i: int, j: int|
                0 <= i < j < updates.len() && j >= planned.len() ==> (#[trigger] updates[i]).file
                    != (#[trigger] updates[j]).file
        }),
    decreases extra.len() - from,
{
    if 0 <= from < extra.len() {
        let path = extra[from].path->Ok_0@;
        if is_updated(planned, path) {
            law_extra_files_keep_the_plan(root, extra, from + 1, planned);
        } else {
            let update = FileUpdateView {
                file: path,
                updated_content: extra[from].content->Ok_0@,
            };
            let more = planned.push(update);
            law_extra_files_keep_the_plan(root, extra, from + 1, more);
            let updates = with_extra_from(root, extra, from, planned)->Ok_0;
            assert(updates[planned.len() as int] == more[planned.len() as int]);
            assert forall|i: int| 0 <= i < planned.len() implies updates[i] == planned[i] by {
                assert(updates[i] == more[i]);
            }
            assert(planned.is_prefix_of(updates));
        }
    }
}

/// A report says what its outcome promises: a release has a version, a tag, a commit
/// and an address; a pull request has a number, an address and a branch.
pub proof fn law_report_is_complete(
    has_token: bool,
    options: ReleaseOptions,
    tree: WorkingTree,
    updates: Result<Seq<FileUpdateView>, Seq<char>>,
    docs: Seq<Document>,
)
    ensures
        release_run(has_token, options, tree, updates, docs) matches ProgressView::Done(report, _)
            ==> {
            &&& report.outcome == ReleaseOutcome::Released ==> report.next_version is Some
                && report.tag is Some && report.commit_sha is Some && report.release_url is Some
                && report.notes is Some && (report.major_alias is Some
                <==> options.update_major_alias)
            &&& report.outcome == ReleaseOutcome::VersionCommitted ==> report.next_version is Some
                && report.commit_sha is Some && report.release_url is None
            &&& report.outcome == ReleaseOutcome::PullRequestCreated || report.outcome
                == ReleaseOutcome::PullRequestUpdated ==> report.pull_request_number is Some
                && report.pull_request_url is Some && report.release_branch == Some(
                options.release_branch@,
            )
            &&& report.outcome == ReleaseOutcome::DryRun <==> options.dry_run && report.outcome
                != ReleaseOutcome::SkippedNoReleasableChanges && report.outcome
                != ReleaseOutcome::SkippedTagExists
        },
{
}

/// Where no commit is a feature, a fix or a breaking change and no bump is forced, the
/// run ends without a release.
pub proof fn law_other_commits_release_nothing(
    options: ReleaseOptions,
    analysis: AnalysisView,
    docs: Seq<Document>,
    at: int,
)
    requires
        options.phase != ReleasePhase::Tag,
        options.bump is None,
        forall|i: int|
            0 <= i < analysis.commits.len() ==> (#[trigger] analysis.commits[i]).kind
                == CommitKind::Other,
    ensures
        decided(options, analysis, docs, at) == ProgressView::Done(
            DecisionView::Finished(initial_view(analysis, None)),
            at,
        ),
        initial_view(analysis, None).outcome == ReleaseOutcome::SkippedNoReleasableChanges,
{
    law_required_bump_is_the_strongest(analysis.commits);
}

/// The plan rewrites the root manifest unless it reads as released already.
proof fn lemma_plan_holds_first(
    updates: Seq<FileUpdateView>,
    files: Seq<ManifestFileView>,
    internal: Seq<Seq<char>>,
    version: Seq<char>,
)
    requires
        files.len() > 0,
        are_release_updates(updates, files, internal, version),
        has_places(files[0], internal),
    ensures
        reads_as_released(files[0].content, files[0], internal, version) || exists|i: int|
            0 <= i < updates.len() && is_release_update(
                #[trigger] updates[i],
                files[0],
                internal,
                version,
            ),
    decreases files.len(),
{
    let rest = files.drop_last();
    if files.len() == 1 {
        assert(files.last() == files[0]);
        if !reads_as_released(files[0].content, files[0], internal, version) {
            assert(is_release_update(updates[updates.len() - 1], files[0], internal, version));
        }
    } else {
        assert(rest[0] == files[0]);
        if has_places(files.last(), internal) && updates.len() > 0 && is_release_update(
            updates.last(),
            files.last(),
            internal,
            version,
        ) && are_release_updates(updates.drop_last(), rest, internal, version) {
            lemma_plan_holds_first(updates.drop_last(), rest, internal, version);
            if !reads_as_released(files[0].content, files[0], internal, version) {
                let i = choose|i: int|
                    0 <= i < updates.drop_last().len() && is_release_update(
                        #[trigger] updates.drop_last()[i],
                        files[0],
                        internal,
                        version,
                    );
                assert(is_release_update(updates[i], files[0], internal, version));
            }
        } else {
            lemma_plan_holds_first(updates, rest, internal, version);
        }
    }
}

/// The files hold the root manifest with the version.
pub open spec fn holds_version(
    updates: Seq<FileUpdateView>,
    root: ManifestFileView,
    version: Seq<char>,
) -> bool {
    exists|i: int|
        0 <= i < updates.len() && (#[trigger] updates[i]).file == root.path && version_result(
            ManifestFileView { path: root.path, content: updates[i].updated_content },
        ) == Ok::<Seq<char>, Seq<char>>(version)
}

proof fn lemma_plan_holds_version(
    planned: Seq<FileUpdateView>,
    files: Seq<ManifestFileView>,
    lock: Option<ManifestFileView>,
    version: Seq<char>,
)
    requires
        files.len() > 0,
        plan_failure(files, lock) is None,
        is_plan(planned, files, lock, package_names(files), version),
        version_result(files[0]) != Ok::<Seq<char>, Seq<char>>(version),
    ensures
        holds_version(planned, files[0], version),
{
    let internal = package_names(files);
    let nodes = parsed_toml(files[0].content)->0;
    lemma_version_has_a_place(nodes, internal);
    law_released_version_is_read_back(nodes, internal, version);
    let own = if lock is Some && lockfile_changes(lock->0, internal) {
        planned.drop_last()
    } else {
        planned
    };
    lemma_plan_holds_first(own, files, internal, version);
    let i = choose|i: int|
        0 <= i < own.len() && is_release_update(#[trigger] own[i], files[0], internal, version);
    assert(own[i] == planned[i]);
    assert(planned[i].file == files[0].path);
}

/// The release commit holds the released version: among the files that a run with a
/// bump commits is the root manifest, and read again it has the released version.
pub proof fn law_release_commit_holds_the_version(
    options: ReleaseOptions,
    tree: WorkingTree,
    docs: Seq<Document>,
    updates: Seq<FileUpdateView>,
)
    requires
        options.phase != ReleasePhase::Tag,
        released_version(true, options, tree, docs) is Some,
        are_updates_of_run(true, options, tree, docs, Ok(updates)),
    ensures
        tree.manifest matches Ok(root) && holds_version(
            updates,
            root@,
            released_version(true, options, tree, docs)->0.text(),
        ),
{
    let version = released_version(true, options, tree, docs)->0;
    let root = tree.manifest->Ok_0@;
    law_released_version_goes_up(true, options, tree, docs);
    let current = analyzed(options, tree, docs)->Done_0.current;
    let text = version_result(root)->Ok_0;
    assert(parsed_version(text) == Some(current));
    assert(writes(text, current));
    if text == version.text() {
        law_version_text_is_unique(current, version);
    }
    let files = tree_manifests(tree)->Ok_0;
    assert(files[0] == root);
    let lock = option_view(tree.lockfile);
    let planned = choose|planned: Seq<FileUpdateView>|
        planned.len() > 0 && #[trigger] is_plan(
            planned,
            files,
            lock,
            package_names(files),
            version.text(),
        ) && Ok::<Seq<FileUpdateView>, Seq<char>>(updates) == with_extra_from(
            tree.root@,
            tree.extra_files@,
            0,
            planned,
        );
    lemma_plan_holds_version(planned, files, lock, version.text());
    law_extra_files_keep_the_plan(tree.root@, tree.extra_files@, 0, planned);
    let i = choose|i: int|
        0 <= i < planned.len() && (#[trigger] planned[i]).file == root.path && version_result(
            ManifestFileView { path: root.path, content: planned[i].updated_content },
        ) == Ok::<Seq<char>, Seq<char>>(version.text());
    assert(updates[i] == planned[i]);
}

/// The outputs say that there was a release exactly where there was one.
pub proof fn law_outputs_tell_releases(report: ReleaseView, notes_file: Seq<char>)
    ensures
        starts_with(outputs(report, notes_file), "released=true\n"@) <==> report.outcome
            == ReleaseOutcome::Released,
{
    reveal_strlit("released=true\n");
    reveal_strlit("released");
    reveal_strlit("=");
    reveal_strlit("true");
    reveal_strlit("false");
    reveal_strlit("\n");
    let text = outputs(report, notes_file);
    if report.outcome == ReleaseOutcome::Released {
        assert(text.subrange(0, 14) == "released=true\n"@);
    } else {
        assert(text[9] == 'f');
        assert("released=true\n"@[9] == 't');
        if starts_with(text, "released=true\n"@) {
            assert(text.subrange(0, 14)[9] == text[9]);
        }
    }
}

} // verus!
