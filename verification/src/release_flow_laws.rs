//! What a release reads, decides, writes and tells, step by step.

use vstd::prelude::*;

use crate::api::{Document, ProgressView, PullRequestInfo, TagView};
use crate::call_laws::{
    are_commit_pages, are_tag_pages, flat, law_all_commit_pages_are_read,
    law_all_tag_pages_are_read, tells, writes,
};
use crate::calls::{greatest, newest_tag};
use crate::cargo::ManifestFile;
use crate::conventional::{all_classified, bump_for, bumped, can_bump, notes_for, BumpLevel};
use crate::github::{CommitView, RangeView};
use crate::model::FileUpdateView;
use crate::paths::repository_path;
use crate::publish_laws::is_name;
use crate::release::{
    alias_set, analyzed, are_planned, commit_built, commits_since, decided, finalized, landed,
    manifest_version, options_failure, outputs, proposed, published_release, pull_request_set,
    release_base, release_run, released_with, tag_target, with_extra_from, AnalysisView,
    DecisionView, ExtraFile, PreparedView, ReleaseOptions, ReleaseOutcome, ReleasePhase,
    ReleaseView, TagStyle, WorkingTree,
};
use crate::remote::committed;
use crate::requests::{
    branch_request, commit_tree_request, compare_page_request, create_pull_request_request,
    create_ref_request, create_release_request, create_tag_request, fast_forward_request,
    find_pull_request_request, reference_request, repository_request, update_pull_request_request,
    update_ref_request,
};
use crate::rewrite_laws::{is_planned, law_plan_covers_every_manifest};
use crate::scan_laws::{begins_with, holds, is_gap, lemma_starts};
use crate::text::{decimal, is_blank, is_space, option_view, replace_text, views};
use crate::text_laws::law_white_space_is_trimmed;
use crate::version::{law_version_is_read_back, VersionView};
use crate::versioning::{has_places, is_plan, package_names, reads_as_released, version_result};

verus! {

// ---------------------------------------------------------------------------
// Reading
// ---------------------------------------------------------------------------
/// The release starts from the given branch, without the blanks around it, or from the default
/// branch of the repository.
pub proof fn law_release_starts_from_its_base(
    options: ReleaseOptions,
    docs: Seq<Document>,
    front: Seq<char>,
    branch: Seq<char>,
    back: Seq<char>,
)
    requires
        is_gap(front),
        is_gap(back),
        branch.len() > 0 ==> !is_space(branch[0]) && !is_space(branch.last()),
    ensures
        option_view(options.base_branch) == Some(front + branch + back) && branch.len() > 0
            ==> release_base(options, docs) == ProgressView::Done(branch, 0),
        options.base_branch is None || option_view(options.base_branch) == Some(
            front + branch + back,
        ) && branch.len() == 0 ==> {
            &&& docs.len() == 0 ==> release_base(options, docs) == ProgressView::<Seq<char>>::Ask(
                repository_request(options.owner@, options.repo@),
            )
            &&& forall|name: Seq<char>|
                docs.len() > 0 && #[trigger] is_name(docs[0], name) ==> release_base(options, docs)
                    == ProgressView::Done(name, 1)
        },
{
    let text = front + branch + back;
    law_white_space_is_trimmed(front, branch, back);
    if branch.len() > 0 {
        assert(text[front.len() as int] == branch[0]);
        assert(!is_blank(text));
    } else {
        assert forall|i: int| 0 <= i < text.len() implies is_space(#[trigger] text[i]) by {
            if i < front.len() {
                assert(text[i] == front[i]);
            } else {
                assert(text[i] == back[i - front.len()]);
            }
        }
        assert(is_blank(text));
    }
}

/// Commits are compared with the newest tag of a version; without one the commits of three
/// pages are listed, and more than those are left out.
pub proof fn law_commits_since_the_last_release(
    owner: Seq<char>,
    repo: Seq<char>,
    tag: TagView,
    head: Seq<char>,
    docs: Seq<Document>,
    at: int,
    pages: Seq<Seq<CommitView>>,
)
    requires
        0 <= at <= docs.len(),
    ensures
        at == docs.len() ==> commits_since(owner, repo, Some(tag), head, docs, at)
            == ProgressView::<RangeView>::Ask(
            compare_page_request(owner, repo, tag.name, head, 1),
        ),
        pages.len() == 3 && at + 3 <= docs.len() && are_commit_pages(docs, at, pages)
            && pages[0].len() == 100 && pages[1].len() == 100 ==> commits_since(
            owner,
            repo,
            None,
            head,
            docs,
            at,
        ) == ProgressView::Done(
            RangeView { commits: flat(pages, 3), truncated: pages[2].len() == 100 },
            at + 3,
        ),
{
    if pages.len() == 3 && at + 3 <= docs.len() && are_commit_pages(docs, at, pages)
        && pages[0].len() == 100 && pages[1].len() == 100 {
        assert forall|i: int| 0 <= i < pages.len() - 1 implies (#[trigger] pages[i]).len()
            == 100 by {
            assert(i == 0 || i == 1);
        }
        law_all_commit_pages_are_read(owner, repo, head, 3, docs, at, pages);
    }
}

/// The newest tag is looked for on ten pages and no more.
pub proof fn law_ten_pages_of_tags_are_read(
    owner: Seq<char>,
    repo: Seq<char>,
    prefix: Seq<char>,
    docs: Seq<Document>,
    at: int,
    pages: Seq<Seq<TagView>>,
)
    requires
        0 <= at,
        at + pages.len() <= docs.len(),
        0 < pages.len() <= 10,
        are_tag_pages(docs, at, pages),
        forall|i: int| 0 <= i < pages.len() - 1 ==> (#[trigger] pages[i]).len() >= 100,
        pages.last().len() < 100 || pages.len() == 10,
    ensures
        newest_tag(owner, repo, prefix, docs, at) == ProgressView::Done(
            greatest(prefix, flat(pages, pages.len() as int)),
            at + pages.len(),
        ),
{
    law_all_tag_pages_are_read(owner, repo, 10, docs, at, pages);
}

/// What is read for a release: the branch, its head, the version of the manifest, and the
/// commits since the newest tag, each with its kind.
pub proof fn law_release_is_analyzed(
    options: ReleaseOptions,
    tree: WorkingTree,
    docs: Seq<Document>,
    branch: Seq<char>,
    a: int,
    head: Seq<char>,
    current: VersionView,
    text: Seq<char>,
    tag: Option<TagView>,
    b: int,
    range: RangeView,
    c: int,
)
    requires
        release_base(options, docs) == ProgressView::Done(branch, a),
        0 <= a,
        manifest_version(tree.manifest) == Ok::<(Seq<char>, VersionView), Seq<char>>(
            (text, current),
        ),
    ensures
        a >= docs.len() ==> analyzed(options, tree, docs) == ProgressView::<AnalysisView>::Ask(
            branch_request(options.owner@, options.repo@, branch),
        ),
        a < docs.len() && is_name(docs[a], head) && newest_tag(
            options.owner@,
            options.repo@,
            options.tag_prefix@,
            docs,
            a + 1,
        ) == ProgressView::Done(tag, b) && commits_since(
            options.owner@,
            options.repo@,
            tag,
            head,
            docs,
            b,
        ) == ProgressView::Done(range, c) ==> analyzed(options, tree, docs) == ProgressView::Done(
            AnalysisView {
                branch,
                head_sha: head,
                current_version: text,
                current,
                commits: all_classified(range.commits),
                truncated: range.truncated,
            },
            c,
        ),
{
}

/// The version of the manifest is the text in it, where that is a version.
pub proof fn law_manifest_version_is_read(file: ManifestFile, version: VersionView)
    requires
        version.is_valid(),
    ensures
        version_result(file@) == Ok::<Seq<char>, Seq<char>>(version.text()) ==> manifest_version(
            Ok(file),
        ) == Ok::<(Seq<char>, VersionView), Seq<char>>((version.text(), version)),
        version_result(file@) is Err ==> manifest_version(Ok(file)) is Err,
        forall|message: String| (#[trigger] manifest_version(Err(message))) is Err,
{
    law_version_is_read_back(version);
}

/// A run with a token reads, decides, and releases what was decided on, from the branch and the
/// head that were read.
pub proof fn law_release_runs_through(
    options: ReleaseOptions,
    tree: WorkingTree,
    updates: Seq<FileUpdateView>,
    docs: Seq<Document>,
    analysis: AnalysisView,
    a: int,
    version: VersionView,
    tag: Seq<char>,
    report: ReleaseView,
    b: int,
)
    requires
        options_failure(options) is None,
        analyzed(options, tree, docs) == ProgressView::Done(analysis, a),
        decided(options, analysis, docs, a) == ProgressView::Done(
            DecisionView::Release { version, tag, report },
            b,
        ),
    ensures
        release_run(true, options, tree, Ok(updates), docs) == released_with(
            options,
            tree.root@,
            PreparedView {
                branch: analysis.branch,
                head_sha: analysis.head_sha,
                version,
                tag,
            },
            updates,
            report,
            docs,
            b,
        ),
        forall|message: Seq<char>|
            (#[trigger] release_run(true, options, tree, Err(message), docs)) == ProgressView::<
                ReleaseView,
            >::Failed(message),
{
}

// ---------------------------------------------------------------------------
// Deciding
// ---------------------------------------------------------------------------
/// The version of a release: in the tag phase that of the manifest, otherwise the one above it
/// that the given bump asks for, or else the commits.
pub open spec fn version_to_release(
    options: ReleaseOptions,
    analysis: AnalysisView,
    level: BumpLevel,
) -> VersionView {
    if options.phase == ReleasePhase::Tag {
        analysis.current
    } else {
        bumped(analysis.current, level)
    }
}

/// The level that counts is the given one, or else the one that the commits ask for.
pub open spec fn is_level(options: ReleaseOptions, analysis: AnalysisView, level: BumpLevel) -> bool {
    options.bump == Some(level) || options.bump is None && bump_for(analysis.commits) == Some(level)
}

/// A release is decided on when something asks for one and its tag is not there yet; where it
/// is there, nothing is released. The tag is the prefix with the version.
pub proof fn law_release_is_decided_on(
    options: ReleaseOptions,
    analysis: AnalysisView,
    level: BumpLevel,
    docs: Seq<Document>,
    at: int,
)
    requires
        0 <= at <= docs.len(),
        options.phase == ReleasePhase::Tag || is_level(options, analysis, level) && can_bump(
            analysis.current,
            level,
        ),
    ensures
        ({
            let version = version_to_release(options, analysis, level);
            let tag = options.tag_prefix@ + version.text();
            let result = decided(options, analysis, docs, at);
            &&& at == docs.len() ==> result == ProgressView::<DecisionView>::Ask(
                reference_request(options.owner@, options.repo@, "tags/"@ + tag),
            )
            &&& at < docs.len() && docs[at] is Missing ==> (result matches ProgressView::Done(
                DecisionView::Release { version: v, tag: t, report },
                next,
            ) && v == version && t == tag && next == at + 1 && report.next_version == Some(
                version.text(),
            ) && report.tag == Some(tag) && report.notes == Some(
                notes_for(tag, analysis.commits, analysis.truncated),
            ) && report.current_version == analysis.current_version && report.commits_analyzed
                == analysis.commits.len() && report.commit_range_truncated == analysis.truncated
                && report.bump == if options.phase == ReleasePhase::Tag {
                None
            } else {
                Some(level)
            })
            &&& at < docs.len() && docs[at] is Name ==> (result matches ProgressView::Done(
                DecisionView::Finished(report),
                next,
            ) && next == at + 1 && report.outcome == ReleaseOutcome::SkippedTagExists && report.tag
                == Some(tag))
        }),
{
}

/// Without a forced bump and without a commit that asks for one, nothing is released, except
/// in the tag phase.
pub proof fn law_nothing_asks_for_a_release(
    options: ReleaseOptions,
    analysis: AnalysisView,
    docs: Seq<Document>,
    at: int,
)
    requires
        options.phase != ReleasePhase::Tag,
        options.bump is None,
        bump_for(analysis.commits) is None,
    ensures
        decided(options, analysis, docs, at) matches ProgressView::Done(
            DecisionView::Finished(report),
            next,
        ) && next == at && report.outcome == ReleaseOutcome::SkippedNoReleasableChanges
            && report.next_version is None && report.tag is None && report.notes is None,
{
}

/// A release needs a token. A release pull request cannot be split into phases, and its branch
/// lies under the reserved name.
pub proof fn law_release_needs_fitting_options(
    options: ReleaseOptions,
    tree: WorkingTree,
    updates: Result<Seq<FileUpdateView>, Seq<char>>,
    docs: Seq<Document>,
)
    ensures
        release_run(false, options, tree, updates, docs) == ProgressView::<ReleaseView>::Failed(
            "a GitHub token is required to create releases; provide --token or GITHUB_TOKEN"@,
        ),
        options.create_pr && options.phase != ReleasePhase::All ==> release_run(
            true,
            options,
            tree,
            updates,
            docs,
        ) is Failed,
        options.create_pr && options.release_branch@ != "automation/release"@ && !begins_with(
            options.release_branch@,
            "automation/release/"@,
        ) ==> release_run(true, options, tree, updates, docs) is Failed,
        !options.create_pr || options.phase == ReleasePhase::All && (options.release_branch@
            == "automation/release"@ || begins_with(
            options.release_branch@,
            "automation/release/"@,
        )) ==> options_failure(options) is None,
{
    lemma_starts(options.release_branch@, "automation/release/"@);
}

// ---------------------------------------------------------------------------
// Writing
// ---------------------------------------------------------------------------
/// Where files change, they are committed on the head of the branch and on its tree, with the
/// version in the message; where none does, the head itself is released.
pub proof fn law_release_commit_is_built(
    options: ReleaseOptions,
    root: Seq<char>,
    prepared: PreparedView,
    updates: Seq<FileUpdateView>,
    docs: Seq<Document>,
    at: int,
    tree: Seq<char>,
)
    requires
        0 <= at <= docs.len(),
    ensures
        updates.len() == 0 ==> commit_built(options, root, prepared, updates, docs, at)
            == ProgressView::Done(prepared.head_sha, at),
        updates.len() > 0 && at == docs.len() ==> commit_built(
            options,
            root,
            prepared,
            updates,
            docs,
            at,
        ) == ProgressView::<Seq<char>>::Ask(
            commit_tree_request(options.owner@, options.repo@, prepared.head_sha),
        ),
        updates.len() > 0 && at < docs.len() && is_name(docs[at], tree) ==> commit_built(
            options,
            root,
            prepared,
            updates,
            docs,
            at,
        ) == committed(
            options.owner@,
            options.repo@,
            root,
            updates,
            tree,
            prepared.head_sha,
            replace_text(options.commit_message@, "{version}"@, prepared.version.text()),
            docs,
            at + 1,
        ),
{
}

/// Behind the commit the head of the branch is read again. Where it moved, the release is
/// skipped; where it did not, the release is proposed or lands on the branch.
pub proof fn law_head_is_read_again(
    options: ReleaseOptions,
    root: Seq<char>,
    prepared: PreparedView,
    updates: Seq<FileUpdateView>,
    report: ReleaseView,
    docs: Seq<Document>,
    at: int,
    commit: Seq<char>,
    next: int,
    head: Seq<char>,
)
    requires
        commit_built(options, root, prepared, updates, docs, at) == ProgressView::Done(
            commit,
            next,
        ),
        0 <= next,
    ensures
        ({
            let result = published_release(options, root, prepared, updates, report, docs, at);
            let told = ReleaseView { commit_sha: Some(commit), ..report };
            &&& next >= docs.len() ==> result == ProgressView::<ReleaseView>::Ask(
                branch_request(options.owner@, options.repo@, prepared.branch),
            )
            &&& next < docs.len() && is_name(docs[next], head) && head != prepared.head_sha
                ==> result == ProgressView::Done(
                ReleaseView { outcome: ReleaseOutcome::SkippedRace, ..report },
                next + 1,
            )
            &&& next < docs.len() && is_name(docs[next], prepared.head_sha) ==> result
                == if options.create_pr {
                proposed(options, prepared, commit, told, docs, next + 1)
            } else {
                landed(options, prepared, updates.len() > 0, commit, told, docs, next + 1)
            }
        }),
{
}

/// A commit lands on the branch as a fast forward; without one the branch stays. In the bump
/// phase that is all; otherwise the tag and the release follow.
pub proof fn law_release_lands_on_the_branch(
    options: ReleaseOptions,
    prepared: PreparedView,
    commit: Seq<char>,
    report: ReleaseView,
    docs: Seq<Document>,
    at: int,
)
    requires
        0 <= at <= docs.len(),
    ensures
        at == docs.len() ==> landed(options, prepared, true, commit, report, docs, at)
            == ProgressView::<ReleaseView>::Ask(
            fast_forward_request(
                options.owner@,
                options.repo@,
                "heads/"@ + prepared.branch,
                commit,
            ),
        ),
        at < docs.len() && docs[at] is Refused ==> landed(
            options,
            prepared,
            true,
            commit,
            report,
            docs,
            at,
        ) == ProgressView::Done(
            ReleaseView { outcome: ReleaseOutcome::SkippedRace, ..report },
            at + 1,
        ),
        at < docs.len() && docs[at] is Nothing ==> landed(
            options,
            prepared,
            true,
            commit,
            report,
            docs,
            at,
        ) == if options.phase == ReleasePhase::Bump {
            ProgressView::Done(
                ReleaseView { outcome: ReleaseOutcome::VersionCommitted, ..report },
                at + 1,
            )
        } else {
            finalized(options, prepared, commit, report, docs, at + 1)
        },
        landed(options, prepared, false, commit, report, docs, at) == if options.phase
            == ReleasePhase::Bump {
            ProgressView::Done(
                ReleaseView { outcome: ReleaseOutcome::VersionCommitted, ..report },
                at,
            )
        } else {
            finalized(options, prepared, commit, report, docs, at)
        },
{
}

/// A tag is an object of its own with a message, or just the commit.
pub proof fn law_tag_has_its_style(
    options: ReleaseOptions,
    prepared: PreparedView,
    commit: Seq<char>,
    docs: Seq<Document>,
    at: int,
    object: Seq<char>,
)
    requires
        0 <= at <= docs.len(),
    ensures
        options.tag_style == TagStyle::Lightweight ==> tag_target(
            options,
            prepared,
            commit,
            docs,
            at,
        ) == ProgressView::Done(commit, at),
        options.tag_style == TagStyle::Annotated && at == docs.len() ==> tag_target(
            options,
            prepared,
            commit,
            docs,
            at,
        ) == ProgressView::<Seq<char>>::Ask(
            create_tag_request(
                options.owner@,
                options.repo@,
                prepared.tag,
                "Release "@ + prepared.tag,
                commit,
            ),
        ),
        options.tag_style == TagStyle::Annotated && at < docs.len() && is_name(docs[at], object)
            ==> tag_target(options, prepared, commit, docs, at) == ProgressView::Done(
            object,
            at + 1,
        ),
{
}

/// The tag is made at its target, then the alias is set where it is wanted, then the release is
/// made with the notes.
pub proof fn law_tag_and_release_are_made(
    options: ReleaseOptions,
    prepared: PreparedView,
    commit: Seq<char>,
    report: ReleaseView,
    notes: Seq<char>,
    docs: Seq<Document>,
    at: int,
    target: Seq<char>,
    a: int,
    alias: Option<Seq<char>>,
    b: int,
    url: Seq<char>,
)
    requires
        report.notes == Some(notes),
        tag_target(options, prepared, commit, docs, at) == ProgressView::Done(target, a),
        0 <= a,
    ensures
        ({
            let owner = options.owner@;
            let repo = options.repo@;
            let result = finalized(options, prepared, commit, report, docs, at);
            let aliased = a < docs.len() && docs[a] is Nothing && alias_set(
                options,
                prepared,
                commit,
                docs,
                a + 1,
            ) == ProgressView::Done(alias, b) && 0 <= b;
            &&& a >= docs.len() ==> result == ProgressView::<ReleaseView>::Ask(
                create_ref_request(owner, repo, "tags/"@ + prepared.tag, target),
            )
            &&& aliased && b >= docs.len() ==> result == ProgressView::<ReleaseView>::Ask(
                create_release_request(
                    owner,
                    repo,
                    prepared.tag,
                    "Release "@ + prepared.tag,
                    notes,
                    commit,
                ),
            )
            &&& aliased && b < docs.len() && is_name(docs[b], url) ==> result
                == ProgressView::Done(
                ReleaseView {
                    outcome: ReleaseOutcome::Released,
                    major_alias: alias,
                    release_url: Some(url),
                    ..report
                },
                b + 1,
            )
        }),
{
}

/// The alias is the prefix with the major version. Where it is wanted, it is moved by force
/// when it is there and made when it is not; where it is not wanted, nothing is asked.
pub proof fn law_alias_follows_the_release(
    options: ReleaseOptions,
    prepared: PreparedView,
    commit: Seq<char>,
    docs: Seq<Document>,
    at: int,
)
    requires
        0 <= at <= docs.len(),
    ensures
        ({
            let owner = options.owner@;
            let repo = options.repo@;
            let alias = options.tag_prefix@ + decimal(prepared.version.major as nat);
            let result = alias_set(options, prepared, commit, docs, at);
            &&& !options.update_major_alias ==> result == ProgressView::Done(
                None::<Seq<char>>,
                at,
            )
            &&& options.update_major_alias ==> {
                &&& at == docs.len() ==> result == ProgressView::<Option<Seq<char>>>::Ask(
                    reference_request(owner, repo, "tags/"@ + alias),
                )
                &&& at + 1 == docs.len() && docs[at] is Name ==> result == ProgressView::<
                    Option<Seq<char>>,
                >::Ask(update_ref_request(owner, repo, "tags/"@ + alias, commit, true))
                &&& at + 1 == docs.len() && docs[at] is Missing ==> result == ProgressView::<
                    Option<Seq<char>>,
                >::Ask(create_ref_request(owner, repo, "tags/"@ + alias, commit))
                &&& at + 2 <= docs.len() && (docs[at] is Name || docs[at] is Missing) && docs[at
                    + 1] is Nothing ==> result == ProgressView::Done(Some(alias), at + 2)
            }
        }),
{
}

/// A release is proposed on its own branch, which is set to the commit by force.
pub proof fn law_release_branch_is_set(
    options: ReleaseOptions,
    prepared: PreparedView,
    commit: Seq<char>,
    report: ReleaseView,
    docs: Seq<Document>,
    at: int,
)
    requires
        0 <= at <= docs.len(),
    ensures
        ({
            let owner = options.owner@;
            let repo = options.repo@;
            let branch = "heads/"@ + options.release_branch@;
            let result = proposed(options, prepared, commit, report, docs, at);
            &&& at == docs.len() ==> result == ProgressView::<ReleaseView>::Ask(
                reference_request(owner, repo, branch),
            )
            &&& at + 1 == docs.len() && docs[at] is Name ==> result == ProgressView::<
                ReleaseView,
            >::Ask(update_ref_request(owner, repo, branch, commit, true))
            &&& at + 1 == docs.len() && docs[at] is Missing ==> result == ProgressView::<
                ReleaseView,
            >::Ask(create_ref_request(owner, repo, branch, commit))
            &&& at + 2 <= docs.len() && (docs[at] is Name || docs[at] is Missing) && docs[at
                + 1] is Nothing ==> result == pull_request_set(
                options,
                prepared,
                report,
                docs,
                at + 2,
            )
        }),
{
}

/// An open pull request from the release branch to the base is refreshed; without one a new
/// one is opened. Its title holds the tag, and its body the versions and the notes.
pub proof fn law_release_pull_request_is_set(
    options: ReleaseOptions,
    prepared: PreparedView,
    report: ReleaseView,
    docs: Seq<Document>,
    at: int,
    existing: Vec<PullRequestInfo>,
    info: PullRequestInfo,
)
    requires
        0 <= at <= docs.len(),
    ensures
        ({
            let owner = options.owner@;
            let repo = options.repo@;
            let head = options.release_branch@;
            let title = "chore(release): "@ + prepared.tag;
            let body = crate::release::release_body(options, prepared, report);
            let result = pull_request_set(options, prepared, report, docs, at);
            let found = at < docs.len() && docs[at] == Document::PullRequests(existing);
            let set = |outcome: ReleaseOutcome|
                ReleaseView {
                    outcome,
                    pull_request_number: Some(info.number),
                    pull_request_url: Some(info.url@),
                    release_branch: Some(head),
                    ..report
                };
            &&& at == docs.len() ==> result == ProgressView::<ReleaseView>::Ask(
                find_pull_request_request(owner, repo, head, prepared.branch),
            )
            &&& found && existing@.len() > 0 && at + 1 == docs.len() ==> result == ProgressView::<
                ReleaseView,
            >::Ask(
                update_pull_request_request(owner, repo, existing@[0].number, title, body),
            )
            &&& found && existing@.len() == 0 && at + 1 == docs.len() ==> result == ProgressView::<
                ReleaseView,
            >::Ask(
                create_pull_request_request(owner, repo, title, body, head, prepared.branch),
            )
            &&& found && at + 1 < docs.len() && docs[at + 1] == Document::PullRequest(info)
                ==> result == ProgressView::Done(
                set(
                    if existing@.len() > 0 {
                        ReleaseOutcome::PullRequestUpdated
                    } else {
                        ReleaseOutcome::PullRequestCreated
                    },
                ),
                at + 2,
            )
        }),
{
    if existing@.len() > 0 {
        assert(crate::text::views(existing@)[0] == existing@[0]@);
    }
}

/// The body of a release pull request tells the version before and after, the base branch, the
/// notes and the release branch.
pub proof fn law_release_body_tells_the_release(
    options: ReleaseOptions,
    prepared: PreparedView,
    report: ReleaseView,
    notes: Seq<char>,
)
    requires
        report.notes == Some(notes),
    ensures
        ({
            let body = crate::release::release_body(options, prepared, report);
            &&& holds(
                body,
                "from `"@ + report.current_version + "` to `"@ + prepared.version.text() + "`"@,
            )
            &&& holds(body, "Merging it into `"@ + prepared.branch + "`"@)
            &&& holds(body, "\n\n"@ + notes + "\n\n"@)
            &&& begins_with(body, "Automated release update for `"@ + prepared.tag + "`"@)
            &&& holds(body, "<!-- automated-release-branch: "@ + options.release_branch@ + " -->"@)
        }),
{
    let body = crate::release::release_body(options, prepared, report);
    let a = "Automated release update for `"@;
    let b = "`.\n\nThis PR updates the package version from `"@;
    let c = "` to `"@;
    let d = "`. Merging it into `"@;
    let e = "` allows the release workflow to publish the tag and GitHub release.\n\n"@;
    let f = "\n\n<!-- automated-release-branch: "@;
    let g = " -->"@;
    let text = prepared.version.text();
    reveal_strlit("`.\n\nThis PR updates the package version from `");
    reveal_strlit("from `");
    reveal_strlit("` to `");
    reveal_strlit("`. Merging it into `");
    reveal_strlit("Merging it into `");
    reveal_strlit("` allows the release workflow to publish the tag and GitHub release.\n\n");
    reveal_strlit("`");
    reveal_strlit("\n\n");
    reveal_strlit("\n\n<!-- automated-release-branch: ");
    reveal_strlit("<!-- automated-release-branch: ");
    let p0 = a.len() + prepared.tag.len();
    let p1 = p0 + b.len();
    let p2 = p1 + report.current_version.len();
    let p3 = p2 + c.len();
    let p4 = p3 + text.len();
    let p5 = p4 + d.len();
    let p6 = p5 + prepared.branch.len();
    let p7 = p6 + e.len();
    let p8 = p7 + notes.len();
    let p9 = p8 + f.len();
    let first = "from `"@ + report.current_version + "` to `"@ + text + "`"@;
    assert(body.subrange(p1 - 6, p1 - 6 + first.len()) == first);
    let second = "Merging it into `"@ + prepared.branch + "`"@;
    assert(body.subrange(p5 - 17, p5 - 17 + second.len()) == second);
    let third = "\n\n"@ + notes + "\n\n"@;
    assert(body.subrange(p7 - 2, p7 - 2 + third.len()) == third);
    let front = a + prepared.tag + "`"@;
    assert(body.take(front.len() as int) == front);
    let last = "<!-- automated-release-branch: "@ + options.release_branch@ + " -->"@;
    assert(body.subrange(p9 - 31, p9 - 31 + last.len()) == last);
}

/// A dry run stops behind the decision and tells the files that would change.
pub proof fn law_files_are_told(
    options: ReleaseOptions,
    root: Seq<char>,
    prepared: PreparedView,
    updates: Seq<FileUpdateView>,
    before: ReleaseView,
    docs: Seq<Document>,
    at: int,
)
    ensures
        ({
            let files = Seq::new(updates.len(), |i: int| updates[i].file);
            let told = ReleaseView { files_updated: files, ..before };
            released_with(options, root, prepared, updates, before, docs, at) == if options.dry_run {
                ProgressView::Done(
                    ReleaseView { outcome: ReleaseOutcome::DryRun, ..told },
                    at,
                )
            } else {
                published_release(options, root, prepared, updates, told, docs, at)
            }
        }),
{
    let files = Seq::new(updates.len(), |i: int| updates[i].file);
    assert(updates.map_values(|update: FileUpdateView| update.file) == files);
}

/// Every extra file goes into the commit as it is, unless it is planned already; one that
/// cannot be found, lies outside or cannot be read stops the release.
pub proof fn law_every_extra_file_is_committed(
    root: Seq<char>,
    extra: Seq<ExtraFile>,
    planned: Seq<FileUpdateView>,
    i: int,
)
    requires
        0 <= i < extra.len(),
    ensures
        with_extra_from(root, extra, 0, planned) matches Ok(updates) ==> (extra[i].path matches Ok(
            path,
        ) && repository_path(root, path@) is Ok && crate::release::is_updated(updates, path@)),
        extra[i].path is Err ==> with_extra_from(root, extra, 0, planned) is Err,
        (extra[i].path matches Ok(path) && repository_path(root, path@) is Err)
            ==> with_extra_from(root, extra, 0, planned) is Err,
{
    lemma_extra(root, extra, 0, planned, i);
}

proof fn lemma_extra(
    root: Seq<char>,
    extra: Seq<ExtraFile>,
    from: int,
    planned: Seq<FileUpdateView>,
    i: int,
)
    requires
        0 <= from <= i < extra.len(),
    ensures
        with_extra_from(root, extra, from, planned) matches Ok(updates) ==> (
        extra[i].path matches Ok(path) && repository_path(root, path@) is Ok
            && crate::release::is_updated(updates, path@)),
    decreases extra.len() - from,
{
    match extra[from].path {
        Ok(path) => {
            let next = if crate::release::is_updated(planned, path@) {
                planned
            } else {
                match extra[from].content {
                    Ok(content) => planned.push(
                        FileUpdateView { file: path@, updated_content: content@ },
                    ),
                    Err(_) => planned,
                }
            };
            if !crate::release::is_updated(planned, path@) && extra[from].content is Ok {
                assert(next[planned.len() as int].file == path@);
            }
            if with_extra_from(root, extra, from, planned) is Ok {
                assert(with_extra_from(root, extra, from, planned) == with_extra_from(
                    root,
                    extra,
                    from + 1,
                    next,
                ));
                if from < i {
                    lemma_extra(root, extra, from + 1, next, i);
                } else {
                    assert(crate::release::is_updated(next, path@));
                    crate::release_laws::law_extra_files_keep_the_plan(root, extra, from + 1, next);
                    let updates = with_extra_from(root, extra, from + 1, next)->Ok_0;
                    let k = choose|k: int| 0 <= k < next.len() && (#[trigger] next[k]).file == path@;
                    assert(updates[k] == next[k]);
                }
            }
        },
        Err(_) => {},
    }
}

// ---------------------------------------------------------------------------
// Telling
// ---------------------------------------------------------------------------
/// The value, or nothing where there is none.
pub open spec fn or_none(text: Option<Seq<char>>) -> Seq<char> {
    match text {
        Some(text) => text,
        None => Seq::empty(),
    }
}

/// The outputs are lines of a name and a value, in a fixed order. What is not known is empty;
/// the commit is left out where there is none.
pub proof fn law_outputs_are_told(report: ReleaseView, notes_file: Seq<char>)
    ensures
        outputs(report, notes_file) == ("released="@ + (if report.outcome
            == ReleaseOutcome::Released {
            "true"@
        } else {
            "false"@
        }) + "\n"@) + ("version="@ + or_none(report.next_version) + "\n"@) + ("tag="@ + or_none(
            report.tag,
        ) + "\n"@) + (match report.commit_sha {
            Some(sha) => "commit="@ + sha + "\n"@,
            None => Seq::empty(),
        }) + ("release-url="@ + or_none(report.release_url) + "\n"@) + ("release-pr-number="@ + (
        match report.pull_request_number {
            Some(number) => decimal(number as nat),
            None => Seq::empty(),
        }) + "\n"@) + ("release-pr-url="@ + or_none(report.pull_request_url) + "\n"@) + (
        "release-branch="@ + or_none(report.release_branch) + "\n"@) + ("notes-file="@ + (
        if report.notes is Some {
            notes_file
        } else {
            Seq::empty()
        }) + "\n"@),
{
    reveal_strlit("=");
    reveal_strlit("released");
    reveal_strlit("released=");
    assert("released"@ + "="@ == "released="@);
    reveal_strlit("version");
    reveal_strlit("version=");
    assert("version"@ + "="@ == "version="@);
    reveal_strlit("tag");
    reveal_strlit("tag=");
    assert("tag"@ + "="@ == "tag="@);
    reveal_strlit("commit");
    reveal_strlit("commit=");
    assert("commit"@ + "="@ == "commit="@);
    reveal_strlit("release-url");
    reveal_strlit("release-url=");
    assert("release-url"@ + "="@ == "release-url="@);
    reveal_strlit("release-pr-number");
    reveal_strlit("release-pr-number=");
    assert("release-pr-number"@ + "="@ == "release-pr-number="@);
    reveal_strlit("release-pr-url");
    reveal_strlit("release-pr-url=");
    assert("release-pr-url"@ + "="@ == "release-pr-url="@);
    reveal_strlit("release-branch");
    reveal_strlit("release-branch=");
    assert("release-branch"@ + "="@ == "release-branch="@);
    reveal_strlit("notes-file");
    reveal_strlit("notes-file=");
    assert("notes-file"@ + "="@ == "notes-file="@);
}

/// Every manifest of the tree with a version to write gets the version of the release, unless
/// it already reads as released: the manifest at the root and those of all members.
pub proof fn law_every_manifest_gets_the_version(
    tree: WorkingTree,
    version: Seq<char>,
    updates: Seq<FileUpdateView>,
    root: ManifestFile,
    members: Vec<ManifestFile>,
)
    requires
        tree.manifest == Ok::<ManifestFile, String>(root),
        tree.members == Ok::<Vec<ManifestFile>, String>(members),
        are_planned(tree, version, Ok(updates)),
    ensures
        ({
            let internal = package_names(seq![root@] + views(members@));
            &&& has_places(root@, internal) ==> is_planned(updates, root@, internal, version)
                || reads_as_released(root.content@, root@, internal, version)
            &&& forall|m: int|
                0 <= m < members@.len() && has_places((#[trigger] members@[m])@, internal)
                    ==> is_planned(updates, members@[m]@, internal, version) || reads_as_released(
                    members@[m].content@,
                    members@[m]@,
                    internal,
                    version,
                )
        }),
{
    let files = seq![root@] + views(members@);
    let internal = package_names(files);
    let lock = option_view(tree.lockfile);
    let planned = choose|planned: Seq<FileUpdateView>|
        planned.len() > 0 && #[trigger] is_plan(planned, files, lock, internal, version) && Ok::<
            Seq<FileUpdateView>,
            Seq<char>,
        >(updates) == with_extra_from(tree.root@, tree.extra_files@, 0, planned);
    law_plan_covers_every_manifest(planned, files, lock, internal, version);
    crate::release_laws::law_extra_files_keep_the_plan(
        tree.root@,
        tree.extra_files@,
        0,
        planned,
    );
    assert forall|f: int|
        0 <= f < files.len() && is_planned(
            planned,
            #[trigger] files[f],
            internal,
            version,
        ) implies is_planned(updates, files[f], internal, version) by {
        let u = choose|u: int|
            0 <= u < planned.len() && (#[trigger] planned[u]).file == files[f].path
                && reads_as_released(planned[u].updated_content, files[f], internal, version);
        assert(updates[u] == planned[u]);
    }
    assert(files[0] == root@);
    assert forall|m: int|
        0 <= m < members@.len() && has_places(
            (#[trigger] members@[m])@,
            internal,
        ) implies is_planned(updates, members@[m]@, internal, version) || reads_as_released(
        members@[m].content@,
        members@[m]@,
        internal,
        version,
    ) by {
        assert(files[m + 1] == members@[m]@);
    }
}

} // verus!
