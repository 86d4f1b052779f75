//! Releases driven by conventional commits.
//!
//! The commits since the last release tag decide the next version. The manifests and
//! the lockfile are rewritten in a commit, the commit is tagged, and a GitHub release
//! is published, all through the GitHub API. The branch is only ever moved forward:
//! where it advanced in the meantime, the run skips.

use vstd::prelude::*;

use crate::api::{
    carried_out, carried_out_or_refused, name_for, name_if_there, pull_request_for, Document,
    Progress, ProgressView, PullRequestInfo, PullRequestView, TagInfo, TagView,
};
use crate::calls::{compared, listed, missing_release_token, newest_tag, open_pull_request};
use crate::cargo::{ManifestFile, ManifestFileView};
use crate::conventional::{
    all_classified, bump_for, bumped, can_bump, checked_bump, classify_commits, notes_for,
    release_notes, required_bump, BumpLevel, ConventionalCommit, ConventionalView,
};
use crate::github::{CommitRange, GitHubClient, RangeView};
use crate::model::{FileUpdate, FileUpdateView};
use crate::paths::{relative_repository_path, repository_path};
use crate::remote::{commit_files, committed};
use crate::requests::{
    branch_request, commit_tree_request, create_pull_request_request, create_ref_request,
    create_release_request, create_tag_request, fast_forward_request, find_pull_request_request,
    reference_request, repository_request, update_pull_request_request, update_ref_request,
};
use crate::text::{
    begins, blank, decimal, decimal_text, is_blank, join_three, join_two, option_view, replace_text,
    replaced, same, starts_with, trim, trimmed, views,
};
use crate::version::{parsed_version, Version, VersionView};
use crate::versioning::{
    current_version, is_plan, nothing_to_rewrite, package_names, plan_failure,
    plan_version_rewrite, version_result,
};

verus! {

/// How the release tag is created. The moving alias of the major version is always
/// lightweight.
#[derive(Debug, Clone, Copy, PartialEq, Eq, Structural)]
pub enum TagStyle {
    Annotated,
    Lightweight,
}

impl Default for TagStyle {
    fn default() -> (result: Self)
        ensures
            result == TagStyle::Annotated,
    {
        TagStyle::Annotated
    }
}

/// Which part of a release a run performs.
#[derive(Debug, Clone, Copy, PartialEq, Eq, Structural)]
pub enum ReleasePhase {
    /// Bump, tag and publish in a single run.
    All,
    /// Commit the version bump and stop, leaving the version untagged.
    Bump,
    /// Tag and publish the version that the manifest already holds, without bumping.
    Tag,
}

impl Default for ReleasePhase {
    fn default() -> (result: Self)
        ensures
            result == ReleasePhase::All,
    {
        ReleasePhase::All
    }
}

/// What is to be released, and how.
#[derive(Debug, Clone, PartialEq, Eq)]
pub struct ReleaseOptions {
    pub repo_root: String,
    pub owner: String,
    pub repo: String,
    pub base_branch: Option<String>,
    /// A bump that is forced; without one the commits decide.
    pub bump: Option<BumpLevel>,
    pub tag_prefix: String,
    pub tag_style: TagStyle,
    pub update_major_alias: bool,
    /// The commit message; `{version}` stands for the new version.
    pub commit_message: String,
    /// Open or refresh a release pull request instead of publishing to the base
    /// branch.
    pub create_pr: bool,
    pub release_branch: String,
    pub dry_run: bool,
    /// Files that go into the release commit besides the manifests and the lockfile.
    pub extra_files: Vec<String>,
    pub phase: ReleasePhase,
}

/// What became of a run.
#[derive(Debug, Clone, Copy, PartialEq, Eq, Structural)]
pub enum ReleaseOutcome {
    Released,
    /// The version bump was committed; the tag and the release are still pending.
    VersionCommitted,
    PullRequestCreated,
    PullRequestUpdated,
    DryRun,
    SkippedNoReleasableChanges,
    SkippedRace,
    SkippedTagExists,
}

/// What a run did.
#[derive(Debug, Clone, PartialEq, Eq)]
pub struct ReleaseReport {
    pub outcome: ReleaseOutcome,
    pub current_version: String,
    pub next_version: Option<String>,
    pub bump: Option<BumpLevel>,
    pub tag: Option<String>,
    pub major_alias: Option<String>,
    pub commit_sha: Option<String>,
    pub release_url: Option<String>,
    pub pull_request_number: Option<u64>,
    pub pull_request_url: Option<String>,
    pub release_branch: Option<String>,
    pub notes: Option<String>,
    pub commits_analyzed: usize,
    pub commit_range_truncated: bool,
    pub files_updated: Vec<String>,
}

/// What a `ReleaseReport` stands for.
pub struct ReleaseView {
    pub outcome: ReleaseOutcome,
    pub current_version: Seq<char>,
    pub next_version: Option<Seq<char>>,
    pub bump: Option<BumpLevel>,
    pub tag: Option<Seq<char>>,
    pub major_alias: Option<Seq<char>>,
    pub commit_sha: Option<Seq<char>>,
    pub release_url: Option<Seq<char>>,
    pub pull_request_number: Option<u64>,
    pub pull_request_url: Option<Seq<char>>,
    pub release_branch: Option<Seq<char>>,
    pub notes: Option<Seq<char>>,
    pub commits_analyzed: nat,
    pub commit_range_truncated: bool,
    pub files_updated: Seq<Seq<char>>,
}

impl View for ReleaseReport {
    type V = ReleaseView;

    open spec fn view(&self) -> ReleaseView {
        ReleaseView {
            outcome: self.outcome,
            current_version: self.current_version@,
            next_version: option_view(self.next_version),
            bump: self.bump,
            tag: option_view(self.tag),
            major_alias: option_view(self.major_alias),
            commit_sha: option_view(self.commit_sha),
            release_url: option_view(self.release_url),
            pull_request_number: self.pull_request_number,
            pull_request_url: option_view(self.pull_request_url),
            release_branch: option_view(self.release_branch),
            notes: option_view(self.notes),
            commits_analyzed: self.commits_analyzed as nat,
            commit_range_truncated: self.commit_range_truncated,
            files_updated: views(self.files_updated@),
        }
    }
}

impl DeepView for ReleaseReport {
    type V = ReleaseView;

    open spec fn deep_view(&self) -> ReleaseView {
        self@
    }
}

// ---------------------------------------------------------------------------
// Outputs
// ---------------------------------------------------------------------------
/// A text, and nothing where there is none.
pub open spec fn or_nothing(text: Option<Seq<char>>) -> Seq<char> {
    match text {
        Some(text) => text,
        None => Seq::empty(),
    }
}

/// A number, and nothing where there is none.
pub open spec fn number_or_nothing(number: Option<u64>) -> Seq<char> {
    match number {
        Some(number) => decimal(number as nat),
        None => Seq::empty(),
    }
}

/// A line of the outputs.
pub open spec fn output_line(key: Seq<char>, value: Seq<char>) -> Seq<char> {
    key + "="@ + value + "\n"@
}

/// The outputs of a run.
pub open spec fn outputs(report: ReleaseView, notes_file: Seq<char>) -> Seq<char> {
    let released = if report.outcome == ReleaseOutcome::Released {
        "true"@
    } else {
        "false"@
    };
    let notes_path = if report.notes is Some {
        notes_file
    } else {
        Seq::empty()
    };
    let commit = match report.commit_sha {
        Some(sha) => output_line("commit"@, sha),
        None => Seq::empty(),
    };
    output_line("released"@, released) + output_line("version"@, or_nothing(report.next_version))
        + output_line("tag"@, or_nothing(report.tag)) + commit + output_line(
        "release-url"@,
        or_nothing(report.release_url),
    ) + output_line("release-pr-number"@, number_or_nothing(report.pull_request_number))
        + output_line("release-pr-url"@, or_nothing(report.pull_request_url)) + output_line(
        "release-branch"@,
        or_nothing(report.release_branch),
    ) + output_line("notes-file"@, notes_path)
}

fn push_output(text: &mut String, key: &str, value: &str)
    ensures
        final(text)@ == old(text)@ + output_line(key@, value@),
{
    let ghost before = text@;
    text.append(&join_two(key, "="));
    text.append(value);
    text.append("\n");
    assert(text@ == before + output_line(key@, value@));
}

fn text_or_nothing(text: &Option<String>) -> (result: String)
    ensures
        result@ == or_nothing(option_view(*text)),
{
    match text {
        Some(text) => text.clone(),
        None => String::new(),
    }
}

impl ReleaseReport {
    /// The outputs of a run, one `key=value` to a line. The values are empty where the
    /// run did not come to them; the commit is left out where there is none.
    pub fn github_outputs(&self, notes_file: &str) -> (result: String)
        ensures
            result@ == outputs(self@, notes_file@),
    {
        let mut text = String::new();
        let released = if self.outcome == ReleaseOutcome::Released {
            "true"
        } else {
            "false"
        };
        push_output(&mut text, "released", released);
        assert(text@ == output_line("released"@, released@));
        push_output(&mut text, "version", &text_or_nothing(&self.next_version));
        push_output(&mut text, "tag", &text_or_nothing(&self.tag));
        let ghost before = text@;
        match &self.commit_sha {
            Some(sha) => push_output(&mut text, "commit", sha),
            None => {
                assert(before == before + Seq::<char>::empty());
            },
        }
        push_output(&mut text, "release-url", &text_or_nothing(&self.release_url));
        let number = match self.pull_request_number {
            Some(number) => decimal_text(number),
            None => String::new(),
        };
        push_output(&mut text, "release-pr-number", &number);
        push_output(&mut text, "release-pr-url", &text_or_nothing(&self.pull_request_url));
        push_output(&mut text, "release-branch", &text_or_nothing(&self.release_branch));
        let notes_path = match &self.notes {
            Some(_) => notes_file.to_owned(),
            None => String::new(),
        };
        push_output(&mut text, "notes-file", &notes_path);
        text
    }
}

// ---------------------------------------------------------------------------
// The working tree
// ---------------------------------------------------------------------------
/// An extra file: where it lies, or why it was not found; and what it holds, or why it
/// could not be read.
#[derive(Debug)]
pub struct ExtraFile {
    pub path: Result<String, String>,
    pub content: Result<String, String>,
}

/// What a release reads of the working tree: the root, the root manifest, the
/// manifests of the other members of the workspace, the lockfile and the extra files;
/// or why a part could not be read.
#[derive(Debug)]
pub struct WorkingTree {
    pub root: String,
    pub manifest: Result<ManifestFile, String>,
    pub members: Result<Vec<ManifestFile>, String>,
    pub lockfile: Option<ManifestFile>,
    pub extra_files: Vec<ExtraFile>,
}

/// The file is among the updates.
pub open spec fn is_updated(updates: Seq<FileUpdateView>, file: Seq<char>) -> bool {
    exists|i: int| 0 <= i < updates.len() && (#[trigger] updates[i]).file == file
}

/// The updates with the extra files from the `i`-th on: each once, and none that is
/// among them already.
pub open spec fn with_extra_from(
    root: Seq<char>,
    extra: Seq<ExtraFile>,
    i: int,
    updates: Seq<FileUpdateView>,
) -> Result<Seq<FileUpdateView>, Seq<char>>
    decreases extra.len() - i,
{
    if i < 0 || i >= extra.len() {
        Ok(updates)
    } else {
        match extra[i].path {
            Err(message) => Err(message@),
            Ok(path) => match repository_path(root, path@) {
                Err(message) => Err(message),
                Ok(_) => if is_updated(updates, path@) {
                    with_extra_from(root, extra, i + 1, updates)
                } else {
                    match extra[i].content {
                        Err(message) => Err(message@),
                        Ok(content) => with_extra_from(
                            root,
                            extra,
                            i + 1,
                            updates.push(
                                FileUpdateView { file: path@, updated_content: content@ },
                            ),
                        ),
                    }
                },
            },
        }
    }
}

fn lists_file(updates: &Vec<FileUpdate>, file: &str) -> (result: bool)
    ensures
        result == is_updated(views(updates@), file@),
{
    let ghost all = views(updates@);
    let mut i: usize = 0;
    while i < updates.len()
        invariant
            i <= updates.len(),
            all == views(updates@),
            forall|k: int| 0 <= k < i ==> (#[trigger] all[k]).file != file@,
        decreases updates.len() - i,
    {
        assert(all[i as int] == updates@[i as int]@);
        if same(&updates[i].file, file) {
            return true;
        }
        i = i + 1;
    }
    false
}

/// The updates and the extra files: each once, and none that is among the updates
/// already. A stale copy of a rewritten file would undo the rewrite.
pub fn extra_file_updates(root: &str, extra: &Vec<ExtraFile>, planned: Vec<FileUpdate>) -> (result:
    Result<Vec<FileUpdate>, String>)
    ensures
        match result {
            Ok(updates) => with_extra_from(root@, extra@, 0, views(planned@)) == Ok::<
                Seq<FileUpdateView>,
                Seq<char>,
            >(views(updates@)),
            Err(message) => with_extra_from(root@, extra@, 0, views(planned@)) == Err::<
                Seq<FileUpdateView>,
                Seq<char>,
            >(message@),
        },
{
    let ghost before = views(planned@);
    let mut updates = planned;
    let mut i: usize = 0;
    #[verifier::loop_isolation(false)]
    while i < extra.len()
        invariant
            i <= extra.len(),
            with_extra_from(root@, extra@, 0, before) == with_extra_from(
                root@,
                extra@,
                i as int,
                views(updates@),
            ),
        decreases extra.len() - i,
    {
        match &extra[i].path {
            Err(message) => {
                return Err(message.clone());
            },
            Ok(path) => {
                match relative_repository_path(root, path) {
                    Err(message) => {
                        return Err(message);
                    },
                    Ok(_) => {},
                }
                if !lists_file(&updates, path) {
                    match &extra[i].content {
                        Err(message) => {
                            return Err(message.clone());
                        },
                        Ok(content) => {
                            let ghost so_far = views(updates@);
                            let update = FileUpdate {
                                file: path.clone(),
                                updated_content: content.clone(),
                            };
                            updates.push(update);
                            assert(views(updates@) == so_far.push(update@));
                        },
                    }
                }
            },
        }
        i = i + 1;
    }
    Ok(updates)
}

// ---------------------------------------------------------------------------
// Analysis
// ---------------------------------------------------------------------------
/// What a release is based on.
pub struct AnalysisView {
    pub branch: Seq<char>,
    pub head_sha: Seq<char>,
    pub current_version: Seq<char>,
    pub current: VersionView,
    pub commits: Seq<ConventionalView>,
    pub truncated: bool,
}

struct Analysis {
    branch: String,
    head_sha: String,
    current_version: String,
    current: Version,
    commits: Vec<ConventionalCommit>,
    truncated: bool,
}

impl DeepView for Analysis {
    type V = AnalysisView;

    closed spec fn deep_view(&self) -> AnalysisView {
        AnalysisView {
            branch: self.branch@,
            head_sha: self.head_sha@,
            current_version: self.current_version@,
            current: self.current@,
            commits: views(self.commits@),
            truncated: self.truncated,
        }
    }
}

/// The branch that is released: the given one, without the white space around it,
/// unless it is blank, else the default branch.
pub open spec fn release_base(options: ReleaseOptions, docs: Seq<Document>) -> ProgressView<
    Seq<char>,
> {
    let default = name_for(docs, 0, repository_request(options.owner@, options.repo@));
    match options.base_branch {
        Some(branch) => if is_blank(branch@) {
            default
        } else {
            ProgressView::Done(trim(branch@), 0)
        },
        None => default,
    }
}

/// The version that the root manifest holds, as text and read, or why there is none.
pub open spec fn manifest_version(manifest: Result<ManifestFile, String>) -> Result<
    (Seq<char>, VersionView),
    Seq<char>,
> {
    match manifest {
        Err(message) => Err(message@),
        Ok(file) => match version_result(file@) {
            Err(message) => Err(message),
            Ok(text) => match parsed_version(text) {
                Some(version) => Ok((text, version)),
                None => Err("invalid current version '"@ + text + "' in Cargo.toml"@),
            },
        },
    }
}

/// The commits since a tag, or all where there is none.
pub open spec fn commits_since(
    owner: Seq<char>,
    repo: Seq<char>,
    tag: Option<TagView>,
    head: Seq<char>,
    docs: Seq<Document>,
    at: int,
) -> ProgressView<RangeView> {
    match tag {
        Some(tag) => compared(owner, repo, tag.name, head, 10, docs, at),
        None => listed(owner, repo, head, 3, docs, at),
    }
}

/// What a release is based on: the head of the branch, the version of the root
/// manifest, and the commits since the last release tag.
pub open spec fn analyzed(options: ReleaseOptions, tree: WorkingTree, docs: Seq<Document>) ->
    ProgressView<AnalysisView> {
    let owner = options.owner@;
    let repo = options.repo@;
    match release_base(options, docs) {
        ProgressView::Ask(request) => ProgressView::Ask(request),
        ProgressView::Failed(message) => ProgressView::Failed(message),
        ProgressView::Done(branch, next) => match name_for(
            docs,
            next,
            branch_request(owner, repo, branch),
        ) {
            ProgressView::Ask(request) => ProgressView::Ask(request),
            ProgressView::Failed(message) => ProgressView::Failed(message),
            ProgressView::Done(head_sha, next) => match manifest_version(tree.manifest) {
                Err(message) => ProgressView::Failed(message),
                Ok((current_version, current)) => match newest_tag(
                    owner,
                    repo,
                    options.tag_prefix@,
                    docs,
                    next,
                ) {
                    ProgressView::Ask(request) => ProgressView::Ask(request),
                    ProgressView::Failed(message) => ProgressView::Failed(message),
                    ProgressView::Done(tag, next) => match commits_since(
                        owner,
                        repo,
                        tag,
                        head_sha,
                        docs,
                        next,
                    ) {
                        ProgressView::Ask(request) => ProgressView::Ask(request),
                        ProgressView::Failed(message) => ProgressView::Failed(message),
                        ProgressView::Done(range, next) => ProgressView::Done(
                            AnalysisView {
                                branch,
                                head_sha,
                                current_version,
                                current,
                                commits: all_classified(range.commits),
                                truncated: range.truncated,
                            },
                            next,
                        ),
                    },
                },
            },
        },
    }
}

fn read_version(manifest: &Result<ManifestFile, String>) -> (result: Result<
    (String, Version),
    String,
>)
    ensures
        match result {
            Ok((text, version)) => manifest_version(*manifest) == Ok::<
                (Seq<char>, VersionView),
                Seq<char>,
            >((text@, version@)),
            Err(message) => manifest_version(*manifest) == Err::<
                (Seq<char>, VersionView),
                Seq<char>,
            >(message@),
        },
{
    match manifest {
        Err(message) => Err(message.clone()),
        Ok(file) => match current_version(file) {
            Err(message) => Err(message),
            Ok(text) => match Version::parse(&text) {
                Some(version) => Ok((text, version)),
                None => Err(
                    join_three("invalid current version '", &text, "' in Cargo.toml"),
                ),
            },
        },
    }
}

/// The report before anything was decided.
pub open spec fn initial_view(analysis: AnalysisView, bump: Option<BumpLevel>) -> ReleaseView {
    ReleaseView {
        outcome: ReleaseOutcome::SkippedNoReleasableChanges,
        current_version: analysis.current_version,
        next_version: None,
        bump,
        tag: None,
        major_alias: None,
        commit_sha: None,
        release_url: None,
        pull_request_number: None,
        pull_request_url: None,
        release_branch: None,
        notes: None,
        commits_analyzed: analysis.commits.len(),
        commit_range_truncated: analysis.truncated,
        files_updated: Seq::empty(),
    }
}

fn initial_report(analysis: &Analysis, bump: Option<BumpLevel>) -> (result: ReleaseReport)
    ensures
        result@ == initial_view(analysis.deep_view(), bump),
{
    let files_updated: Vec<String> = Vec::new();
    assert(views(files_updated@) == Seq::<Seq<char>>::empty());
    ReleaseReport {
        outcome: ReleaseOutcome::SkippedNoReleasableChanges,
        current_version: analysis.current_version.clone(),
        next_version: None,
        bump,
        tag: None,
        major_alias: None,
        commit_sha: None,
        release_url: None,
        pull_request_number: None,
        pull_request_url: None,
        release_branch: None,
        notes: None,
        commits_analyzed: analysis.commits.len(),
        commit_range_truncated: analysis.truncated,
        files_updated,
    }
}

// ---------------------------------------------------------------------------
// Decision
// ---------------------------------------------------------------------------
/// What is decided: the run is finished, or a version is to be released.
pub enum DecisionView {
    Finished(ReleaseView),
    Release { version: VersionView, tag: Seq<char>, report: ReleaseView },
}

enum Decision {
    Finished(ReleaseReport),
    Release { version: Version, tag: String, report: ReleaseReport },
}

impl DeepView for Decision {
    type V = DecisionView;

    closed spec fn deep_view(&self) -> DecisionView {
        match self {
            Decision::Finished(report) => DecisionView::Finished(report@),
            Decision::Release { version, tag, report } => DecisionView::Release {
                version: version@,
                tag: tag@,
                report: report@,
            },
        }
    }
}

/// The version is released unless its tag exists.
pub open spec fn decided_for(
    options: ReleaseOptions,
    analysis: AnalysisView,
    bump: Option<BumpLevel>,
    version: VersionView,
    docs: Seq<Document>,
    at: int,
) -> ProgressView<DecisionView> {
    let tag = options.tag_prefix@ + version.text();
    let report = ReleaseView {
        next_version: Some(version.text()),
        tag: Some(tag),
        notes: Some(notes_for(tag, analysis.commits, analysis.truncated)),
        ..initial_view(analysis, bump)
    };
    match name_if_there(
        docs,
        at,
        reference_request(options.owner@, options.repo@, "tags/"@ + tag),
    ) {
        ProgressView::Ask(request) => ProgressView::Ask(request),
        ProgressView::Failed(message) => ProgressView::Failed(message),
        ProgressView::Done(Some(_), next) => ProgressView::Done(
            DecisionView::Finished(
                ReleaseView { outcome: ReleaseOutcome::SkippedTagExists, ..report },
            ),
            next,
        ),
        ProgressView::Done(None, next) => ProgressView::Done(
            DecisionView::Release { version, tag, report },
            next,
        ),
    }
}

/// How far the version goes up: as forced, or as the commits ask for.
pub open spec fn chosen_bump(options: ReleaseOptions, analysis: AnalysisView) -> Option<BumpLevel> {
    match options.bump {
        Some(level) => Some(level),
        None => bump_for(analysis.commits),
    }
}

/// What is decided. The tag phase releases the version of the manifest; else the
/// version goes up, and where nothing asks for that, the run is finished.
pub open spec fn decided(
    options: ReleaseOptions,
    analysis: AnalysisView,
    docs: Seq<Document>,
    at: int,
) -> ProgressView<DecisionView> {
    if options.phase == ReleasePhase::Tag {
        decided_for(options, analysis, None, analysis.current, docs, at)
    } else {
        match chosen_bump(options, analysis) {
            None => ProgressView::Done(
                DecisionView::Finished(initial_view(analysis, None)),
                at,
            ),
            Some(level) => if can_bump(analysis.current, level) {
                decided_for(
                    options,
                    analysis,
                    Some(level),
                    bumped(analysis.current, level),
                    docs,
                    at,
                )
            } else {
                ProgressView::Failed(
                    "the version '"@ + analysis.current_version + "' cannot go up"@,
                )
            },
        }
    }
}

// ---------------------------------------------------------------------------
// Publishing
// ---------------------------------------------------------------------------
/// What is published: a version under a tag, on top of the head of a branch.
pub struct PreparedView {
    pub branch: Seq<char>,
    pub head_sha: Seq<char>,
    pub version: VersionView,
    pub tag: Seq<char>,
}

/// The commit of the updates; without updates the head itself.
pub open spec fn commit_built(
    options: ReleaseOptions,
    root: Seq<char>,
    prepared: PreparedView,
    updates: Seq<FileUpdateView>,
    docs: Seq<Document>,
    at: int,
) -> ProgressView<Seq<char>> {
    let owner = options.owner@;
    let repo = options.repo@;
    if updates.len() == 0 {
        ProgressView::Done(prepared.head_sha, at)
    } else {
        match name_for(docs, at, commit_tree_request(owner, repo, prepared.head_sha)) {
            ProgressView::Ask(request) => ProgressView::Ask(request),
            ProgressView::Failed(message) => ProgressView::Failed(message),
            ProgressView::Done(base_tree, next) => committed(
                owner,
                repo,
                root,
                updates,
                base_tree,
                prepared.head_sha,
                replace_text(options.commit_message@, "{version}"@, prepared.version.text()),
                docs,
                next,
            ),
        }
    }
}

/// What the tag points at: a tag object, or the commit itself.
pub open spec fn tag_target(
    options: ReleaseOptions,
    prepared: PreparedView,
    commit: Seq<char>,
    docs: Seq<Document>,
    at: int,
) -> ProgressView<Seq<char>> {
    match options.tag_style {
        TagStyle::Annotated => name_for(
            docs,
            at,
            create_tag_request(
                options.owner@,
                options.repo@,
                prepared.tag,
                "Release "@ + prepared.tag,
                commit,
            ),
        ),
        TagStyle::Lightweight => ProgressView::Done(commit, at),
    }
}

/// The reference points at the commit: it is moved, or created where it is not there.
pub open spec fn reference_set(
    owner: Seq<char>,
    repo: Seq<char>,
    reference: Seq<char>,
    commit: Seq<char>,
    docs: Seq<Document>,
    at: int,
) -> ProgressView<()> {
    match name_if_there(docs, at, reference_request(owner, repo, reference)) {
        ProgressView::Ask(request) => ProgressView::Ask(request),
        ProgressView::Failed(message) => ProgressView::Failed(message),
        ProgressView::Done(Some(_), next) => carried_out(
            docs,
            next,
            update_ref_request(owner, repo, reference, commit, true),
        ),
        ProgressView::Done(None, next) => carried_out(
            docs,
            next,
            create_ref_request(owner, repo, reference, commit),
        ),
    }
}

/// The alias of the major version.
pub open spec fn alias_of(options: ReleaseOptions, prepared: PreparedView) -> Seq<char> {
    options.tag_prefix@ + decimal(prepared.version.major as nat)
}

/// The alias of the major version points at the commit, where that is wanted.
pub open spec fn alias_set(
    options: ReleaseOptions,
    prepared: PreparedView,
    commit: Seq<char>,
    docs: Seq<Document>,
    at: int,
) -> ProgressView<Option<Seq<char>>> {
    let alias = alias_of(options, prepared);
    if !options.update_major_alias {
        ProgressView::Done(None, at)
    } else {
        match reference_set(options.owner@, options.repo@, "tags/"@ + alias, commit, docs, at) {
            ProgressView::Ask(request) => ProgressView::Ask(request),
            ProgressView::Failed(message) => ProgressView::Failed(message),
            ProgressView::Done(_, next) => ProgressView::Done(Some(alias), next),
        }
    }
}

/// The commit is tagged, the alias is moved, and the release is published.
pub open spec fn finalized(
    options: ReleaseOptions,
    prepared: PreparedView,
    commit: Seq<char>,
    report: ReleaseView,
    docs: Seq<Document>,
    at: int,
) -> ProgressView<ReleaseView> {
    let owner = options.owner@;
    let repo = options.repo@;
    match tag_target(options, prepared, commit, docs, at) {
        ProgressView::Ask(request) => ProgressView::Ask(request),
        ProgressView::Failed(message) => ProgressView::Failed(message),
        ProgressView::Done(target, next) => match carried_out(
            docs,
            next,
            create_ref_request(owner, repo, "tags/"@ + prepared.tag, target),
        ) {
            ProgressView::Ask(request) => ProgressView::Ask(request),
            ProgressView::Failed(message) => ProgressView::Failed(message),
            ProgressView::Done(_, next) => match alias_set(options, prepared, commit, docs, next) {
                ProgressView::Ask(request) => ProgressView::Ask(request),
                ProgressView::Failed(message) => ProgressView::Failed(message),
                ProgressView::Done(alias, next) => match name_for(
                    docs,
                    next,
                    create_release_request(
                        owner,
                        repo,
                        prepared.tag,
                        "Release "@ + prepared.tag,
                        or_nothing(report.notes),
                        commit,
                    ),
                ) {
                    ProgressView::Ask(request) => ProgressView::Ask(request),
                    ProgressView::Failed(message) => ProgressView::Failed(message),
                    ProgressView::Done(url, next) => ProgressView::Done(
                        ReleaseView {
                            outcome: ReleaseOutcome::Released,
                            major_alias: alias,
                            release_url: Some(url),
                            ..report
                        },
                        next,
                    ),
                },
            },
        },
    }
}

/// The title of the release pull request.
pub open spec fn release_title(prepared: PreparedView) -> Seq<char> {
    "chore(release): "@ + prepared.tag
}

/// The body of the release pull request.
pub open spec fn release_body(
    options: ReleaseOptions,
    prepared: PreparedView,
    report: ReleaseView,
) -> Seq<char> {
    "Automated release update for `"@ + prepared.tag
        + "`.\n\nThis PR updates the package version from `"@ + report.current_version + "` to `"@
        + prepared.version.text() + "`. Merging it into `"@ + prepared.branch
        + "` allows the release workflow to publish the tag and GitHub release.\n\n"@ + or_nothing(
        report.notes,
    ) + "\n\n<!-- automated-release-branch: "@ + options.release_branch@ + " -->"@
}

/// The release pull request is opened or rewritten.
pub open spec fn pull_request_set(
    options: ReleaseOptions,
    prepared: PreparedView,
    report: ReleaseView,
    docs: Seq<Document>,
    at: int,
) -> ProgressView<ReleaseView> {
    let owner = options.owner@;
    let repo = options.repo@;
    let head = options.release_branch@;
    let title = release_title(prepared);
    let body = release_body(options, prepared, report);
    match open_pull_request(
        docs,
        at,
        find_pull_request_request(owner, repo, head, prepared.branch),
    ) {
        ProgressView::Ask(request) => ProgressView::Ask(request),
        ProgressView::Failed(message) => ProgressView::Failed(message),
        ProgressView::Done(Some(existing), next) => with_pull_request(
            pull_request_for(
                docs,
                next,
                update_pull_request_request(owner, repo, existing.number, title, body),
            ),
            ReleaseOutcome::PullRequestUpdated,
            head,
            report,
        ),
        ProgressView::Done(None, next) => with_pull_request(
            pull_request_for(
                docs,
                next,
                create_pull_request_request(owner, repo, title, body, head, prepared.branch),
            ),
            ReleaseOutcome::PullRequestCreated,
            head,
            report,
        ),
    }
}

/// The report with the pull request.
pub open spec fn with_pull_request(
    pull_request: ProgressView<PullRequestView>,
    outcome: ReleaseOutcome,
    branch: Seq<char>,
    report: ReleaseView,
) -> ProgressView<ReleaseView> {
    match pull_request {
        ProgressView::Ask(request) => ProgressView::Ask(request),
        ProgressView::Failed(message) => ProgressView::Failed(message),
        ProgressView::Done(found, next) => ProgressView::Done(
            ReleaseView {
                outcome,
                pull_request_number: Some(found.number),
                pull_request_url: Some(found.url),
                release_branch: Some(branch),
                ..report
            },
            next,
        ),
    }
}

/// The release branch points at the commit, and its pull request is opened or
/// rewritten.
pub open spec fn proposed(
    options: ReleaseOptions,
    prepared: PreparedView,
    commit: Seq<char>,
    report: ReleaseView,
    docs: Seq<Document>,
    at: int,
) -> ProgressView<ReleaseView> {
    match reference_set(
        options.owner@,
        options.repo@,
        "heads/"@ + options.release_branch@,
        commit,
        docs,
        at,
    ) {
        ProgressView::Ask(request) => ProgressView::Ask(request),
        ProgressView::Failed(message) => ProgressView::Failed(message),
        ProgressView::Done(_, next) => pull_request_set(options, prepared, report, docs, next),
    }
}

/// The branch is moved forward to the commit, where there is one; `false` where it
/// cannot be.
pub open spec fn advanced(
    options: ReleaseOptions,
    prepared: PreparedView,
    staged: bool,
    commit: Seq<char>,
    docs: Seq<Document>,
    at: int,
) -> ProgressView<bool> {
    if staged {
        carried_out_or_refused(
            docs,
            at,
            fast_forward_request(
                options.owner@,
                options.repo@,
                "heads/"@ + prepared.branch,
                commit,
            ),
        )
    } else {
        ProgressView::Done(true, at)
    }
}

/// The commit goes to the branch and is released, as far as the phase goes.
pub open spec fn landed(
    options: ReleaseOptions,
    prepared: PreparedView,
    staged: bool,
    commit: Seq<char>,
    report: ReleaseView,
    docs: Seq<Document>,
    at: int,
) -> ProgressView<ReleaseView> {
    match advanced(options, prepared, staged, commit, docs, at) {
        ProgressView::Ask(request) => ProgressView::Ask(request),
        ProgressView::Failed(message) => ProgressView::Failed(message),
        ProgressView::Done(moved, next) => if !moved {
            ProgressView::Done(
                ReleaseView { outcome: ReleaseOutcome::SkippedRace, ..report },
                next,
            )
        } else if options.phase == ReleasePhase::Bump {
            ProgressView::Done(
                ReleaseView { outcome: ReleaseOutcome::VersionCommitted, ..report },
                next,
            )
        } else {
            finalized(options, prepared, commit, report, docs, next)
        },
    }
}

/// The release is published: committed, checked against a branch that advanced, and
/// proposed as a pull request or landed.
pub open spec fn published_release(
    options: ReleaseOptions,
    root: Seq<char>,
    prepared: PreparedView,
    updates: Seq<FileUpdateView>,
    report: ReleaseView,
    docs: Seq<Document>,
    at: int,
) -> ProgressView<ReleaseView> {
    match commit_built(options, root, prepared, updates, docs, at) {
        ProgressView::Ask(request) => ProgressView::Ask(request),
        ProgressView::Failed(message) => ProgressView::Failed(message),
        ProgressView::Done(commit, next) => match name_for(
            docs,
            next,
            branch_request(options.owner@, options.repo@, prepared.branch),
        ) {
            ProgressView::Ask(request) => ProgressView::Ask(request),
            ProgressView::Failed(message) => ProgressView::Failed(message),
            ProgressView::Done(head, next) => {
                let with_commit = ReleaseView { commit_sha: Some(commit), ..report };
                if head != prepared.head_sha {
                    ProgressView::Done(
                        ReleaseView { outcome: ReleaseOutcome::SkippedRace, ..report },
                        next,
                    )
                } else if options.create_pr {
                    proposed(options, prepared, commit, with_commit, docs, next)
                } else {
                    landed(
                        options,
                        prepared,
                        updates.len() > 0,
                        commit,
                        with_commit,
                        docs,
                        next,
                    )
                }
            },
        },
    }
}

/// The release with the given updates: reported in a dry run, else published.
pub open spec fn released_with(
    options: ReleaseOptions,
    root: Seq<char>,
    prepared: PreparedView,
    updates: Seq<FileUpdateView>,
    before: ReleaseView,
    docs: Seq<Document>,
    at: int,
) -> ProgressView<ReleaseView> {
    let report = ReleaseView {
        files_updated: updates.map_values(|update: FileUpdateView| update.file),
        ..before
    };
    if options.dry_run {
        ProgressView::Done(ReleaseView { outcome: ReleaseOutcome::DryRun, ..report }, at)
    } else {
        published_release(options, root, prepared, updates, report, docs, at)
    }
}

// ---------------------------------------------------------------------------
// The whole run
// ---------------------------------------------------------------------------
/// The branch is one of those that are kept for automated releases.
pub open spec fn is_release_branch(branch: Seq<char>) -> bool {
    branch == "automation/release"@ || starts_with(branch, "automation/release/"@)
}

/// What is said of the options where they do not go together.
pub open spec fn options_failure(options: ReleaseOptions) -> Option<Seq<char>> {
    if options.create_pr && options.phase != ReleasePhase::All {
        Some(
            "--create-pr cannot be combined with --phase: the release pull request already separates the version bump from the tag"@,
        )
    } else if options.create_pr && !is_release_branch(options.release_branch@) {
        Some(
            "automated release branch '"@ + options.release_branch@
                + "' must use the reserved 'automation/release/' prefix"@,
        )
    } else {
        None
    }
}

/// What `release` comes to, given the files that the release changes or why there are
/// none.
pub open spec fn release_run(
    has_token: bool,
    options: ReleaseOptions,
    tree: WorkingTree,
    updates: Result<Seq<FileUpdateView>, Seq<char>>,
    docs: Seq<Document>,
) -> ProgressView<ReleaseView> {
    if !has_token {
        ProgressView::Failed(missing_release_token())
    } else {
        match options_failure(options) {
            Some(message) => ProgressView::Failed(message),
            None => match analyzed(options, tree, docs) {
                ProgressView::Ask(request) => ProgressView::Ask(request),
                ProgressView::Failed(message) => ProgressView::Failed(message),
                ProgressView::Done(analysis, next) => match decided(
                    options,
                    analysis,
                    docs,
                    next,
                ) {
                    ProgressView::Ask(request) => ProgressView::Ask(request),
                    ProgressView::Failed(message) => ProgressView::Failed(message),
                    ProgressView::Done(DecisionView::Finished(report), next) => ProgressView::Done(
                        report,
                        next,
                    ),
                    ProgressView::Done(
                        DecisionView::Release { version, tag, report },
                        next,
                    ) => match updates {
                        Err(message) => ProgressView::Failed(message),
                        Ok(updates) => released_with(
                            options,
                            tree.root@,
                            PreparedView {
                                branch: analysis.branch,
                                head_sha: analysis.head_sha,
                                version,
                                tag,
                            },
                            updates,
                            report,
                            docs,
                            next,
                        ),
                    },
                },
            },
        }
    }
}

/// The version that a run releases, where it comes to that.
pub open spec fn released_version(
    has_token: bool,
    options: ReleaseOptions,
    tree: WorkingTree,
    docs: Seq<Document>,
) -> Option<VersionView> {
    if !has_token || options_failure(options) is Some {
        None
    } else {
        match analyzed(options, tree, docs) {
            ProgressView::Done(analysis, next) => match decided(options, analysis, docs, next) {
                ProgressView::Done(DecisionView::Release { version, .. }, _) => Some(version),
                _ => None,
            },
            _ => None,
        }
    }
}

/// The manifests that a release rewrites, or why they could not be read.
pub open spec fn tree_manifests(tree: WorkingTree) -> Result<Seq<ManifestFileView>, Seq<char>> {
    match tree.manifest {
        Err(message) => Err(message@),
        Ok(root) => match tree.members {
            Err(message) => Err(message@),
            Ok(members) => Ok(seq![root@] + views(members@)),
        },
    }
}

/// The updates are a plan for the version with the extra files, or say why there is
/// none.
pub open spec fn are_planned(
    tree: WorkingTree,
    version: Seq<char>,
    updates: Result<Seq<FileUpdateView>, Seq<char>>,
) -> bool {
    match tree_manifests(tree) {
        Err(message) => updates == Err::<Seq<FileUpdateView>, Seq<char>>(message),
        Ok(files) => {
            let lock = option_view(tree.lockfile);
            let internal = package_names(files);
            match plan_failure(files, lock) {
                Some(message) => updates == Err::<Seq<FileUpdateView>, Seq<char>>(message),
                None => {
                    ||| exists|planned: Seq<FileUpdateView>|
                        planned.len() > 0 && #[trigger] is_plan(
                            planned,
                            files,
                            lock,
                            internal,
                            version,
                        ) && updates == with_extra_from(
                            tree.root@,
                            tree.extra_files@,
                            0,
                            planned,
                        )
                    ||| is_plan(Seq::empty(), files, lock, internal, version) && updates == Err::<
                        Seq<FileUpdateView>,
                        Seq<char>,
                    >(nothing_to_rewrite())
                },
            }
        },
    }
}

/// The updates are those of the run: the rewritten manifests and the extra files; in
/// the tag phase the extra files alone.
pub open spec fn are_updates_of_run(
    has_token: bool,
    options: ReleaseOptions,
    tree: WorkingTree,
    docs: Seq<Document>,
    updates: Result<Seq<FileUpdateView>, Seq<char>>,
) -> bool {
    match released_version(has_token, options, tree, docs) {
        None => true,
        Some(version) => if options.phase == ReleasePhase::Tag {
            updates == with_extra_from(tree.root@, tree.extra_files@, 0, Seq::empty())
        } else {
            are_planned(tree, version.text(), updates)
        },
    }
}

/// A result of updates by what it stands for.
pub open spec fn updates_result(result: Result<Vec<FileUpdate>, String>) -> Result<
    Seq<FileUpdateView>,
    Seq<char>,
> {
    match result {
        Ok(updates) => Ok(views(updates@)),
        Err(message) => Err(message@),
    }
}

fn copy_manifest(file: &ManifestFile) -> (result: ManifestFile)
    ensures
        result@ == file@,
{
    ManifestFile { path: file.path.clone(), content: file.content.clone() }
}

fn copy_version(version: &Version) -> (result: Version)
    ensures
        result@ == version@,
{
    Version {
        major: version.major,
        minor: version.minor,
        patch: version.patch,
        pre: version.pre.clone(),
        build: version.build.clone(),
    }
}

/// What a release changes in the working tree: the manifests and the lockfile are
/// rewritten to the version, and the extra files go along.
pub fn version_updates(tree: &WorkingTree, version: &str) -> (result: Result<
    Vec<FileUpdate>,
    String,
>)
    ensures
        are_planned(*tree, version@, updates_result(result)),
{
    let root = match &tree.manifest {
        Err(message) => {
            return Err(message.clone());
        },
        Ok(root) => root,
    };
    let members = match &tree.members {
        Err(message) => {
            return Err(message.clone());
        },
        Ok(members) => members,
    };
    let mut manifests: Vec<ManifestFile> = vec![copy_manifest(root)];
    let ghost all = views(members@);
    let mut i: usize = 0;
    assert(views(manifests@) == seq![root@] + all.take(0));
    while i < members.len()
        invariant
            i <= members.len(),
            all == views(members@),
            views(manifests@) == seq![root@] + all.take(i as int),
        decreases members.len() - i,
    {
        let ghost before = manifests@;
        manifests.push(copy_manifest(&members[i]));
        proof {
            assert(views(manifests@) == views(before).push(members@[i as int]@));
            assert(all.take(i + 1) == all.take(i as int).push(members@[i as int]@));
            assert(views(manifests@) == seq![root@] + all.take(i + 1));
        }
        i = i + 1;
    }
    assert(all.take(i as int) == all);
    assert(views(manifests@).len() == manifests@.len());
    match plan_version_rewrite(&manifests, &tree.lockfile, version) {
        Err(message) => Err(message),
        Ok(plan) => extra_file_updates(&tree.root, &tree.extra_files, plan.file_updates),
    }
}

fn updated_files(updates: &Vec<FileUpdate>) -> (result: Vec<String>)
    ensures
        views(result@) == views(updates@).map_values(|update: FileUpdateView| update.file),
{
    let ghost all = views(updates@);
    let ghost file_of = |update: FileUpdateView| update.file;
    let mut files: Vec<String> = Vec::new();
    let mut i: usize = 0;
    assert(views(files@) == all.take(0).map_values(file_of));
    while i < updates.len()
        invariant
            i <= updates.len(),
            all == views(updates@),
            file_of == (|update: FileUpdateView| update.file),
            views(files@) == all.take(i as int).map_values(file_of),
        decreases updates.len() - i,
    {
        let ghost before = files@;
        files.push(updates[i].file.clone());
        proof {
            assert(views(files@) == views(before).push(updates@[i as int]@.file));
            assert(all.take(i + 1) == all.take(i as int).push(updates@[i as int]@));
            assert(views(files@) == all.take(i + 1).map_values(file_of));
        }
        i = i + 1;
    }
    assert(all.take(i as int) == all);
    files
}

struct Prepared {
    branch: String,
    head_sha: String,
    version: Version,
    tag: String,
}

impl View for Prepared {
    type V = PreparedView;

    closed spec fn view(&self) -> PreparedView {
        PreparedView {
            branch: self.branch@,
            head_sha: self.head_sha@,
            version: self.version@,
            tag: self.tag@,
        }
    }
}

/// The body of the release pull request.
fn write_body(options: &ReleaseOptions, prepared: &Prepared, report: &ReleaseReport) -> (result:
    String)
    ensures
        result@ == release_body(*options, prepared@, report@),
{
    let mut body = join_three(
        "Automated release update for `",
        &prepared.tag,
        "`.\n\nThis PR updates the package version from `",
    );
    body.append(&report.current_version);
    body.append("` to `");
    body.append(&prepared.version.to_text());
    body.append("`. Merging it into `");
    body.append(&prepared.branch);
    body.append("` allows the release workflow to publish the tag and GitHub release.\n\n");
    body.append(&text_or_nothing(&report.notes));
    body.append("\n\n<!-- automated-release-branch: ");
    body.append(&options.release_branch);
    body.append(" -->");
    body
}

fn find_base(github: &GitHubClient, options: &ReleaseOptions, docs: &Vec<Document>) -> (result:
    Progress<String>)
    ensures
        result@ == release_base(*options, docs@),
        result matches Progress::Done(_, next) ==> next <= docs.len(),
{
    if let Some(branch) = &options.base_branch {
        if !blank(branch) {
            return Progress::Done(trimmed(branch), 0);
        }
    }
    github.default_branch(&options.owner, &options.repo, docs, 0)
}

fn find_commits(
    github: &GitHubClient,
    options: &ReleaseOptions,
    tag: &Option<TagInfo>,
    head_sha: &str,
    docs: &Vec<Document>,
    at: usize,
) -> (result: Progress<CommitRange>)
    requires
        at <= docs.len(),
    ensures
        result@ == commits_since(
            options.owner@,
            options.repo@,
            option_view(*tag),
            head_sha@,
            docs@,
            at as int,
        ),
        result matches Progress::Done(_, next) ==> next <= docs.len(),
{
    match tag {
        Some(tag) => github.compare_commits(
            &options.owner,
            &options.repo,
            &tag.name,
            head_sha,
            10,
            docs,
            at,
        ),
        None => github.list_commits(&options.owner, &options.repo, head_sha, 3, docs, at),
    }
}

fn analyze(
    github: &GitHubClient,
    options: &ReleaseOptions,
    tree: &WorkingTree,
    docs: &Vec<Document>,
) -> (result: Progress<Analysis>)
    ensures
        result@ == analyzed(*options, *tree, docs@),
        result matches Progress::Done(_, next) ==> next <= docs.len(),
{
    let owner = &options.owner;
    let repo = &options.repo;
    match find_base(github, options, docs) {
        Progress::Ask(request) => Progress::Ask(request),
        Progress::Failed(message) => Progress::Failed(message),
        Progress::Done(branch, next) => match github.branch_head_sha(
            owner,
            repo,
            &branch,
            docs,
            next,
        ) {
            Progress::Ask(request) => Progress::Ask(request),
            Progress::Failed(message) => Progress::Failed(message),
            Progress::Done(head_sha, next) => match read_version(&tree.manifest) {
                Err(message) => Progress::Failed(message),
                Ok((current_version, current)) => match github.latest_semver_tag(
                    owner,
                    repo,
                    &options.tag_prefix,
                    docs,
                    next,
                ) {
                    Progress::Ask(request) => Progress::Ask(request),
                    Progress::Failed(message) => Progress::Failed(message),
                    Progress::Done(tag, next) => {
                        assert(tag.deep_view() == option_view(tag));
                        match find_commits(github, options, &tag, &head_sha, docs, next) {
                            Progress::Ask(request) => Progress::Ask(request),
                            Progress::Failed(message) => Progress::Failed(message),
                            Progress::Done(range, next) => Progress::Done(
                                Analysis {
                                    branch,
                                    head_sha,
                                    current_version,
                                    current,
                                    commits: classify_commits(&range.commits),
                                    truncated: range.truncated,
                                },
                                next,
                            ),
                        }
                    },
                },
            },
        },
    }
}

fn decide_for(
    github: &GitHubClient,
    options: &ReleaseOptions,
    analysis: &Analysis,
    bump: Option<BumpLevel>,
    version: Version,
    docs: &Vec<Document>,
    at: usize,
) -> (result: Progress<Decision>)
    ensures
        result@ == decided_for(
            *options,
            analysis.deep_view(),
            bump,
            version@,
            docs@,
            at as int,
        ),
        result matches Progress::Done(_, next) ==> next <= docs.len(),
{
    let next_version = version.to_text();
    let tag = join_two(&options.tag_prefix, &next_version);
    let mut report = initial_report(analysis, bump);
    report.notes = Some(release_notes(&tag, &analysis.commits, analysis.truncated));
    report.next_version = Some(next_version);
    report.tag = Some(tag.clone());
    match github.reference_sha(&options.owner, &options.repo, &join_two("tags/", &tag), docs, at) {
        Progress::Ask(request) => Progress::Ask(request),
        Progress::Failed(message) => Progress::Failed(message),
        Progress::Done(found, next) => {
            if found.is_some() {
                report.outcome = ReleaseOutcome::SkippedTagExists;
                Progress::Done(Decision::Finished(report), next)
            } else {
                Progress::Done(Decision::Release { version, tag, report }, next)
            }
        },
    }
}

fn decide(
    github: &GitHubClient,
    options: &ReleaseOptions,
    analysis: &Analysis,
    docs: &Vec<Document>,
    at: usize,
) -> (result: Progress<Decision>)
    requires
        at <= docs.len(),
    ensures
        result@ == decided(*options, analysis.deep_view(), docs@, at as int),
        result matches Progress::Done(_, next) ==> next <= docs.len(),
{
    if options.phase == ReleasePhase::Tag {
        let version = copy_version(&analysis.current);
        return decide_for(github, options, analysis, None, version, docs, at);
    }
    let bump = match options.bump {
        Some(level) => Some(level),
        None => required_bump(&analysis.commits),
    };
    match bump {
        None => Progress::Done(Decision::Finished(initial_report(analysis, None)), at),
        Some(level) => match checked_bump(&analysis.current, level) {
            Some(version) => decide_for(
                github,
                options,
                analysis,
                Some(level),
                version,
                docs,
                at,
            ),
            None => Progress::Failed(
                join_three("the version '", &analysis.current_version, "' cannot go up"),
            ),
        },
    }
}

fn build_commit(
    github: &GitHubClient,
    options: &ReleaseOptions,
    root: &str,
    prepared: &Prepared,
    updates: &Vec<FileUpdate>,
    docs: &Vec<Document>,
    at: usize,
) -> (result: Progress<String>)
    requires
        at <= docs.len(),
    ensures
        result@ == commit_built(
            *options,
            root@,
            prepared@,
            views(updates@),
            docs@,
            at as int,
        ),
        result matches Progress::Done(_, next) ==> next <= docs.len(),
{
    if updates.len() == 0 {
        return Progress::Done(prepared.head_sha.clone(), at);
    }
    let owner = &options.owner;
    let repo = &options.repo;
    proof {
        reveal_strlit("{version}");
    }
    let message = replaced(&options.commit_message, "{version}", &prepared.version.to_text());
    match github.commit_tree_sha(owner, repo, &prepared.head_sha, docs, at) {
        Progress::Ask(request) => Progress::Ask(request),
        Progress::Failed(failure) => Progress::Failed(failure),
        Progress::Done(base_tree, next) => commit_files(
            github,
            owner,
            repo,
            root,
            updates,
            &base_tree,
            &prepared.head_sha,
            &message,
            docs,
            next,
        ),
    }
}

fn set_reference(
    github: &GitHubClient,
    owner: &str,
    repo: &str,
    reference: &str,
    commit: &str,
    docs: &Vec<Document>,
    at: usize,
) -> (result: Progress<()>)
    ensures
        result@ == reference_set(owner@, repo@, reference@, commit@, docs@, at as int),
        result matches Progress::Done(_, next) ==> next <= docs.len(),
{
    match github.reference_sha(owner, repo, reference, docs, at) {
        Progress::Ask(request) => Progress::Ask(request),
        Progress::Failed(message) => Progress::Failed(message),
        Progress::Done(found, next) => {
            if found.is_some() {
                github.update_ref(owner, repo, reference, commit, true, docs, next)
            } else {
                github.create_ref(owner, repo, reference, commit, docs, next)
            }
        },
    }
}

fn set_alias(
    github: &GitHubClient,
    options: &ReleaseOptions,
    prepared: &Prepared,
    commit: &str,
    docs: &Vec<Document>,
    at: usize,
) -> (result: Progress<Option<String>>)
    ensures
        result@ == alias_set(*options, prepared@, commit@, docs@, at as int),
        result matches Progress::Done(_, next) ==> next <= docs.len() || next == at,
{
    if !options.update_major_alias {
        return Progress::Done(None, at);
    }
    let alias = join_two(&options.tag_prefix, &decimal_text(prepared.version.major));
    match set_reference(
        github,
        &options.owner,
        &options.repo,
        &join_two("tags/", &alias),
        commit,
        docs,
        at,
    ) {
        Progress::Ask(request) => Progress::Ask(request),
        Progress::Failed(message) => Progress::Failed(message),
        Progress::Done(_, next) => Progress::Done(Some(alias), next),
    }
}

fn find_target(
    github: &GitHubClient,
    options: &ReleaseOptions,
    prepared: &Prepared,
    commit: &str,
    docs: &Vec<Document>,
    at: usize,
) -> (result: Progress<String>)
    ensures
        result@ == tag_target(*options, prepared@, commit@, docs@, at as int),
{
    match options.tag_style {
        TagStyle::Annotated => github.create_annotated_tag(
            &options.owner,
            &options.repo,
            &prepared.tag,
            &join_two("Release ", &prepared.tag),
            commit,
            docs,
            at,
        ),
        TagStyle::Lightweight => Progress::Done(commit.to_owned(), at),
    }
}

fn finalize(
    github: &GitHubClient,
    options: &ReleaseOptions,
    prepared: &Prepared,
    commit: &str,
    before: ReleaseReport,
    docs: &Vec<Document>,
    at: usize,
) -> (result: Progress<ReleaseReport>)
    ensures
        result@ == finalized(*options, prepared@, commit@, before@, docs@, at as int),
{
    let owner = &options.owner;
    let repo = &options.repo;
    let mut report = before;
    match find_target(github, options, prepared, commit, docs, at) {
        Progress::Ask(request) => Progress::Ask(request),
        Progress::Failed(message) => Progress::Failed(message),
        Progress::Done(target, next) => match github.create_ref(
            owner,
            repo,
            &join_two("tags/", &prepared.tag),
            &target,
            docs,
            next,
        ) {
            Progress::Ask(request) => Progress::Ask(request),
            Progress::Failed(message) => Progress::Failed(message),
            Progress::Done(_, next) => match set_alias(
                github,
                options,
                prepared,
                commit,
                docs,
                next,
            ) {
                Progress::Ask(request) => Progress::Ask(request),
                Progress::Failed(message) => Progress::Failed(message),
                Progress::Done(alias, next) => match github.create_release(
                    owner,
                    repo,
                    &prepared.tag,
                    &join_two("Release ", &prepared.tag),
                    &text_or_nothing(&report.notes),
                    commit,
                    docs,
                    next,
                ) {
                    Progress::Ask(request) => Progress::Ask(request),
                    Progress::Failed(message) => Progress::Failed(message),
                    Progress::Done(published, next) => {
                        assert(alias.deep_view() == option_view(alias));
                        report.major_alias = alias;
                        report.release_url = Some(published.url);
                        report.outcome = ReleaseOutcome::Released;
                        Progress::Done(report, next)
                    },
                },
            },
        },
    }
}

fn put_pull_request(
    found: Progress<PullRequestInfo>,
    outcome: ReleaseOutcome,
    branch: &str,
    before: ReleaseReport,
) -> (result: Progress<ReleaseReport>)
    ensures
        result@ == with_pull_request(found@, outcome, branch@, before@),
{
    let mut report = before;
    match found {
        Progress::Ask(request) => Progress::Ask(request),
        Progress::Failed(message) => Progress::Failed(message),
        Progress::Done(pull_request, next) => {
            report.outcome = outcome;
            report.pull_request_number = Some(pull_request.number);
            report.pull_request_url = Some(pull_request.url);
            report.release_branch = Some(branch.to_owned());
            Progress::Done(report, next)
        },
    }
}

fn set_pull_request(
    github: &GitHubClient,
    options: &ReleaseOptions,
    prepared: &Prepared,
    report: ReleaseReport,
    docs: &Vec<Document>,
    at: usize,
) -> (result: Progress<ReleaseReport>)
    ensures
        result@ == pull_request_set(*options, prepared@, report@, docs@, at as int),
{
    let owner = &options.owner;
    let repo = &options.repo;
    let head = &options.release_branch;
    let title = join_two("chore(release): ", &prepared.tag);
    let body = write_body(options, prepared, &report);
    match github.find_open_pull_request(owner, repo, head, &prepared.branch, docs, at) {
        Progress::Ask(request) => Progress::Ask(request),
        Progress::Failed(message) => Progress::Failed(message),
        Progress::Done(Some(existing), next) => put_pull_request(
            github.update_pull_request(owner, repo, existing.number, &title, &body, docs, next),
            ReleaseOutcome::PullRequestUpdated,
            head,
            report,
        ),
        Progress::Done(None, next) => put_pull_request(
            github.create_pull_request(
                owner,
                repo,
                &title,
                &body,
                head,
                &prepared.branch,
                docs,
                next,
            ),
            ReleaseOutcome::PullRequestCreated,
            head,
            report,
        ),
    }
}

fn propose(
    github: &GitHubClient,
    options: &ReleaseOptions,
    prepared: &Prepared,
    commit: &str,
    report: ReleaseReport,
    docs: &Vec<Document>,
    at: usize,
) -> (result: Progress<ReleaseReport>)
    ensures
        result@ == proposed(*options, prepared@, commit@, report@, docs@, at as int),
{
    match set_reference(
        github,
        &options.owner,
        &options.repo,
        &join_two("heads/", &options.release_branch),
        commit,
        docs,
        at,
    ) {
        Progress::Ask(request) => Progress::Ask(request),
        Progress::Failed(message) => Progress::Failed(message),
        Progress::Done(_, next) => set_pull_request(
            github,
            options,
            prepared,
            report,
            docs,
            next,
        ),
    }
}

fn advance(
    github: &GitHubClient,
    options: &ReleaseOptions,
    prepared: &Prepared,
    staged: bool,
    commit: &str,
    docs: &Vec<Document>,
    at: usize,
) -> (result: Progress<bool>)
    ensures
        result@ == advanced(*options, prepared@, staged, commit@, docs@, at as int),
{
    if staged {
        github.update_ref_fast_forward(
            &options.owner,
            &options.repo,
            &join_two("heads/", &prepared.branch),
            commit,
            docs,
            at,
        )
    } else {
        Progress::Done(true, at)
    }
}

fn land(
    github: &GitHubClient,
    options: &ReleaseOptions,
    prepared: &Prepared,
    staged: bool,
    commit: &str,
    before: ReleaseReport,
    docs: &Vec<Document>,
    at: usize,
) -> (result: Progress<ReleaseReport>)
    ensures
        result@ == landed(*options, prepared@, staged, commit@, before@, docs@, at as int),
{
    let mut report = before;
    match advance(github, options, prepared, staged, commit, docs, at) {
        Progress::Ask(request) => Progress::Ask(request),
        Progress::Failed(message) => Progress::Failed(message),
        Progress::Done(moved, next) => {
            if !moved {
                report.outcome = ReleaseOutcome::SkippedRace;
                Progress::Done(report, next)
            } else if options.phase == ReleasePhase::Bump {
                report.outcome = ReleaseOutcome::VersionCommitted;
                Progress::Done(report, next)
            } else {
                finalize(github, options, prepared, commit, report, docs, next)
            }
        },
    }
}

fn publish_release(
    github: &GitHubClient,
    options: &ReleaseOptions,
    root: &str,
    prepared: &Prepared,
    updates: &Vec<FileUpdate>,
    before: ReleaseReport,
    docs: &Vec<Document>,
    at: usize,
) -> (result: Progress<ReleaseReport>)
    requires
        at <= docs.len(),
    ensures
        result@ == published_release(
            *options,
            root@,
            prepared@,
            views(updates@),
            before@,
            docs@,
            at as int,
        ),
{
    let mut report = before;
    match build_commit(github, options, root, prepared, updates, docs, at) {
        Progress::Ask(request) => Progress::Ask(request),
        Progress::Failed(message) => Progress::Failed(message),
        Progress::Done(commit, next) => match github.branch_head_sha(
            &options.owner,
            &options.repo,
            &prepared.branch,
            docs,
            next,
        ) {
            Progress::Ask(request) => Progress::Ask(request),
            Progress::Failed(message) => Progress::Failed(message),
            Progress::Done(head, next) => {
                if !same(&head, &prepared.head_sha) {
                    report.outcome = ReleaseOutcome::SkippedRace;
                    return Progress::Done(report, next);
                }
                report.commit_sha = Some(commit.clone());
                if options.create_pr {
                    propose(github, options, prepared, &commit, report, docs, next)
                } else {
                    land(
                        github,
                        options,
                        prepared,
                        updates.len() > 0,
                        &commit,
                        report,
                        docs,
                        next,
                    )
                }
            },
        },
    }
}

fn check_options(options: &ReleaseOptions) -> (result: Option<String>)
    ensures
        option_view(result) == options_failure(*options),
{
    if options.create_pr && options.phase != ReleasePhase::All {
        Some(
            "--create-pr cannot be combined with --phase: the release pull request already separates the version bump from the tag".to_owned(),
        )
    } else if options.create_pr && !same(&options.release_branch, "automation/release") && !begins(
        &options.release_branch,
        "automation/release/",
    ) {
        Some(
            join_three(
                "automated release branch '",
                &options.release_branch,
                "' must use the reserved 'automation/release/' prefix",
            ),
        )
    } else {
        None
    }
}

/// Publishes releases.
#[derive(Debug, Clone)]
pub struct ReleasePublisher {
    pub github: GitHubClient,
}

impl ReleasePublisher {
    pub fn new(github: GitHubClient) -> (result: Self)
        ensures
            result.github == github,
    {
        ReleasePublisher { github }
    }

    /// Releases the working tree. `docs` are the answers so far; the result is the next
    /// request, the report, or why there is none.
    pub fn release(&self, options: &ReleaseOptions, tree: &WorkingTree, docs: &Vec<Document>) -> (
    result: Progress<ReleaseReport>)
        ensures
            exists|updates: Result<Seq<FileUpdateView>, Seq<char>>| #[trigger]
                are_updates_of_run(self.github.token is Some, *options, *tree, docs@, updates)
                    && result@ == release_run(
                    self.github.token is Some,
                    *options,
                    *tree,
                    updates,
                    docs@,
                ),
    {
        let ghost has_token = self.github.token is Some;
        let ghost none: Result<Seq<FileUpdateView>, Seq<char>> = Ok(Seq::empty());
        if let Err(message) = self.github.ensure_token() {
            assert(are_updates_of_run(has_token, *options, *tree, docs@, none));
            return Progress::Failed(message);
        }
        if let Some(message) = check_options(options) {
            assert(are_updates_of_run(has_token, *options, *tree, docs@, none));
            return Progress::Failed(message);
        }
        match analyze(&self.github, options, tree, docs) {
            Progress::Ask(request) => {
                assert(are_updates_of_run(has_token, *options, *tree, docs@, none));
                Progress::Ask(request)
            },
            Progress::Failed(message) => {
                assert(are_updates_of_run(has_token, *options, *tree, docs@, none));
                Progress::Failed(message)
            },
            Progress::Done(analysis, next) => match decide(
                &self.github,
                options,
                &analysis,
                docs,
                next,
            ) {
                Progress::Ask(request) => {
                    assert(are_updates_of_run(has_token, *options, *tree, docs@, none));
                    Progress::Ask(request)
                },
                Progress::Failed(message) => {
                    assert(are_updates_of_run(has_token, *options, *tree, docs@, none));
                    Progress::Failed(message)
                },
                Progress::Done(Decision::Finished(report), next) => {
                    assert(are_updates_of_run(has_token, *options, *tree, docs@, none));
                    Progress::Done(report, next)
                },
                Progress::Done(Decision::Release { version, tag, report }, next) => {
                    let updates = if options.phase == ReleasePhase::Tag {
                        let planned: Vec<FileUpdate> = Vec::new();
                        assert(views(planned@) == Seq::<FileUpdateView>::empty());
                        extra_file_updates(&tree.root, &tree.extra_files, planned)
                    } else {
                        version_updates(tree, &version.to_text())
                    };
                    assert(are_updates_of_run(
                        has_token,
                        *options,
                        *tree,
                        docs@,
                        updates_result(updates),
                    ));
                    match updates {
                        Err(message) => Progress::Failed(message),
                        Ok(updates) => {
                            let prepared = Prepared {
                                branch: analysis.branch,
                                head_sha: analysis.head_sha,
                                version,
                                tag,
                            };
                            let mut report = report;
                            report.files_updated = updated_files(&updates);
                            if options.dry_run {
                                report.outcome = ReleaseOutcome::DryRun;
                                Progress::Done(report, next)
                            } else {
                                publish_release(
                                    &self.github,
                                    options,
                                    &tree.root,
                                    &prepared,
                                    &updates,
                                    report,
                                    docs,
                                    next,
                                )
                            }
                        },
                    }
                },
            },
        }
    }
}

} // verus!
