//! Publishing updates as a pull request, without a working copy.

use vstd::prelude::*;

use crate::api::{
    carried_out, name_for, pull_request_for, Document, Method, Progress, ProgressView,
};
use crate::calls::scopes_checked;
use crate::github::{GitHubClient, TreeEntry, TreeEntryView};
use crate::model::{FileUpdate, FileUpdateView, UpdateChange, UpdateChangeView};
use crate::paths::{before, comes_before, relative_repository_path, repository_path};
use crate::requests::{
    add_labels_request, branch_request, commit_tree_request, create_blob_request,
    create_commit_request, create_pull_request_request, create_ref_request, create_tree_request,
    repository_request, update_ref_request, user_request,
};
use crate::text::{blank, decimal, decimal_text, is_blank, join_two, option_view, same, views};

verus! {

/// Where and how updates are published.
#[derive(Debug, Clone, PartialEq, Eq)]
pub struct PullRequestOptions {
    pub repo_root: String,
    pub owner: String,
    pub repo: String,
    pub base_branch: Option<String>,
    pub branch_name: Option<String>,
    pub labels: Vec<String>,
    pub title: String,
    pub commit_message: String,
}

/// The pull request that was opened.
#[derive(Debug, Clone, PartialEq, Eq)]
pub struct PullRequestResult {
    pub branch_name: String,
    pub number: u64,
    pub url: String,
}

/// What a `PullRequestResult` stands for.
pub struct PublishedView {
    pub branch_name: Seq<char>,
    pub number: u64,
    pub url: Seq<char>,
}

impl View for PullRequestResult {
    type V = PublishedView;

    open spec fn view(&self) -> PublishedView {
        PublishedView { branch_name: self.branch_name@, number: self.number, url: self.url@ }
    }
}

impl DeepView for PullRequestResult {
    type V = PublishedView;

    open spec fn deep_view(&self) -> PublishedView {
        self@
    }
}

/// Publishes updates.
#[derive(Debug, Clone, PartialEq, Eq)]
pub struct RemoteUpdatePublisher {
    pub github: GitHubClient,
}

// ---------------------------------------------------------------------------
// Files
// ---------------------------------------------------------------------------
/// The updates with one more, in the order of paths; an update of the same file is
/// replaced.
pub open spec fn with_update(updates: Seq<FileUpdateView>, update: FileUpdateView) -> Seq<
    FileUpdateView,
>
    decreases updates.len(),
{
    if updates.len() == 0 {
        seq![update]
    } else if updates[0].file == update.file {
        seq![update] + updates.skip(1)
    } else if comes_before(update.file, updates[0].file) {
        seq![update] + updates
    } else {
        seq![updates[0]] + with_update(updates.skip(1), update)
    }
}

/// One update for each file, the last, in the order of paths.
pub open spec fn grouped(updates: Seq<FileUpdateView>) -> Seq<FileUpdateView>
    decreases updates.len(),
{
    if updates.len() == 0 {
        Seq::empty()
    } else {
        with_update(grouped(updates.drop_last()), updates.last())
    }
}

fn copy_update(update: &FileUpdate) -> (result: FileUpdate)
    ensures
        result@ == update@,
{
    FileUpdate { file: update.file.clone(), updated_content: update.updated_content.clone() }
}

fn put_update(updates: &mut Vec<FileUpdate>, update: FileUpdate)
    ensures
        views(final(updates)@) == with_update(views(old(updates)@), update@),
{
    let ghost all = views(updates@);
    let mut at: usize = 0;
    assert(all.skip(0) == all);
    assert(all.take(0) + with_update(all, update@) == with_update(all, update@));
    while at < updates.len()
        invariant
            at <= updates.len(),
            all == views(updates@),
            all == views(old(updates)@),
            all.take(at as int) + with_update(all.skip(at as int), update@) == with_update(
                all,
                update@,
            ),
        decreases updates.len() - at,
    {
        let ghost rest = all.skip(at as int);
        assert(rest[0] == updates@[at as int]@);
        if same(&updates[at].file, &update.file) {
            let ghost added = update@;
            updates.set(at, update);
            proof {
                assert(views(updates@) == all.update(at as int, added));
                assert(views(updates@) == all.take(at as int) + (seq![added] + rest.skip(1)));
            }
            return;
        }
        if before(&update.file, &updates[at].file) {
            let ghost added = update@;
            updates.insert(at, update);
            proof {
                assert(views(updates@) == all.insert(at as int, added));
                assert(views(updates@) == all.take(at as int) + (seq![added] + rest));
            }
            return;
        }
        proof {
            assert(rest.skip(1) == all.skip(at + 1));
            assert(with_update(rest, update@) == seq![rest[0]] + with_update(
                all.skip(at + 1),
                update@,
            ));
            assert(all.take(at + 1) == all.take(at as int).push(rest[0]));
            assert(all.take(at + 1) + with_update(all.skip(at + 1), update@) == all.take(at as int)
                + with_update(rest, update@));
        }
        at = at + 1;
    }
    let ghost added = update@;
    updates.push(update);
    proof {
        assert(all.skip(at as int) == Seq::<FileUpdateView>::empty());
        assert(views(updates@) == all.push(added));
        assert(views(updates@) == all.take(at as int) + seq![added]);
    }
}

/// One update for each file, the last, in the order of paths.
pub fn group_updates(updates: &Vec<FileUpdate>) -> (result: Vec<FileUpdate>)
    ensures
        views(result@) == grouped(views(updates@)),
{
    let ghost all = views(updates@);
    let mut result: Vec<FileUpdate> = Vec::new();
    let mut i: usize = 0;
    assert(views(result@) == grouped(all.take(0)));
    while i < updates.len()
        invariant
            i <= updates.len(),
            all == views(updates@),
            views(result@) == grouped(all.take(i as int)),
        decreases updates.len() - i,
    {
        proof {
            assert(all.take(i + 1).drop_last() == all.take(i as int));
            assert(all.take(i + 1).last() == updates@[i as int]@);
        }
        put_update(&mut result, copy_update(&updates[i]));
        i = i + 1;
    }
    assert(all.take(i as int) == all);
    result
}

/// The blobs for the updates from the `i`-th on, behind those that are there.
pub open spec fn blobs_from(
    owner: Seq<char>,
    repo: Seq<char>,
    root: Seq<char>,
    updates: Seq<FileUpdateView>,
    i: int,
    so_far: Seq<TreeEntryView>,
    docs: Seq<Document>,
    at: int,
) -> ProgressView<Seq<TreeEntryView>>
    decreases updates.len() - i,
{
    if i < 0 || i >= updates.len() {
        ProgressView::Done(so_far, at)
    } else {
        match repository_path(root, updates[i].file) {
            Err(message) => ProgressView::Failed(message),
            Ok(path) => match name_for(
                docs,
                at,
                create_blob_request(owner, repo, updates[i].updated_content),
            ) {
                ProgressView::Ask(request) => ProgressView::Ask(request),
                ProgressView::Failed(message) => ProgressView::Failed(message),
                ProgressView::Done(sha, next) => blobs_from(
                    owner,
                    repo,
                    root,
                    updates,
                    i + 1,
                    so_far.push(TreeEntryView { path, sha }),
                    docs,
                    next,
                ),
            },
        }
    }
}

/// A commit of the updates on top of a parent with the given tree.
pub open spec fn committed(
    owner: Seq<char>,
    repo: Seq<char>,
    root: Seq<char>,
    updates: Seq<FileUpdateView>,
    base_tree: Seq<char>,
    parent: Seq<char>,
    message: Seq<char>,
    docs: Seq<Document>,
    at: int,
) -> ProgressView<Seq<char>> {
    match blobs_from(owner, repo, root, updates, 0, Seq::empty(), docs, at) {
        ProgressView::Ask(request) => ProgressView::Ask(request),
        ProgressView::Failed(failure) => ProgressView::Failed(failure),
        ProgressView::Done(entries, next) => match name_for(
            docs,
            next,
            create_tree_request(owner, repo, base_tree, entries),
        ) {
            ProgressView::Ask(request) => ProgressView::Ask(request),
            ProgressView::Failed(failure) => ProgressView::Failed(failure),
            ProgressView::Done(tree, next) => name_for(
                docs,
                next,
                create_commit_request(owner, repo, message, tree, parent),
            ),
        },
    }
}

/// A commit of the updates on top of a parent with the given tree.
pub(crate) fn commit_files(
    github: &GitHubClient,
    owner: &str,
    repo: &str,
    root: &str,
    updates: &Vec<FileUpdate>,
    base_tree: &str,
    parent: &str,
    message: &str,
    docs: &Vec<Document>,
    from: usize,
) -> (result: Progress<String>)
    requires
        from <= docs.len(),
    ensures
        result@ == committed(
            owner@,
            repo@,
            root@,
            views(updates@),
            base_tree@,
            parent@,
            message@,
            docs@,
            from as int,
        ),
        result matches Progress::Done(_, next) ==> next <= docs.len(),
{
    let ghost all = views(updates@);
    let mut entries: Vec<TreeEntry> = Vec::new();
    let mut at: usize = from;
    let mut i: usize = 0;
    assert(views(entries@) == Seq::<TreeEntryView>::empty());
    while i < updates.len()
        invariant
            i <= updates.len(),
            at <= docs.len(),
            all == views(updates@),
            blobs_from(owner@, repo@, root@, all, 0, Seq::empty(), docs@, from as int)
                == blobs_from(
                owner@,
                repo@,
                root@,
                all,
                i as int,
                views(entries@),
                docs@,
                at as int,
            ),
        decreases updates.len() - i,
    {
        assert(all[i as int] == updates@[i as int]@);
        match relative_repository_path(root, &updates[i].file) {
            Err(failure) => {
                return Progress::Failed(failure);
            },
            Ok(path) => match github.create_blob(
                owner,
                repo,
                &updates[i].updated_content,
                docs,
                at,
            ) {
                Progress::Ask(request) => {
                    return Progress::Ask(request);
                },
                Progress::Failed(failure) => {
                    return Progress::Failed(failure);
                },
                Progress::Done(sha, next) => {
                    let ghost so_far = entries@;
                    let entry = TreeEntry { path, sha };
                    entries.push(entry);
                    assert(views(entries@) == views(so_far).push(entry@));
                    at = next;
                },
            },
        }
        i = i + 1;
    }
    match github.create_tree(owner, repo, base_tree, &entries, docs, at) {
        Progress::Ask(request) => Progress::Ask(request),
        Progress::Failed(failure) => Progress::Failed(failure),
        Progress::Done(tree, next) => github.create_commit(
            owner,
            repo,
            message,
            &tree,
            parent,
            docs,
            next,
        ),
    }
}

// ---------------------------------------------------------------------------
// Texts
// ---------------------------------------------------------------------------
/// The line of a change in the body of a pull request.
pub open spec fn change_line(change: UpdateChangeView) -> Seq<char> {
    "* "@ + change.kind.label_text() + " `"@ + change.subject + "` in `"@ + change.file + "`: "@
        + change.from_version + " -> "@ + change.to_version + "\n"@
}

/// The lines of the changes.
pub open spec fn change_lines(changes: Seq<UpdateChangeView>) -> Seq<char>
    decreases changes.len(),
{
    if changes.len() == 0 {
        Seq::empty()
    } else {
        change_lines(changes.drop_last()) + change_line(changes.last())
    }
}

/// The body of the pull request.
pub open spec fn pr_body(changes: Seq<UpdateChangeView>) -> Seq<char> {
    "This PR updates repository dependencies:\n\n"@ + change_lines(changes) + "\n---\n"@
        + "Generated automatically by github-actions-maintainer.\n"@
}

/// The body of the pull request: a line for each change.
pub fn generate_pr_body(changes: &Vec<UpdateChange>) -> (result: String)
    ensures
        result@ == pr_body(views(changes@)),
{
    let ghost all = views(changes@);
    let mut rows = String::new();
    let mut i: usize = 0;
    while i < changes.len()
        invariant
            i <= changes.len(),
            all == views(changes@),
            rows@ == change_lines(all.take(i as int)),
        decreases changes.len() - i,
    {
        proof {
            assert(all.take(i + 1).drop_last() == all.take(i as int));
            assert(all.take(i + 1).last() == changes@[i as int]@);
        }
        let change = &changes[i];
        let mut row = join_two("* ", change.kind.label());
        row.append(" `");
        row.append(&change.subject);
        row.append("` in `");
        row.append(&change.file);
        row.append("`: ");
        row.append(&change.from_version);
        row.append(" -> ");
        row.append(&change.to_version);
        row.append("\n");
        rows.append(&row);
        i = i + 1;
    }
    assert(all.take(i as int) == all);
    let mut body = join_two("This PR updates repository dependencies:\n\n", &rows);
    body.append("\n---\n");
    body.append("Generated automatically by github-actions-maintainer.\n");
    body
}

/// The name of the branch that takes the updates: the given one unless it is blank,
/// else one with the time in it.
pub open spec fn branch_for(name: Option<Seq<char>>, timestamp: u64) -> Seq<char> {
    match name {
        Some(name) => if is_blank(name) {
            "dependency-updates-"@ + decimal(timestamp as nat)
        } else {
            name
        },
        None => "dependency-updates-"@ + decimal(timestamp as nat),
    }
}

fn choose_branch(name: &Option<String>, timestamp: u64) -> (result: String)
    ensures
        result@ == branch_for(option_view(*name), timestamp),
{
    match name {
        Some(name) => if blank(name) {
            join_two("dependency-updates-", &decimal_text(timestamp))
        } else {
            name.clone()
        },
        None => join_two("dependency-updates-", &decimal_text(timestamp)),
    }
}

// ---------------------------------------------------------------------------
// Publishing
// ---------------------------------------------------------------------------
/// The branch that the updates go into: the given one unless it is blank, else the
/// default branch.
pub open spec fn base_branch(
    owner: Seq<char>,
    repo: Seq<char>,
    given: Option<Seq<char>>,
    docs: Seq<Document>,
    at: int,
) -> ProgressView<Seq<char>> {
    match given {
        Some(branch) => if is_blank(branch) {
            name_for(docs, at, repository_request(owner, repo))
        } else {
            ProgressView::Done(branch, at)
        },
        None => name_for(docs, at, repository_request(owner, repo)),
    }
}

fn find_base_branch(
    github: &GitHubClient,
    owner: &str,
    repo: &str,
    given: &Option<String>,
    docs: &Vec<Document>,
    at: usize,
) -> (result: Progress<String>)
    requires
        at <= docs.len(),
    ensures
        result@ == base_branch(owner@, repo@, option_view(*given), docs@, at as int),
        result matches Progress::Done(_, next) ==> next <= docs.len(),
{
    match given {
        Some(branch) => if blank(branch) {
            github.default_branch(owner, repo, docs, at)
        } else {
            Progress::Done(branch.clone(), at)
        },
        None => github.default_branch(owner, repo, docs, at),
    }
}

/// The commit and the tree that the updates are built on.
pub struct BaseView {
    pub branch: Seq<char>,
    pub commit: Seq<char>,
    pub tree: Seq<char>,
}

/// The branch that the updates go into, with its commit and tree.
pub open spec fn base_of(
    owner: Seq<char>,
    repo: Seq<char>,
    given: Option<Seq<char>>,
    docs: Seq<Document>,
    at: int,
) -> ProgressView<BaseView> {
    match base_branch(owner, repo, given, docs, at) {
        ProgressView::Ask(request) => ProgressView::Ask(request),
        ProgressView::Failed(message) => ProgressView::Failed(message),
        ProgressView::Done(branch, next) => match name_for(
            docs,
            next,
            branch_request(owner, repo, branch),
        ) {
            ProgressView::Ask(request) => ProgressView::Ask(request),
            ProgressView::Failed(message) => ProgressView::Failed(message),
            ProgressView::Done(commit, next) => match name_for(
                docs,
                next,
                commit_tree_request(owner, repo, commit),
            ) {
                ProgressView::Ask(request) => ProgressView::Ask(request),
                ProgressView::Failed(message) => ProgressView::Failed(message),
                ProgressView::Done(tree, next) => ProgressView::Done(
                    BaseView { branch, commit, tree },
                    next,
                ),
            },
        },
    }
}

struct Base {
    branch: String,
    commit: String,
    tree: String,
}

impl DeepView for Base {
    type V = BaseView;

    closed spec fn deep_view(&self) -> BaseView {
        BaseView { branch: self.branch@, commit: self.commit@, tree: self.tree@ }
    }
}

fn find_base(
    github: &GitHubClient,
    owner: &str,
    repo: &str,
    given: &Option<String>,
    docs: &Vec<Document>,
    at: usize,
) -> (result: Progress<Base>)
    requires
        at <= docs.len(),
    ensures
        result@ == base_of(owner@, repo@, option_view(*given), docs@, at as int),
        result matches Progress::Done(_, next) ==> next <= docs.len(),
{
    match find_base_branch(github, owner, repo, given, docs, at) {
        Progress::Ask(request) => Progress::Ask(request),
        Progress::Failed(message) => Progress::Failed(message),
        Progress::Done(branch, next) => match github.branch_head_sha(
            owner,
            repo,
            &branch,
            docs,
            next,
        ) {
            Progress::Ask(request) => Progress::Ask(request),
            Progress::Failed(message) => Progress::Failed(message),
            Progress::Done(commit, next) => match github.commit_tree_sha(
                owner,
                repo,
                &commit,
                docs,
                next,
            ) {
                Progress::Ask(request) => Progress::Ask(request),
                Progress::Failed(message) => Progress::Failed(message),
                Progress::Done(tree, next) => Progress::Done(Base { branch, commit, tree }, next),
            },
        },
    }
}

/// What remains when the commit of the updates is there: its branch, the pull
/// request and the labels.
pub open spec fn pull_request_opened(
    options: PullRequestOptions,
    branch: Seq<char>,
    base: Seq<char>,
    commit: Seq<char>,
    body: Seq<char>,
    docs: Seq<Document>,
    at: int,
) -> ProgressView<Option<PublishedView>> {
    let owner = options.owner@;
    let repo = options.repo@;
    match carried_out(
        docs,
        at,
        update_ref_request(owner, repo, "heads/"@ + branch, commit, false),
    ) {
        ProgressView::Ask(request) => ProgressView::Ask(request),
        ProgressView::Failed(message) => ProgressView::Failed(message),
        ProgressView::Done(_, next) => match pull_request_for(
            docs,
            next,
            create_pull_request_request(owner, repo, options.title@, body, branch, base),
        ) {
            ProgressView::Ask(request) => ProgressView::Ask(request),
            ProgressView::Failed(message) => ProgressView::Failed(message),
            ProgressView::Done(opened, next) => {
                let published = Some(
                    PublishedView { branch_name: branch, number: opened.number, url: opened.url },
                );
                if options.labels@.len() == 0 {
                    ProgressView::Done(published, next)
                } else {
                    match carried_out(
                        docs,
                        next,
                        add_labels_request(owner, repo, opened.number, views(options.labels@)),
                    ) {
                        ProgressView::Ask(request) => ProgressView::Ask(request),
                        ProgressView::Failed(message) => ProgressView::Failed(message),
                        ProgressView::Done(_, next) => ProgressView::Done(published, next),
                    }
                }
            },
        },
    }
}

/// What `publish` comes to: nothing without updates; else the token is checked, a
/// branch is created at the head of the base branch, the updates are committed to
/// it, and a pull request is opened and labelled.
pub open spec fn published(
    has_token: bool,
    updates: Seq<FileUpdateView>,
    changes: Seq<UpdateChangeView>,
    options: PullRequestOptions,
    timestamp: u64,
    docs: Seq<Document>,
) -> ProgressView<Option<PublishedView>> {
    let owner = options.owner@;
    let repo = options.repo@;
    let branch = branch_for(option_view(options.branch_name), timestamp);
    if updates.len() == 0 {
        ProgressView::Done(None, 0)
    } else {
        match scopes_checked(has_token, docs, 0) {
            ProgressView::Ask(request) => ProgressView::Ask(request),
            ProgressView::Failed(message) => ProgressView::Failed(message),
            ProgressView::Done(_, next) => match base_of(
                owner,
                repo,
                option_view(options.base_branch),
                docs,
                next,
            ) {
                ProgressView::Ask(request) => ProgressView::Ask(request),
                ProgressView::Failed(message) => ProgressView::Failed(message),
                ProgressView::Done(base, next) => match carried_out(
                    docs,
                    next,
                    create_ref_request(owner, repo, "heads/"@ + branch, base.commit),
                ) {
                    ProgressView::Ask(request) => ProgressView::Ask(request),
                    ProgressView::Failed(message) => ProgressView::Failed(message),
                    ProgressView::Done(_, next) => match committed(
                        owner,
                        repo,
                        options.repo_root@,
                        grouped(updates),
                        base.tree,
                        base.commit,
                        options.commit_message@,
                        docs,
                        next,
                    ) {
                        ProgressView::Ask(request) => ProgressView::Ask(request),
                        ProgressView::Failed(message) => ProgressView::Failed(message),
                        ProgressView::Done(commit, next) => pull_request_opened(
                            options,
                            branch,
                            base.branch,
                            commit,
                            pr_body(changes),
                            docs,
                            next,
                        ),
                    },
                },
            },
        }
    }
}

impl RemoteUpdatePublisher {
    /// A publisher that asks the given client.
    pub fn new(github: GitHubClient) -> (result: Self)
        ensures
            result.github == github,
    {
        RemoteUpdatePublisher { github }
    }

    /// Publishes the updates as a pull request. `timestamp`, in seconds since 1970,
    /// makes up the name of the branch where none is given.
    pub fn publish(
        &self,
        file_updates: &Vec<FileUpdate>,
        changes: &Vec<UpdateChange>,
        options: &PullRequestOptions,
        timestamp: u64,
        docs: &Vec<Document>,
    ) -> (result: Progress<Option<PullRequestResult>>)
        ensures
            result@ == published(
                self.github.token is Some,
                views(file_updates@),
                views(changes@),
                *options,
                timestamp,
                docs@,
            ),
    {
        if file_updates.len() == 0 {
            return Progress::Done(None, 0);
        }
        let owner = &options.owner;
        let repo = &options.repo;
        match self.github.validate_token_scopes(docs, 0) {
            Progress::Ask(request) => Progress::Ask(request),
            Progress::Failed(message) => Progress::Failed(message),
            Progress::Done(_, next) => match find_base(
                &self.github,
                owner,
                repo,
                &options.base_branch,
                docs,
                next,
            ) {
                Progress::Ask(request) => Progress::Ask(request),
                Progress::Failed(message) => Progress::Failed(message),
                Progress::Done(base, next) => {
                    let branch = choose_branch(&options.branch_name, timestamp);
                    match self.github.create_branch(
                        owner,
                        repo,
                        &branch,
                        &base.commit,
                        docs,
                        next,
                    ) {
                        Progress::Ask(request) => Progress::Ask(request),
                        Progress::Failed(message) => Progress::Failed(message),
                        Progress::Done(_, next) => {
                            let updates = group_updates(file_updates);
                            match commit_files(
                                &self.github,
                                owner,
                                repo,
                                &options.repo_root,
                                &updates,
                                &base.tree,
                                &base.commit,
                                &options.commit_message,
                                docs,
                                next,
                            ) {
                                Progress::Ask(request) => Progress::Ask(request),
                                Progress::Failed(message) => Progress::Failed(message),
                                Progress::Done(commit, next) => self.open_pull_request(
                                    options,
                                    branch,
                                    &base.branch,
                                    &commit,
                                    &generate_pr_body(changes),
                                    docs,
                                    next,
                                ),
                            }
                        },
                    }
                },
            },
        }
    }

    fn open_pull_request(
        &self,
        options: &PullRequestOptions,
        branch: String,
        base: &str,
        commit: &str,
        body: &str,
        docs: &Vec<Document>,
        at: usize,
    ) -> (result: Progress<Option<PullRequestResult>>)
        ensures
            result@ == pull_request_opened(
                *options,
                branch@,
                base@,
                commit@,
                body@,
                docs@,
                at as int,
            ),
    {
        let owner = &options.owner;
        let repo = &options.repo;
        match self.github.update_branch(owner, repo, &branch, commit, docs, at) {
            Progress::Ask(request) => Progress::Ask(request),
            Progress::Failed(message) => Progress::Failed(message),
            Progress::Done(_, next) => match self.github.create_pull_request(
                owner,
                repo,
                &options.title,
                body,
                &branch,
                base,
                docs,
                next,
            ) {
                Progress::Ask(request) => Progress::Ask(request),
                Progress::Failed(message) => Progress::Failed(message),
                Progress::Done(opened, next) => {
                    let number = opened.number;
                    let published = PullRequestResult {
                        branch_name: branch,
                        number,
                        url: opened.url,
                    };
                    if options.labels.len() == 0 {
                        Progress::Done(Some(published), next)
                    } else {
                        match self.github.add_labels(
                            owner,
                            repo,
                            number,
                            &options.labels,
                            docs,
                            next,
                        ) {
                            Progress::Ask(request) => Progress::Ask(request),
                            Progress::Failed(message) => Progress::Failed(message),
                            Progress::Done(_, next) => Progress::Done(Some(published), next),
                        }
                    }
                },
            },
        }
    }
}

// ---------------------------------------------------------------------------
// Laws
// ---------------------------------------------------------------------------
/// Without updates nothing is asked of GitHub and no pull request is opened.
pub proof fn law_nothing_is_published_without_updates(
    has_token: bool,
    changes: Seq<UpdateChangeView>,
    options: PullRequestOptions,
    timestamp: u64,
    docs: Seq<Document>,
)
    ensures
        published(has_token, Seq::empty(), changes, options, timestamp, docs)
            == ProgressView::<Option<PublishedView>>::Done(None, 0),
{
}

proof fn lemma_blobs_only_create(
    owner: Seq<char>,
    repo: Seq<char>,
    root: Seq<char>,
    updates: Seq<FileUpdateView>,
    i: int,
    so_far: Seq<TreeEntryView>,
    docs: Seq<Document>,
    at: int,
)
    ensures
        blobs_from(owner, repo, root, updates, i, so_far, docs, at) matches ProgressView::Ask(
            request,
        ) ==> request.method == Method::Post,
    decreases updates.len() - i,
{
    if 0 <= i < updates.len() {
        match repository_path(root, updates[i].file) {
            Err(_) => {},
            Ok(path) => match name_for(
                docs,
                at,
                create_blob_request(owner, repo, updates[i].updated_content),
            ) {
                ProgressView::Done(sha, next) => {
                    lemma_blobs_only_create(
                        owner,
                        repo,
                        root,
                        updates,
                        i + 1,
                        so_far.push(TreeEntryView { path, sha }),
                        docs,
                        next,
                    );
                },
                _ => {},
            },
        }
    }
}

/// A commit of files only creates objects.
pub(crate) proof fn lemma_commit_only_creates(
    owner: Seq<char>,
    repo: Seq<char>,
    root: Seq<char>,
    updates: Seq<FileUpdateView>,
    base_tree: Seq<char>,
    parent: Seq<char>,
    message: Seq<char>,
    docs: Seq<Document>,
    at: int,
)
    ensures
        committed(owner, repo, root, updates, base_tree, parent, message, docs, at) matches
            ProgressView::Ask(request) ==> request.method == Method::Post,
{
    lemma_blobs_only_create(owner, repo, root, updates, 0, Seq::empty(), docs, at);
}

/// Publishing moves no branch but its own: the only reference that it ever changes is
/// the branch of the updates, and that only forward. The base branch is left to the
/// pull request.
pub proof fn law_publishing_moves_only_its_own_branch(
    has_token: bool,
    updates: Seq<FileUpdateView>,
    changes: Seq<UpdateChangeView>,
    options: PullRequestOptions,
    timestamp: u64,
    docs: Seq<Document>,
)
    ensures
        published(has_token, updates, changes, options, timestamp, docs) matches ProgressView::Ask(
            request,
        ) ==> request.method == Method::Patch ==> exists|commit: Seq<char>|
            request == #[trigger] update_ref_request(
                options.owner@,
                options.repo@,
                "heads/"@ + branch_for(option_view(options.branch_name), timestamp),
                commit,
                false,
            ),
{
    let owner = options.owner@;
    let repo = options.repo@;
    if updates.len() > 0 {
        match scopes_checked(has_token, docs, 0) {
            ProgressView::Done(_, next) => match base_of(
                owner,
                repo,
                option_view(options.base_branch),
                docs,
                next,
            ) {
                ProgressView::Done(base, next) => match carried_out(
                    docs,
                    next,
                    create_ref_request(
                        owner,
                        repo,
                        "heads/"@ + branch_for(option_view(options.branch_name), timestamp),
                        base.commit,
                    ),
                ) {
                    ProgressView::Done(_, next) => {
                        lemma_commit_only_creates(
                            owner,
                            repo,
                            options.repo_root@,
                            grouped(updates),
                            base.tree,
                            base.commit,
                            options.commit_message@,
                            docs,
                            next,
                        );
                    },
                    _ => {},
                },
                _ => {},
            },
            _ => {},
        }
    }
}

/// The token is checked before anything changes: until it was found to belong to a user
/// and to have the scopes, nothing is asked but who the user is, and where it has not,
/// nothing is published.
pub proof fn law_token_is_checked_first(
    has_token: bool,
    updates: Seq<FileUpdateView>,
    changes: Seq<UpdateChangeView>,
    options: PullRequestOptions,
    timestamp: u64,
    docs: Seq<Document>,
)
    requires
        updates.len() > 0,
    ensures
        scopes_checked(has_token, docs, 0) is Ask ==> published(
            has_token,
            updates,
            changes,
            options,
            timestamp,
            docs,
        ) == ProgressView::<Option<PublishedView>>::Ask(user_request()),
        scopes_checked(has_token, docs, 0) matches ProgressView::Failed(message) ==> published(
            has_token,
            updates,
            changes,
            options,
            timestamp,
            docs,
        ) == ProgressView::<Option<PublishedView>>::Failed(message),
        !user_request().changes_something(),
{
}

} // verus!
