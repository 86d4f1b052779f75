//! The calls of the GitHub API: what each asks for, and what it makes of the
//! documents that came back.

use vstd::prelude::*;

use crate::api::{
    carried_out, carried_out_or_refused, copy_tag, name_for, name_if_there, pull_request_for,
    tags_for, take_done, take_done_or_refused, take_name, take_name_if_there, take_pull_request,
    take_tags, unexpected, CommitEntry, Document, Progress, ProgressView, PullRequestInfo,
    PullRequestView, RequestView, TagInfo, TagView,
};
use crate::github::{
    CommitInfo, CommitRange, CommitView, GitHubClient, LatestReference, LatestView, RangeView,
    ReleaseInfo, TreeEntry,
};
use crate::requests::{
    add_labels_request, branch_request, commit_tree_request, commits_page_request,
    compare_page_request, create_blob_request, create_commit_request, create_pull_request_request,
    create_ref_request, create_release_request, create_tag_request, create_tree_request,
    fast_forward_request, find_pull_request_request, first_tag_request, latest_release_request,
    new_add_labels_request, new_branch_request, new_commit_tree_request, new_commits_page_request,
    new_compare_page_request, new_create_blob_request, new_create_commit_request,
    new_create_pull_request_request, new_create_ref_request, new_create_release_request,
    new_create_tag_request, new_create_tree_request, new_fast_forward_request,
    new_find_pull_request_request, new_first_tag_request, new_latest_release_request,
    new_reference_request, new_repository_request, new_resolve_request, new_tags_page_request,
    new_update_pull_request_request, new_update_ref_request, new_user_request, reference_request,
    repository_request, resolve_request, tags_page_request, update_pull_request_request,
    update_ref_request, user_request,
};
use crate::text::{
    join_four, join_two, option_view, pieces, same, split, starts_with, trim, trimmed, views,
    without_prefix,
};
use crate::version::{exceeds, parsed_version, semver_exceeds, Version, VersionView};

verus! {

/// The first of the pull requests that a request brings.
pub open spec fn open_pull_request(
    docs: Seq<Document>,
    at: int,
    request: RequestView,
) -> ProgressView<Option<PullRequestView>> {
    if at >= docs.len() {
        ProgressView::Ask(request)
    } else {
        match docs[at] {
            Document::PullRequests(found) => ProgressView::Done(
                if found@.len() > 0 {
                    Some(views(found@)[0])
                } else {
                    None
                },
                at + 1,
            ),
            _ => ProgressView::Failed(unexpected(request)),
        }
    }
}

/// A version and the commit that it names.
pub open spec fn named_reference(
    owner: Seq<char>,
    repository: Seq<char>,
    version: Seq<char>,
    docs: Seq<Document>,
    at: int,
) -> ProgressView<LatestView> {
    match name_for(docs, at, resolve_request(owner, repository, version)) {
        ProgressView::Ask(request) => ProgressView::Ask(request),
        ProgressView::Failed(message) => ProgressView::Failed(message),
        ProgressView::Done(sha, next) => ProgressView::Done(LatestView { version, sha }, next),
    }
}

/// What `latest_reference` comes to.
pub open spec fn latest(
    owner: Seq<char>,
    repository: Seq<char>,
    docs: Seq<Document>,
    at: int,
) -> ProgressView<LatestView> {
    match name_if_there(docs, at, latest_release_request(owner, repository)) {
        ProgressView::Ask(request) => ProgressView::Ask(request),
        ProgressView::Failed(message) => ProgressView::Failed(message),
        ProgressView::Done(Some(version), next) => named_reference(
            owner,
            repository,
            version,
            docs,
            next,
        ),
        ProgressView::Done(None, next) => match tags_for(
            docs,
            next,
            first_tag_request(owner, repository),
        ) {
            ProgressView::Ask(request) => ProgressView::Ask(request),
            ProgressView::Failed(message) => ProgressView::Failed(message),
            ProgressView::Done(tags, next) => if tags.len() == 0 {
                ProgressView::Failed(
                    "GitHub did not return any tags for "@ + owner + "/"@ + repository,
                )
            } else {
                match tags.last().sha {
                    Some(sha) => ProgressView::Done(
                        LatestView { version: tags.last().name, sha },
                        next,
                    ),
                    None => named_reference(owner, repository, tags.last().name, docs, next),
                }
            },
        },
    }
}

/// What is said where a release is to be published without a token.
pub open spec fn missing_release_token() -> Seq<char> {
    "a GitHub token is required to create releases; provide --token or GITHUB_TOKEN"@
}

/// The scope is one of those in the header, which stand between commas.
pub open spec fn grants(scopes: Seq<char>, scope: Seq<char>) -> bool {
    exists|i: int|
        0 <= i < split(scopes, ',').len() && trim(#[trigger] split(scopes, ',')[i]) == scope
}

/// What `validate_token_scopes` comes to.
pub open spec fn scopes_checked(has_token: bool, docs: Seq<Document>, at: int) -> ProgressView<()> {
    if !has_token {
        ProgressView::Failed("a GitHub token is required for remote PR creation"@)
    } else if at >= docs.len() {
        ProgressView::Ask(user_request())
    } else {
        match docs[at] {
            Document::User { login, scopes } => if login is None {
                ProgressView::Failed(
                    "failed to validate GitHub token: authenticated user is missing"@,
                )
            } else {
                match scopes {
                    Some(scopes) => if !grants(scopes@, "repo"@) && !grants(
                        scopes@,
                        "public_repo"@,
                    ) {
                        ProgressView::Failed(
                            "GitHub token is missing the repo or public_repo scope"@,
                        )
                    } else if !grants(scopes@, "workflow"@) {
                        ProgressView::Failed("GitHub token is missing the workflow scope"@)
                    } else {
                        ProgressView::Done((), at + 1)
                    },
                    None => ProgressView::Done((), at + 1),
                }
            },
            _ => ProgressView::Failed(unexpected(user_request())),
        }
    }
}

/// The tags when `page` pages were read and brought `so_far`.
pub open spec fn tags_from(
    owner: Seq<char>,
    repository: Seq<char>,
    page: nat,
    max_pages: nat,
    docs: Seq<Document>,
    at: int,
    so_far: Seq<TagView>,
) -> ProgressView<Seq<TagView>>
    decreases max_pages - page,
{
    if page >= max_pages {
        ProgressView::Done(so_far, at)
    } else {
        match tags_for(docs, at, tags_page_request(owner, repository, page + 1)) {
            ProgressView::Ask(request) => ProgressView::Ask(request),
            ProgressView::Failed(message) => ProgressView::Failed(message),
            ProgressView::Done(found, next) => if found.len() < 100 {
                ProgressView::Done(so_far + found, next)
            } else {
                tags_from(owner, repository, page + 1, max_pages, docs, next, so_far + found)
            },
        }
    }
}

/// What `list_tags` comes to.
pub open spec fn all_tags(
    owner: Seq<char>,
    repository: Seq<char>,
    max_pages: nat,
    docs: Seq<Document>,
    at: int,
) -> ProgressView<Seq<TagView>> {
    tags_from(owner, repository, 0, max_pages, docs, at, Seq::empty())
}

/// The version that a tag names behind a prefix.
pub open spec fn tag_version(prefix: Seq<char>, tag: TagView) -> Option<VersionView> {
    if starts_with(tag.name, prefix) {
        parsed_version(tag.name.skip(prefix.len() as int))
    } else {
        None
    }
}

/// The tag with the greatest version; of several, the last.
pub open spec fn greatest(prefix: Seq<char>, tags: Seq<TagView>) -> Option<TagView>
    decreases tags.len(),
{
    if tags.len() == 0 {
        None
    } else {
        let before = greatest(prefix, tags.drop_last());
        match tag_version(prefix, tags.last()) {
            None => before,
            Some(version) => match before {
                Some(best) => if semver_exceeds(tag_version(prefix, best)->0, version) {
                    before
                } else {
                    Some(tags.last())
                },
                None => Some(tags.last()),
            },
        }
    }
}

/// What `latest_semver_tag` comes to.
pub open spec fn newest_tag(
    owner: Seq<char>,
    repository: Seq<char>,
    prefix: Seq<char>,
    docs: Seq<Document>,
    at: int,
) -> ProgressView<Option<TagView>> {
    match all_tags(owner, repository, 10, docs, at) {
        ProgressView::Ask(request) => ProgressView::Ask(request),
        ProgressView::Failed(message) => ProgressView::Failed(message),
        ProgressView::Done(tags, next) => ProgressView::Done(greatest(prefix, tags), next),
    }
}

/// A commit as it is listed; with more than one parent it is a merge.
pub open spec fn commit_info(entry: CommitEntry) -> CommitView {
    CommitView { sha: entry.sha@, message: entry.message@, is_merge: entry.parents > 1 }
}

/// The commits as they are listed.
pub open spec fn commit_infos(entries: Seq<CommitEntry>) -> Seq<CommitView> {
    entries.map_values(|entry: CommitEntry| commit_info(entry))
}

/// The commits when `page` pages were read and brought `so_far` of `total`.
pub open spec fn compared_from(
    owner: Seq<char>,
    repository: Seq<char>,
    base: Seq<char>,
    head: Seq<char>,
    page: nat,
    max_pages: nat,
    docs: Seq<Document>,
    at: int,
    so_far: Seq<CommitView>,
    total: nat,
) -> ProgressView<RangeView>
    decreases max_pages - page,
{
    let request = compare_page_request(owner, repository, base, head, page + 1);
    if page >= max_pages {
        ProgressView::Done(RangeView { commits: so_far, truncated: so_far.len() < total }, at)
    } else if at >= docs.len() {
        ProgressView::Ask(request)
    } else {
        match docs[at] {
            Document::Comparison { total_commits, commits } => {
                let all = so_far + commit_infos(commits@);
                if commits@.len() == 0 {
                    ProgressView::Done(
                        RangeView { commits: so_far, truncated: so_far.len() < total_commits },
                        at + 1,
                    )
                } else if all.len() >= total_commits {
                    ProgressView::Done(RangeView { commits: all, truncated: false }, at + 1)
                } else {
                    compared_from(
                        owner,
                        repository,
                        base,
                        head,
                        page + 1,
                        max_pages,
                        docs,
                        at + 1,
                        all,
                        total_commits as nat,
                    )
                }
            },
            _ => ProgressView::Failed(unexpected(request)),
        }
    }
}

/// What `compare_commits` comes to.
pub open spec fn compared(
    owner: Seq<char>,
    repository: Seq<char>,
    base: Seq<char>,
    head: Seq<char>,
    max_pages: nat,
    docs: Seq<Document>,
    at: int,
) -> ProgressView<RangeView> {
    compared_from(owner, repository, base, head, 0, max_pages, docs, at, Seq::empty(), 0)
}

/// The commits when `page` pages were read, the last of them full or not, and
/// brought `so_far`.
pub open spec fn listed_from(
    owner: Seq<char>,
    repository: Seq<char>,
    head_sha: Seq<char>,
    page: nat,
    max_pages: nat,
    docs: Seq<Document>,
    at: int,
    so_far: Seq<CommitView>,
    full: bool,
) -> ProgressView<RangeView>
    decreases max_pages - page,
{
    let request = commits_page_request(owner, repository, head_sha, page + 1);
    if page >= max_pages {
        ProgressView::Done(RangeView { commits: so_far, truncated: full }, at)
    } else if at >= docs.len() {
        ProgressView::Ask(request)
    } else {
        match docs[at] {
            Document::Commits(commits) => {
                let all = so_far + commit_infos(commits@);
                if commits@.len() != 100 {
                    ProgressView::Done(RangeView { commits: all, truncated: false }, at + 1)
                } else {
                    listed_from(
                        owner,
                        repository,
                        head_sha,
                        page + 1,
                        max_pages,
                        docs,
                        at + 1,
                        all,
                        true,
                    )
                }
            },
            _ => ProgressView::Failed(unexpected(request)),
        }
    }
}

/// What `list_commits` comes to.
pub open spec fn listed(
    owner: Seq<char>,
    repository: Seq<char>,
    head_sha: Seq<char>,
    max_pages: nat,
    docs: Seq<Document>,
    at: int,
) -> ProgressView<RangeView> {
    listed_from(owner, repository, head_sha, 0, max_pages, docs, at, Seq::empty(), false)
}

/// The version that a tag names behind a prefix.
fn read_tag_version(prefix: &str, tag: &TagInfo) -> (result: Option<Version>)
    ensures
        option_view(result) == tag_version(prefix@, tag@),
        result is Some ==> result->0@.is_valid(),
{
    match without_prefix(&tag.name, prefix) {
        Some(rest) => Version::parse(&rest),
        None => None,
    }
}

/// The tag with the greatest version; of several, the last. No tag has a greater
/// version, and none behind it has one that is as great.
pub fn greatest_tag(prefix: &str, tags: &Vec<TagInfo>) -> (result: Option<TagInfo>)
    ensures
        option_view(result) == greatest(prefix@, views(tags@)),
        is_greatest(prefix@, views(tags@), option_view(result)),
{
    let mut best: Option<(usize, Version)> = None;
    let mut i: usize = 0;
    let ghost all = views(tags@);
    while i < tags.len()
        invariant
            i <= tags.len(),
            all == views(tags@),
            match best {
                Some((at, version)) => at < i && tag_version(prefix@, all[at as int]) == Some(
                    version@,
                ) && version@.is_valid() && greatest(prefix@, all.take(i as int)) == Some(
                    all[at as int],
                ) && is_greatest_of(prefix@, all, at as int, i as int),
                None => greatest(prefix@, all.take(i as int)) is None && forall|j: int|
                    0 <= j < i ==> tag_version(prefix@, #[trigger] all[j]) is None,
            },
        decreases tags.len() - i,
    {
        proof {
            assert(all.take(i + 1).drop_last() == all.take(i as int));
            assert(all.take(i + 1).last() == tags@[i as int]@);
            assert(all[i as int] == tags@[i as int]@);
        }
        match read_tag_version(prefix, &tags[i]) {
            Some(version) => {
                let replace = match &best {
                    Some((_, so_far)) => !exceeds(so_far, &version),
                    None => true,
                };
                if replace {
                    best = Some((i, version));
                }
            },
            None => {},
        }
        i = i + 1;
    }
    assert(all.take(i as int) == all);
    match best {
        Some((at, _)) => {
            let tag = copy_tag(&tags[at]);
            assert(all[at as int] == tag@);
            Some(tag)
        },
        None => None,
    }
}

/// Among the first `n` tags none has a greater version than the one at `i`, and none
/// behind it one that is as great.
pub open spec fn is_greatest_of(prefix: Seq<char>, tags: Seq<TagView>, i: int, n: int) -> bool {
    forall|j: int|
        0 <= j < n && j != i ==> match tag_version(prefix, #[trigger] tags[j]) {
            Some(version) => {
                &&& version.is_valid()
                &&& !semver_exceeds(version, tag_version(prefix, tags[i])->0)
                &&& j > i ==> semver_exceeds(tag_version(prefix, tags[i])->0, version)
            },
            None => true,
        }
}

/// What was found is the tag with the greatest version: no tag has a greater one, and
/// none behind it one that is as great. Nothing is found where no tag has a version.
pub open spec fn is_greatest(
    prefix: Seq<char>,
    tags: Seq<TagView>,
    found: Option<TagView>,
) -> bool {
    match found {
        Some(best) => tag_version(prefix, best) is Some && exists|i: int|
            0 <= i < tags.len() && #[trigger] tags[i] == best && is_greatest_of(
                prefix,
                tags,
                i,
                tags.len() as int,
            ),
        None => forall|j: int|
            0 <= j < tags.len() ==> tag_version(prefix, #[trigger] tags[j]) is None,
    }
}

/// Whether the scope is one of those in the header.
fn names_scope(scopes: &str, scope: &str) -> (result: bool)
    ensures
        result == grants(scopes@, scope@),
{
    let parts = pieces(scopes, ',');
    let ghost all = split(scopes@, ',');
    let mut i: usize = 0;
    while i < parts.len()
        invariant
            i <= parts.len(),
            all == views(parts@),
            all == split(scopes@, ','),
            forall|k: int| 0 <= k < i ==> trim(#[trigger] all[k]) != scope@,
        decreases parts.len() - i,
    {
        assert(all[i as int] == parts@[i as int]@);
        if same(&trimmed(&parts[i]), scope) {
            return true;
        }
        i = i + 1;
    }
    false
}

/// Puts commits behind others.
fn add_commits(commits: &mut Vec<CommitInfo>, entries: &Vec<CommitEntry>)
    ensures
        views(final(commits)@) == views(old(commits)@) + commit_infos(entries@),
{
    let ghost before = views(commits@);
    let mut i: usize = 0;
    assert(commit_infos(entries@).take(0) == Seq::<CommitView>::empty());
    while i < entries.len()
        invariant
            i <= entries.len(),
            views(commits@) == before + commit_infos(entries@).take(i as int),
        decreases entries.len() - i,
    {
        let ghost so_far = views(commits@);
        let info = commit_info_from_response(&entries[i]);
        commits.push(info);
        assert(views(commits@) == so_far.push(info@));
        assert(commit_infos(entries@).take(i + 1) == commit_infos(entries@).take(i as int).push(
            info@,
        ));
        i = i + 1;
    }
    assert(commit_infos(entries@).take(i as int) == commit_infos(entries@));
}

fn commit_info_from_response(entry: &CommitEntry) -> (result: CommitInfo)
    ensures
        result@ == commit_info(*entry),
{
    CommitInfo {
        sha: entry.sha.clone(),
        message: entry.message.clone(),
        is_merge: entry.parents > 1,
    }
}

impl GitHubClient {
    /// The commit that a reference of a repository names.
    pub fn resolve_reference(
        &self,
        owner: &str,
        repository: &str,
        reference: &str,
        docs: &Vec<Document>,
        at: usize,
    ) -> (result: Progress<String>)
        ensures
            result@ == name_for(docs@, at as int, resolve_request(owner@, repository@, reference@)),
            result matches Progress::Done(_, next) ==> next <= docs.len(),
    {
        take_name(docs, at, new_resolve_request(owner, repository, reference))
    }

    /// The default branch of a repository.
    pub fn default_branch(
        &self,
        owner: &str,
        repository: &str,
        docs: &Vec<Document>,
        at: usize,
    ) -> (result: Progress<String>)
        ensures
            result@ == name_for(docs@, at as int, repository_request(owner@, repository@)),
            result matches Progress::Done(_, next) ==> next <= docs.len(),
    {
        take_name(docs, at, new_repository_request(owner, repository))
    }

    /// The commit at the head of a branch.
    pub fn branch_head_sha(
        &self,
        owner: &str,
        repository: &str,
        branch: &str,
        docs: &Vec<Document>,
        at: usize,
    ) -> (result: Progress<String>)
        ensures
            result@ == name_for(docs@, at as int, branch_request(owner@, repository@, branch@)),
            result matches Progress::Done(_, next) ==> next <= docs.len(),
    {
        take_name(docs, at, new_branch_request(owner, repository, branch))
    }

    /// The tree of a commit.
    pub fn commit_tree_sha(
        &self,
        owner: &str,
        repository: &str,
        commit_sha: &str,
        docs: &Vec<Document>,
        at: usize,
    ) -> (result: Progress<String>)
        ensures
            result@ == name_for(
                docs@,
                at as int,
                commit_tree_request(owner@, repository@, commit_sha@),
            ),
            result matches Progress::Done(_, next) ==> next <= docs.len(),
    {
        take_name(docs, at, new_commit_tree_request(owner, repository, commit_sha))
    }

    /// Creates the reference `refs/` and `ref_path`.
    pub fn create_ref(
        &self,
        owner: &str,
        repository: &str,
        ref_path: &str,
        sha: &str,
        docs: &Vec<Document>,
        at: usize,
    ) -> (result: Progress<()>)
        ensures
            result@ == carried_out(
                docs@,
                at as int,
                create_ref_request(owner@, repository@, ref_path@, sha@),
            ),
            result matches Progress::Done(_, next) ==> next <= docs.len(),
    {
        take_done(docs, at, new_create_ref_request(owner, repository, ref_path, sha))
    }

    /// Creates an annotated tag of a commit. A reference must still be created to make
    /// it reachable.
    pub fn create_annotated_tag(
        &self,
        owner: &str,
        repository: &str,
        tag: &str,
        message: &str,
        commit_sha: &str,
        docs: &Vec<Document>,
        at: usize,
    ) -> (result: Progress<String>)
        ensures
            result@ == name_for(
                docs@,
                at as int,
                create_tag_request(owner@, repository@, tag@, message@, commit_sha@),
            ),
            result matches Progress::Done(_, next) ==> next <= docs.len(),
    {
        take_name(docs, at, new_create_tag_request(owner, repository, tag, message, commit_sha))
    }

    /// What a reference points at, where there is one.
    pub fn reference_sha(
        &self,
        owner: &str,
        repository: &str,
        ref_path: &str,
        docs: &Vec<Document>,
        at: usize,
    ) -> (result: Progress<Option<String>>)
        ensures
            result@ == name_if_there(
                docs@,
                at as int,
                reference_request(owner@, repository@, ref_path@),
            ),
            result matches Progress::Done(_, next) ==> next <= docs.len(),
    {
        take_name_if_there(docs, at, new_reference_request(owner, repository, ref_path))
    }

    /// Creates a blob that holds the content.
    pub fn create_blob(
        &self,
        owner: &str,
        repository: &str,
        content: &str,
        docs: &Vec<Document>,
        at: usize,
    ) -> (result: Progress<String>)
        ensures
            result@ == name_for(
                docs@,
                at as int,
                create_blob_request(owner@, repository@, content@),
            ),
            result matches Progress::Done(_, next) ==> next <= docs.len(),
    {
        take_name(docs, at, new_create_blob_request(owner, repository, content))
    }

    /// Creates a tree with the entries on top of another.
    pub fn create_tree(
        &self,
        owner: &str,
        repository: &str,
        base_tree_sha: &str,
        entries: &Vec<TreeEntry>,
        docs: &Vec<Document>,
        at: usize,
    ) -> (result: Progress<String>)
        ensures
            result@ == name_for(
                docs@,
                at as int,
                create_tree_request(owner@, repository@, base_tree_sha@, views(entries@)),
            ),
            result matches Progress::Done(_, next) ==> next <= docs.len(),
    {
        take_name(docs, at, new_create_tree_request(owner, repository, base_tree_sha, entries))
    }

    /// Creates a commit with one parent.
    pub fn create_commit(
        &self,
        owner: &str,
        repository: &str,
        message: &str,
        tree_sha: &str,
        parent_sha: &str,
        docs: &Vec<Document>,
        at: usize,
    ) -> (result: Progress<String>)
        ensures
            result@ == name_for(
                docs@,
                at as int,
                create_commit_request(owner@, repository@, message@, tree_sha@, parent_sha@),
            ),
            result matches Progress::Done(_, next) ==> next <= docs.len(),
    {
        take_name(
            docs,
            at,
            new_create_commit_request(owner, repository, message, tree_sha, parent_sha),
        )
    }

    /// Moves a reference; backwards only with `force`.
    pub fn update_ref(
        &self,
        owner: &str,
        repository: &str,
        ref_path: &str,
        sha: &str,
        force: bool,
        docs: &Vec<Document>,
        at: usize,
    ) -> (result: Progress<()>)
        ensures
            result@ == carried_out(
                docs@,
                at as int,
                update_ref_request(owner@, repository@, ref_path@, sha@, force),
            ),
            result matches Progress::Done(_, next) ==> next <= docs.len(),
    {
        take_done(docs, at, new_update_ref_request(owner, repository, ref_path, sha, force))
    }

    /// Moves a reference forward; `false` where that would not be a fast forward.
    pub fn update_ref_fast_forward(
        &self,
        owner: &str,
        repository: &str,
        ref_path: &str,
        sha: &str,
        docs: &Vec<Document>,
        at: usize,
    ) -> (result: Progress<bool>)
        ensures
            result@ == carried_out_or_refused(
                docs@,
                at as int,
                fast_forward_request(owner@, repository@, ref_path@, sha@),
            ),
            result matches Progress::Done(_, next) ==> next <= docs.len(),
    {
        take_done_or_refused(docs, at, new_fast_forward_request(owner, repository, ref_path, sha))
    }

    /// Opens a pull request.
    pub fn create_pull_request(
        &self,
        owner: &str,
        repository: &str,
        title: &str,
        body: &str,
        head: &str,
        base: &str,
        docs: &Vec<Document>,
        at: usize,
    ) -> (result: Progress<PullRequestInfo>)
        ensures
            result@ == pull_request_for(
                docs@,
                at as int,
                create_pull_request_request(owner@, repository@, title@, body@, head@, base@),
            ),
            result matches Progress::Done(_, next) ==> next <= docs.len(),
    {
        take_pull_request(
            docs,
            at,
            new_create_pull_request_request(owner, repository, title, body, head, base),
        )
    }

    /// Rewrites the title and the body of a pull request.
    pub fn update_pull_request(
        &self,
        owner: &str,
        repository: &str,
        number: u64,
        title: &str,
        body: &str,
        docs: &Vec<Document>,
        at: usize,
    ) -> (result: Progress<PullRequestInfo>)
        ensures
            result@ == pull_request_for(
                docs@,
                at as int,
                update_pull_request_request(owner@, repository@, number, title@, body@),
            ),
            result matches Progress::Done(_, next) ==> next <= docs.len(),
    {
        take_pull_request(
            docs,
            at,
            new_update_pull_request_request(owner, repository, number, title, body),
        )
    }

    /// Puts labels on an issue or a pull request.
    pub fn add_labels(
        &self,
        owner: &str,
        repository: &str,
        issue_number: u64,
        labels: &Vec<String>,
        docs: &Vec<Document>,
        at: usize,
    ) -> (result: Progress<()>)
        ensures
            result@ == carried_out(
                docs@,
                at as int,
                add_labels_request(owner@, repository@, issue_number, views(labels@)),
            ),
            result matches Progress::Done(_, next) ==> next <= docs.len(),
    {
        take_done(docs, at, new_add_labels_request(owner, repository, issue_number, labels))
    }

    /// Creates a branch at a commit.
    pub fn create_branch(
        &self,
        owner: &str,
        repository: &str,
        branch: &str,
        base_sha: &str,
        docs: &Vec<Document>,
        at: usize,
    ) -> (result: Progress<()>)
        ensures
            result@ == carried_out(
                docs@,
                at as int,
                create_ref_request(owner@, repository@, "heads/"@ + branch@, base_sha@),
            ),
            result matches Progress::Done(_, next) ==> next <= docs.len(),
    {
        self.create_ref(owner, repository, &join_two("heads/", branch), base_sha, docs, at)
    }

    /// Moves a branch forward.
    pub fn update_branch(
        &self,
        owner: &str,
        repository: &str,
        branch: &str,
        commit_sha: &str,
        docs: &Vec<Document>,
        at: usize,
    ) -> (result: Progress<()>)
        ensures
            result@ == carried_out(
                docs@,
                at as int,
                update_ref_request(owner@, repository@, "heads/"@ + branch@, commit_sha@, false),
            ),
            result matches Progress::Done(_, next) ==> next <= docs.len(),
    {
        self.update_ref(owner, repository, &join_two("heads/", branch), commit_sha, false, docs, at)
    }

    /// Publishes a release.
    pub fn create_release(
        &self,
        owner: &str,
        repository: &str,
        tag_name: &str,
        name: &str,
        body: &str,
        target_commitish: &str,
        docs: &Vec<Document>,
        at: usize,
    ) -> (result: Progress<ReleaseInfo>)
        ensures
            result@ == name_for(
                docs@,
                at as int,
                create_release_request(
                    owner@,
                    repository@,
                    tag_name@,
                    name@,
                    body@,
                    target_commitish@,
                ),
            ),
            result matches Progress::Done(_, next) ==> next <= docs.len(),
    {
        let request = new_create_release_request(
            owner,
            repository,
            tag_name,
            name,
            body,
            target_commitish,
        );
        match take_name(docs, at, request) {
            Progress::Ask(request) => Progress::Ask(request),
            Progress::Failed(message) => Progress::Failed(message),
            Progress::Done(url, next) => Progress::Done(ReleaseInfo { url }, next),
        }
    }

    /// The first open pull request from one branch into another, where there is one.
    pub fn find_open_pull_request(
        &self,
        owner: &str,
        repository: &str,
        head: &str,
        base: &str,
        docs: &Vec<Document>,
        at: usize,
    ) -> (result: Progress<Option<PullRequestInfo>>)
        ensures
            result@ == open_pull_request(
                docs@,
                at as int,
                find_pull_request_request(owner@, repository@, head@, base@),
            ),
            result matches Progress::Done(_, next) ==> next <= docs.len(),
    {
        let request = new_find_pull_request_request(owner, repository, head, base);
        if at >= docs.len() {
            return Progress::Ask(request);
        }
        match &docs[at] {
            Document::PullRequests(found) => if found.len() > 0 {
                let first = PullRequestInfo { number: found[0].number, url: found[0].url.clone() };
                assert(views(found@)[0] == first@);
                Progress::Done(Some(first), at + 1)
            } else {
                Progress::Done(None, at + 1)
            },
            _ => Progress::Failed(join_two(&request.context, ": unexpected answer")),
        }
    }

    /// The tag of the latest release and its commit; without a release, the first
    /// tag and its commit.
    pub fn latest_reference(
        &self,
        owner: &str,
        repository: &str,
        docs: &Vec<Document>,
        at: usize,
    ) -> (result: Progress<LatestReference>)
        ensures
            result@ == latest(owner@, repository@, docs@, at as int),
            result matches Progress::Done(_, next) ==> next <= docs.len(),
    {
        match take_name_if_there(docs, at, new_latest_release_request(owner, repository)) {
            Progress::Ask(request) => Progress::Ask(request),
            Progress::Failed(message) => Progress::Failed(message),
            Progress::Done(Some(version), next) => self.with_commit(
                owner,
                repository,
                version,
                docs,
                next,
            ),
            Progress::Done(None, next) => {
                match take_tags(docs, next, new_first_tag_request(owner, repository)) {
                    Progress::Ask(request) => Progress::Ask(request),
                    Progress::Failed(message) => Progress::Failed(message),
                    Progress::Done(tags, next) => {
                        if tags.len() == 0 {
                            return Progress::Failed(
                                join_four(
                                    "GitHub did not return any tags for ",
                                    owner,
                                    "/",
                                    repository,
                                ),
                            );
                        }
                        let last = copy_tag(&tags[tags.len() - 1]);
                        match last.sha {
                            Some(sha) => Progress::Done(
                                LatestReference { version: last.name, sha },
                                next,
                            ),
                            None => self.with_commit(owner, repository, last.name, docs, next),
                        }
                    },
                }
            },
        }
    }

    fn with_commit(
        &self,
        owner: &str,
        repository: &str,
        version: String,
        docs: &Vec<Document>,
        at: usize,
    ) -> (result: Progress<LatestReference>)
        ensures
            result@ == named_reference(owner@, repository@, version@, docs@, at as int),
            result matches Progress::Done(_, next) ==> next <= docs.len(),
    {
        match self.resolve_reference(owner, repository, &version, docs, at) {
            Progress::Ask(request) => Progress::Ask(request),
            Progress::Failed(message) => Progress::Failed(message),
            Progress::Done(sha, next) => Progress::Done(LatestReference { version, sha }, next),
        }
    }

    /// Whether there is a token to publish releases with.
    pub fn ensure_token(&self) -> (result: Result<(), String>)
        ensures
            match result {
                Ok(_) => self.token is Some,
                Err(message) => self.token is None && message@ == missing_release_token(),
            },
    {
        match &self.token {
            Some(_) => Ok(()),
            None => Err(
                "a GitHub token is required to create releases; provide --token or GITHUB_TOKEN".to_owned(),
            ),
        }
    }

    /// Checks that the token belongs to a user and has the scope `repo` or `public_repo`,
    /// and `workflow`. Where GitHub names no scopes, none are asked for.
    pub fn validate_token_scopes(&self, docs: &Vec<Document>, at: usize) -> (result: Progress<()>)
        ensures
            result@ == scopes_checked(self.token is Some, docs@, at as int),
            result matches Progress::Done(_, next) ==> next <= docs.len(),
    {
        if self.token.is_none() {
            return Progress::Failed(
                "a GitHub token is required for remote PR creation".to_owned(),
            );
        }
        let request = new_user_request();
        if at >= docs.len() {
            return Progress::Ask(request);
        }
        match &docs[at] {
            Document::User { login, scopes } => {
                if login.is_none() {
                    return Progress::Failed(
                        "failed to validate GitHub token: authenticated user is missing".to_owned(),
                    );
                }
                match scopes {
                    Some(scopes) => if !names_scope(scopes, "repo") && !names_scope(
                        scopes,
                        "public_repo",
                    ) {
                        Progress::Failed(
                            "GitHub token is missing the repo or public_repo scope".to_owned(),
                        )
                    } else if !names_scope(scopes, "workflow") {
                        Progress::Failed("GitHub token is missing the workflow scope".to_owned())
                    } else {
                        Progress::Done((), at + 1)
                    },
                    None => Progress::Done((), at + 1),
                }
            },
            _ => Progress::Failed(join_two(&request.context, ": unexpected answer")),
        }
    }

    /// The tags of a repository, page by page until one is not full.
    pub fn list_tags(
        &self,
        owner: &str,
        repository: &str,
        max_pages: u32,
        docs: &Vec<Document>,
        from: usize,
    ) -> (result: Progress<Vec<TagInfo>>)
        ensures
            result@ == all_tags(owner@, repository@, max_pages as nat, docs@, from as int),
            result matches Progress::Done(_, next) ==> next <= docs.len() || next == from,
    {
        let mut tags: Vec<TagInfo> = Vec::new();
        let mut page: u32 = 0;
        let mut at: usize = from;
        assert(views(tags@) == Seq::<TagView>::empty());
        while page < max_pages
            invariant
                page <= max_pages,
                at <= docs.len() || at == from,
                all_tags(owner@, repository@, max_pages as nat, docs@, from as int) == tags_from(
                    owner@,
                    repository@,
                    page as nat,
                    max_pages as nat,
                    docs@,
                    at as int,
                    views(tags@),
                ),
            decreases max_pages - page,
        {
            match take_tags(docs, at, new_tags_page_request(owner, repository, page + 1)) {
                Progress::Ask(request) => {
                    return Progress::Ask(request);
                },
                Progress::Failed(message) => {
                    return Progress::Failed(message);
                },
                Progress::Done(mut found, next) => {
                    let ghost before = tags@;
                    let ghost more = found@;
                    let count = found.len();
                    assert(views(more) == found.deep_view());
                    tags.append(&mut found);
                    assert(views(tags@) == views(before) + views(more));
                    at = next;
                    page = page + 1;
                    if count < 100 {
                        assert(tags.deep_view() == views(tags@));
                        return Progress::Done(tags, at);
                    }
                },
            }
        }
        assert(tags.deep_view() == views(tags@));
        Progress::Done(tags, at)
    }

    /// The tag with the greatest version among those that are `prefix` and a
    /// semantic version; of the first thousand tags.
    pub fn latest_semver_tag(
        &self,
        owner: &str,
        repository: &str,
        prefix: &str,
        docs: &Vec<Document>,
        at: usize,
    ) -> (result: Progress<Option<TagInfo>>)
        ensures
            result@ == newest_tag(owner@, repository@, prefix@, docs@, at as int),
            all_tags(owner@, repository@, 10, docs@, at as int) matches ProgressView::Done(tags, _)
                ==> (result matches Progress::Done(found, _) && is_greatest(
                prefix@,
                tags,
                option_view(found),
            )),
            result matches Progress::Done(_, next) ==> next <= docs.len() || next == at,
    {
        match self.list_tags(owner, repository, 10, docs, at) {
            Progress::Ask(request) => Progress::Ask(request),
            Progress::Failed(message) => Progress::Failed(message),
            Progress::Done(tags, next) => {
                assert(tags.deep_view() == views(tags@));
                let best = greatest_tag(prefix, &tags);
                Progress::Done(best, next)
            },
        }
    }

    /// The commits between two references, page by page until all are there, a page
    /// is empty or there are no pages left.
    pub fn compare_commits(
        &self,
        owner: &str,
        repository: &str,
        base: &str,
        head: &str,
        max_pages: u32,
        docs: &Vec<Document>,
        from: usize,
    ) -> (result: Progress<CommitRange>)
        ensures
            result@ == compared(
                owner@,
                repository@,
                base@,
                head@,
                max_pages as nat,
                docs@,
                from as int,
            ),
            result matches Progress::Done(_, next) ==> next <= docs.len() || next == from,
    {
        let mut commits: Vec<CommitInfo> = Vec::new();
        let mut total: u64 = 0;
        let mut page: u32 = 0;
        let mut at: usize = from;
        assert(views(commits@) == Seq::<CommitView>::empty());
        while page < max_pages
            invariant
                page <= max_pages,
                at <= docs.len() || at == from,
                compared(
                    owner@,
                    repository@,
                    base@,
                    head@,
                    max_pages as nat,
                    docs@,
                    from as int,
                ) == compared_from(
                    owner@,
                    repository@,
                    base@,
                    head@,
                    page as nat,
                    max_pages as nat,
                    docs@,
                    at as int,
                    views(commits@),
                    total as nat,
                ),
            decreases max_pages - page,
        {
            let request = new_compare_page_request(owner, repository, base, head, page + 1);
            if at >= docs.len() {
                return Progress::Ask(request);
            }
            match &docs[at] {
                Document::Comparison { total_commits, commits: found } => {
                    total = *total_commits;
                    at = at + 1;
                    page = page + 1;
                    if found.len() == 0 {
                        let truncated = (commits.len() as u64) < total;
                        return Progress::Done(CommitRange { commits, truncated }, at);
                    }
                    let ghost before = views(commits@);
                    add_commits(&mut commits, found);
                    assert(views(commits@) == before + commit_infos(found@));
                    if commits.len() as u64 >= total {
                        return Progress::Done(CommitRange { commits, truncated: false }, at);
                    }
                },
                _ => {
                    return Progress::Failed(join_two(&request.context, ": unexpected answer"));
                },
            }
        }
        let truncated = (commits.len() as u64) < total;
        Progress::Done(CommitRange { commits, truncated }, at)
    }

    /// The commits up to a head, page by page until one is not full.
    pub fn list_commits(
        &self,
        owner: &str,
        repository: &str,
        head_sha: &str,
        max_pages: u32,
        docs: &Vec<Document>,
        from: usize,
    ) -> (result: Progress<CommitRange>)
        ensures
            result@ == listed(
                owner@,
                repository@,
                head_sha@,
                max_pages as nat,
                docs@,
                from as int,
            ),
            result matches Progress::Done(_, next) ==> next <= docs.len() || next == from,
    {
        let mut commits: Vec<CommitInfo> = Vec::new();
        let mut full = false;
        let mut page: u32 = 0;
        let mut at: usize = from;
        assert(views(commits@) == Seq::<CommitView>::empty());
        while page < max_pages
            invariant
                page <= max_pages,
                at <= docs.len() || at == from,
                listed(
                    owner@,
                    repository@,
                    head_sha@,
                    max_pages as nat,
                    docs@,
                    from as int,
                ) == listed_from(
                    owner@,
                    repository@,
                    head_sha@,
                    page as nat,
                    max_pages as nat,
                    docs@,
                    at as int,
                    views(commits@),
                    full,
                ),
            decreases max_pages - page,
        {
            let request = new_commits_page_request(owner, repository, head_sha, page + 1);
            if at >= docs.len() {
                return Progress::Ask(request);
            }
            match &docs[at] {
                Document::Commits(found) => {
                    at = at + 1;
                    page = page + 1;
                    full = found.len() == 100;
                    let ghost before = views(commits@);
                    add_commits(&mut commits, found);
                    assert(views(commits@) == before + commit_infos(found@));
                    if !full {
                        return Progress::Done(CommitRange { commits, truncated: false }, at);
                    }
                },
                _ => {
                    return Progress::Failed(join_two(&request.context, ": unexpected answer"));
                },
            }
        }
        Progress::Done(CommitRange { commits, truncated: full }, at)
    }
}

} // verus!
