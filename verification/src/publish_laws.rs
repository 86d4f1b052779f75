//! How updates are gathered, committed and proposed.

use vstd::prelude::*;

use crate::api::{Document, Method, ProgressView, PullRequestInfo};
use crate::call_laws::{tells, writes};
use crate::calls::scopes_checked;
use crate::github::TreeEntryView;
use crate::model::{FileUpdateView, UpdateChangeKind, UpdateChangeView};
use crate::paths::{comes_before, repository_path};
use crate::remote::{
    base_of, blobs_from, branch_for, change_line, change_lines, committed, grouped, pr_body,
    published, pull_request_opened, with_update, BaseView, PublishedView, PullRequestOptions,
};
use crate::requests::{
    add_labels_request, branch_request, commit_tree_request, create_blob_request,
    create_commit_request, create_pull_request_request, create_ref_request, create_tree_request,
    repository_request, update_ref_request,
};
use crate::scan_laws::{holds, is_gap};
use crate::text::{decimal, is_blank, option_view, views};

verus! {

// ---------------------------------------------------------------------------
// Gathering
// ---------------------------------------------------------------------------
/// The last update of a file is kept, and only that one.
pub proof fn law_last_update_of_a_file_is_kept(updates: Seq<FileUpdateView>)
    ensures
        forall|i: int|
            0 <= i < updates.len() && is_last_of_its_file(updates, i) ==> grouped(
                updates,
            ).contains(#[trigger] updates[i]),
        forall|k: int|
            0 <= k < grouped(updates).len() ==> is_kept(updates, #[trigger] grouped(updates)[k]),
        forall|j: int, k: int|
            0 <= j < k < grouped(updates).len() ==> (#[trigger] grouped(updates)[j]).file != (
            #[trigger] grouped(updates)[k]).file,
    decreases updates.len(),
{
    if updates.len() > 0 {
        let front = updates.drop_last();
        law_last_update_of_a_file_is_kept(front);
        let before = grouped(front);
        let last = updates.last();
        let now = grouped(updates);
        lemma_in_order(front);
        lemma_with_update(before, last);
        assert forall|i: int|
            0 <= i < updates.len() && is_last_of_its_file(updates, i) implies now.contains(
            #[trigger] updates[i],
        ) by {
            if i < front.len() {
                assert(updates[updates.len() - 1].file != updates[i].file);
                assert(is_last_of_its_file(front, i)) by {
                    assert forall|j: int| i < j < front.len() implies (#[trigger] front[j]).file
                        != front[i].file by {
                        assert(front[j] == updates[j]);
                    }
                }
                assert(before.contains(front[i]));
                assert(now.contains(front[i]));
            } else {
                assert(now.contains(last));
            }
        }
        assert forall|k: int| 0 <= k < now.len() implies is_kept(updates, #[trigger] now[k]) by {
            assert(now.contains(now[k]));
            if now[k] == last {
                assert(updates[updates.len() - 1] == last);
                assert(is_last_of_its_file(updates, updates.len() - 1));
            } else {
                assert(before.contains(now[k]) && now[k].file != last.file);
                let m = choose|m: int| 0 <= m < before.len() && before[m] == now[k];
                assert(is_kept(front, before[m]));
                let i = choose|i: int|
                    0 <= i < front.len() && #[trigger] front[i] == now[k] && is_last_of_its_file(
                        front,
                        i,
                    );
                assert(updates[i] == now[k]);
                assert(is_last_of_its_file(updates, i)) by {
                    assert forall|j: int| i < j < updates.len() implies (
                    #[trigger] updates[j]).file != updates[i].file by {
                        if j < front.len() {
                            assert(front[j] == updates[j]);
                        }
                    }
                }
            }
        }
    }
}

/// No later update is of the same file.
pub open spec fn is_last_of_its_file(updates: Seq<FileUpdateView>, i: int) -> bool {
    forall|j: int| i < j < updates.len() ==> (#[trigger] updates[j]).file != updates[i].file
}

/// The update is the last one of its file.
pub open spec fn is_kept(updates: Seq<FileUpdateView>, update: FileUpdateView) -> bool {
    exists|i: int|
        0 <= i < updates.len() && #[trigger] updates[i] == update && is_last_of_its_file(updates, i)
}

/// The files come in the order of their paths.
pub open spec fn are_in_order(updates: Seq<FileUpdateView>) -> bool {
    forall|j: int, k: int|
        0 <= j < k < updates.len() ==> comes_before(
            (#[trigger] updates[j]).file,
            (#[trigger] updates[k]).file,
        )
}

/// The updates that are kept come in the order of their paths.
pub proof fn law_updates_are_in_order(updates: Seq<FileUpdateView>)
    ensures
        are_in_order(grouped(updates)),
{
    lemma_in_order(updates);
}

proof fn lemma_in_order(updates: Seq<FileUpdateView>)
    ensures
        are_in_order(grouped(updates)),
    decreases updates.len(),
{
    if updates.len() > 0 {
        lemma_in_order(updates.drop_last());
        lemma_with_update(grouped(updates.drop_last()), updates.last());
    }
}

proof fn lemma_with_update(updates: Seq<FileUpdateView>, update: FileUpdateView)
    requires
        are_in_order(updates),
    ensures
        are_in_order(with_update(updates, update)),
        forall|other: FileUpdateView| #[trigger]
            with_update(updates, update).contains(other) == (other == update || updates.contains(
                other,
            ) && other.file != update.file),
        forall|j: int, k: int|
            0 <= j < k < with_update(updates, update).len() ==> (#[trigger] with_update(
                updates,
                update,
            )[j]).file != (#[trigger] with_update(updates, update)[k]).file,
    decreases updates.len(),
{
    let now = with_update(updates, update);
    if updates.len() == 0 {
        assert(now == seq![update]);
        assert(now[0] == update);
    } else if updates[0].file == update.file {
        let rest = updates.skip(1);
        assert(now == seq![update] + rest);
        assert(now[0] == update);
        assert forall|j: int, k: int| 0 <= j < k < now.len() implies comes_before(
            (#[trigger] now[j]).file,
            (#[trigger] now[k]).file,
        ) by {
            assert(now[k] == updates[k]);
            if j > 0 {
                assert(now[j] == updates[j]);
            } else {
                assert(comes_before(updates[0].file, updates[k].file));
            }
        }
        assert forall|other: FileUpdateView| #[trigger] now.contains(other) == (other == update
            || updates.contains(other) && other.file != update.file) by {
            if now.contains(other) {
                let k = choose|k: int| 0 <= k < now.len() && now[k] == other;
                if k > 0 {
                    assert(updates[k] == other);
                    assert(comes_before(updates[0].file, updates[k].file));
                    lemma_not_before_itself(update.file);
                }
            }
            if updates.contains(other) && other.file != update.file {
                let k = choose|k: int| 0 <= k < updates.len() && updates[k] == other;
                assert(now[k] == other);
            }
        }
    } else if comes_before(update.file, updates[0].file) {
        assert(now == seq![update] + updates);
        assert(now[0] == update);
        assert forall|j: int, k: int| 0 <= j < k < now.len() implies comes_before(
            (#[trigger] now[j]).file,
            (#[trigger] now[k]).file,
        ) by {
            assert(now[k] == updates[k - 1]);
            if j > 0 {
                assert(now[j] == updates[j - 1]);
            } else if k > 1 {
                assert(comes_before(updates[0].file, updates[k - 1].file));
                lemma_before_is_transitive(update.file, updates[0].file, updates[k - 1].file);
            }
        }
        assert forall|other: FileUpdateView| #[trigger] now.contains(other) == (other == update
            || updates.contains(other) && other.file != update.file) by {
            if now.contains(other) {
                let k = choose|k: int| 0 <= k < now.len() && now[k] == other;
                if k > 0 {
                    assert(updates[k - 1] == other);
                    assert(comes_before(now[0].file, now[k].file));
                    lemma_not_before_itself(update.file);
                }
            }
            if updates.contains(other) {
                let k = choose|k: int| 0 <= k < updates.len() && updates[k] == other;
                assert(now[k + 1] == other);
            }
        }
    } else {
        let first = updates[0];
        let rest = updates.skip(1);
        assert forall|j: int, k: int| 0 <= j < k < rest.len() implies comes_before(
            (#[trigger] rest[j]).file,
            (#[trigger] rest[k]).file,
        ) by {
            assert(rest[j] == updates[j + 1]);
            assert(rest[k] == updates[k + 1]);
        }
        lemma_with_update(rest, update);
        let tail = with_update(rest, update);
        assert(now == seq![first] + tail);
        assert(now[0] == first);
        lemma_before_is_total(first.file, update.file);
        assert forall|j: int, k: int| 0 <= j < k < now.len() implies comes_before(
            (#[trigger] now[j]).file,
            (#[trigger] now[k]).file,
        ) by {
            assert(now[k] == tail[k - 1]);
            if j > 0 {
                assert(now[j] == tail[j - 1]);
            } else {
                assert(tail.contains(tail[k - 1]));
                if tail[k - 1] != update {
                    let m = choose|m: int| 0 <= m < rest.len() && rest[m] == tail[k - 1];
                    assert(updates[m + 1] == tail[k - 1]);
                    assert(comes_before(updates[0].file, updates[m + 1].file));
                }
            }
        }
        assert forall|other: FileUpdateView| #[trigger] now.contains(other) == (other == update
            || updates.contains(other) && other.file != update.file) by {
            assert(tail.contains(other) == (other == update || rest.contains(other) && other.file
                != update.file));
            if now.contains(other) {
                let k = choose|k: int| 0 <= k < now.len() && now[k] == other;
                if k > 0 {
                    assert(tail[k - 1] == other);
                } else {
                    assert(updates[0] == other);
                }
            }
            if rest.contains(other) {
                let k = choose|k: int| 0 <= k < rest.len() && rest[k] == other;
                assert(updates[k + 1] == other);
            }
            if tail.contains(other) {
                let k = choose|k: int| 0 <= k < tail.len() && tail[k] == other;
                assert(now[k + 1] == other);
            }
            if updates.contains(other) && other.file != update.file {
                let k = choose|k: int| 0 <= k < updates.len() && updates[k] == other;
                if k > 0 {
                    assert(rest[k - 1] == other);
                }
            }
        }
    }
    assert forall|j: int, k: int| 0 <= j < k < now.len() implies (#[trigger] now[j]).file != (
    #[trigger] now[k]).file by {
        assert(comes_before(now[j].file, now[k].file));
        lemma_not_before_itself(now[j].file);
    }
}

proof fn lemma_not_before_itself(a: Seq<char>)
    ensures
        !comes_before(a, a),
    decreases a.len(),
{
    if a.len() > 0 {
        lemma_not_before_itself(a.skip(1));
    }
}

proof fn lemma_before_is_transitive(a: Seq<char>, b: Seq<char>, c: Seq<char>)
    requires
        comes_before(a, b),
        comes_before(b, c),
    ensures
        comes_before(a, c),
    decreases a.len(),
{
    if a.len() > 0 && a[0] == b[0] && b[0] == c[0] {
        lemma_before_is_transitive(a.skip(1), b.skip(1), c.skip(1));
    }
}

proof fn lemma_before_is_total(a: Seq<char>, b: Seq<char>)
    requires
        a != b,
    ensures
        comes_before(a, b) || comes_before(b, a),
    decreases a.len(),
{
    if a.len() > 0 && b.len() > 0 && a[0] == b[0] {
        assert(a == seq![a[0]] + a.skip(1));
        assert(b == seq![b[0]] + b.skip(1));
        lemma_before_is_total(a.skip(1), b.skip(1));
    } else if a.len() == 0 && b.len() == 0 {
        assert(a == b);
    }
}

/// Paths are ordered name by name: at the first difference a slash or an end comes first, and
/// otherwise the lesser character does.
pub proof fn law_paths_are_ordered_by_names(front: Seq<char>, a: Seq<char>, b: Seq<char>)
    requires
        a.len() > 0 && b.len() > 0 ==> a[0] != b[0],
    ensures
        comes_before(front + a, front + b) == (b.len() > 0 && (a.len() == 0 || a[0] == '/' || b[0]
            != '/' && a[0] < b[0])),
    decreases front.len(),
{
    if front.len() > 0 {
        assert((front + a)[0] == front[0]);
        assert((front + b)[0] == front[0]);
        assert((front + a).skip(1) == front.skip(1) + a);
        assert((front + b).skip(1) == front.skip(1) + b);
        law_paths_are_ordered_by_names(front.skip(1), a, b);
    } else {
        assert(front + a == a);
        assert(front + b == b);
    }
}

// ---------------------------------------------------------------------------
// Committing
// ---------------------------------------------------------------------------
/// The answers from the place on are those names.
pub open spec fn are_names(docs: Seq<Document>, at: int, names: Seq<Seq<char>>) -> bool {
    0 <= at && at + names.len() <= docs.len() && forall|i: int|
        0 <= i < names.len() ==> is_name(docs[at + i], #[trigger] names[i])
}

/// The answer is that name.
pub open spec fn is_name(doc: Document, name: Seq<char>) -> bool {
    doc matches Document::Name(text) && text@ == name
}

/// All updates are of files below the root, with those paths.
pub open spec fn have_paths(
    root: Seq<char>,
    updates: Seq<FileUpdateView>,
    paths: Seq<Seq<char>>,
) -> bool {
    paths.len() == updates.len() && forall|i: int|
        0 <= i < updates.len() ==> repository_path(root, (#[trigger] updates[i]).file) == Ok::<
            Seq<char>,
            Seq<char>,
        >(paths[i])
}

/// Every updated file becomes a blob, then they all become a tree on the base tree, and the
/// tree becomes a commit on its parent.
pub proof fn law_every_file_is_committed(
    owner: Seq<char>,
    repo: Seq<char>,
    root: Seq<char>,
    updates: Seq<FileUpdateView>,
    paths: Seq<Seq<char>>,
    base_tree: Seq<char>,
    parent: Seq<char>,
    message: Seq<char>,
    docs: Seq<Document>,
    at: int,
    names: Seq<Seq<char>>,
)
    requires
        have_paths(root, updates, paths),
        are_names(docs, at, names),
        names.len() <= updates.len() + 2,
    ensures
        ({
            let result = committed(
                owner,
                repo,
                root,
                updates,
                base_tree,
                parent,
                message,
                docs,
                at,
            );
            let n = updates.len();
            let asked = at + names.len() == docs.len();
            &&& names.len() < n && asked ==> (result matches ProgressView::Ask(request) && writes(
                request,
                Method::Post,
                owner,
                repo,
                "/git/blobs"@,
            ) && tells(request, "content"@, updates[names.len() as int].updated_content))
            &&& names.len() == n && asked ==> (result matches ProgressView::Ask(request)
                && request == create_tree_request(
                owner,
                repo,
                base_tree,
                Seq::new(n, |i: int| TreeEntryView { path: paths[i], sha: names[i] }),
            ))
            &&& names.len() == n + 1 && asked ==> (result matches ProgressView::Ask(request)
                && request == create_commit_request(
                owner,
                repo,
                message,
                names[n as int],
                parent,
            ))
            &&& names.len() == n + 2 ==> result == ProgressView::Done(
                names[n as int + 1],
                at + n + 2,
            )
        }),
{
    let n = updates.len() as int;
    lemma_blobs(owner, repo, root, updates, paths, docs, at, names, 0);
    let none = Seq::new(0, |i: int| TreeEntryView { path: paths[i], sha: names[i] });
    assert(none == Seq::<TreeEntryView>::empty());
    if names.len() < n && at + names.len() == docs.len() {
        let request = create_blob_request(
            owner,
            repo,
            updates[names.len() as int].updated_content,
        );
        assert(request.body[0].name == "content"@);
    }
    if names.len() >= n + 1 {
        assert(is_name(docs[at + n], names[n]));
    }
    if names.len() == n + 2 {
        assert(is_name(docs[at + n + 1], names[n + 1]));
    }
}

proof fn lemma_blobs(
    owner: Seq<char>,
    repo: Seq<char>,
    root: Seq<char>,
    updates: Seq<FileUpdateView>,
    paths: Seq<Seq<char>>,
    docs: Seq<Document>,
    at: int,
    names: Seq<Seq<char>>,
    i: int,
)
    requires
        have_paths(root, updates, paths),
        are_names(docs, at, names),
        0 <= i <= updates.len(),
        i <= names.len(),
    ensures
        ({
            let so_far = Seq::new(
                i as nat,
                |k: int| TreeEntryView { path: paths[k], sha: names[k] },
            );
            let result = blobs_from(owner, repo, root, updates, i, so_far, docs, at + i);
            &&& names.len() < updates.len() && at + names.len() == docs.len() ==> result
                == ProgressView::<Seq<TreeEntryView>>::Ask(
                create_blob_request(owner, repo, updates[names.len() as int].updated_content),
            )
            &&& names.len() >= updates.len() ==> result == ProgressView::Done(
                Seq::new(
                    updates.len(),
                    |k: int| TreeEntryView { path: paths[k], sha: names[k] },
                ),
                at + updates.len(),
            )
        }),
    decreases updates.len() - i,
{
    let so_far = Seq::new(i as nat, |k: int| TreeEntryView { path: paths[k], sha: names[k] });
    if i < updates.len() {
        assert(repository_path(root, updates[i].file) == Ok::<Seq<char>, Seq<char>>(paths[i]));
        if i < names.len() {
            assert(is_name(docs[at + i], names[i]));
            let next = Seq::new(
                (i + 1) as nat,
                |k: int| TreeEntryView { path: paths[k], sha: names[k] },
            );
            assert(so_far.push(TreeEntryView { path: paths[i], sha: names[i] }) == next);
            lemma_blobs(owner, repo, root, updates, paths, docs, at, names, i + 1);
        }
    }
}

// ---------------------------------------------------------------------------
// Proposing
// ---------------------------------------------------------------------------
/// The base is the given branch, or the default branch of the repository; its head and the
/// tree of its head are read.
pub proof fn law_base_is_read(
    owner: Seq<char>,
    repo: Seq<char>,
    branch: Seq<char>,
    docs: Seq<Document>,
    at: int,
    names: Seq<Seq<char>>,
)
    requires
        are_names(docs, at, names),
        !is_gap(branch),
    ensures
        at == docs.len() ==> base_of(owner, repo, Some(branch), docs, at) == ProgressView::<
            BaseView,
        >::Ask(branch_request(owner, repo, branch)),
        names.len() == 2 ==> base_of(owner, repo, Some(branch), docs, at) == ProgressView::Done(
            BaseView { branch, commit: names[0], tree: names[1] },
            at + 2,
        ),
        names.len() == 1 && at + 1 == docs.len() ==> base_of(
            owner,
            repo,
            Some(branch),
            docs,
            at,
        ) == ProgressView::<BaseView>::Ask(commit_tree_request(owner, repo, names[0])),
        at == docs.len() ==> base_of(owner, repo, None, docs, at) == ProgressView::<BaseView>::Ask(
            repository_request(owner, repo),
        ),
        names.len() == 3 ==> base_of(owner, repo, None, docs, at) == ProgressView::Done(
            BaseView { branch: names[0], commit: names[1], tree: names[2] },
            at + 3,
        ),
        names.len() == 1 && at + 1 == docs.len() ==> base_of(owner, repo, None, docs, at)
            == ProgressView::<BaseView>::Ask(branch_request(owner, repo, names[0])),
        forall|blank: Seq<char>|
            #[trigger] is_gap(blank) ==> base_of(owner, repo, Some(blank), docs, at) == base_of(
                owner,
                repo,
                None,
                docs,
                at,
            ),
{
    assert(!is_blank(branch));
    if names.len() > 0 {
        assert(is_name(docs[at + 0], names[0]));
    }
    if names.len() > 1 {
        assert(is_name(docs[at + 1], names[1]));
    }
    if names.len() > 2 {
        assert(is_name(docs[at + 2], names[2]));
    }
    assert forall|blank: Seq<char>| #[trigger] is_gap(blank) implies is_blank(blank) by {}
}

/// The branch is moved to the commit without force, then the pull request is opened from it to
/// the base, and labels are put on it where there are some.
pub proof fn law_pull_request_is_opened(
    options: PullRequestOptions,
    branch: Seq<char>,
    base: Seq<char>,
    commit: Seq<char>,
    body: Seq<char>,
    docs: Seq<Document>,
    at: int,
    info: PullRequestInfo,
)
    requires
        0 <= at <= docs.len(),
    ensures
        ({
            let owner = options.owner@;
            let repo = options.repo@;
            let result = pull_request_opened(options, branch, base, commit, body, docs, at);
            let done = ProgressView::Done(
                Some(
                    PublishedView { branch_name: branch, number: info.number, url: info.url@ },
                ),
                if options.labels@.len() == 0 {
                    at + 2
                } else {
                    at + 3
                },
            );
            &&& at == docs.len() ==> result == ProgressView::<Option<PublishedView>>::Ask(
                update_ref_request(owner, repo, "heads/"@ + branch, commit, false),
            )
            &&& at + 1 == docs.len() && docs[at] is Nothing ==> result == ProgressView::<
                Option<PublishedView>,
            >::Ask(create_pull_request_request(owner, repo, options.title@, body, branch, base))
            &&& at + 2 <= docs.len() && docs[at] is Nothing && docs[at + 1]
                == Document::PullRequest(info) && options.labels@.len() == 0 ==> result == done
            &&& at + 2 == docs.len() && docs[at] is Nothing && docs[at + 1]
                == Document::PullRequest(info) && options.labels@.len() > 0 ==> result
                == ProgressView::<Option<PublishedView>>::Ask(
                add_labels_request(owner, repo, info.number, views(options.labels@)),
            )
            &&& at + 3 <= docs.len() && docs[at] is Nothing && docs[at + 1]
                == Document::PullRequest(info) && docs[at + 2] is Nothing && options.labels@.len()
                > 0 ==> result == done
        }),
{
}

/// Publishing reads the base, makes the branch at its head, commits the gathered updates on
/// it and opens the pull request with the list of changes.
pub proof fn law_updates_are_published(
    updates: Seq<FileUpdateView>,
    changes: Seq<UpdateChangeView>,
    options: PullRequestOptions,
    timestamp: u64,
    docs: Seq<Document>,
    base: BaseView,
    a: int,
    b: int,
    commit: Seq<char>,
    c: int,
)
    requires
        updates.len() > 0,
        scopes_checked(true, docs, 0) == ProgressView::Done((), a),
        base_of(options.owner@, options.repo@, option_view(options.base_branch), docs, a)
            == ProgressView::Done(base, b),
        0 <= b,
    ensures
        ({
            let owner = options.owner@;
            let repo = options.repo@;
            let branch = branch_for(option_view(options.branch_name), timestamp);
            let result = published(true, updates, changes, options, timestamp, docs);
            &&& b >= docs.len() ==> result == ProgressView::<Option<PublishedView>>::Ask(
                create_ref_request(owner, repo, "heads/"@ + branch, base.commit),
            )
            &&& b < docs.len() && docs[b] is Nothing && committed(
                owner,
                repo,
                options.repo_root@,
                grouped(updates),
                base.tree,
                base.commit,
                options.commit_message@,
                docs,
                b + 1,
            ) == ProgressView::Done(commit, c) ==> result == pull_request_opened(
                options,
                branch,
                base.branch,
                commit,
                pr_body(changes),
                docs,
                c,
            )
        }),
{
}

/// The branch has the given name, or one with the time in it.
pub proof fn law_branch_has_its_name(name: Seq<char>, timestamp: u64)
    ensures
        !is_gap(name) ==> branch_for(Some(name), timestamp) == name,
        is_gap(name) ==> branch_for(Some(name), timestamp) == "dependency-updates-"@ + decimal(
            timestamp as nat,
        ),
        branch_for(None, timestamp) == "dependency-updates-"@ + decimal(timestamp as nat),
{
    assert(is_gap(name) == is_blank(name));
}

/// The body of the pull request holds a line for every change: its kind, its subject, its file
/// and both versions.
pub proof fn law_body_tells_every_change(changes: Seq<UpdateChangeView>, i: int)
    requires
        0 <= i < changes.len(),
    ensures
        holds(
            pr_body(changes),
            "* "@ + (if changes[i].kind == UpdateChangeKind::GitHubAction {
                "GitHub Action"@
            } else {
                "cargo package"@
            }) + " `"@ + changes[i].subject + "` in `"@ + changes[i].file + "`: "@
                + changes[i].from_version + " -> "@ + changes[i].to_version + "\n"@,
        ),
{
    let line = change_line(changes[i]);
    lemma_line_is_there(changes, i);
    let all = change_lines(changes);
    let n = choose|n: int|
        0 <= n && n + line.len() <= all.len() && #[trigger] all.subrange(n, n + line.len()) == line;
    let head = "This PR updates repository dependencies:\n\n"@;
    let body = pr_body(changes);
    assert(body.subrange(head.len() + n, head.len() + n + line.len()) == line);
}

proof fn lemma_line_is_there(changes: Seq<UpdateChangeView>, i: int)
    requires
        0 <= i < changes.len(),
    ensures
        holds(change_lines(changes), change_line(changes[i])),
    decreases changes.len(),
{
    let front = changes.drop_last();
    let line = change_line(changes[i]);
    let before = change_lines(front);
    let now = change_lines(changes);
    if i == changes.len() - 1 {
        assert(now.subrange(before.len() as int, before.len() as int + line.len()) == line);
    } else {
        assert(front[i] == changes[i]);
        lemma_line_is_there(front, i);
        let n = choose|n: int|
            0 <= n && n + line.len() <= before.len() && #[trigger] before.subrange(
                n,
                n + line.len(),
            ) == line;
        assert(now.subrange(n, n + line.len()) == line);
    }
}

} // verus!
