//! What is asked of GitHub, and what is made of the answers.

use vstd::prelude::*;

use crate::api::{
    CommitEntry, Document, Expected, FieldView, Handling, Method, ProgressView, PullRequestInfo,
    PullRequestView, RequestView, TagInfo, TagView, TreeFileView,
};
use crate::calls::{
    all_tags, commit_infos, compared, compared_from, grants, greatest, is_greatest, latest, listed,
    listed_from, open_pull_request, scopes_checked, tag_version, tags_from,
};
use crate::github::{CommitView, LatestView, RangeView, TreeEntryView};
use crate::requests::{
    add_labels_request, branch_request, commit_tree_request, commits_page_request,
    compare_page_request, create_blob_request, create_commit_request, create_pull_request_request,
    create_ref_request, create_release_request, create_tag_request, create_tree_request,
    fast_forward_request, find_pull_request_request, first_tag_request, latest_release_request,
    percent_encoded, reference_request, repository_request, resolve_request, tags_page_request,
    update_pull_request_request, update_ref_request, url_encoded, user_request,
};
use crate::scan_laws::is_gap;
use crate::text::{decimal, is_space, split, trim, views};
use crate::text_laws::{law_pieces_are_joined, law_pieces_of_both_sides, law_white_space_is_trimmed};
use crate::version::{law_version_is_read_back, semver_exceeds, VersionView};

verus! {

// ---------------------------------------------------------------------------
// The latest version of an action
// ---------------------------------------------------------------------------
/// The latest release counts, at the commit that its tag names.
pub proof fn law_latest_release_counts(
    owner: Seq<char>,
    repository: Seq<char>,
    docs: Seq<Document>,
    at: int,
    version: String,
    sha: String,
)
    requires
        0 <= at,
        at + 1 < docs.len(),
        docs[at] == Document::Name(version),
        docs[at + 1] == Document::Name(sha),
    ensures
        latest(owner, repository, docs, at) == ProgressView::Done(
            LatestView { version: version@, sha: sha@ },
            at + 2,
        ),
{
}

/// Without a release the last tag of the answer counts: at its own commit, or else at the
/// commit that its name is resolved to. Without a tag there is no latest version.
pub proof fn law_tag_counts_without_a_release(
    owner: Seq<char>,
    repository: Seq<char>,
    docs: Seq<Document>,
    at: int,
    tags: Vec<TagInfo>,
)
    requires
        0 <= at,
        at + 1 < docs.len(),
        docs[at] == Document::Missing,
        docs[at + 1] == Document::Tags(tags),
    ensures
        tags@.len() == 0 ==> latest(owner, repository, docs, at) == ProgressView::<
            LatestView,
        >::Failed("GitHub did not return any tags for "@ + owner + "/"@ + repository),
        tags@.len() > 0 && tags@.last().sha is Some ==> latest(owner, repository, docs, at)
            == ProgressView::Done(
            LatestView { version: tags@.last().name@, sha: tags@.last().sha->0@ },
            at + 2,
        ),
        tags@.len() > 0 && tags@.last().sha is None && at + 2 < docs.len() && docs[at
            + 2] is Name ==> latest(owner, repository, docs, at) == ProgressView::Done(
            LatestView { version: tags@.last().name@, sha: docs[at + 2]->Name_0@ },
            at + 3,
        ),
{
    if tags@.len() > 0 {
        assert(views(tags@).last() == tags@.last()@);
    }
}

/// The latest release is asked for first; then the commit of its tag, or the tags where there
/// is no release.
pub proof fn law_latest_version_is_asked_for(
    owner: Seq<char>,
    repository: Seq<char>,
    docs: Seq<Document>,
    at: int,
)
    requires
        0 <= at <= docs.len(),
    ensures
        at == docs.len() ==> (latest(owner, repository, docs, at) matches ProgressView::Ask(request)
            && request.method == Method::Get && request.handling == Handling::ReadOrMissing
            && request.path == "/repos/"@ + owner + "/"@ + repository + "/releases/latest"@),
        at + 1 == docs.len() && docs[at] is Missing ==> (latest(
            owner,
            repository,
            docs,
            at,
        ) matches ProgressView::Ask(request) && request.method == Method::Get && request.path
            == "/repos/"@ + owner + "/"@ + repository + "/tags?per_page=1"@),
        at + 1 == docs.len() && docs[at] is Name ==> (latest(
            owner,
            repository,
            docs,
            at,
        ) matches ProgressView::Ask(request) && request.method == Method::Get && request.path
            == "/repos/"@ + owner + "/"@ + repository + ("/commits/"@ + url_encoded(
            docs[at]->Name_0@,
        ))),
{
}

// ---------------------------------------------------------------------------
// Tokens
// ---------------------------------------------------------------------------
/// The scope stands in the list, between commas and blanks.
pub open spec fn is_listed(
    scopes: Seq<char>,
    front: Seq<char>,
    a: Seq<char>,
    scope: Seq<char>,
    b: Seq<char>,
    back: Seq<char>,
) -> bool {
    &&& scopes == front + (a + scope + b) + back
    &&& is_gap(a) && is_gap(b)
    &&& front.len() > 0 ==> front.last() == ','
    &&& back.len() > 0 ==> back[0] == ','
}

/// A scope that stands in the list is granted.
pub proof fn law_listed_scope_is_granted(
    scopes: Seq<char>,
    front: Seq<char>,
    a: Seq<char>,
    scope: Seq<char>,
    b: Seq<char>,
    back: Seq<char>,
)
    requires
        is_listed(scopes, front, a, scope, b, back),
        !scope.contains(','),
        scope.len() > 0,
        !is_space(scope[0]),
        !is_space(scope.last()),
    ensures
        grants(scopes, scope),
{
    let piece = a + scope + b;
    assert(!piece.contains(',')) by {
        if piece.contains(',') {
            let i = choose|i: int| 0 <= i < piece.len() && piece[i] == ',';
            if i < a.len() {
                assert(is_space(a[i]));
            } else if i < a.len() + scope.len() {
                assert(scope.contains(scope[i - a.len()]));
            } else {
                assert(is_space(b[i - a.len() - scope.len()]));
            }
        }
    }
    law_white_space_is_trimmed(a, scope, b);
    lemma_one_piece(piece);
    if front.len() > 0 && back.len() > 0 {
        let before = front.drop_last();
        let after = back.skip(1);
        assert(front == before + seq![',']);
        assert(back == seq![','] + after);
        assert(scopes == before + seq![','] + (piece + seq![','] + after));
        law_pieces_of_both_sides(before, piece + seq![','] + after, ',');
        law_pieces_of_both_sides(piece, after, ',');
        law_pieces_are_joined(before, ',');
        assert(split(scopes, ',')[split(before, ',').len() as int] == piece);
    } else if front.len() > 0 {
        let before = front.drop_last();
        assert(front == before + seq![',']);
        assert(scopes == before + seq![','] + piece);
        law_pieces_of_both_sides(before, piece, ',');
        assert(split(scopes, ',')[split(before, ',').len() as int] == piece);
    } else if back.len() > 0 {
        let after = back.skip(1);
        assert(back == seq![','] + after);
        assert(scopes == piece + seq![','] + after);
        law_pieces_of_both_sides(piece, after, ',');
        assert(split(scopes, ',')[0] == piece);
    } else {
        assert(scopes == piece);
        assert(split(scopes, ',')[0] == piece);
    }
}

proof fn lemma_one_piece(piece: Seq<char>)
    requires
        !piece.contains(','),
    ensures
        split(piece, ',') == seq![piece],
{
    assert forall|i: int| 0 <= i < piece.len() implies #[trigger] piece[i] != ',' by {
        assert(piece.contains(piece[i]));
    }
    crate::text::lemma_find_is(piece, ',', 0, piece.len() as int);
}

/// A granted scope occurs in the list.
pub proof fn law_granted_scope_occurs(scopes: Seq<char>, scope: Seq<char>)
    requires
        grants(scopes, scope),
    ensures
        crate::scan_laws::holds(scopes, scope),
{
    let all = split(scopes, ',');
    let i = choose|i: int| 0 <= i < all.len() && trim(#[trigger] all[i]) == scope;
    lemma_piece_occurs(scopes, i);
    crate::policy_laws::lemma_trim_is_part(all[i]);
    let n = choose|n: int|
        0 <= n && n + all[i].len() <= scopes.len() && #[trigger] scopes.subrange(
            n,
            n + all[i].len(),
        ) == all[i];
    let m = choose|m: int|
        0 <= m && m + scope.len() <= all[i].len() && #[trigger] all[i].subrange(m, m + scope.len())
            == scope;
    assert(scopes.subrange(n + m, n + m + scope.len()) == scope);
}

proof fn lemma_piece_occurs(s: Seq<char>, i: int)
    requires
        0 <= i < split(s, ',').len(),
    ensures
        crate::scan_laws::holds(s, split(s, ',')[i]),
    decreases s.len(),
{
    crate::text::lemma_find_from(s, ',', 0);
    let at = crate::text::find(s, ',');
    let piece = split(s, ',')[i];
    if at < s.len() {
        let rest = s.skip(at + 1);
        if i > 0 {
            assert(piece == split(rest, ',')[i - 1]);
            lemma_piece_occurs(rest, i - 1);
            let n = choose|n: int|
                0 <= n && n + piece.len() <= rest.len() && #[trigger] rest.subrange(
                    n,
                    n + piece.len(),
                ) == piece;
            assert(s.subrange(at + 1 + n, at + 1 + n + piece.len()) == piece);
        } else {
            assert(s.subrange(0, 0int + piece.len()) == piece);
        }
    } else {
        assert(s.subrange(0, 0int + piece.len()) == piece);
    }
}

/// A token is good for pull requests when it may write to repositories and to workflows, or
/// when its scopes are not told. Without one nothing is asked.
pub proof fn law_token_needs_its_scopes(docs: Seq<Document>, at: int)
    requires
        0 <= at <= docs.len(),
    ensures
        scopes_checked(false, docs, at) is Failed,
        at == docs.len() ==> (scopes_checked(true, docs, at) matches ProgressView::Ask(request)
            && request.path == "/user"@ && request.method == Method::Get && request.handling
            == Handling::Send),
        forall|login: Option<String>, scopes: Option<String>|
            at < docs.len() && docs[at] == (#[trigger] user(login, scopes)) ==> {
                &&& (scopes_checked(true, docs, at) is Done) == (login is Some && (scopes matches Some(
                    list,
                ) ==> (grants(list@, "repo"@) || grants(list@, "public_repo"@)) && grants(
                    list@,
                    "workflow"@,
                )))
                &&& scopes_checked(true, docs, at) is Done || scopes_checked(true, docs, at) is Failed
            },
{
}

/// The answer that tells the user and the scopes.
pub open spec fn user(login: Option<String>, scopes: Option<String>) -> Document {
    Document::User { login, scopes }
}

// ---------------------------------------------------------------------------
// Pages
// ---------------------------------------------------------------------------
/// The first pages one behind the other.
pub open spec fn flat<T>(pages: Seq<Seq<T>>, n: int) -> Seq<T>
    decreases n,
{
    if n <= 0 {
        Seq::empty()
    } else {
        flat(pages, n - 1) + pages[n - 1]
    }
}

/// The answers are those pages of tags.
pub open spec fn are_tag_pages(docs: Seq<Document>, at: int, pages: Seq<Seq<TagView>>) -> bool {
    forall|i: int|
        0 <= i < pages.len() ==> is_tag_page(docs[at + i], #[trigger] pages[i])
}

/// The answer is that page of tags.
pub open spec fn is_tag_page(doc: Document, page: Seq<TagView>) -> bool {
    doc matches Document::Tags(tags) && views(tags@) == page
}

/// Tags are read page by page: a full page is followed by the next one, up to the limit, and
/// the tags of all pages come in their order.
pub proof fn law_all_tag_pages_are_read(
    owner: Seq<char>,
    repository: Seq<char>,
    max_pages: nat,
    docs: Seq<Document>,
    at: int,
    pages: Seq<Seq<TagView>>,
)
    requires
        0 <= at,
        at + pages.len() <= docs.len(),
        pages.len() <= max_pages,
        are_tag_pages(docs, at, pages),
        forall|i: int| 0 <= i < pages.len() - 1 ==> (#[trigger] pages[i]).len() >= 100,
    ensures
        pages.len() > 0 && (pages.last().len() < 100 || pages.len() == max_pages) ==> all_tags(
            owner,
            repository,
            max_pages,
            docs,
            at,
        ) == ProgressView::Done(flat(pages, pages.len() as int), at + pages.len()),
        (pages.len() > 0 ==> pages.last().len() >= 100) && pages.len() < max_pages && at
            + pages.len() == docs.len() ==> (all_tags(
            owner,
            repository,
            max_pages,
            docs,
            at,
        ) matches ProgressView::Ask(request) && request.method == Method::Get && request.path
            == "/repos/"@ + owner + "/"@ + repository + ("/tags?per_page=100&page="@ + decimal(
            pages.len() + 1,
        ))),
{
    lemma_tags_from(owner, repository, 0, max_pages, docs, at, pages);
}

proof fn lemma_tags_from(
    owner: Seq<char>,
    repository: Seq<char>,
    i: int,
    max_pages: nat,
    docs: Seq<Document>,
    at: int,
    pages: Seq<Seq<TagView>>,
)
    requires
        0 <= at,
        0 <= i <= pages.len(),
        at + pages.len() <= docs.len(),
        pages.len() <= max_pages,
        are_tag_pages(docs, at, pages),
        forall|i: int| 0 <= i < pages.len() - 1 ==> (#[trigger] pages[i]).len() >= 100,
        i == pages.len() && i > 0 ==> pages.last().len() >= 100,
    ensures
        ({
            let result = tags_from(
                owner,
                repository,
                i as nat,
                max_pages,
                docs,
                at + i,
                flat(pages, i),
            );
            &&& pages.len() > 0 && (pages.last().len() < 100 || pages.len() == max_pages)
                ==> result == ProgressView::Done(
                flat(pages, pages.len() as int),
                at + pages.len(),
            )
            &&& (pages.len() > 0 ==> pages.last().len() >= 100) && pages.len() < max_pages && at
                + pages.len() == docs.len() ==> result == ProgressView::<Seq<TagView>>::Ask(
                tags_page_request(owner, repository, pages.len() + 1),
            )
        }),
    decreases pages.len() - i,
{
    if i < pages.len() {
        assert(is_tag_page(docs[at + i], pages[i]));
        assert(flat(pages, i + 1) == flat(pages, i) + pages[i]);
        if pages[i].len() >= 100 {
            lemma_tags_from(owner, repository, i + 1, max_pages, docs, at, pages);
        } else {
            assert(i == pages.len() - 1);
        }
    }
}

/// The answers are those pages of a comparison, each with the same total.
pub open spec fn are_comparison_pages(
    docs: Seq<Document>,
    at: int,
    total: u64,
    pages: Seq<Seq<CommitView>>,
) -> bool {
    forall|i: int|
        0 <= i < pages.len() ==> is_comparison_page(docs[at + i], total, #[trigger] pages[i])
}

/// The answer is that page of a comparison.
pub open spec fn is_comparison_page(doc: Document, total: u64, page: Seq<CommitView>) -> bool {
    doc matches Document::Comparison { total_commits, commits } && total_commits == total
        && commit_infos(commits@) == page && page.len() > 0
}

/// Commits are compared page by page until their total is reached; where the limit is reached
/// before, the range is truncated.
pub proof fn law_all_compared_pages_are_read(
    owner: Seq<char>,
    repository: Seq<char>,
    base: Seq<char>,
    head: Seq<char>,
    max_pages: nat,
    docs: Seq<Document>,
    at: int,
    total: u64,
    pages: Seq<Seq<CommitView>>,
)
    requires
        0 <= at,
        at + pages.len() <= docs.len(),
        0 < pages.len() <= max_pages,
        are_comparison_pages(docs, at, total, pages),
        forall|i: int| 0 <= i < pages.len() ==> #[trigger] flat(pages, i).len() < total,
    ensures
        flat(pages, pages.len() as int).len() >= total ==> compared(
            owner,
            repository,
            base,
            head,
            max_pages,
            docs,
            at,
        ) == ProgressView::Done(
            RangeView { commits: flat(pages, pages.len() as int), truncated: false },
            at + pages.len(),
        ),
        flat(pages, pages.len() as int).len() < total && pages.len() == max_pages ==> compared(
            owner,
            repository,
            base,
            head,
            max_pages,
            docs,
            at,
        ) == ProgressView::Done(
            RangeView { commits: flat(pages, pages.len() as int), truncated: true },
            at + pages.len(),
        ),
        flat(pages, pages.len() as int).len() < total && pages.len() < max_pages && at
            + pages.len() == docs.len() ==> (compared(
            owner,
            repository,
            base,
            head,
            max_pages,
            docs,
            at,
        ) matches ProgressView::Ask(request) && request.method == Method::Get && request.path
            == "/repos/"@ + owner + "/"@ + repository + ("/compare/"@ + url_encoded(base) + "..."@
            + url_encoded(head) + "?per_page=100&page="@ + decimal(pages.len() + 1))),
{
    assert(flat(pages, 0) == Seq::<CommitView>::empty());
    lemma_compared_from(owner, repository, base, head, 0, max_pages, docs, at, total, pages);
}

proof fn lemma_compared_from(
    owner: Seq<char>,
    repository: Seq<char>,
    base: Seq<char>,
    head: Seq<char>,
    i: int,
    max_pages: nat,
    docs: Seq<Document>,
    at: int,
    total: u64,
    pages: Seq<Seq<CommitView>>,
)
    requires
        0 <= at,
        0 <= i <= pages.len(),
        at + pages.len() <= docs.len(),
        0 < pages.len() <= max_pages,
        are_comparison_pages(docs, at, total, pages),
        forall|i: int| 0 <= i < pages.len() ==> #[trigger] flat(pages, i).len() < total,
        i == pages.len() ==> flat(pages, i).len() < total,
    ensures
        ({
            let all = flat(pages, pages.len() as int);
            let result = compared_from(
                owner,
                repository,
                base,
                head,
                i as nat,
                max_pages,
                docs,
                at + i,
                flat(pages, i),
                if i == 0 {
                    0
                } else {
                    total as nat
                },
            );
            &&& all.len() >= total ==> result == ProgressView::Done(
                RangeView { commits: all, truncated: false },
                at + pages.len(),
            )
            &&& all.len() < total && pages.len() == max_pages ==> result == ProgressView::Done(
                RangeView { commits: all, truncated: true },
                at + pages.len(),
            )
            &&& all.len() < total && pages.len() < max_pages && at + pages.len() == docs.len()
                ==> result == ProgressView::<RangeView>::Ask(
                compare_page_request(owner, repository, base, head, pages.len() + 1),
            )
        }),
    decreases pages.len() - i,
{
    if i < pages.len() {
        assert(is_comparison_page(docs[at + i], total, pages[i]));
        assert(flat(pages, i + 1) == flat(pages, i) + pages[i]);
        if i + 1 < pages.len() {
            assert(flat(pages, i + 1).len() < total);
            lemma_compared_from(
                owner,
                repository,
                base,
                head,
                i + 1,
                max_pages,
                docs,
                at,
                total,
                pages,
            );
        } else if flat(pages, i + 1).len() < total {
            lemma_compared_from(
                owner,
                repository,
                base,
                head,
                i + 1,
                max_pages,
                docs,
                at,
                total,
                pages,
            );
        }
    }
}

/// The answers are those pages of commits.
pub open spec fn are_commit_pages(
    docs: Seq<Document>,
    at: int,
    pages: Seq<Seq<CommitView>>,
) -> bool {
    forall|i: int|
        0 <= i < pages.len() ==> is_commit_page(docs[at + i], #[trigger] pages[i])
}

/// The answer is that page of commits.
pub open spec fn is_commit_page(doc: Document, page: Seq<CommitView>) -> bool {
    doc matches Document::Commits(commits) && commit_infos(commits@) == page
}

/// Commits are listed page by page: a full page is followed by the next one; where the limit
/// is reached after a full page, the range is truncated.
pub proof fn law_all_commit_pages_are_read(
    owner: Seq<char>,
    repository: Seq<char>,
    head_sha: Seq<char>,
    max_pages: nat,
    docs: Seq<Document>,
    at: int,
    pages: Seq<Seq<CommitView>>,
)
    requires
        0 <= at,
        at + pages.len() <= docs.len(),
        0 < pages.len() <= max_pages,
        are_commit_pages(docs, at, pages),
        forall|i: int| 0 <= i < pages.len() - 1 ==> (#[trigger] pages[i]).len() == 100,
    ensures
        pages.last().len() != 100 ==> listed(owner, repository, head_sha, max_pages, docs, at)
            == ProgressView::Done(
            RangeView { commits: flat(pages, pages.len() as int), truncated: false },
            at + pages.len(),
        ),
        pages.last().len() == 100 && pages.len() == max_pages ==> listed(
            owner,
            repository,
            head_sha,
            max_pages,
            docs,
            at,
        ) == ProgressView::Done(
            RangeView { commits: flat(pages, pages.len() as int), truncated: true },
            at + pages.len(),
        ),
        pages.last().len() == 100 && pages.len() < max_pages && at + pages.len() == docs.len()
            ==> (listed(owner, repository, head_sha, max_pages, docs, at) matches ProgressView::Ask(
            request,
        ) && request.method == Method::Get && request.path == "/repos/"@ + owner + "/"@ + repository
            + ("/commits?sha="@ + url_encoded(head_sha) + "&per_page=100&page="@ + decimal(
            pages.len() + 1,
        ))),
{
    lemma_listed_from(owner, repository, head_sha, 0, max_pages, docs, at, pages);
}

proof fn lemma_listed_from(
    owner: Seq<char>,
    repository: Seq<char>,
    head_sha: Seq<char>,
    i: int,
    max_pages: nat,
    docs: Seq<Document>,
    at: int,
    pages: Seq<Seq<CommitView>>,
)
    requires
        0 <= at,
        0 <= i <= pages.len(),
        at + pages.len() <= docs.len(),
        0 < pages.len() <= max_pages,
        are_commit_pages(docs, at, pages),
        forall|i: int| 0 <= i < pages.len() - 1 ==> (#[trigger] pages[i]).len() == 100,
        i == pages.len() ==> pages.last().len() == 100,
    ensures
        ({
            let all = flat(pages, pages.len() as int);
            let result = listed_from(
                owner,
                repository,
                head_sha,
                i as nat,
                max_pages,
                docs,
                at + i,
                flat(pages, i),
                i > 0,
            );
            &&& pages.last().len() != 100 ==> result == ProgressView::Done(
                RangeView { commits: all, truncated: false },
                at + pages.len(),
            )
            &&& pages.last().len() == 100 && pages.len() == max_pages ==> result
                == ProgressView::Done(
                RangeView { commits: all, truncated: true },
                at + pages.len(),
            )
            &&& pages.last().len() == 100 && pages.len() < max_pages && at + pages.len()
                == docs.len() ==> result == ProgressView::<RangeView>::Ask(
                commits_page_request(owner, repository, head_sha, pages.len() + 1),
            )
        }),
    decreases pages.len() - i,
{
    if i < pages.len() {
        assert(is_commit_page(docs[at + i], pages[i]));
        assert(flat(pages, i + 1) == flat(pages, i) + pages[i]);
        assert(docs[at + i]->Commits_0@.len() == pages[i].len());
        if pages[i].len() == 100 {
            lemma_listed_from(owner, repository, head_sha, i + 1, max_pages, docs, at, pages);
        } else {
            assert(i == pages.len() - 1);
        }
    }
}

/// A commit with more than one parent is a merge; its message and its SHA are told.
pub proof fn law_commits_are_told(entries: Seq<CommitEntry>, i: int)
    requires
        0 <= i < entries.len(),
    ensures
        commit_infos(entries).len() == entries.len(),
        commit_infos(entries)[i].sha == entries[i].sha@,
        commit_infos(entries)[i].message == entries[i].message@,
        commit_infos(entries)[i].is_merge == (entries[i].parents >= 2),
{
}

/// A tag names a version when the version stands behind the prefix, and only then.
pub proof fn law_tag_names_its_version(
    prefix: Seq<char>,
    version: VersionView,
    tag: TagView,
)
    requires
        version.is_valid(),
    ensures
        tag.name == prefix + version.text() ==> tag_version(prefix, tag) == Some(version),
        tag_version(prefix, tag) is Some ==> tag.name == prefix + tag.name.skip(
            prefix.len() as int,
        ),
{
    if tag.name == prefix + version.text() {
        assert(tag.name.subrange(0, prefix.len() as int) == prefix);
        assert(tag.name.skip(prefix.len() as int) == version.text());
        law_version_is_read_back(version);
    }
    if tag_version(prefix, tag) is Some {
        assert(tag.name == tag.name.subrange(0, prefix.len() as int) + tag.name.skip(
            prefix.len() as int,
        ));
    }
}

/// The first of the open pull requests counts.
pub proof fn law_first_open_pull_request_counts(
    docs: Seq<Document>,
    at: int,
    request: RequestView,
    found: Vec<PullRequestInfo>,
)
    requires
        0 <= at < docs.len(),
        docs[at] == Document::PullRequests(found),
    ensures
        found@.len() == 0 ==> open_pull_request(docs, at, request) == ProgressView::Done(
            None::<PullRequestView>,
            at + 1,
        ),
        found@.len() > 0 ==> open_pull_request(docs, at, request) == ProgressView::Done(
            Some(found@[0]@),
            at + 1,
        ),
{
}

// ---------------------------------------------------------------------------
// Requests
// ---------------------------------------------------------------------------
/// What is only read is asked for with GET, without a body, below the repository.
pub proof fn law_reading_changes_nothing(
    owner: Seq<char>,
    repository: Seq<char>,
    name: Seq<char>,
    other: Seq<char>,
    page: nat,
)
    ensures
        reads(latest_release_request(owner, repository), owner, repository, "/releases/latest"@),
        reads(first_tag_request(owner, repository), owner, repository, "/tags?per_page=1"@),
        reads(
            resolve_request(owner, repository, name),
            owner,
            repository,
            "/commits/"@ + url_encoded(name),
        ),
        reads(repository_request(owner, repository), owner, repository, ""@),
        reads(
            branch_request(owner, repository, name),
            owner,
            repository,
            "/git/ref/heads/"@ + name,
        ),
        reads(
            commit_tree_request(owner, repository, name),
            owner,
            repository,
            "/git/commits/"@ + name,
        ),
        reads(reference_request(owner, repository, name), owner, repository, "/git/ref/"@ + name),
        reads(
            find_pull_request_request(owner, repository, name, other),
            owner,
            repository,
            "/pulls?state=open&head="@ + url_encoded(owner + ":"@ + name) + "&base="@ + url_encoded(
                other,
            ) + "&per_page=100"@,
        ),
        reads(
            tags_page_request(owner, repository, page),
            owner,
            repository,
            "/tags?per_page=100&page="@ + decimal(page),
        ),
        latest_release_request(owner, repository).expected == Expected::TagName,
        resolve_request(owner, repository, name).expected == Expected::Sha,
        repository_request(owner, repository).expected == Expected::DefaultBranch,
        branch_request(owner, repository, name).expected == Expected::ObjectSha,
        commit_tree_request(owner, repository, name).expected == Expected::TreeSha,
        reference_request(owner, repository, name).expected == Expected::ObjectSha,
        reference_request(owner, repository, name).handling == Handling::ReadOrMissing,
        latest_release_request(owner, repository).handling == Handling::ReadOrMissing,
        user_request().method == Method::Get && user_request().path == "/user"@,
{
}

/// The request reads below the repository.
pub open spec fn reads(
    request: RequestView,
    owner: Seq<char>,
    repository: Seq<char>,
    rest: Seq<char>,
) -> bool {
    &&& request.method == Method::Get
    &&& request.body.len() == 0
    &&& request.path == "/repos/"@ + owner + "/"@ + repository + rest
    &&& !request.changes_something()
}

/// The request changes something below the repository and is sent with the token alone.
pub open spec fn writes(
    request: RequestView,
    method: Method,
    owner: Seq<char>,
    repository: Seq<char>,
    rest: Seq<char>,
) -> bool {
    &&& request.method == method
    &&& request.path == "/repos/"@ + owner + "/"@ + repository + rest
    &&& request.handling == Handling::Send || request.handling == Handling::FastForward
    &&& request.changes_something()
}

/// The request tells a text under the name.
pub open spec fn tells(request: RequestView, name: Seq<char>, text: Seq<char>) -> bool {
    exists|i: int|
        0 <= i < request.body.len() && (#[trigger] request.body[i]).name == name
            && request.body[i].value == FieldView::Text(text)
}

/// A reference is made below `refs/`, at the commit, and moved only where it may be: a fast
/// forward is never forced.
pub proof fn law_references_are_made_and_moved(
    owner: Seq<char>,
    repository: Seq<char>,
    path: Seq<char>,
    sha: Seq<char>,
    force: bool,
)
    ensures
        ({
            let make = create_ref_request(owner, repository, path, sha);
            let shift = update_ref_request(owner, repository, path, sha, force);
            let forward = fast_forward_request(owner, repository, path, sha);
            &&& writes(make, Method::Post, owner, repository, "/git/refs"@)
            &&& tells(make, "ref"@, "refs/"@ + path)
            &&& tells(make, "sha"@, sha)
            &&& make.body.len() == 2
            &&& writes(shift, Method::Patch, owner, repository, "/git/refs/"@ + path)
            &&& tells(shift, "sha"@, sha)
            &&& shift.body.len() == 2
            &&& shift.body[1].name == "force"@ && shift.body[1].value == FieldView::Flag(force)
            &&& shift.handling == Handling::Send
            &&& writes(forward, Method::Patch, owner, repository, "/git/refs/"@ + path)
            &&& tells(forward, "sha"@, sha)
            &&& forward.body.len() == 2
            &&& forward.body[1].name == "force"@ && forward.body[1].value == FieldView::Flag(false)
            &&& forward.handling == Handling::FastForward
        }),
{
    let make = create_ref_request(owner, repository, path, sha);
    assert(make.body[0].name == "ref"@);
    assert(make.body[1].name == "sha"@);
    let shift = update_ref_request(owner, repository, path, sha, force);
    assert(shift.body[0].name == "sha"@);
    let forward = fast_forward_request(owner, repository, path, sha);
    assert(forward.body[0].name == "sha"@);
}

/// A commit is made of its message, its tree and its one parent; a tag of its name, its
/// message and the commit; a blob of its content.
pub proof fn law_objects_are_made_of_their_parts(
    owner: Seq<char>,
    repository: Seq<char>,
    a: Seq<char>,
    b: Seq<char>,
    c: Seq<char>,
)
    ensures
        ({
            let commit = create_commit_request(owner, repository, a, b, c);
            let tag = create_tag_request(owner, repository, a, b, c);
            let blob = create_blob_request(owner, repository, a);
            &&& writes(commit, Method::Post, owner, repository, "/git/commits"@)
            &&& tells(commit, "message"@, a)
            &&& tells(commit, "tree"@, b)
            &&& commit.body.len() == 3
            &&& commit.body[2].name == "parents"@ && commit.body[2].value == FieldView::Texts(
                seq![c],
            )
            &&& commit.expected == Expected::Sha
            &&& writes(tag, Method::Post, owner, repository, "/git/tags"@)
            &&& tells(tag, "tag"@, a)
            &&& tells(tag, "message"@, b)
            &&& tells(tag, "object"@, c)
            &&& tells(tag, "type"@, "commit"@)
            &&& tag.body.len() == 4
            &&& tag.expected == Expected::Sha
            &&& writes(blob, Method::Post, owner, repository, "/git/blobs"@)
            &&& tells(blob, "content"@, a)
            &&& tells(blob, "encoding"@, "utf-8"@)
            &&& blob.body.len() == 2
            &&& blob.expected == Expected::Sha
        }),
{
    let commit = create_commit_request(owner, repository, a, b, c);
    assert(commit.body[0].name == "message"@);
    assert(commit.body[1].name == "tree"@);
    let tag = create_tag_request(owner, repository, a, b, c);
    assert(tag.body[0].name == "tag"@);
    assert(tag.body[1].name == "message"@);
    assert(tag.body[2].name == "object"@);
    assert(tag.body[3].name == "type"@);
    let blob = create_blob_request(owner, repository, a);
    assert(blob.body[0].name == "content"@);
    assert(blob.body[1].name == "encoding"@);
}

/// A tree is made on another: every file with its path and its blob, as an ordinary file.
pub proof fn law_tree_holds_every_file(
    owner: Seq<char>,
    repository: Seq<char>,
    base: Seq<char>,
    entries: Seq<TreeEntryView>,
)
    ensures
        ({
            let tree = create_tree_request(owner, repository, base, entries);
            &&& writes(tree, Method::Post, owner, repository, "/git/trees"@)
            &&& tells(tree, "base_tree"@, base)
            &&& tree.body.len() == 2
            &&& tree.body[1].name == "tree"@
            &&& tree.body[1].value matches FieldView::Files(files) && files.len() == entries.len()
                && forall|i: int|
                0 <= i < entries.len() ==> #[trigger] files[i] == (TreeFileView {
                    path: entries[i].path,
                    mode: "100644"@,
                    object_type: "blob"@,
                    sha: entries[i].sha,
                })
            &&& tree.expected == Expected::Sha
        }),
{
    let tree = create_tree_request(owner, repository, base, entries);
    assert(tree.body[0].name == "base_tree"@);
}

/// A pull request is opened from a branch to a branch, and only its title and its body are
/// changed later; labels are put on it; a release is made of a tag at a commit.
pub proof fn law_pull_requests_and_releases_are_made(
    owner: Seq<char>,
    repository: Seq<char>,
    a: Seq<char>,
    b: Seq<char>,
    c: Seq<char>,
    d: Seq<char>,
    number: u64,
    labels: Seq<Seq<char>>,
)
    ensures
        ({
            let opened = create_pull_request_request(owner, repository, a, b, c, d);
            let changed = update_pull_request_request(owner, repository, number, a, b);
            let labelled = add_labels_request(owner, repository, number, labels);
            let release = create_release_request(owner, repository, a, b, c, d);
            &&& writes(opened, Method::Post, owner, repository, "/pulls"@)
            &&& tells(opened, "title"@, a) && tells(opened, "body"@, b)
            &&& tells(opened, "head"@, c) && tells(opened, "base"@, d)
            &&& opened.body.len() == 4 && opened.expected == Expected::PullRequest
            &&& writes(
                changed,
                Method::Patch,
                owner,
                repository,
                "/pulls/"@ + decimal(number as nat),
            )
            &&& tells(changed, "title"@, a) && tells(changed, "body"@, b)
            &&& changed.body.len() == 2 && changed.expected == Expected::PullRequest
            &&& writes(
                labelled,
                Method::Post,
                owner,
                repository,
                "/issues/"@ + decimal(number as nat) + "/labels"@,
            )
            &&& labelled.body.len() == 1 && labelled.body[0].name == "labels"@
            &&& labelled.body[0].value == FieldView::Texts(labels)
            &&& writes(release, Method::Post, owner, repository, "/releases"@)
            &&& tells(release, "tag_name"@, a) && tells(release, "name"@, b)
            &&& tells(release, "body"@, c) && tells(release, "target_commitish"@, d)
            &&& release.body.len() == 4 && release.expected == Expected::Url
        }),
{
    let opened = create_pull_request_request(owner, repository, a, b, c, d);
    assert(opened.body[0].name == "title"@ && opened.body[1].name == "body"@);
    assert(opened.body[2].name == "head"@ && opened.body[3].name == "base"@);
    let changed = update_pull_request_request(owner, repository, number, a, b);
    assert(changed.body[0].name == "title"@ && changed.body[1].name == "body"@);
    let release = create_release_request(owner, repository, a, b, c, d);
    assert(release.body[0].name == "tag_name"@ && release.body[1].name == "target_commitish"@);
    assert(release.body[2].name == "name"@ && release.body[3].name == "body"@);
}

// ---------------------------------------------------------------------------
// Encoding
// ---------------------------------------------------------------------------
/// The number that a hexadecimal digit stands for.
pub open spec fn hex_value(c: char) -> int {
    if '0' <= c && c <= '9' {
        c as int - '0' as int
    } else {
        c as int - 'A' as int + 10
    }
}

/// Bytes are encoded one by one: letters, digits and `-._~` as they are, every other byte as a
/// percent sign and its two hexadecimal digits.
pub proof fn law_bytes_are_percent_encoded(bytes: Seq<u8>, byte: u8)
    ensures
        percent_encoded(Seq::empty()) == Seq::<char>::empty(),
        ({
            let before = percent_encoded(bytes);
            let after = percent_encoded(bytes.push(byte));
            let kept = 'a' as u8 <= byte && byte <= 'z' as u8 || 'A' as u8 <= byte && byte
                <= 'Z' as u8 || '0' as u8 <= byte && byte <= '9' as u8 || byte == '-' as u8 || byte
                == '.' as u8 || byte == '_' as u8 || byte == '~' as u8;
            &&& after.take(before.len() as int) == before
            &&& kept ==> after.len() == before.len() + 1 && after.last() as int == byte as int
            &&& !kept ==> {
                let n = before.len() as int;
                &&& after.len() == n + 3
                &&& after[n] == '%'
                &&& 16 * hex_value(after[n + 1]) + hex_value(after[n + 2]) == byte as int
                &&& 0 <= hex_value(after[n + 1]) < 16 && 0 <= hex_value(after[n + 2]) < 16
            }
        }),
{
    let before = percent_encoded(bytes);
    let after = percent_encoded(bytes.push(byte));
    assert(bytes.push(byte).drop_last() == bytes);
    assert(after.take(before.len() as int) == before);
}

// ---------------------------------------------------------------------------
// The newest tag
// ---------------------------------------------------------------------------
/// The version of the tag is no older than the other: its numbers are not smaller, and where
/// they are the same, it is no pre-release of the other.
pub open spec fn is_no_older(version: VersionView, other: VersionView) -> bool {
    &&& version.major >= other.major
    &&& version.major == other.major ==> version.minor >= other.minor
    &&& version.major == other.major && version.minor == other.minor ==> version.patch
        >= other.patch
    &&& version.major == other.major && version.minor == other.minor && version.patch
        == other.patch && other.pre.len() == 0 ==> version.pre.len() == 0
}

/// The tag is one of those, it names a version, and no other of them names a newer one.
pub open spec fn is_newest(prefix: Seq<char>, tags: Seq<TagView>, tag: TagView) -> bool {
    &&& tags.contains(tag)
    &&& tag_version(prefix, tag) is Some
    &&& forall|j: int|
        0 <= j < tags.len() && tag_version(prefix, #[trigger] tags[j]) is Some ==> is_no_older(
            tag_version(prefix, tag)->0,
            tag_version(prefix, tags[j])->0,
        )
}

/// A tag is found wherever one of them names a version, and it is the newest of them.
pub proof fn law_newest_tag_is_found(prefix: Seq<char>, tags: Seq<TagView>)
    ensures
        greatest(prefix, tags) is None == (forall|j: int|
            0 <= j < tags.len() ==> tag_version(prefix, #[trigger] tags[j]) is None),
        greatest(prefix, tags) matches Some(found) ==> is_newest(prefix, tags, found),
    decreases tags.len(),
{
    if tags.len() > 0 {
        let front = tags.drop_last();
        law_newest_tag_is_found(prefix, front);
        assert forall|j: int| 0 <= j < front.len() implies tags[j] == #[trigger] front[j] by {}
        assert(tags[tags.len() - 1] == tags.last());
        if greatest(prefix, front) is Some {
            let best = greatest(prefix, front)->0;
            let k = choose|k: int| 0 <= k < front.len() && front[k] == best;
            assert(tags[k] == best);
        }
        if greatest(prefix, front) is None {
            assert forall|j: int|
                0 <= j < tags.len() - 1 implies tag_version(
                prefix,
                #[trigger] tags[j],
            ) is None by {
                assert(front[j] == tags[j]);
            }
        }
        if greatest(prefix, tags) is Some {
            let found = greatest(prefix, tags)->0;
            assert forall|j: int|
                0 <= j < tags.len() && tag_version(
                    prefix,
                    #[trigger] tags[j],
                ) is Some implies is_no_older(
                tag_version(prefix, found)->0,
                tag_version(prefix, tags[j])->0,
            ) by {
                if j < tags.len() - 1 {
                    assert(front[j] == tags[j]);
                }
            }
        }
    }
}

/// What is told of a search of the tags is the newest of them, wherever there is one.
pub proof fn law_greatest_is_newest(
    prefix: Seq<char>,
    tags: Seq<TagView>,
    found: Option<TagView>,
)
    requires
        is_greatest(prefix, tags, found),
    ensures
        found is None == (forall|j: int|
            0 <= j < tags.len() ==> tag_version(prefix, #[trigger] tags[j]) is None),
        found matches Some(tag) ==> is_newest(prefix, tags, tag),
{
}

/// One more tag counts unless it names no version, or one that what was found exceeds.
pub proof fn law_later_tag_counts(prefix: Seq<char>, tags: Seq<TagView>, tag: TagView)
    ensures
        tag_version(prefix, tag) is None ==> greatest(prefix, tags.push(tag)) == greatest(
            prefix,
            tags,
        ),
        tag_version(prefix, tag) is Some && greatest(prefix, tags) is None ==> greatest(
            prefix,
            tags.push(tag),
        ) == Some(tag),
        tag_version(prefix, tag) is Some && greatest(prefix, tags) is Some ==> greatest(
            prefix,
            tags.push(tag),
        ) == if semver_exceeds(
            tag_version(prefix, greatest(prefix, tags)->0)->0,
            tag_version(prefix, tag)->0,
        ) {
            greatest(prefix, tags)
        } else {
            Some(tag)
        },
{
    assert(tags.push(tag).drop_last() == tags);
}

} // verus!
