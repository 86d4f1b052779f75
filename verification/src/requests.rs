//! The requests that are sent to the GitHub API.

use vstd::prelude::*;

use crate::api::{
    ApiRequest, Expected, Field, FieldView, Handling, Member, MemberView, Method, RequestView,
    TreeFile, TreeFileView,
};
use crate::github::{TreeEntry, TreeEntryView};
use crate::text::{
    decimal, decimal_text, join_five, join_four, join_six, join_three, join_two, views,
};

verus! {

/// The kinds of bytes that a URL holds as they are: letters, digits, `-`, `.`, `_`
/// and `~`.
pub open spec fn is_unreserved(byte: u8) -> bool {
    ||| 48 <= byte <= 57
    ||| 65 <= byte <= 90
    ||| 97 <= byte <= 122
    ||| byte == 45
    ||| byte == 46
    ||| byte == 95
    ||| byte == 126
}

/// A hexadecimal digit, with a capital letter from ten on.
pub open spec fn hex_digit(n: int) -> char {
    (if n < 10 {
        48 + n
    } else {
        55 + n
    }) as char
}

/// The bytes with all but the unreserved ones percent-encoded.
pub open spec fn percent_encoded(bytes: Seq<u8>) -> Seq<char>
    decreases bytes.len(),
{
    if bytes.len() == 0 {
        Seq::empty()
    } else {
        let byte = bytes.last();
        let encoded = if is_unreserved(byte) {
            seq![byte as char]
        } else {
            seq!['%', hex_digit(byte as int / 16), hex_digit(byte as int % 16)]
        };
        percent_encoded(bytes.drop_last()) + encoded
    }
}

/// The text as a part of a URL.
pub open spec fn url_encoded(text: Seq<char>) -> Seq<char> {
    percent_encoded(vstd::utf8::encode_utf8(text))
}

/// `urlencoding::encode`: every byte of the text's UTF-8 form is percent-encoded,
/// except for letters, digits, `-`, `.`, `_` and `~`.
#[verifier::external_body]
pub(crate) fn encode_url(text: &str) -> (result: String)
    ensures
        result@ == url_encoded(text@),
{
    urlencoding::encode(text).into_owned()
}

/// `owner/repository`
pub open spec fn slug(owner: Seq<char>, repository: Seq<char>) -> Seq<char> {
    owner + "/"@ + repository
}

/// A path below a repository.
pub open spec fn repo_path(owner: Seq<char>, repository: Seq<char>, rest: Seq<char>) -> Seq<char> {
    "/repos/"@ + owner + "/"@ + repository + rest
}

/// A request that reads.
pub open spec fn read(
    path: Seq<char>,
    handling: Handling,
    expected: Expected,
    context: Seq<char>,
    decoding: Seq<char>,
) -> RequestView {
    RequestView {
        method: Method::Get,
        path,
        body: Seq::empty(),
        handling,
        expected,
        context,
        decoding,
    }
}

/// A member that holds a text.
pub open spec fn text_field(name: Seq<char>, text: Seq<char>) -> MemberView {
    MemberView { name, value: FieldView::Text(text) }
}

/// Asks for the latest release.
pub open spec fn latest_release_request(owner: Seq<char>, repository: Seq<char>) -> RequestView {
    read(
        repo_path(owner, repository, "/releases/latest"@),
        Handling::ReadOrMissing,
        Expected::TagName,
        "fetch latest release for "@ + slug(owner, repository),
        "failed to decode release response for "@ + slug(owner, repository),
    )
}

/// Asks for the first tag.
pub open spec fn first_tag_request(owner: Seq<char>, repository: Seq<char>) -> RequestView {
    read(
        repo_path(owner, repository, "/tags?per_page=1"@),
        Handling::Read,
        Expected::Tags,
        "fetch tags for "@ + slug(owner, repository),
        "failed to decode tags response for "@ + slug(owner, repository),
    )
}

/// Asks for the commit that a reference names.
pub open spec fn resolve_request(
    owner: Seq<char>,
    repository: Seq<char>,
    reference: Seq<char>,
) -> RequestView {
    read(
        repo_path(owner, repository, "/commits/"@ + url_encoded(reference)),
        Handling::Read,
        Expected::Sha,
        "resolve "@ + slug(owner, repository) + "@"@ + reference,
        "failed to decode commit response for "@ + slug(owner, repository) + "@"@ + reference,
    )
}

/// Asks who the token belongs to.
pub open spec fn user_request() -> RequestView {
    read(
        "/user"@,
        Handling::Send,
        Expected::User,
        "validate GitHub token scopes"@,
        "failed to decode GitHub user response"@,
    )
}

/// Asks for the default branch.
pub open spec fn repository_request(owner: Seq<char>, repository: Seq<char>) -> RequestView {
    read(
        repo_path(owner, repository, ""@),
        Handling::Read,
        Expected::DefaultBranch,
        "fetch repository metadata for "@ + slug(owner, repository),
        "failed to decode repository response for "@ + slug(owner, repository),
    )
}

/// Asks for the head of a branch.
pub open spec fn branch_request(
    owner: Seq<char>,
    repository: Seq<char>,
    branch: Seq<char>,
) -> RequestView {
    read(
        repo_path(owner, repository, "/git/ref/heads/"@ + branch),
        Handling::Read,
        Expected::ObjectSha,
        "fetch branch ref for "@ + slug(owner, repository) + ":"@ + branch,
        "failed to decode branch ref for "@ + slug(owner, repository) + ":"@ + branch,
    )
}

/// Asks for the tree of a commit.
pub open spec fn commit_tree_request(
    owner: Seq<char>,
    repository: Seq<char>,
    commit_sha: Seq<char>,
) -> RequestView {
    read(
        repo_path(owner, repository, "/git/commits/"@ + commit_sha),
        Handling::Read,
        Expected::TreeSha,
        "fetch commit tree for "@ + slug(owner, repository) + "@"@ + commit_sha,
        "failed to decode commit tree for "@ + slug(owner, repository) + "@"@ + commit_sha,
    )
}

/// Creates a reference.
pub open spec fn create_ref_request(
    owner: Seq<char>,
    repository: Seq<char>,
    ref_path: Seq<char>,
    sha: Seq<char>,
) -> RequestView {
    RequestView {
        method: Method::Post,
        path: repo_path(owner, repository, "/git/refs"@),
        body: seq![text_field("ref"@, "refs/"@ + ref_path), text_field("sha"@, sha)],
        handling: Handling::Send,
        expected: Expected::Nothing,
        context: "create ref "@ + ref_path + " for "@ + slug(owner, repository),
        decoding: ""@,
    }
}

/// Creates an annotated tag of a commit.
pub open spec fn create_tag_request(
    owner: Seq<char>,
    repository: Seq<char>,
    tag: Seq<char>,
    message: Seq<char>,
    commit_sha: Seq<char>,
) -> RequestView {
    RequestView {
        method: Method::Post,
        path: repo_path(owner, repository, "/git/tags"@),
        body: seq![
            text_field("tag"@, tag),
            text_field("message"@, message),
            text_field("object"@, commit_sha),
            text_field("type"@, "commit"@),
        ],
        handling: Handling::Send,
        expected: Expected::Sha,
        context: "create annotated tag "@ + tag + " for "@ + slug(owner, repository),
        decoding: "failed to decode tag object response for "@ + slug(owner, repository),
    }
}

/// Asks for a reference.
pub open spec fn reference_request(
    owner: Seq<char>,
    repository: Seq<char>,
    ref_path: Seq<char>,
) -> RequestView {
    read(
        repo_path(owner, repository, "/git/ref/"@ + ref_path),
        Handling::ReadOrMissing,
        Expected::ObjectSha,
        "fetch ref "@ + ref_path + " for "@ + slug(owner, repository),
        "failed to decode ref "@ + ref_path + " for "@ + slug(owner, repository),
    )
}

/// Creates a blob.
pub open spec fn create_blob_request(
    owner: Seq<char>,
    repository: Seq<char>,
    content: Seq<char>,
) -> RequestView {
    RequestView {
        method: Method::Post,
        path: repo_path(owner, repository, "/git/blobs"@),
        body: seq![text_field("content"@, content), text_field("encoding"@, "utf-8"@)],
        handling: Handling::Send,
        expected: Expected::Sha,
        context: "create blob for "@ + slug(owner, repository),
        decoding: "failed to decode blob response for "@ + slug(owner, repository),
    }
}

/// A file of a tree, with the mode of a plain file.
pub open spec fn plain_file(entry: TreeEntryView) -> TreeFileView {
    TreeFileView { path: entry.path, mode: "100644"@, object_type: "blob"@, sha: entry.sha }
}

/// Creates a tree on top of another.
pub open spec fn create_tree_request(
    owner: Seq<char>,
    repository: Seq<char>,
    base_tree_sha: Seq<char>,
    entries: Seq<TreeEntryView>,
) -> RequestView {
    RequestView {
        method: Method::Post,
        path: repo_path(owner, repository, "/git/trees"@),
        body: seq![
            text_field("base_tree"@, base_tree_sha),
            MemberView {
                name: "tree"@,
                value: FieldView::Files(
                    entries.map_values(|entry: TreeEntryView| plain_file(entry)),
                ),
            },
        ],
        handling: Handling::Send,
        expected: Expected::Sha,
        context: "create tree for "@ + slug(owner, repository),
        decoding: "failed to decode tree response for "@ + slug(owner, repository),
    }
}

/// Creates a commit with one parent.
pub open spec fn create_commit_request(
    owner: Seq<char>,
    repository: Seq<char>,
    message: Seq<char>,
    tree_sha: Seq<char>,
    parent_sha: Seq<char>,
) -> RequestView {
    RequestView {
        method: Method::Post,
        path: repo_path(owner, repository, "/git/commits"@),
        body: seq![
            text_field("message"@, message),
            text_field("tree"@, tree_sha),
            MemberView { name: "parents"@, value: FieldView::Texts(seq![parent_sha]) },
        ],
        handling: Handling::Send,
        expected: Expected::Sha,
        context: "create commit for "@ + slug(owner, repository),
        decoding: "failed to decode commit response for "@ + slug(owner, repository),
    }
}

/// A request that moves a reference.
pub open spec fn move_ref_request(
    owner: Seq<char>,
    repository: Seq<char>,
    ref_path: Seq<char>,
    sha: Seq<char>,
    force: bool,
    handling: Handling,
    verb: Seq<char>,
) -> RequestView {
    RequestView {
        method: Method::Patch,
        path: repo_path(owner, repository, "/git/refs/"@ + ref_path),
        body: seq![
            text_field("sha"@, sha),
            MemberView { name: "force"@, value: FieldView::Flag(force) },
        ],
        handling,
        expected: Expected::Nothing,
        context: verb + " ref "@ + ref_path + " for "@ + slug(owner, repository),
        decoding: ""@,
    }
}

/// Moves a reference.
pub open spec fn update_ref_request(
    owner: Seq<char>,
    repository: Seq<char>,
    ref_path: Seq<char>,
    sha: Seq<char>,
    force: bool,
) -> RequestView {
    move_ref_request(owner, repository, ref_path, sha, force, Handling::Send, "update"@)
}

/// Moves a reference forward only.
pub open spec fn fast_forward_request(
    owner: Seq<char>,
    repository: Seq<char>,
    ref_path: Seq<char>,
    sha: Seq<char>,
) -> RequestView {
    move_ref_request(
        owner,
        repository,
        ref_path,
        sha,
        false,
        Handling::FastForward,
        "fast-forward"@,
    )
}

/// Asks for a page of tags.
pub open spec fn tags_page_request(
    owner: Seq<char>,
    repository: Seq<char>,
    page: nat,
) -> RequestView {
    read(
        repo_path(owner, repository, "/tags?per_page=100&page="@ + decimal(page)),
        Handling::Read,
        Expected::Tags,
        "list tags for "@ + slug(owner, repository),
        "failed to decode tags response for "@ + slug(owner, repository),
    )
}

/// Asks for a page of the commits between two references.
pub open spec fn compare_page_request(
    owner: Seq<char>,
    repository: Seq<char>,
    base: Seq<char>,
    head: Seq<char>,
    page: nat,
) -> RequestView {
    read(
        repo_path(
            owner,
            repository,
            "/compare/"@ + url_encoded(base) + "..."@ + url_encoded(head) + "?per_page=100&page="@
                + decimal(page),
        ),
        Handling::Read,
        Expected::Comparison,
        "compare "@ + base + "..."@ + head + " for "@ + slug(owner, repository),
        "failed to decode compare response for "@ + slug(owner, repository),
    )
}

/// Asks for a page of the commits up to a head.
pub open spec fn commits_page_request(
    owner: Seq<char>,
    repository: Seq<char>,
    head_sha: Seq<char>,
    page: nat,
) -> RequestView {
    read(
        repo_path(
            owner,
            repository,
            "/commits?sha="@ + url_encoded(head_sha) + "&per_page=100&page="@ + decimal(page),
        ),
        Handling::Read,
        Expected::Commits,
        "list commits for "@ + slug(owner, repository),
        "failed to decode commits response for "@ + slug(owner, repository),
    )
}

/// Publishes a release.
pub open spec fn create_release_request(
    owner: Seq<char>,
    repository: Seq<char>,
    tag_name: Seq<char>,
    name: Seq<char>,
    body: Seq<char>,
    target_commitish: Seq<char>,
) -> RequestView {
    RequestView {
        method: Method::Post,
        path: repo_path(owner, repository, "/releases"@),
        body: seq![
            text_field("tag_name"@, tag_name),
            text_field("target_commitish"@, target_commitish),
            text_field("name"@, name),
            text_field("body"@, body),
        ],
        handling: Handling::Send,
        expected: Expected::Url,
        context: "create release "@ + tag_name + " for "@ + slug(owner, repository),
        decoding: "failed to decode release response for "@ + slug(owner, repository),
    }
}

/// Opens a pull request.
pub open spec fn create_pull_request_request(
    owner: Seq<char>,
    repository: Seq<char>,
    title: Seq<char>,
    body: Seq<char>,
    head: Seq<char>,
    base: Seq<char>,
) -> RequestView {
    RequestView {
        method: Method::Post,
        path: repo_path(owner, repository, "/pulls"@),
        body: seq![
            text_field("title"@, title),
            text_field("body"@, body),
            text_field("head"@, head),
            text_field("base"@, base),
        ],
        handling: Handling::Send,
        expected: Expected::PullRequest,
        context: "create pull request for "@ + slug(owner, repository),
        decoding: "failed to decode pull request response for "@ + slug(owner, repository),
    }
}

/// Asks for the open pull requests from one branch into another.
pub open spec fn find_pull_request_request(
    owner: Seq<char>,
    repository: Seq<char>,
    head: Seq<char>,
    base: Seq<char>,
) -> RequestView {
    read(
        repo_path(
            owner,
            repository,
            "/pulls?state=open&head="@ + url_encoded(owner + ":"@ + head) + "&base="@ + url_encoded(
                base,
            ) + "&per_page=100"@,
        ),
        Handling::Send,
        Expected::PullRequests,
        "find open release pull request for "@ + slug(owner, repository),
        "failed to decode pull request list for "@ + slug(owner, repository),
    )
}

/// Rewrites a pull request.
pub open spec fn update_pull_request_request(
    owner: Seq<char>,
    repository: Seq<char>,
    number: u64,
    title: Seq<char>,
    body: Seq<char>,
) -> RequestView {
    RequestView {
        method: Method::Patch,
        path: repo_path(owner, repository, "/pulls/"@ + decimal(number as nat)),
        body: seq![text_field("title"@, title), text_field("body"@, body)],
        handling: Handling::Send,
        expected: Expected::PullRequest,
        context: "update pull request "@ + decimal(number as nat) + " for "@ + slug(
            owner,
            repository,
        ),
        decoding: "failed to decode updated pull request response for "@ + slug(owner, repository),
    }
}

/// Puts labels on an issue or a pull request.
pub open spec fn add_labels_request(
    owner: Seq<char>,
    repository: Seq<char>,
    issue_number: u64,
    labels: Seq<Seq<char>>,
) -> RequestView {
    RequestView {
        method: Method::Post,
        path: repo_path(
            owner,
            repository,
            "/issues/"@ + decimal(issue_number as nat) + "/labels"@,
        ),
        body: seq![MemberView { name: "labels"@, value: FieldView::Texts(labels) }],
        handling: Handling::Send,
        expected: Expected::Nothing,
        context: "add labels to issue "@ + decimal(issue_number as nat) + " for "@ + slug(
            owner,
            repository,
        ),
        decoding: ""@,
    }
}

// ---------------------------------------------------------------------------
// Building the requests
// ---------------------------------------------------------------------------
fn slug_text(owner: &str, repository: &str) -> (result: String)
    ensures
        result@ == slug(owner@, repository@),
{
    join_three(owner, "/", repository)
}

fn repo_path_text(owner: &str, repository: &str, rest: &str) -> (result: String)
    ensures
        result@ == repo_path(owner@, repository@, rest@),
{
    join_five("/repos/", owner, "/", repository, rest)
}

fn read_request(
    path: String,
    handling: Handling,
    expected: Expected,
    context: String,
    decoding: String,
) -> (result: ApiRequest)
    ensures
        result@ == read(path@, handling, expected, context@, decoding@),
{
    let body: Vec<Member> = Vec::new();
    assert(views(body@) == Seq::<MemberView>::empty());
    ApiRequest { method: Method::Get, path, body, handling, expected, context, decoding }
}

fn text_member(name: &str, text: &str) -> (result: Member)
    ensures
        result@ == text_field(name@, text@),
{
    Member { name: name.to_owned(), value: Field::Text(text.to_owned()) }
}

pub(crate) fn new_latest_release_request(owner: &str, repository: &str) -> (result: ApiRequest)
    ensures
        result@ == latest_release_request(owner@, repository@),
{
    let slug = slug_text(owner, repository);
    read_request(
        repo_path_text(owner, repository, "/releases/latest"),
        Handling::ReadOrMissing,
        Expected::TagName,
        join_two("fetch latest release for ", &slug),
        join_two("failed to decode release response for ", &slug),
    )
}

pub(crate) fn new_first_tag_request(owner: &str, repository: &str) -> (result: ApiRequest)
    ensures
        result@ == first_tag_request(owner@, repository@),
{
    let slug = slug_text(owner, repository);
    read_request(
        repo_path_text(owner, repository, "/tags?per_page=1"),
        Handling::Read,
        Expected::Tags,
        join_two("fetch tags for ", &slug),
        join_two("failed to decode tags response for ", &slug),
    )
}

pub(crate) fn new_resolve_request(
    owner: &str,
    repository: &str,
    reference: &str,
) -> (result: ApiRequest)
    ensures
        result@ == resolve_request(owner@, repository@, reference@),
{
    let slug = slug_text(owner, repository);
    read_request(
        repo_path_text(owner, repository, &join_two("/commits/", &encode_url(reference))),
        Handling::Read,
        Expected::Sha,
        join_four("resolve ", &slug, "@", reference),
        join_four("failed to decode commit response for ", &slug, "@", reference),
    )
}

pub(crate) fn new_user_request() -> (result: ApiRequest)
    ensures
        result@ == user_request(),
{
    read_request(
        "/user".to_owned(),
        Handling::Send,
        Expected::User,
        "validate GitHub token scopes".to_owned(),
        "failed to decode GitHub user response".to_owned(),
    )
}

pub(crate) fn new_repository_request(owner: &str, repository: &str) -> (result: ApiRequest)
    ensures
        result@ == repository_request(owner@, repository@),
{
    let slug = slug_text(owner, repository);
    read_request(
        repo_path_text(owner, repository, ""),
        Handling::Read,
        Expected::DefaultBranch,
        join_two("fetch repository metadata for ", &slug),
        join_two("failed to decode repository response for ", &slug),
    )
}

pub(crate) fn new_branch_request(
    owner: &str,
    repository: &str,
    branch: &str,
) -> (result: ApiRequest)
    ensures
        result@ == branch_request(owner@, repository@, branch@),
{
    let slug = slug_text(owner, repository);
    read_request(
        repo_path_text(owner, repository, &join_two("/git/ref/heads/", branch)),
        Handling::Read,
        Expected::ObjectSha,
        join_four("fetch branch ref for ", &slug, ":", branch),
        join_four("failed to decode branch ref for ", &slug, ":", branch),
    )
}

pub(crate) fn new_commit_tree_request(
    owner: &str,
    repository: &str,
    commit_sha: &str,
) -> (result: ApiRequest)
    ensures
        result@ == commit_tree_request(owner@, repository@, commit_sha@),
{
    let slug = slug_text(owner, repository);
    read_request(
        repo_path_text(owner, repository, &join_two("/git/commits/", commit_sha)),
        Handling::Read,
        Expected::TreeSha,
        join_four("fetch commit tree for ", &slug, "@", commit_sha),
        join_four("failed to decode commit tree for ", &slug, "@", commit_sha),
    )
}

pub(crate) fn new_reference_request(
    owner: &str,
    repository: &str,
    ref_path: &str,
) -> (result: ApiRequest)
    ensures
        result@ == reference_request(owner@, repository@, ref_path@),
{
    let slug = slug_text(owner, repository);
    read_request(
        repo_path_text(owner, repository, &join_two("/git/ref/", ref_path)),
        Handling::ReadOrMissing,
        Expected::ObjectSha,
        join_four("fetch ref ", ref_path, " for ", &slug),
        join_four("failed to decode ref ", ref_path, " for ", &slug),
    )
}

pub(crate) fn new_tags_page_request(
    owner: &str,
    repository: &str,
    page: u32,
) -> (result: ApiRequest)
    ensures
        result@ == tags_page_request(owner@, repository@, page as nat),
{
    let slug = slug_text(owner, repository);
    read_request(
        repo_path_text(
            owner,
            repository,
            &join_two("/tags?per_page=100&page=", &decimal_text(page as u64)),
        ),
        Handling::Read,
        Expected::Tags,
        join_two("list tags for ", &slug),
        join_two("failed to decode tags response for ", &slug),
    )
}

pub(crate) fn new_compare_page_request(
    owner: &str,
    repository: &str,
    base: &str,
    head: &str,
    page: u32,
) -> (result: ApiRequest)
    ensures
        result@ == compare_page_request(owner@, repository@, base@, head@, page as nat),
{
    let slug = slug_text(owner, repository);
    read_request(
        repo_path_text(owner, repository, &join_six(
                "/compare/",
                &encode_url(base),
                "...",
                &encode_url(head),
                "?per_page=100&page=",
                &decimal_text(page as u64),
            )),
        Handling::Read,
        Expected::Comparison,
        join_six("compare ", base, "...", head, " for ", &slug),
        join_two("failed to decode compare response for ", &slug),
    )
}

pub(crate) fn new_commits_page_request(
    owner: &str,
    repository: &str,
    head_sha: &str,
    page: u32,
) -> (result: ApiRequest)
    ensures
        result@ == commits_page_request(owner@, repository@, head_sha@, page as nat),
{
    let slug = slug_text(owner, repository);
    read_request(
        repo_path_text(owner, repository, &join_four(
                "/commits?sha=",
                &encode_url(head_sha),
                "&per_page=100&page=",
                &decimal_text(page as u64),
            )),
        Handling::Read,
        Expected::Commits,
        join_two("list commits for ", &slug),
        join_two("failed to decode commits response for ", &slug),
    )
}

pub(crate) fn new_find_pull_request_request(
    owner: &str,
    repository: &str,
    head: &str,
    base: &str,
) -> (result: ApiRequest)
    ensures
        result@ == find_pull_request_request(owner@, repository@, head@, base@),
{
    let slug = slug_text(owner, repository);
    read_request(
        repo_path_text(owner, repository, &join_five(
                "/pulls?state=open&head=",
                &encode_url(&join_three(owner, ":", head)),
                "&base=",
                &encode_url(base),
                "&per_page=100",
            )),
        Handling::Send,
        Expected::PullRequests,
        join_two("find open release pull request for ", &slug),
        join_two("failed to decode pull request list for ", &slug),
    )
}

pub(crate) fn new_create_ref_request(
    owner: &str,
    repository: &str,
    ref_path: &str,
    sha: &str,
) -> (result: ApiRequest)
    ensures
        result@ == create_ref_request(owner@, repository@, ref_path@, sha@),
{
    let slug = slug_text(owner, repository);
    let body: Vec<Member> = vec![
        text_member("ref", &join_two("refs/", ref_path)),
        text_member("sha", sha),
    ];
    assert(
        views(body@) == seq![text_field("ref"@, "refs/"@ + ref_path@), text_field("sha"@, sha@)]
    );
    ApiRequest {
        method: Method::Post,
        path: repo_path_text(owner, repository, "/git/refs"),
        body,
        handling: Handling::Send,
        expected: Expected::Nothing,
        context: join_four("create ref ", ref_path, " for ", &slug),
        decoding: "".to_owned(),
    }
}

pub(crate) fn new_create_tag_request(
    owner: &str,
    repository: &str,
    tag: &str,
    message: &str,
    commit_sha: &str,
) -> (result: ApiRequest)
    ensures
        result@ == create_tag_request(owner@, repository@, tag@, message@, commit_sha@),
{
    let slug = slug_text(owner, repository);
    let body: Vec<Member> = vec![
        text_member("tag", tag),
        text_member("message", message),
        text_member("object", commit_sha),
        text_member("type", "commit"),
    ];
    assert(
        views(body@) == seq![
            text_field("tag"@, tag@),
            text_field("message"@, message@),
            text_field("object"@, commit_sha@),
            text_field("type"@, "commit"@),
        ]
    );
    ApiRequest {
        method: Method::Post,
        path: repo_path_text(owner, repository, "/git/tags"),
        body,
        handling: Handling::Send,
        expected: Expected::Sha,
        context: join_four("create annotated tag ", tag, " for ", &slug),
        decoding: join_two("failed to decode tag object response for ", &slug),
    }
}

pub(crate) fn new_create_blob_request(
    owner: &str,
    repository: &str,
    content: &str,
) -> (result: ApiRequest)
    ensures
        result@ == create_blob_request(owner@, repository@, content@),
{
    let slug = slug_text(owner, repository);
    let body: Vec<Member> = vec![text_member("content", content), text_member("encoding", "utf-8")];
    assert(
        views(body@) == seq![text_field("content"@, content@), text_field("encoding"@, "utf-8"@)]
    );
    ApiRequest {
        method: Method::Post,
        path: repo_path_text(owner, repository, "/git/blobs"),
        body,
        handling: Handling::Send,
        expected: Expected::Sha,
        context: join_two("create blob for ", &slug),
        decoding: join_two("failed to decode blob response for ", &slug),
    }
}

fn plain_files(entries: &Vec<TreeEntry>) -> (result: Vec<TreeFile>)
    ensures
        views(result@) == views(entries@).map_values(|entry: TreeEntryView| plain_file(entry)),
{
    let mut result: Vec<TreeFile> = Vec::new();
    let mut i: usize = 0;
    while i < entries.len()
        invariant
            i <= entries.len(),
            result.len() == i,
            forall|j: int| 0 <= j < i ==> (#[trigger] result@[j])@ == plain_file(entries@[j]@),
        decreases entries.len() - i,
    {
        result.push(
            TreeFile {
                path: entries[i].path.clone(),
                mode: "100644".to_owned(),
                object_type: "blob".to_owned(),
                sha: entries[i].sha.clone(),
            },
        );
        i = i + 1;
    }
    assert(views(result@) == views(entries@).map_values(|entry: TreeEntryView| plain_file(entry)));
    result
}

pub(crate) fn new_create_tree_request(
    owner: &str,
    repository: &str,
    base_tree_sha: &str,
    entries: &Vec<TreeEntry>,
) -> (result: ApiRequest)
    ensures
        result@ == create_tree_request(owner@, repository@, base_tree_sha@, views(entries@)),
{
    let slug = slug_text(owner, repository);
    let body: Vec<Member> = vec![
        text_member("base_tree", base_tree_sha),
        Member { name: "tree".to_owned(), value: Field::Files(plain_files(entries)) },
    ];
    assert(views(body@) == seq![
        text_field("base_tree"@, base_tree_sha@),
        MemberView {
            name: "tree"@,
            value: FieldView::Files(
                views(entries@).map_values(|entry: TreeEntryView| plain_file(entry)),
            ),
        },
    ]);
    ApiRequest {
        method: Method::Post,
        path: repo_path_text(owner, repository, "/git/trees"),
        body,
        handling: Handling::Send,
        expected: Expected::Sha,
        context: join_two("create tree for ", &slug),
        decoding: join_two("failed to decode tree response for ", &slug),
    }
}

pub(crate) fn new_create_commit_request(
    owner: &str,
    repository: &str,
    message: &str,
    tree_sha: &str,
    parent_sha: &str,
) -> (result: ApiRequest)
    ensures
        result@ == create_commit_request(owner@, repository@, message@, tree_sha@, parent_sha@),
{
    let parents: Vec<String> = vec![parent_sha.to_owned()];
    assert(views(parents@) == seq![parent_sha@]);
    let slug = slug_text(owner, repository);
    let body: Vec<Member> = vec![
        text_member("message", message),
        text_member("tree", tree_sha),
        Member { name: "parents".to_owned(), value: Field::Texts(parents) },
    ];
    assert(views(body@) == seq![
        text_field("message"@, message@),
        text_field("tree"@, tree_sha@),
        MemberView { name: "parents"@, value: FieldView::Texts(seq![parent_sha@]) },
    ]);
    ApiRequest {
        method: Method::Post,
        path: repo_path_text(owner, repository, "/git/commits"),
        body,
        handling: Handling::Send,
        expected: Expected::Sha,
        context: join_two("create commit for ", &slug),
        decoding: join_two("failed to decode commit response for ", &slug),
    }
}

pub(crate) fn new_move_ref_request(
    owner: &str,
    repository: &str,
    ref_path: &str,
    sha: &str,
    force: bool,
    handling: Handling,
    verb: &str,
) -> (result: ApiRequest)
    ensures
        result@ == move_ref_request(owner@, repository@, ref_path@, sha@, force, handling, verb@),
{
    let slug = slug_text(owner, repository);
    let body: Vec<Member> = vec![
        text_member("sha", sha),
        Member { name: "force".to_owned(), value: Field::Flag(force) },
    ];
    assert(views(body@) == seq![
        text_field("sha"@, sha@),
        MemberView { name: "force"@, value: FieldView::Flag(force) },
    ]);
    ApiRequest {
        method: Method::Patch,
        path: repo_path_text(owner, repository, &join_two("/git/refs/", ref_path)),
        body,
        handling: handling,
        expected: Expected::Nothing,
        context: join_five(verb, " ref ", ref_path, " for ", &slug),
        decoding: "".to_owned(),
    }
}

pub(crate) fn new_update_ref_request(
    owner: &str,
    repository: &str,
    ref_path: &str,
    sha: &str,
    force: bool,
) -> (result: ApiRequest)
    ensures
        result@ == update_ref_request(owner@, repository@, ref_path@, sha@, force),
{
    new_move_ref_request(owner, repository, ref_path, sha, force, Handling::Send, "update")
}

pub(crate) fn new_fast_forward_request(
    owner: &str,
    repository: &str,
    ref_path: &str,
    sha: &str,
) -> (result: ApiRequest)
    ensures
        result@ == fast_forward_request(owner@, repository@, ref_path@, sha@),
{
    new_move_ref_request(
        owner,
        repository,
        ref_path,
        sha,
        false,
        Handling::FastForward,
        "fast-forward",
    )
}

pub(crate) fn new_create_release_request(
    owner: &str,
    repository: &str,
    tag_name: &str,
    name: &str,
    body: &str,
    target_commitish: &str,
) -> (result: ApiRequest)
    ensures
        result@ == create_release_request(
            owner@,
            repository@,
            tag_name@,
            name@,
            body@,
            target_commitish@,
        ),
{
    let slug = slug_text(owner, repository);
    let members: Vec<Member> = vec![
        text_member("tag_name", tag_name),
        text_member("target_commitish", target_commitish),
        text_member("name", name),
        text_member("body", body),
    ];
    assert(
        views(members@) == seq![
            text_field("tag_name"@, tag_name@),
            text_field("target_commitish"@, target_commitish@),
            text_field("name"@, name@),
            text_field("body"@, body@),
        ]
    );
    ApiRequest {
        method: Method::Post,
        path: repo_path_text(owner, repository, "/releases"),
        body: members,
        handling: Handling::Send,
        expected: Expected::Url,
        context: join_four("create release ", tag_name, " for ", &slug),
        decoding: join_two("failed to decode release response for ", &slug),
    }
}

pub(crate) fn new_create_pull_request_request(
    owner: &str,
    repository: &str,
    title: &str,
    body: &str,
    head: &str,
    base: &str,
) -> (result: ApiRequest)
    ensures
        result@ == create_pull_request_request(owner@, repository@, title@, body@, head@, base@),
{
    let slug = slug_text(owner, repository);
    let members: Vec<Member> = vec![
        text_member("title", title),
        text_member("body", body),
        text_member("head", head),
        text_member("base", base),
    ];
    assert(
        views(members@) == seq![
            text_field("title"@, title@),
            text_field("body"@, body@),
            text_field("head"@, head@),
            text_field("base"@, base@),
        ]
    );
    ApiRequest {
        method: Method::Post,
        path: repo_path_text(owner, repository, "/pulls"),
        body: members,
        handling: Handling::Send,
        expected: Expected::PullRequest,
        context: join_two("create pull request for ", &slug),
        decoding: join_two("failed to decode pull request response for ", &slug),
    }
}

pub(crate) fn new_update_pull_request_request(
    owner: &str,
    repository: &str,
    number: u64,
    title: &str,
    body: &str,
) -> (result: ApiRequest)
    ensures
        result@ == update_pull_request_request(owner@, repository@, number, title@, body@),
{
    let slug = slug_text(owner, repository);
    let members: Vec<Member> = vec![text_member("title", title), text_member("body", body)];
    assert(views(members@) == seq![text_field("title"@, title@), text_field("body"@, body@)]);
    ApiRequest {
        method: Method::Patch,
        path: repo_path_text(owner, repository, &join_two("/pulls/", &decimal_text(number))),
        body: members,
        handling: Handling::Send,
        expected: Expected::PullRequest,
        context: join_four("update pull request ", &decimal_text(number), " for ", &slug),
        decoding: join_two("failed to decode updated pull request response for ", &slug),
    }
}

fn copy_texts(texts: &Vec<String>) -> (result: Vec<String>)
    ensures
        views(result@) == views(texts@),
{
    let mut result: Vec<String> = Vec::new();
    let mut i: usize = 0;
    while i < texts.len()
        invariant
            i <= texts.len(),
            result.len() == i,
            forall|j: int| 0 <= j < i ==> (#[trigger] result@[j])@ == texts@[j]@,
        decreases texts.len() - i,
    {
        result.push(texts[i].clone());
        i = i + 1;
    }
    assert(views(result@) == views(texts@));
    result
}

pub(crate) fn new_add_labels_request(
    owner: &str,
    repository: &str,
    issue_number: u64,
    labels: &Vec<String>,
) -> (result: ApiRequest)
    ensures
        result@ == add_labels_request(owner@, repository@, issue_number, views(labels@)),
{
    let slug = slug_text(owner, repository);
    let body: Vec<Member> = vec![
        Member { name: "labels".to_owned(), value: Field::Texts(copy_texts(labels)) },
    ];
    assert(
        views(body@) == seq![
            MemberView { name: "labels"@, value: FieldView::Texts(views(labels@)) },
        ]
    );
    ApiRequest {
        method: Method::Post,
        path: repo_path_text(
            owner,
            repository,
            &join_three("/issues/", &decimal_text(issue_number), "/labels"),
        ),
        body,
        handling: Handling::Send,
        expected: Expected::Nothing,
        context: join_four("add labels to issue ", &decimal_text(issue_number), " for ", &slug),
        decoding: "".to_owned(),
    }
}

} // verus!
