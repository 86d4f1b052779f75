//! Requests to the GitHub API, and what comes back.
//!
//! A function that talks to GitHub is a function of the documents that came back so
//! far. It asks for the next request, or is done, or has failed.

use vstd::prelude::*;

use crate::text::{join_two, option_view, views};

verus! {

/// The method of a request.
#[derive(Debug, Clone, Copy, PartialEq, Eq, Structural)]
pub enum Method {
    Get,
    Post,
    Patch,
}

/// How the answer to a request is judged.
#[derive(Debug, Clone, Copy, PartialEq, Eq, Structural)]
pub enum Handling {
    /// Public metadata: a refusal is tried again without the token.
    Read,
    /// The same, and a resource that is not there is no failure.
    ReadOrMissing,
    /// Sent with the token alone.
    Send,
    /// The same, and a refusal to move a reference backwards is no failure.
    FastForward,
}

/// What the body of a successful answer holds.
#[derive(Debug, Clone, Copy, PartialEq, Eq, Structural)]
pub enum Expected {
    /// Nothing that is needed.
    Nothing,
    /// `sha`
    Sha,
    /// `object.sha`
    ObjectSha,
    /// `tree.sha`
    TreeSha,
    /// `default_branch`
    DefaultBranch,
    /// `tag_name`
    TagName,
    /// `html_url`
    Url,
    /// A list of tags.
    Tags,
    /// `total_commits` and `commits`
    Comparison,
    /// A list of commits.
    Commits,
    /// `number` and `html_url`
    PullRequest,
    /// A list of pull requests.
    PullRequests,
    /// `login`, and the scopes in the headers.
    User,
}

/// A file in a tree that is to be created.
#[derive(Debug, Clone, PartialEq, Eq)]
pub struct TreeFile {
    pub path: String,
    pub mode: String,
    pub object_type: String,
    pub sha: String,
}

/// What a `TreeFile` stands for.
pub struct TreeFileView {
    pub path: Seq<char>,
    pub mode: Seq<char>,
    pub object_type: Seq<char>,
    pub sha: Seq<char>,
}

impl View for TreeFile {
    type V = TreeFileView;

    open spec fn view(&self) -> TreeFileView {
        TreeFileView {
            path: self.path@,
            mode: self.mode@,
            object_type: self.object_type@,
            sha: self.sha@,
        }
    }
}

/// The value of a member of a JSON object.
#[derive(Debug, Clone, PartialEq, Eq)]
pub enum Field {
    Text(String),
    Flag(bool),
    Texts(Vec<String>),
    Files(Vec<TreeFile>),
}

/// What a `Field` stands for.
pub enum FieldView {
    Text(Seq<char>),
    Flag(bool),
    Texts(Seq<Seq<char>>),
    Files(Seq<TreeFileView>),
}

impl View for Field {
    type V = FieldView;

    open spec fn view(&self) -> FieldView {
        match self {
            Field::Text(text) => FieldView::Text(text@),
            Field::Flag(flag) => FieldView::Flag(*flag),
            Field::Texts(texts) => FieldView::Texts(views(texts@)),
            Field::Files(files) => FieldView::Files(views(files@)),
        }
    }
}

/// A member of the JSON object that a request carries.
#[derive(Debug, Clone, PartialEq, Eq)]
pub struct Member {
    pub name: String,
    pub value: Field,
}

/// What a `Member` stands for.
pub struct MemberView {
    pub name: Seq<char>,
    pub value: FieldView,
}

impl View for Member {
    type V = MemberView;

    open spec fn view(&self) -> MemberView {
        MemberView { name: self.name@, value: self.value@ }
    }
}

/// A request to the API. The path follows the base URL. `context` says what is
/// being done, `decoding` what failed where the answer cannot be read.
#[derive(Debug, Clone, PartialEq, Eq)]
pub struct ApiRequest {
    pub method: Method,
    pub path: String,
    pub body: Vec<Member>,
    pub handling: Handling,
    pub expected: Expected,
    pub context: String,
    pub decoding: String,
}

/// What an `ApiRequest` stands for.
pub struct RequestView {
    pub method: Method,
    pub path: Seq<char>,
    pub body: Seq<MemberView>,
    pub handling: Handling,
    pub expected: Expected,
    pub context: Seq<char>,
    pub decoding: Seq<char>,
}

impl View for ApiRequest {
    type V = RequestView;

    open spec fn view(&self) -> RequestView {
        RequestView {
            method: self.method,
            path: self.path@,
            body: views(self.body@),
            handling: self.handling,
            expected: self.expected,
            context: self.context@,
            decoding: self.decoding@,
        }
    }
}

impl RequestView {
    /// The request changes something at GitHub.
    pub open spec fn changes_something(self) -> bool {
        self.method != Method::Get
    }
}

/// A tag of a repository.
#[derive(Debug, Clone, PartialEq, Eq)]
pub struct TagInfo {
    pub name: String,
    pub sha: Option<String>,
}

/// What a `TagInfo` stands for.
pub struct TagView {
    pub name: Seq<char>,
    pub sha: Option<Seq<char>>,
}

impl View for TagInfo {
    type V = TagView;

    open spec fn view(&self) -> TagView {
        TagView { name: self.name@, sha: option_view(self.sha) }
    }
}

impl DeepView for TagInfo {
    type V = TagView;

    open spec fn deep_view(&self) -> TagView {
        self@
    }
}

/// A pull request.
#[derive(Debug, Clone, PartialEq, Eq)]
pub struct PullRequestInfo {
    pub number: u64,
    pub url: String,
}

/// What a `PullRequestInfo` stands for.
pub struct PullRequestView {
    pub number: u64,
    pub url: Seq<char>,
}

impl View for PullRequestInfo {
    type V = PullRequestView;

    open spec fn view(&self) -> PullRequestView {
        PullRequestView { number: self.number, url: self.url@ }
    }
}

impl DeepView for PullRequestInfo {
    type V = PullRequestView;

    open spec fn deep_view(&self) -> PullRequestView {
        self@
    }
}

/// A commit as GitHub lists it.
#[derive(Debug, Clone, PartialEq, Eq)]
pub struct CommitEntry {
    pub sha: String,
    pub message: String,
    pub parents: usize,
}

/// What came back for a request.
#[derive(Debug, Clone, PartialEq, Eq)]
pub enum Document {
    /// The resource is not there.
    Missing,
    /// The reference was not moved, for that would not have been a fast forward.
    Refused,
    /// The request was carried out.
    Nothing,
    /// A SHA, a branch, a tag or a URL.
    Name(String),
    Tags(Vec<TagInfo>),
    Comparison { total_commits: u64, commits: Vec<CommitEntry> },
    Commits(Vec<CommitEntry>),
    PullRequest(PullRequestInfo),
    PullRequests(Vec<PullRequestInfo>),
    User { login: Option<String>, scopes: Option<String> },
}

/// How far a function that talks to GitHub has come: the request that it needs
/// next, or what it returns and how many documents were read by then, or why it
/// failed.
#[derive(Debug, Clone, PartialEq, Eq)]
pub enum Progress<T> {
    Ask(ApiRequest),
    Done(T, usize),
    Failed(String),
}

/// What a `Progress` stands for.
pub enum ProgressView<T> {
    Ask(RequestView),
    Done(T, int),
    Failed(Seq<char>),
}

impl<T: DeepView> View for Progress<T> {
    type V = ProgressView<T::V>;

    open spec fn view(&self) -> ProgressView<T::V> {
        match self {
            Progress::Ask(request) => ProgressView::Ask(request@),
            Progress::Done(value, at) => ProgressView::Done(value.deep_view(), *at as int),
            Progress::Failed(message) => ProgressView::Failed(message@),
        }
    }
}

impl<T> ProgressView<T> {
    /// The next request, where there is one, changes nothing.
    pub open spec fn is_harmless(self) -> bool {
        self matches ProgressView::Ask(request) ==> !request.changes_something()
    }
}

/// What is said of a document that does not answer the request.
pub open spec fn unexpected(request: RequestView) -> Seq<char> {
    request.context + ": unexpected answer"@
}

/// The name that a request brings.
pub open spec fn name_for(docs: Seq<Document>, at: int, request: RequestView) -> ProgressView<
    Seq<char>,
> {
    if at >= docs.len() {
        ProgressView::Ask(request)
    } else {
        match docs[at] {
            Document::Name(name) => ProgressView::Done(name@, at + 1),
            _ => ProgressView::Failed(unexpected(request)),
        }
    }
}

/// The name that a request brings, where the resource is there.
pub open spec fn name_if_there(docs: Seq<Document>, at: int, request: RequestView) -> ProgressView<
    Option<Seq<char>>,
> {
    if at >= docs.len() {
        ProgressView::Ask(request)
    } else {
        match docs[at] {
            Document::Name(name) => ProgressView::Done(Some(name@), at + 1),
            Document::Missing => ProgressView::Done(None, at + 1),
            _ => ProgressView::Failed(unexpected(request)),
        }
    }
}

/// The request is carried out.
pub open spec fn carried_out(docs: Seq<Document>, at: int, request: RequestView) -> ProgressView<
    (),
> {
    if at >= docs.len() {
        ProgressView::Ask(request)
    } else {
        match docs[at] {
            Document::Nothing => ProgressView::Done((), at + 1),
            _ => ProgressView::Failed(unexpected(request)),
        }
    }
}

/// The request is carried out or refused.
pub open spec fn carried_out_or_refused(
    docs: Seq<Document>,
    at: int,
    request: RequestView,
) -> ProgressView<bool> {
    if at >= docs.len() {
        ProgressView::Ask(request)
    } else {
        match docs[at] {
            Document::Nothing => ProgressView::Done(true, at + 1),
            Document::Refused => ProgressView::Done(false, at + 1),
            _ => ProgressView::Failed(unexpected(request)),
        }
    }
}

/// The pull request that a request brings.
pub open spec fn pull_request_for(
    docs: Seq<Document>,
    at: int,
    request: RequestView,
) -> ProgressView<PullRequestView> {
    if at >= docs.len() {
        ProgressView::Ask(request)
    } else {
        match docs[at] {
            Document::PullRequest(found) => ProgressView::Done(found@, at + 1),
            _ => ProgressView::Failed(unexpected(request)),
        }
    }
}

/// The tags that a request brings.
pub open spec fn tags_for(docs: Seq<Document>, at: int, request: RequestView) -> ProgressView<
    Seq<TagView>,
> {
    if at >= docs.len() {
        ProgressView::Ask(request)
    } else {
        match docs[at] {
            Document::Tags(tags) => ProgressView::Done(views(tags@), at + 1),
            _ => ProgressView::Failed(unexpected(request)),
        }
    }
}

fn say_unexpected(request: &ApiRequest) -> (result: String)
    ensures
        result@ == unexpected(request@),
{
    join_two(&request.context, ": unexpected answer")
}

/// The name that a request brings.
pub fn take_name(docs: &Vec<Document>, at: usize, request: ApiRequest) -> (result: Progress<String>)
    ensures
        result@ == name_for(docs@, at as int, request@),
        result matches Progress::Done(_, next) ==> next <= docs.len(),
{
    if at >= docs.len() {
        return Progress::Ask(request);
    }
    match &docs[at] {
        Document::Name(name) => Progress::Done(name.clone(), at + 1),
        _ => Progress::Failed(say_unexpected(&request)),
    }
}

/// The name that a request brings, where the resource is there.
pub fn take_name_if_there(docs: &Vec<Document>, at: usize, request: ApiRequest) -> (result:
    Progress<Option<String>>)
    ensures
        result@ == name_if_there(docs@, at as int, request@),
        result matches Progress::Done(_, next) ==> next <= docs.len(),
{
    if at >= docs.len() {
        return Progress::Ask(request);
    }
    match &docs[at] {
        Document::Name(name) => Progress::Done(Some(name.clone()), at + 1),
        Document::Missing => Progress::Done(None, at + 1),
        _ => Progress::Failed(say_unexpected(&request)),
    }
}

/// The request is carried out.
pub fn take_done(docs: &Vec<Document>, at: usize, request: ApiRequest) -> (result: Progress<()>)
    ensures
        result@ == carried_out(docs@, at as int, request@),
        result matches Progress::Done(_, next) ==> next <= docs.len(),
{
    if at >= docs.len() {
        return Progress::Ask(request);
    }
    match &docs[at] {
        Document::Nothing => Progress::Done((), at + 1),
        _ => Progress::Failed(say_unexpected(&request)),
    }
}

/// The request is carried out or refused.
pub fn take_done_or_refused(docs: &Vec<Document>, at: usize, request: ApiRequest) -> (result:
    Progress<bool>)
    ensures
        result@ == carried_out_or_refused(docs@, at as int, request@),
        result matches Progress::Done(_, next) ==> next <= docs.len(),
{
    if at >= docs.len() {
        return Progress::Ask(request);
    }
    match &docs[at] {
        Document::Nothing => Progress::Done(true, at + 1),
        Document::Refused => Progress::Done(false, at + 1),
        _ => Progress::Failed(say_unexpected(&request)),
    }
}

/// The pull request that a request brings.
pub fn take_pull_request(docs: &Vec<Document>, at: usize, request: ApiRequest) -> (result: Progress<
    PullRequestInfo,
>)
    ensures
        result@ == pull_request_for(docs@, at as int, request@),
        result matches Progress::Done(_, next) ==> next <= docs.len(),
{
    if at >= docs.len() {
        return Progress::Ask(request);
    }
    match &docs[at] {
        Document::PullRequest(found) => Progress::Done(
            PullRequestInfo { number: found.number, url: found.url.clone() },
            at + 1,
        ),
        _ => Progress::Failed(say_unexpected(&request)),
    }
}

/// A copy of a tag.
pub fn copy_tag(tag: &TagInfo) -> (result: TagInfo)
    ensures
        result@ == tag@,
{
    TagInfo { name: tag.name.clone(), sha: crate::text::copy_option(&tag.sha) }
}

/// The tags that a request brings.
pub fn take_tags(docs: &Vec<Document>, at: usize, request: ApiRequest) -> (result: Progress<
    Vec<TagInfo>,
>)
    ensures
        result@ == tags_for(docs@, at as int, request@),
        result matches Progress::Done(_, next) ==> next <= docs.len(),
{
    if at >= docs.len() {
        return Progress::Ask(request);
    }
    match &docs[at] {
        Document::Tags(tags) => {
            let mut copies: Vec<TagInfo> = Vec::new();
            let mut i: usize = 0;
            while i < tags.len()
                invariant
                    i <= tags.len(),
                    copies.len() == i,
                    forall|j: int| 0 <= j < i ==> (#[trigger] copies@[j])@ == tags@[j]@,
                decreases tags.len() - i,
            {
                copies.push(copy_tag(&tags[i]));
                i = i + 1;
            }
            assert(copies.deep_view() == views(tags@));
            Progress::Done(copies, at + 1)
        },
        _ => Progress::Failed(say_unexpected(&request)),
    }
}

} // verus!
