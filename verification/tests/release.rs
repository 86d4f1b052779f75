use github_actions_maintainer::api::{
    ApiRequest, CommitEntry, Document, Field, Member, Method, Progress, PullRequestInfo, TagInfo,
};
use github_actions_maintainer::cargo::ManifestFile;
use github_actions_maintainer::release::{extra_file_updates, ExtraFile, WorkingTree};
use github_actions_maintainer::report::release_summary;
use github_actions_maintainer::{
    BumpLevel, FileUpdate, GitHubClient, ReleaseOptions, ReleaseOutcome, ReleasePhase,
    ReleasePublisher, ReleaseReport, TagStyle,
};

/// An answer to requests of a method and a path whose body holds some texts.
struct Mock {
    method: Method,
    path: String,
    holds: Vec<String>,
    reply: Option<Document>,
    times: Option<usize>,
    hits: usize,
}

struct Server {
    mocks: Vec<Mock>,
}

fn quoted(text: &str) -> String {
    format!("\"{}\"", text.replace('\\', "\\\\").replace('"', "\\\"").replace('\n', "\\n"))
}

fn rendered(body: &[Member]) -> String {
    let members: Vec<String> = body
        .iter()
        .map(|member| {
            let value = match &member.value {
                Field::Text(text) => quoted(text),
                Field::Flag(flag) => flag.to_string(),
                Field::Texts(texts) => {
                    format!("[{}]", texts.iter().map(|text| quoted(text)).collect::<Vec<_>>().join(","))
                }
                Field::Files(files) => {
                    let files: Vec<String> = files
                        .iter()
                        .map(|file| {
                            format!(
                                "{{\"path\":{},\"mode\":{},\"type\":{},\"sha\":{}}}",
                                quoted(&file.path),
                                quoted(&file.mode),
                                quoted(&file.object_type),
                                quoted(&file.sha)
                            )
                        })
                        .collect();
                    format!("[{}]", files.join(","))
                }
            };
            format!("{}:{value}", quoted(&member.name))
        })
        .collect();
    format!("{{{}}}", members.join(","))
}

impl Server {
    fn new() -> Server {
        Server { mocks: Vec::new() }
    }

    fn mock(&mut self, method: Method, path: &str, holds: &[&str], reply: Document) {
        self.times(method, path, holds, reply, None);
    }

    fn times(
        &mut self,
        method: Method,
        path: &str,
        holds: &[&str],
        reply: Document,
        times: Option<usize>,
    ) {
        self.mocks.push(Mock {
            method,
            path: path.to_owned(),
            holds: holds.iter().map(|text| (*text).to_owned()).collect(),
            reply: Some(reply),
            times,
            hits: 0,
        });
    }

    fn forbid(&mut self, method: Method, path: &str, holds: &[&str]) {
        self.mocks.push(Mock {
            method,
            path: path.to_owned(),
            holds: holds.iter().map(|text| (*text).to_owned()).collect(),
            reply: None,
            times: None,
            hits: 0,
        });
    }

    fn answer(&mut self, request: &ApiRequest) -> Document {
        let body = rendered(&request.body);
        let fits = |mock: &Mock| {
            mock.method == request.method
                && mock.path == request.path
                && mock.holds.iter().all(|text| body.contains(text.as_str()))
        };
        for mock in &self.mocks {
            assert!(!fits(mock) || mock.reply.is_some(), "forbidden: {} {body}", request.path);
        }
        let open = self
            .mocks
            .iter_mut()
            .find(|mock| fits(mock) && mock.times.map_or(true, |times| mock.hits < times));
        match open {
            Some(mock) => {
                mock.hits += 1;
                mock.reply.clone().expect("a reply")
            }
            None => panic!("unexpected request: {:?} {} {body}", request.method, request.path),
        }
    }

    /// Every answer that was limited was given as often as that.
    fn settle(&self) {
        for mock in &self.mocks {
            if let Some(times) = mock.times {
                assert_eq!(mock.hits, times, "{} {:?}", mock.path, mock.holds);
            }
        }
    }

    fn release(
        &mut self,
        options: &ReleaseOptions,
        tree: &WorkingTree,
    ) -> Result<ReleaseReport, String> {
        let client = GitHubClient::new("https://api.test", Some(String::from("ghp_testtoken")));
        let publisher = ReleasePublisher::new(client);
        let mut docs = Vec::new();
        loop {
            match publisher.release(options, tree, &docs) {
                Progress::Ask(request) => docs.push(self.answer(&request)),
                Progress::Done(report, read) => {
                    assert_eq!(read, docs.len());
                    return Ok(report);
                }
                Progress::Failed(message) => return Err(message),
            }
        }
    }
}

fn name(text: &str) -> Document {
    Document::Name(text.to_owned())
}

fn commit(sha: &str, message: &str, parents: usize) -> CommitEntry {
    CommitEntry { sha: sha.to_owned(), message: message.to_owned(), parents }
}

fn feat_and_fix() -> Document {
    Document::Comparison {
        total_commits: 2,
        commits: vec![
            commit("feataaaaaaa", "feat: add thing", 1),
            commit("fixbbbbbbbb", "fix: repair thing", 1),
        ],
    }
}

fn chore_only() -> Document {
    Document::Comparison {
        total_commits: 1,
        commits: vec![commit("choreaaaaaa", "chore: tidy", 1)],
    }
}

fn tags_v023() -> Document {
    Document::Tags(vec![TagInfo {
        name: String::from("v0.2.3"),
        sha: Some(String::from("tagsha")),
    }])
}

fn fixture() -> WorkingTree {
    WorkingTree {
        root: String::from("/work"),
        manifest: Ok(ManifestFile {
            path: String::from("/work/Cargo.toml"),
            content: String::from("[package]\nname = \"demo\"\nversion = \"0.2.3\"\n"),
        }),
        members: Ok(Vec::new()),
        lockfile: None,
        extra_files: Vec::new(),
    }
}

fn extra(path: &str, content: &str) -> ExtraFile {
    ExtraFile { path: Ok(path.to_owned()), content: Ok(content.to_owned()) }
}

fn options() -> ReleaseOptions {
    ReleaseOptions {
        repo_root: String::from("/work"),
        owner: String::from("acme"),
        repo: String::from("demo"),
        base_branch: Some(String::from("main")),
        bump: None,
        tag_prefix: String::from("v"),
        tag_style: TagStyle::Annotated,
        update_major_alias: false,
        commit_message: String::from("chore: release v{version}"),
        create_pr: false,
        release_branch: String::from("automation/release"),
        dry_run: false,
        extra_files: Vec::new(),
        phase: ReleasePhase::All,
    }
}

const MAIN: &str = "/repos/acme/demo/git/refs/heads/main";
const REFS: &str = "/repos/acme/demo/git/refs";
const TAGS: &str = "/repos/acme/demo/git/tags";
const BLOBS: &str = "/repos/acme/demo/git/blobs";
const TREES: &str = "/repos/acme/demo/git/trees";
const COMMITS: &str = "/repos/acme/demo/git/commits";
const RELEASES: &str = "/repos/acme/demo/releases";

fn mock_tag_object(server: &mut Server) {
    server.mock(Method::Post, TAGS, &[], name("tagobjectsha"));
}

fn mock_head_ref(server: &mut Server, sha: &str, hits: usize) {
    server.times(
        Method::Get,
        "/repos/acme/demo/git/ref/heads/main",
        &[],
        name(sha),
        Some(hits),
    );
}

fn mock_tags(server: &mut Server, tags: Document) {
    server.mock(Method::Get, "/repos/acme/demo/tags?per_page=100&page=1", &[], tags);
}

fn mock_compare(server: &mut Server, commits: Document) {
    server.mock(
        Method::Get,
        "/repos/acme/demo/compare/v0.2.3...basecommitsha?per_page=100&page=1",
        &[],
        commits,
    );
}

fn mock_tag_lookup(server: &mut Server, tag: &str, reply: Document) {
    server.mock(Method::Get, &format!("/repos/acme/demo/git/ref/tags/{tag}"), &[], reply);
}

/// The answers that are read: the head, the tags, the commits, and that there is no
/// tag v0.3.0.
fn mock_analysis(server: &mut Server, head_hits: usize, commits: Document) {
    mock_head_ref(server, "basecommitsha", head_hits);
    mock_tags(server, tags_v023());
    mock_compare(server, commits);
    mock_tag_lookup(server, "v0.3.0", Document::Missing);
}

fn mock_build_chain(server: &mut Server) {
    server.mock(
        Method::Get,
        "/repos/acme/demo/git/commits/basecommitsha",
        &[],
        name("basetreesha"),
    );
    server.mock(Method::Post, BLOBS, &[], name("blobsha"));
    server.mock(Method::Post, TREES, &[], name("treesha"));
    server.mock(Method::Post, COMMITS, &[], name("newcommitsha"));
}

fn mock_finalize_chain(server: &mut Server, tag: &str) {
    server.mock(Method::Patch, MAIN, &[], Document::Nothing);
    mock_tag_object(server);
    server.mock(Method::Post, REFS, &[], Document::Nothing);
    server.mock(
        Method::Post,
        RELEASES,
        &[],
        name(&format!("https://github.com/acme/demo/releases/tag/{tag}")),
    );
}

fn mock_no_mutations(server: &mut Server) {
    server.forbid(Method::Post, BLOBS, &[]);
    server.forbid(Method::Patch, MAIN, &[]);
    server.forbid(Method::Post, REFS, &[]);
    server.forbid(Method::Post, RELEASES, &[]);
}

/// The commit, with what is sent for it.
fn mock_strict_pipeline(server: &mut Server) {
    server.mock(
        Method::Get,
        "/repos/acme/demo/git/commits/basecommitsha",
        &[],
        name("basetreesha"),
    );
    server.times(
        Method::Post,
        BLOBS,
        &["version = \\\"0.3.0\\\""],
        name("blobsha"),
        Some(1),
    );
    server.mock(Method::Post, TREES, &["\"path\":\"Cargo.toml\""], name("treesha"));
    server.mock(
        Method::Post,
        COMMITS,
        &["\"message\":\"chore: release v0.3.0\""],
        name("newcommitsha"),
    );
    server.mock(Method::Patch, MAIN, &["\"sha\":\"newcommitsha\""], Document::Nothing);
}

/// The tag object, the tag and the release, with what is sent for them.
fn mock_strict_finalize(server: &mut Server) {
    server.mock(
        Method::Post,
        TAGS,
        &["\"tag\":\"v0.3.0\"", "\"object\":\"newcommitsha\"", "\"type\":\"commit\""],
        name("tagobjectsha"),
    );
    server.mock(
        Method::Post,
        REFS,
        &["\"ref\":\"refs/tags/v0.3.0\"", "\"sha\":\"tagobjectsha\""],
        Document::Nothing,
    );
    server.mock(
        Method::Post,
        RELEASES,
        &["\"tag_name\":\"v0.3.0\"", "\"target_commitish\":\"newcommitsha\"", "### Features"],
        name("https://github.com/acme/demo/releases/tag/v0.3.0"),
    );
}

#[test]
fn release_creates_commit_tag_and_release() {
    let mut server = Server::new();
    mock_analysis(&mut server, 2, feat_and_fix());
    mock_strict_pipeline(&mut server);
    mock_strict_finalize(&mut server);

    let report = server.release(&options(), &fixture()).expect("release report");

    assert_eq!(report.outcome, ReleaseOutcome::Released);
    assert_eq!(report.current_version, "0.2.3");
    assert_eq!(report.next_version.as_deref(), Some("0.3.0"));
    assert_eq!(report.bump, Some(BumpLevel::Minor));
    assert_eq!(report.tag.as_deref(), Some("v0.3.0"));
    assert_eq!(report.commit_sha.as_deref(), Some("newcommitsha"));
    assert_eq!(
        report.release_url.as_deref(),
        Some("https://github.com/acme/demo/releases/tag/v0.3.0")
    );
    assert_eq!(report.files_updated.len(), 1);
    server.settle();
}

#[test]
fn release_dry_run_performs_no_mutations_and_renders_outputs() {
    let mut server = Server::new();
    mock_analysis(&mut server, 1, feat_and_fix());
    mock_no_mutations(&mut server);

    let mut release_options = options();
    release_options.dry_run = true;
    let report = server.release(&release_options, &fixture()).expect("release report");

    assert_eq!(report.outcome, ReleaseOutcome::DryRun);
    assert!(report.notes.as_deref().is_some_and(|notes| notes.contains("### Features")));
    assert_eq!(report.files_updated.len(), 1);
    assert_eq!(
        report.github_outputs("release_notes.md"),
        "released=false\nversion=0.3.0\ntag=v0.3.0\nrelease-url=\nrelease-pr-number=\nrelease-pr-url=\nrelease-branch=\nnotes-file=release_notes.md\n"
    );
}

#[test]
fn release_lightweight_tags_point_directly_at_the_commit() {
    let mut server = Server::new();
    mock_analysis(&mut server, 2, feat_and_fix());
    mock_build_chain(&mut server);
    server.mock(Method::Patch, MAIN, &[], Document::Nothing);
    server.forbid(Method::Post, TAGS, &[]);
    server.times(
        Method::Post,
        REFS,
        &["\"ref\":\"refs/tags/v0.3.0\"", "\"sha\":\"newcommitsha\""],
        Document::Nothing,
        Some(1),
    );
    server.mock(
        Method::Post,
        RELEASES,
        &[],
        name("https://github.com/acme/demo/releases/tag/v0.3.0"),
    );

    let mut release_options = options();
    release_options.tag_style = TagStyle::Lightweight;
    let report = server.release(&release_options, &fixture()).expect("release report");

    assert_eq!(report.outcome, ReleaseOutcome::Released);
    server.settle();
}

fn mock_release_branch(server: &mut Server, found: Document) {
    server.mock(
        Method::Get,
        "/repos/acme/demo/git/ref/heads/automation/release",
        &[],
        found,
    );
}

fn mock_find_pull_request(server: &mut Server, found: Vec<PullRequestInfo>) {
    server.mock(
        Method::Get,
        "/repos/acme/demo/pulls?state=open&head=acme%3Aautomation%2Frelease&base=main&per_page=100",
        &[],
        Document::PullRequests(found),
    );
}

#[test]
fn release_creates_automated_release_branch_and_pull_request() {
    let mut server = Server::new();
    mock_analysis(&mut server, 2, feat_and_fix());
    mock_build_chain(&mut server);
    mock_release_branch(&mut server, Document::Missing);
    server.times(
        Method::Post,
        REFS,
        &["\"ref\":\"refs/heads/automation/release\",\"sha\":\"newcommitsha\""],
        Document::Nothing,
        Some(1),
    );
    mock_find_pull_request(&mut server, Vec::new());
    server.times(
        Method::Post,
        "/repos/acme/demo/pulls",
        &["\"head\":\"automation/release\"", "\"base\":\"main\""],
        Document::PullRequest(PullRequestInfo {
            number: 42,
            url: String::from("https://github.com/acme/demo/pull/42"),
        }),
        Some(1),
    );

    let mut release_options = options();
    release_options.create_pr = true;
    let report = server.release(&release_options, &fixture()).expect("release report");

    assert_eq!(report.outcome, ReleaseOutcome::PullRequestCreated);
    assert_eq!(report.pull_request_number, Some(42));
    assert_eq!(report.pull_request_url.as_deref(), Some("https://github.com/acme/demo/pull/42"));
    assert_eq!(report.release_branch.as_deref(), Some("automation/release"));
    assert_eq!(report.release_url, None);
    server.settle();
}

#[test]
fn release_updates_the_open_pull_request() {
    let mut server = Server::new();
    mock_analysis(&mut server, 2, feat_and_fix());
    mock_build_chain(&mut server);
    mock_release_branch(&mut server, name("oldsha"));
    server.times(
        Method::Patch,
        "/repos/acme/demo/git/refs/heads/automation/release",
        &["\"sha\":\"newcommitsha\"", "\"force\":true"],
        Document::Nothing,
        Some(1),
    );
    mock_find_pull_request(
        &mut server,
        vec![PullRequestInfo { number: 7, url: String::from("https://example.test/pr/7") }],
    );
    server.times(
        Method::Patch,
        "/repos/acme/demo/pulls/7",
        &[
            "\"title\":\"chore(release): v0.3.0\"",
            "from `0.2.3` to `0.3.0`. Merging it into `main` allows",
            "<!-- automated-release-branch: automation/release -->",
        ],
        Document::PullRequest(PullRequestInfo {
            number: 7,
            url: String::from("https://example.test/pr/7"),
        }),
        Some(1),
    );
    server.forbid(Method::Patch, MAIN, &[]);
    server.forbid(Method::Post, RELEASES, &[]);

    let mut release_options = options();
    release_options.create_pr = true;
    let report = server.release(&release_options, &fixture()).expect("release report");

    assert_eq!(report.outcome, ReleaseOutcome::PullRequestUpdated);
    assert_eq!(report.pull_request_number, Some(7));
    assert_eq!(
        report.github_outputs("notes.md"),
        "released=false\nversion=0.3.0\ntag=v0.3.0\ncommit=newcommitsha\nrelease-url=\nrelease-pr-number=7\nrelease-pr-url=https://example.test/pr/7\nrelease-branch=automation/release\nnotes-file=notes.md\n"
    );
    server.settle();
}

#[test]
fn release_skips_when_no_commits_warrant_a_release() {
    let mut server = Server::new();
    mock_head_ref(&mut server, "basecommitsha", 1);
    mock_tags(&mut server, tags_v023());
    mock_compare(&mut server, chore_only());
    mock_no_mutations(&mut server);

    let report = server.release(&options(), &fixture()).expect("release report");

    assert_eq!(report.outcome, ReleaseOutcome::SkippedNoReleasableChanges);
    assert_eq!(report.next_version, None);
    assert_eq!(report.commits_analyzed, 1);
}

#[test]
fn release_bump_override_releases_without_qualifying_commits() {
    let mut server = Server::new();
    mock_head_ref(&mut server, "basecommitsha", 2);
    mock_tags(&mut server, tags_v023());
    mock_compare(&mut server, chore_only());
    mock_tag_lookup(&mut server, "v0.2.4", Document::Missing);
    mock_build_chain(&mut server);
    mock_finalize_chain(&mut server, "v0.2.4");

    let mut release_options = options();
    release_options.bump = Some(BumpLevel::Patch);
    let report = server.release(&release_options, &fixture()).expect("release report");

    assert_eq!(report.outcome, ReleaseOutcome::Released);
    assert_eq!(report.next_version.as_deref(), Some("0.2.4"));
}

#[test]
fn release_skips_when_tag_already_exists() {
    let mut server = Server::new();
    mock_head_ref(&mut server, "basecommitsha", 1);
    mock_tags(&mut server, tags_v023());
    mock_compare(&mut server, feat_and_fix());
    mock_tag_lookup(&mut server, "v0.3.0", name("existingsha"));
    mock_no_mutations(&mut server);

    let report = server.release(&options(), &fixture()).expect("release report");

    assert_eq!(report.outcome, ReleaseOutcome::SkippedTagExists);
    assert_eq!(report.tag.as_deref(), Some("v0.3.0"));
}

#[test]
fn release_skips_when_branch_advances_before_the_ref_update() {
    let mut server = Server::new();
    mock_head_ref(&mut server, "basecommitsha", 1);
    mock_head_ref(&mut server, "advancedsha", 1);
    mock_tags(&mut server, tags_v023());
    mock_compare(&mut server, feat_and_fix());
    mock_tag_lookup(&mut server, "v0.3.0", Document::Missing);
    mock_build_chain(&mut server);
    server.forbid(Method::Patch, MAIN, &[]);
    server.forbid(Method::Post, RELEASES, &[]);

    let report = server.release(&options(), &fixture()).expect("release report");

    assert_eq!(report.outcome, ReleaseOutcome::SkippedRace);
    assert_eq!(report.commit_sha, None);
    server.settle();
}

#[test]
fn release_skips_when_the_ref_update_is_not_a_fast_forward() {
    let mut server = Server::new();
    mock_analysis(&mut server, 2, feat_and_fix());
    mock_build_chain(&mut server);
    server.mock(Method::Patch, MAIN, &[], Document::Refused);
    server.forbid(Method::Post, RELEASES, &[]);

    let report = server.release(&options(), &fixture()).expect("release report");

    assert_eq!(report.outcome, ReleaseOutcome::SkippedRace);
}

#[test]
fn release_handles_repositories_without_tags() {
    let mut server = Server::new();
    mock_head_ref(&mut server, "basecommitsha", 2);
    mock_tags(&mut server, Document::Tags(Vec::new()));
    server.mock(
        Method::Get,
        "/repos/acme/demo/commits?sha=basecommitsha&per_page=100&page=1",
        &[],
        Document::Commits(vec![commit("feataaaaaaa", "feat: initial", 0)]),
    );
    mock_tag_lookup(&mut server, "v0.3.0", Document::Missing);
    mock_build_chain(&mut server);
    mock_finalize_chain(&mut server, "v0.3.0");

    let report = server.release(&options(), &fixture()).expect("release report");

    assert_eq!(report.outcome, ReleaseOutcome::Released);
    assert_eq!(report.next_version.as_deref(), Some("0.3.0"));
}

#[test]
fn release_moves_an_existing_major_alias_with_force() {
    let mut server = Server::new();
    mock_analysis(&mut server, 2, feat_and_fix());
    mock_build_chain(&mut server);
    mock_finalize_chain(&mut server, "v0.3.0");
    mock_tag_lookup(&mut server, "v0", name("oldaliassha"));
    server.times(
        Method::Patch,
        "/repos/acme/demo/git/refs/tags/v0",
        &["\"sha\":\"newcommitsha\"", "\"force\":true"],
        Document::Nothing,
        Some(1),
    );

    let mut release_options = options();
    release_options.update_major_alias = true;
    let report = server.release(&release_options, &fixture()).expect("release report");

    assert_eq!(report.outcome, ReleaseOutcome::Released);
    assert_eq!(report.major_alias.as_deref(), Some("v0"));
    server.settle();
}

#[test]
fn release_stages_extra_files_into_the_release_commit() {
    let mut server = Server::new();
    mock_analysis(&mut server, 2, feat_and_fix());
    server.mock(
        Method::Get,
        "/repos/acme/demo/git/commits/basecommitsha",
        &[],
        name("basetreesha"),
    );
    server.mock(Method::Post, COMMITS, &[], name("newcommitsha"));
    server.mock(Method::Patch, MAIN, &[], Document::Nothing);
    server.times(
        Method::Post,
        BLOBS,
        &["version = \\\"0.3.0\\\""],
        name("manifestblobsha"),
        Some(1),
    );
    server.times(
        Method::Post,
        BLOBS,
        &["FROM example@sha256:abc"],
        name("extrablobsha"),
        Some(1),
    );
    server.times(
        Method::Post,
        TREES,
        &[
            "\"path\":\"Cargo.toml\"",
            "\"path\":\"runtime.Dockerfile\"",
            "\"sha\":\"extrablobsha\"",
        ],
        name("treesha"),
        Some(1),
    );
    mock_strict_finalize(&mut server);

    let mut release_options = options();
    release_options.extra_files = vec![String::from("runtime.Dockerfile")];
    let mut tree = fixture();
    tree.extra_files = vec![extra("/work/runtime.Dockerfile", "FROM example@sha256:abc\n")];
    let report = server.release(&release_options, &tree).expect("release report");

    assert_eq!(report.outcome, ReleaseOutcome::Released);
    assert_eq!(report.files_updated.len(), 2);
    assert!(
        report.files_updated.iter().any(|file| file.ends_with("runtime.Dockerfile")),
        "expected the extra file to be staged: {:?}",
        report.files_updated
    );
    server.settle();
}

#[test]
fn release_ignores_extra_files_the_version_rewrite_already_covers() {
    let mut server = Server::new();
    mock_analysis(&mut server, 2, feat_and_fix());
    mock_strict_pipeline(&mut server);
    mock_strict_finalize(&mut server);

    let mut release_options = options();
    release_options.extra_files = vec![String::from("Cargo.toml"), String::from("./Cargo.toml")];
    let mut tree = fixture();
    let stale = "[package]\nname = \"demo\"\nversion = \"0.2.3\"\n";
    tree.extra_files =
        vec![extra("/work/Cargo.toml", stale), extra("/work/Cargo.toml", stale)];
    let report = server.release(&release_options, &tree).expect("release report");

    assert_eq!(report.outcome, ReleaseOutcome::Released);
    assert_eq!(report.files_updated.len(), 1);
}

#[test]
fn release_fails_when_an_extra_file_is_missing() {
    let mut server = Server::new();
    mock_analysis(&mut server, 1, feat_and_fix());
    mock_no_mutations(&mut server);

    let mut release_options = options();
    release_options.extra_files = vec![String::from("missing.Dockerfile")];
    let mut tree = fixture();
    tree.extra_files = vec![ExtraFile {
        path: Err(String::from("failed to resolve release file 'missing.Dockerfile'")),
        content: Err(String::new()),
    }];
    let error = server.release(&release_options, &tree).expect_err("missing file must fail");

    assert!(error.contains("missing.Dockerfile"), "unexpected error: {error}");
}

fn mock_no_tagging(server: &mut Server) {
    server.forbid(Method::Post, TAGS, &[]);
    server.forbid(Method::Post, REFS, &[]);
    server.forbid(Method::Post, RELEASES, &[]);
}

#[test]
fn bump_phase_commits_the_version_without_tagging_it() {
    let mut server = Server::new();
    mock_analysis(&mut server, 2, feat_and_fix());
    mock_build_chain(&mut server);
    mock_no_tagging(&mut server);
    server.times(
        Method::Patch,
        MAIN,
        &["\"sha\":\"newcommitsha\"", "\"force\":false"],
        Document::Nothing,
        Some(1),
    );

    let mut release_options = options();
    release_options.phase = ReleasePhase::Bump;
    let report = server.release(&release_options, &fixture()).expect("release report");

    assert_eq!(report.outcome, ReleaseOutcome::VersionCommitted);
    assert_eq!(report.next_version.as_deref(), Some("0.3.0"));
    assert_eq!(report.commit_sha.as_deref(), Some("newcommitsha"));
    assert_eq!(report.release_url, None);
    server.settle();
}

#[test]
fn tag_phase_releases_the_manifest_version_without_bumping_it() {
    let mut server = Server::new();
    mock_analysis(&mut server, 2, feat_and_fix());
    mock_tag_lookup(&mut server, "v0.2.3", Document::Missing);
    mock_build_chain(&mut server);
    server.mock(Method::Patch, MAIN, &[], Document::Nothing);
    server.forbid(Method::Post, BLOBS, &["version = "]);
    server.times(
        Method::Post,
        TAGS,
        &["\"tag\":\"v0.2.3\""],
        name("tagobjectsha"),
        Some(1),
    );
    server.mock(Method::Post, REFS, &[], Document::Nothing);
    server.mock(
        Method::Post,
        RELEASES,
        &["\"tag_name\":\"v0.2.3\""],
        name("https://github.com/acme/demo/releases/tag/v0.2.3"),
    );

    let mut release_options = options();
    release_options.phase = ReleasePhase::Tag;
    release_options.extra_files = vec![String::from("runtime.Dockerfile")];
    let mut tree = fixture();
    tree.extra_files = vec![extra("/work/runtime.Dockerfile", "FROM example@sha256:abc\n")];
    let report = server.release(&release_options, &tree).expect("release report");

    assert_eq!(report.outcome, ReleaseOutcome::Released);
    assert_eq!(report.next_version.as_deref(), Some("0.2.3"));
    assert_eq!(report.tag.as_deref(), Some("v0.2.3"));
    assert_eq!(report.files_updated.len(), 1);
    assert!(report.files_updated[0].ends_with("runtime.Dockerfile"));
    server.settle();
}

#[test]
fn tag_phase_tags_the_existing_head_when_nothing_is_staged() {
    let mut server = Server::new();
    mock_analysis(&mut server, 2, feat_and_fix());
    mock_tag_lookup(&mut server, "v0.2.3", Document::Missing);
    server.forbid(Method::Post, COMMITS, &[]);
    server.forbid(Method::Patch, MAIN, &[]);
    server.times(
        Method::Post,
        TAGS,
        &["\"object\":\"basecommitsha\""],
        name("tagobjectsha"),
        Some(1),
    );
    server.mock(Method::Post, REFS, &[], Document::Nothing);
    server.mock(
        Method::Post,
        RELEASES,
        &["\"target_commitish\":\"basecommitsha\""],
        name("https://github.com/acme/demo/releases/tag/v0.2.3"),
    );

    let mut release_options = options();
    release_options.phase = ReleasePhase::Tag;
    let report = server.release(&release_options, &fixture()).expect("release report");

    assert_eq!(report.outcome, ReleaseOutcome::Released);
    assert_eq!(report.commit_sha.as_deref(), Some("basecommitsha"));
    assert!(report.files_updated.is_empty());
    server.settle();
}

#[test]
fn tag_phase_skips_when_the_manifest_version_is_already_tagged() {
    let mut server = Server::new();
    mock_analysis(&mut server, 1, feat_and_fix());
    mock_no_mutations(&mut server);
    mock_tag_lookup(&mut server, "v0.2.3", name("tagsha"));

    let mut release_options = options();
    release_options.phase = ReleasePhase::Tag;
    let report = server.release(&release_options, &fixture()).expect("release report");

    assert_eq!(report.outcome, ReleaseOutcome::SkippedTagExists);
}

#[test]
fn tag_phase_releases_even_when_no_commit_warrants_a_bump() {
    let mut server = Server::new();
    mock_analysis(&mut server, 2, chore_only());
    mock_tag_lookup(&mut server, "v0.2.3", Document::Missing);
    mock_tag_object(&mut server);
    server.mock(Method::Post, REFS, &[], Document::Nothing);
    server.mock(
        Method::Post,
        RELEASES,
        &[],
        name("https://github.com/acme/demo/releases/tag/v0.2.3"),
    );

    let mut release_options = options();
    release_options.phase = ReleasePhase::Tag;
    let report = server.release(&release_options, &fixture()).expect("release report");

    assert_eq!(report.outcome, ReleaseOutcome::Released);
    assert_eq!(report.bump, None);
}

#[test]
fn phases_cannot_be_combined_with_the_release_pull_request_flow() {
    let mut server = Server::new();

    let mut release_options = options();
    release_options.create_pr = true;
    release_options.phase = ReleasePhase::Bump;
    let error =
        server.release(&release_options, &fixture()).expect_err("combination must fail");

    assert!(error.contains("--phase"), "unexpected error: {error}");
}

#[test]
fn bump_phase_outputs_the_commit_for_the_follow_up_phase() {
    let mut server = Server::new();
    mock_analysis(&mut server, 2, feat_and_fix());
    mock_build_chain(&mut server);
    server.mock(Method::Patch, MAIN, &[], Document::Nothing);
    mock_no_tagging(&mut server);

    let mut release_options = options();
    release_options.phase = ReleasePhase::Bump;
    let report = server.release(&release_options, &fixture()).expect("release report");

    let outputs = report.github_outputs("release_notes.md");
    assert!(outputs.contains("released=false\n"), "unexpected outputs: {outputs}");
    assert!(outputs.contains("version=0.3.0\n"), "unexpected outputs: {outputs}");
    assert!(outputs.contains("commit=newcommitsha\n"), "unexpected outputs: {outputs}");
}

#[test]
fn strict_finalize_mocks_stay_shared_with_the_single_run_flow() {
    let mut server = Server::new();
    mock_analysis(&mut server, 2, feat_and_fix());
    mock_build_chain(&mut server);
    server.mock(Method::Patch, MAIN, &[], Document::Nothing);
    mock_strict_finalize(&mut server);

    let report = server.release(&options(), &fixture()).expect("release report");

    assert_eq!(report.outcome, ReleaseOutcome::Released);
    assert_eq!(report.tag.as_deref(), Some("v0.3.0"));
}

#[test]
fn releases_need_a_token() {
    let publisher = ReleasePublisher::new(GitHubClient::new("https://api.test", None));
    match publisher.release(&options(), &fixture(), &Vec::new()) {
        Progress::Failed(message) => assert_eq!(
            message,
            "a GitHub token is required to create releases; provide --token or GITHUB_TOKEN"
        ),
        _ => panic!("expected a failure"),
    }
}

#[test]
fn release_branches_have_a_reserved_prefix() {
    let mut release_options = options();
    release_options.create_pr = true;
    for branch in ["main", "automation/releases", "automation"] {
        release_options.release_branch = branch.to_owned();
        let error = Server::new().release(&release_options, &fixture()).unwrap_err();
        assert_eq!(
            error,
            format!(
                "automated release branch '{branch}' must use the reserved 'automation/release/' prefix"
            )
        );
    }
}

#[test]
fn a_blank_base_branch_is_the_default_branch() {
    let mut server = Server::new();
    server.times(Method::Get, "/repos/acme/demo", &[], name("main"), Some(1));
    mock_head_ref(&mut server, "basecommitsha", 1);
    mock_tags(&mut server, tags_v023());
    mock_compare(&mut server, chore_only());

    let mut release_options = options();
    release_options.base_branch = Some(String::from("  "));
    let report = server.release(&release_options, &fixture()).expect("release report");
    assert_eq!(report.outcome, ReleaseOutcome::SkippedNoReleasableChanges);
    server.settle();
}

#[test]
fn manifests_without_a_semantic_version_are_refused() {
    let mut server = Server::new();
    mock_head_ref(&mut server, "basecommitsha", 1);
    let mut tree = fixture();
    tree.manifest = Ok(ManifestFile {
        path: String::from("/work/Cargo.toml"),
        content: String::from("[package]\nname = \"demo\"\nversion = \"one\"\n"),
    });
    let error = server.release(&options(), &tree).unwrap_err();
    assert_eq!(error, "invalid current version 'one' in Cargo.toml");

    let mut server = Server::new();
    mock_head_ref(&mut server, "basecommitsha", 1);
    tree.manifest = Err(String::from("failed to read Cargo manifest '/work/Cargo.toml'"));
    let error = server.release(&options(), &tree).unwrap_err();
    assert_eq!(error, "failed to read Cargo manifest '/work/Cargo.toml'");
}

#[test]
fn a_version_that_cannot_go_up_is_refused() {
    let mut server = Server::new();
    mock_head_ref(&mut server, "basecommitsha", 1);
    mock_tags(&mut server, tags_v023());
    mock_compare(&mut server, feat_and_fix());
    let mut tree = fixture();
    tree.manifest = Ok(ManifestFile {
        path: String::from("/work/Cargo.toml"),
        content: String::from("[package]\nversion = \"0.18446744073709551615.0\"\n"),
    });
    let error = server.release(&options(), &tree).unwrap_err();
    assert_eq!(error, "the version '0.18446744073709551615.0' cannot go up");
}

#[test]
fn answers_of_another_kind_are_refused() {
    let publisher = ReleasePublisher::new(GitHubClient::new(
        "https://api.test",
        Some(String::from("ghp_testtoken")),
    ));
    match publisher.release(&options(), &fixture(), &vec![Document::Nothing]) {
        Progress::Failed(message) => assert!(message.contains("unexpected answer"), "{message}"),
        _ => panic!("expected a failure"),
    }
}

#[test]
fn extra_files_stay_in_the_repository_and_are_staged_once() {
    let planned = vec![FileUpdate {
        file: String::from("/work/Cargo.toml"),
        updated_content: String::from("new"),
    }];
    let files = vec![
        extra("/work/a", "1"),
        extra("/work/Cargo.toml", "old"),
        extra("/work/a", "2"),
    ];
    let updates = extra_file_updates("/work", &files, planned.clone()).expect("updates");
    let listed: Vec<(&str, &str)> = updates
        .iter()
        .map(|update| (update.file.as_str(), update.updated_content.as_str()))
        .collect();
    assert_eq!(listed, [("/work/Cargo.toml", "new"), ("/work/a", "1")]);

    assert!(extra_file_updates("/work", &vec![extra("/etc/passwd", "")], planned.clone()).is_err());
    let unreadable = ExtraFile {
        path: Ok(String::from("/work/b")),
        content: Err(String::from("failed to read release file '/work/b'")),
    };
    assert_eq!(
        extra_file_updates("/work", &vec![unreadable], planned).unwrap_err(),
        "failed to read release file '/work/b'"
    );
}

#[test]
fn summaries_tell_what_became_of_the_release() {
    let mut server = Server::new();
    mock_analysis(&mut server, 1, feat_and_fix());
    let mut release_options = options();
    release_options.dry_run = true;
    let mut report = server.release(&release_options, &fixture()).expect("release report");
    assert_eq!(
        release_summary(&report, "notes.md"),
        [
            "Dry run: would release v0.3.0 (0.2.3 -> 0.3.0).",
            "- would update /work/Cargo.toml",
            "- release notes written to notes.md",
        ]
    );
    report.outcome = ReleaseOutcome::Released;
    report.commit_sha = Some(String::from("abc"));
    report.major_alias = Some(String::from("v0"));
    report.release_url = Some(String::from("https://example.test"));
    report.commit_range_truncated = true;
    assert_eq!(
        release_summary(&report, "notes.md"),
        [
            "Released v0.3.0 (0.2.3 -> 0.3.0).",
            "- release commit abc",
            "- moved major alias tag v0",
            "- release https://example.test",
            "- updated /work/Cargo.toml",
            "- release notes written to notes.md",
            "- note: the analyzed commit list was truncated; release notes may be incomplete.",
        ]
    );
    report.commit_range_truncated = false;
    report.outcome = ReleaseOutcome::VersionCommitted;
    assert_eq!(
        release_summary(&report, "notes.md"),
        [
            "Committed version 0.3.0 (0.2.3 -> 0.3.0); tag and release are still pending.",
            "- version commit abc",
            "- updated /work/Cargo.toml",
            "- publish the runtime image for this commit, then re-run with --phase tag",
        ]
    );
    report.outcome = ReleaseOutcome::PullRequestUpdated;
    report.release_branch = Some(String::from("automation/release"));
    report.pull_request_url = Some(String::from("https://example.test/pr/1"));
    assert_eq!(
        release_summary(&report, "notes.md"),
        [
            "Updated automated release PR for v0.3.0 (0.2.3 -> 0.3.0).",
            "- release branch automation/release",
            "- pull request https://example.test/pr/1",
            "- updated /work/Cargo.toml",
            "- release notes written to notes.md",
        ]
    );
    report.outcome = ReleaseOutcome::SkippedNoReleasableChanges;
    assert_eq!(
        release_summary(&report, "notes.md"),
        ["No release needed: 2 commits since the last release contain no feat, fix, or breaking changes."]
    );
    report.outcome = ReleaseOutcome::SkippedRace;
    assert_eq!(
        release_summary(&report, "notes.md"),
        ["Skipped release: the branch advanced past the analyzed commit. Re-run against the new head."]
    );
    report.outcome = ReleaseOutcome::SkippedTagExists;
    assert_eq!(
        release_summary(&report, "notes.md"),
        ["Skipped release: tag v0.3.0 already exists. If its GitHub Release is missing, create it manually."]
    );
}
