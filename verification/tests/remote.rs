use github_actions_maintainer::api::{
    ApiRequest, Document, Field, Method, Progress, PullRequestInfo,
};
use github_actions_maintainer::remote::{generate_pr_body, group_updates};
use github_actions_maintainer::{
    FileUpdate, GitHubClient, PullRequestOptions, PullRequestResult, RemoteUpdatePublisher,
    UpdateChange, UpdateChangeKind,
};

/// What is asked of GitHub, in order, and what it answers.
struct Exchange {
    method: Method,
    path: &'static str,
    reply: Document,
}

fn exchange(method: Method, path: &'static str, reply: Document) -> Exchange {
    Exchange { method, path, reply }
}

fn name(text: &str) -> Document {
    Document::Name(text.to_owned())
}

fn conversation(number: u64, labels: bool) -> Vec<Exchange> {
    let mut all = vec![
        exchange(
            Method::Get,
            "/user",
            Document::User {
                login: Some(String::from("octocat")),
                scopes: Some(String::from("repo, workflow")),
            },
        ),
        exchange(Method::Get, "/repos/acme/demo", name("main")),
        exchange(Method::Get, "/repos/acme/demo/git/ref/heads/main", name("basecommitsha")),
        exchange(Method::Get, "/repos/acme/demo/git/commits/basecommitsha", name("basetreesha")),
        exchange(Method::Post, "/repos/acme/demo/git/refs", Document::Nothing),
        exchange(Method::Post, "/repos/acme/demo/git/blobs", name("blobsha")),
        exchange(Method::Post, "/repos/acme/demo/git/trees", name("treesha")),
        exchange(Method::Post, "/repos/acme/demo/git/commits", name("commitsha")),
        exchange(
            Method::Patch,
            "/repos/acme/demo/git/refs/heads/github-actions-updates-test",
            Document::Nothing,
        ),
        exchange(
            Method::Post,
            "/repos/acme/demo/pulls",
            Document::PullRequest(PullRequestInfo {
                number,
                url: format!("https://example.test/pr/{number}"),
            }),
        ),
    ];
    if labels {
        all.push(exchange(
            Method::Post,
            "/repos/acme/demo/issues/42/labels",
            Document::Nothing,
        ));
    }
    all
}

fn publish(
    exchanges: &[Exchange],
    update: &FileUpdate,
    change: &UpdateChange,
    options: &PullRequestOptions,
) -> (PullRequestResult, Vec<ApiRequest>) {
    let github = GitHubClient::new("https://api.test", Some(String::from("ghp_testtoken")));
    assert_eq!(github.authorization(false).as_deref(), Some("Bearer ghp_testtoken"));
    let publisher = RemoteUpdatePublisher::new(github);
    let updates = vec![update.clone()];
    let changes = vec![change.clone()];
    let mut docs = Vec::new();
    let mut requests: Vec<ApiRequest> = Vec::new();
    loop {
        match publisher.publish(&updates, &changes, options, 0, &docs) {
            Progress::Ask(request) => {
                let expected = exchanges.get(docs.len()).expect("no further request");
                assert_eq!(request.method, expected.method);
                assert_eq!(request.path, expected.path);
                docs.push(expected.reply.clone());
                requests.push(request);
            }
            Progress::Done(result, read) => {
                assert_eq!(read, exchanges.len());
                return (result.expect("pull request result"), requests);
            }
            Progress::Failed(message) => panic!("{message}"),
        }
    }
}

fn member<'a>(request: &'a ApiRequest, name: &str) -> &'a Field {
    &request.body.iter().find(|member| member.name == name).expect("member").value
}

fn holds(field: &Field, part: &str) -> bool {
    matches!(field, Field::Text(text) if text.contains(part))
}

fn options(labels: &[&str], title: &str) -> PullRequestOptions {
    PullRequestOptions {
        repo_root: String::from("/work"),
        owner: String::from("acme"),
        repo: String::from("demo"),
        base_branch: None,
        branch_name: Some(String::from("github-actions-updates-test")),
        labels: labels.iter().map(|label| (*label).to_owned()).collect(),
        title: title.to_owned(),
        commit_message: title.to_owned(),
    }
}

#[test]
fn publish_creates_branch_commit_and_pull_request() {
    let (result, requests) = publish(
        &conversation(42, true),
        &FileUpdate {
            file: String::from("/work/.github/workflows/ci.yml"),
            updated_content: String::from(
                "steps:\n  - uses: actions/checkout@de0fac2e4500dabe0009e67214ff5f5447ce83dd  # v4\n",
            ),
        },
        &UpdateChange {
            kind: UpdateChangeKind::GitHubAction,
            file: String::from("/work/.github/workflows/ci.yml"),
            line_number: Some(2),
            subject: String::from("actions/checkout"),
            from_version: String::from("v4"),
            to_version: String::from("de0fac2e4500dabe0009e67214ff5f5447ce83dd"),
        },
        &options(&["dependencies", "security"], "Update GitHub Actions dependencies"),
    );

    assert_eq!(result.number, 42);
    assert_eq!(result.url, "https://example.test/pr/42");
    assert_eq!(result.branch_name, "github-actions-updates-test");
    assert!(holds(
        member(&requests[5], "content"),
        "de0fac2e4500dabe0009e67214ff5f5447ce83dd"
    ));
    match member(&requests[6], "tree") {
        Field::Files(files) => {
            assert_eq!(files.len(), 1);
            assert_eq!(files[0].path, ".github/workflows/ci.yml");
            assert_eq!(files[0].sha, "blobsha");
        }
        field => panic!("{field:?}"),
    }
    assert_eq!(
        member(&requests[10], "labels"),
        &Field::Texts(vec![String::from("dependencies"), String::from("security")])
    );
}

#[test]
fn publish_supports_cargo_manifest_updates() {
    let (result, requests) = publish(
        &conversation(43, false),
        &FileUpdate {
            file: String::from("/work/Cargo.toml"),
            updated_content: String::from(
                "[package]\nname = \"demo\"\nversion = \"0.1.0\"\n\n[dependencies]\nreqwest = \"0.12.15\"\n",
            ),
        },
        &UpdateChange {
            kind: UpdateChangeKind::CargoDependency,
            file: String::from("/work/Cargo.toml"),
            line_number: None,
            subject: String::from("reqwest"),
            from_version: String::from("0.12.13"),
            to_version: String::from("0.12.15"),
        },
        &options(&[], "Update dependencies"),
    );

    assert_eq!(result.number, 43);
    assert_eq!(result.url, "https://example.test/pr/43");
    assert!(holds(member(&requests[5], "content"), "0.12.15"));
}

#[test]
fn nothing_is_published_without_updates() {
    let publisher = RemoteUpdatePublisher::new(GitHubClient::new("https://api.test", None));
    match publisher.publish(&Vec::new(), &Vec::new(), &options(&[], "x"), 0, &Vec::new()) {
        Progress::Done(None, 0) => {}
        progress => panic!("{progress:?}"),
    }
}

#[test]
fn files_outside_the_repository_are_refused() {
    let publisher = RemoteUpdatePublisher::new(GitHubClient::new(
        "https://api.test",
        Some(String::from("ghp_testtoken")),
    ));
    let updates = vec![FileUpdate {
        file: String::from("/elsewhere/ci.yml"),
        updated_content: String::new(),
    }];
    let docs: Vec<Document> =
        conversation(1, false).into_iter().take(5).map(|exchange| exchange.reply).collect();
    match publisher.publish(&updates, &Vec::new(), &options(&[], "x"), 0, &docs) {
        Progress::Failed(message) => assert!(message.contains("repository"), "{message}"),
        progress => panic!("{progress:?}"),
    }
}

#[test]
fn branches_are_named_after_the_time() {
    let publisher = RemoteUpdatePublisher::new(GitHubClient::new(
        "https://api.test",
        Some(String::from("ghp_testtoken")),
    ));
    let updates = vec![FileUpdate {
        file: String::from("/work/ci.yml"),
        updated_content: String::new(),
    }];
    let mut options = options(&[], "x");
    options.branch_name = None;
    let docs: Vec<Document> =
        conversation(1, false).into_iter().take(4).map(|exchange| exchange.reply).collect();
    match publisher.publish(&updates, &Vec::new(), &options, 1_700_000_000, &docs) {
        Progress::Ask(request) => assert!(holds(member(&request, "ref"), "1700000000")),
        progress => panic!("{progress:?}"),
    }
}

#[test]
fn the_last_update_of_a_file_counts() {
    let update = |file: &str, content: &str| FileUpdate {
        file: file.to_owned(),
        updated_content: content.to_owned(),
    };
    let grouped = group_updates(&vec![update("b", "1"), update("a", "2"), update("b", "3")]);
    assert_eq!(grouped.len(), 2);
    assert!(grouped.contains(&update("b", "3")));
    assert!(grouped.contains(&update("a", "2")));
}

#[test]
fn the_body_lists_the_changes() {
    let body = generate_pr_body(&vec![UpdateChange {
        kind: UpdateChangeKind::CargoDependency,
        file: String::from("/work/Cargo.toml"),
        line_number: None,
        subject: String::from("reqwest"),
        from_version: String::from("0.12.13"),
        to_version: String::from("0.12.15"),
    }]);
    assert!(body.contains("reqwest"), "{body}");
    assert!(body.contains("0.12.13"), "{body}");
    assert!(body.contains("0.12.15"), "{body}");
}
