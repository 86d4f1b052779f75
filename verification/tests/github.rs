use github_actions_maintainer::api::{
    ApiRequest, CommitEntry, Document, Expected, Field, Handling, Method, Progress,
    PullRequestInfo, TagInfo,
};
use github_actions_maintainer::calls::greatest_tag;
use github_actions_maintainer::github::{
    GitHubClient, GitHubClientOptions, LatestReference, Step,
};
use github_actions_maintainer::transport::{HttpResponse, Outcome, RetryPolicy};

fn response(status: u16, status_text: &str, body: &str) -> HttpResponse {
    HttpResponse {
        status,
        status_text: status_text.to_owned(),
        has_retry_after: false,
        retry_after: None,
        rate_limit_remaining: None,
        rate_limit_reset: None,
        body: Some(body.to_owned()),
        received_at: 1_700_000_000,
    }
}

fn ok(body: &str) -> Outcome {
    Outcome::Response(response(200, "200 OK", body))
}

fn forbidden(body: &str) -> Outcome {
    Outcome::Response(response(403, "403 Forbidden", body))
}

/// What became of a request: the body that was delivered, or how it ended.
#[derive(Debug, PartialEq)]
enum End {
    Body(String),
    Missing,
    Refused,
    Failed(String),
}

/// Sends a request: each answer goes with the authorization that the request must
/// carry.
fn send(
    client: &GitHubClient,
    request: &ApiRequest,
    answers: &[(Option<&str>, Outcome)],
) -> End {
    let mut outcomes = Vec::new();
    loop {
        match client.next_step(request, &outcomes) {
            Step::Send { anonymous, .. } => {
                let (authorization, outcome) =
                    answers.get(outcomes.len()).expect("no further request is sent");
                assert_eq!(client.authorization(anonymous).as_deref(), *authorization);
                outcomes.push(outcome.clone());
            }
            step => {
                assert_eq!(outcomes.len(), answers.len(), "every answer is asked for");
                return match step {
                    Step::Deliver(at) => match &outcomes[at] {
                        Outcome::Response(response) => {
                            End::Body(response.body.clone().unwrap_or_default())
                        }
                        Outcome::Broken { .. } => panic!("a broken answer was delivered"),
                    },
                    Step::Missing => End::Missing,
                    Step::Refused => End::Refused,
                    Step::Fail(message) => End::Failed(message),
                    Step::Send { .. } => panic!("sent again"),
                };
            }
        }
    }
}

fn anonymous_client() -> GitHubClient {
    GitHubClient::new("https://api.test/", None)
}

fn client() -> GitHubClient {
    GitHubClient::new("https://api.test", Some(String::from("ghp_testtoken")))
}

const TOKEN: Option<&str> = Some("Bearer ghp_testtoken");

/// The request that a call asks for first.
fn asked<T>(progress: Progress<T>) -> ApiRequest {
    match progress {
        Progress::Ask(request) => request,
        _ => panic!("expected a request"),
    }
}

/// What a call comes to.
fn done<T>(progress: Progress<T>) -> T {
    match progress {
        Progress::Done(value, _) => value,
        Progress::Ask(request) => panic!("asked for {}", request.path),
        Progress::Failed(message) => panic!("{message}"),
    }
}

fn name(text: &str) -> Document {
    Document::Name(text.to_owned())
}

fn resolve(client: &GitHubClient, owner: &str, repository: &str, reference: &str) -> ApiRequest {
    let request = asked(client.resolve_reference(owner, repository, reference, &Vec::new(), 0));
    assert_eq!(request.method, Method::Get);
    assert_eq!(request.path, format!("/repos/{owner}/{repository}/commits/{reference}"));
    assert_eq!(request.expected, Expected::Sha);
    request
}

#[test]
fn resolve_reference_returns_commit_sha() {
    let client = anonymous_client();
    let request = resolve(&client, "actions", "checkout", "v4");
    let body = r#"{"sha":"de0fac2e4500dabe0009e67214ff5f5447ce83dd"}"#;
    assert_eq!(client.url(&request), "https://api.test/repos/actions/checkout/commits/v4");
    assert_eq!(send(&client, &request, &[(None, ok(body))]), End::Body(body.to_owned()));

    let docs = vec![name("de0fac2e4500dabe0009e67214ff5f5447ce83dd")];
    let sha = done(client.resolve_reference("actions", "checkout", "v4", &docs, 0));
    assert_eq!(sha, "de0fac2e4500dabe0009e67214ff5f5447ce83dd");
}

#[test]
fn resolve_reference_sends_authorization_when_token_is_present() {
    let client = client();
    let request = resolve(&client, "actions", "cache", "v4");
    let body = r#"{"sha":"668228422ae6a00e4ad889ee87cd7109ec5666a7"}"#;
    assert_eq!(send(&client, &request, &[(TOKEN, ok(body))]), End::Body(body.to_owned()));

    let docs = vec![name("668228422ae6a00e4ad889ee87cd7109ec5666a7")];
    let sha = done(client.resolve_reference("actions", "cache", "v4", &docs, 0));
    assert_eq!(sha, "668228422ae6a00e4ad889ee87cd7109ec5666a7");
}

fn impatient_client(token: Option<&str>) -> GitHubClient {
    GitHubClient::with_options(GitHubClientOptions {
        base_url: String::from("https://api.test"),
        token: token.map(|token| token.to_owned()),
        timeout: 5_000,
        max_retries: 1,
        retry_delay: 1,
        max_retry_delay: 5,
    })
}

#[test]
fn resolve_reference_retries_after_rate_limit() {
    let client = impatient_client(None);
    let request = resolve(&client, "actions", "checkout", "v4");
    let mut limited = response(403, "403 Forbidden", r#"{"message":"API rate limit exceeded"}"#);
    limited.rate_limit_remaining = Some(String::from("0"));
    limited.rate_limit_reset = Some(limited.received_at.to_string());
    let body = r#"{"sha":"de0fac2e4500dabe0009e67214ff5f5447ce83dd"}"#;

    match client.next_step(&request, &vec![Outcome::Response(limited.clone())]) {
        Step::Send { anonymous: false, delay } => assert!(delay <= 5),
        step => panic!("expected another request, not {step:?}"),
    }
    assert_eq!(
        send(&client, &request, &[(None, Outcome::Response(limited)), (None, ok(body))]),
        End::Body(body.to_owned())
    );
}

#[test]
fn resolve_reference_retries_when_retry_after_is_present() {
    let client = impatient_client(Some("ghp_testtoken"));
    let request = resolve(&client, "actions", "cache", "v4");
    let mut limited = response(
        403,
        "403 Forbidden",
        r#"{"message":"You have exceeded a secondary rate limit"}"#,
    );
    limited.has_retry_after = true;
    limited.retry_after = Some(String::from("0"));
    let body = r#"{"sha":"668228422ae6a00e4ad889ee87cd7109ec5666a7"}"#;

    assert_eq!(
        send(&client, &request, &[(TOKEN, Outcome::Response(limited)), (TOKEN, ok(body))]),
        End::Body(body.to_owned())
    );
}

const IP_ALLOW_LIST_BODY: &str = r#"{"message":"Although you appear to have the correct authorization credentials, the `aquasecurity` organization has an IP allow list enabled, and your IP address is not permitted to access this resource."}"#;

#[test]
fn resolve_reference_falls_back_to_an_anonymous_request_on_403() {
    let client = client();
    let request = resolve(&client, "aquasecurity", "trivy-action", "0.33.1");
    let body = r#"{"sha":"6c175e9c4083a92bbca2f9724c8a5e33bc2d97a5"}"#;

    assert_eq!(
        send(&client, &request, &[(TOKEN, forbidden(IP_ALLOW_LIST_BODY)), (None, ok(body))]),
        End::Body(body.to_owned())
    );
}

#[test]
fn latest_reference_falls_back_to_an_anonymous_request_on_403() {
    let client = client();
    let request =
        asked(client.latest_reference("aquasecurity", "trivy-action", &Vec::new(), 0));
    assert_eq!(request.path, "/repos/aquasecurity/trivy-action/releases/latest");
    let body = r#"{"tag_name":"0.33.1"}"#;
    assert_eq!(
        send(&client, &request, &[(TOKEN, forbidden(IP_ALLOW_LIST_BODY)), (None, ok(body))]),
        End::Body(body.to_owned())
    );

    let docs = vec![name("0.33.1")];
    let request = asked(client.latest_reference("aquasecurity", "trivy-action", &docs, 0));
    assert_eq!(request.path, "/repos/aquasecurity/trivy-action/commits/0.33.1");
    let docs = vec![name("0.33.1"), name("6c175e9c4083a92bbca2f9724c8a5e33bc2d97a5")];
    let latest = done(client.latest_reference("aquasecurity", "trivy-action", &docs, 0));
    assert_eq!(
        latest,
        LatestReference {
            version: String::from("0.33.1"),
            sha: String::from("6c175e9c4083a92bbca2f9724c8a5e33bc2d97a5"),
        }
    );
}

#[test]
fn resolve_reference_reports_the_original_403_when_the_anonymous_retry_fails() {
    let client = client();
    let request = resolve(&client, "aquasecurity", "trivy-action", "0.33.1");
    let missing = Outcome::Response(response(404, "404 Not Found", r#"{"message":"Not Found"}"#));

    match send(&client, &request, &[(TOKEN, forbidden(IP_ALLOW_LIST_BODY)), (None, missing)]) {
        End::Failed(message) => {
            assert!(message.contains("403 Forbidden"), "{message}");
            assert!(message.contains("IP allow list"), "{message}");
            assert!(message.contains("anonymous retry"), "{message}");
            assert!(message.contains("404"), "{message}");
        }
        end => panic!("{end:?}"),
    }
}

#[test]
fn resolve_reference_does_not_fall_back_to_anonymous_on_401() {
    let client = client();
    let request = resolve(&client, "actions", "checkout", "v4");
    let unauthorized =
        Outcome::Response(response(401, "401 Unauthorized", r#"{"message":"Bad credentials"}"#));

    match send(&client, &request, &[(TOKEN, unauthorized)]) {
        End::Failed(message) => {
            assert!(message.contains("401 Unauthorized"), "{message}");
            assert!(!message.contains("anonymous retry"), "{message}");
        }
        end => panic!("{end:?}"),
    }
}

#[test]
fn resolve_reference_without_a_token_sends_a_single_request_on_403() {
    let client = anonymous_client();
    let request = resolve(&client, "actions", "checkout", "v4");

    match send(&client, &request, &[(None, forbidden(r#"{"message":"Resource not accessible"}"#))])
    {
        End::Failed(message) => {
            assert!(message.contains("403 Forbidden"), "{message}");
            assert!(!message.contains("anonymous retry"), "{message}");
        }
        end => panic!("{end:?}"),
    }
}

fn create_ref(client: &GitHubClient) -> ApiRequest {
    let request =
        asked(client.create_ref("acme", "demo", "tags/v1.2.3", "commitsha", &Vec::new(), 0));
    assert_eq!(request.method, Method::Post);
    assert_eq!(request.path, "/repos/acme/demo/git/refs");
    request
}

fn member<'a>(request: &'a ApiRequest, name: &str) -> &'a Field {
    &request.body.iter().find(|member| member.name == name).expect("member").value
}

fn text(text: &str) -> Field {
    Field::Text(text.to_owned())
}

#[test]
fn create_ref_does_not_fall_back_to_anonymous_on_403() {
    let client = client();
    let request = create_ref(&client);
    let refusal = forbidden(r#"{"message":"Resource not accessible by integration"}"#);

    match send(&client, &request, &[(TOKEN, refusal)]) {
        End::Failed(message) => assert!(message.contains("403 Forbidden"), "{message}"),
        end => panic!("{end:?}"),
    }
}

fn reference(client: &GitHubClient) -> ApiRequest {
    let request = asked(client.reference_sha("acme", "demo", "tags/v1.2.3", &Vec::new(), 0));
    assert_eq!(request.method, Method::Get);
    assert_eq!(request.path, "/repos/acme/demo/git/ref/tags/v1.2.3");
    request
}

#[test]
fn reference_sha_returns_none_when_ref_is_missing() {
    let client = client();
    let request = reference(&client);
    let missing = Outcome::Response(response(404, "404 Not Found", r#"{"message":"Not Found"}"#));
    assert_eq!(send(&client, &request, &[(TOKEN, missing)]), End::Missing);

    let docs = vec![Document::Missing];
    assert_eq!(done(client.reference_sha("acme", "demo", "tags/v1.2.3", &docs, 0)), None);
}

#[test]
fn reference_sha_returns_object_sha() {
    let client = client();
    let request = reference(&client);
    assert_eq!(request.expected, Expected::ObjectSha);
    let body = r#"{"ref":"refs/tags/v1.2.3","object":{"sha":"tagsha"}}"#;
    assert_eq!(send(&client, &request, &[(TOKEN, ok(body))]), End::Body(body.to_owned()));

    let docs = vec![name("tagsha")];
    let sha = done(client.reference_sha("acme", "demo", "tags/v1.2.3", &docs, 0));
    assert_eq!(sha.as_deref(), Some("tagsha"));
}

#[test]
fn create_ref_posts_fully_qualified_tag_reference() {
    let client = client();
    let request = create_ref(&client);
    assert_eq!(member(&request, "ref"), &text("refs/tags/v1.2.3"));
    assert_eq!(member(&request, "sha"), &text("commitsha"));
    let created = Outcome::Response(response(201, "201 Created", r#"{"ref":"refs/tags/v1.2.3"}"#));
    assert!(matches!(send(&client, &request, &[(TOKEN, created)]), End::Body(_)));
    done(client.create_ref("acme", "demo", "tags/v1.2.3", "commitsha", &vec![Document::Nothing], 0));
}

#[test]
fn update_ref_serializes_force_flag() {
    let client = client();
    let request =
        asked(client.update_ref("acme", "demo", "tags/v1", "commitsha", true, &Vec::new(), 0));
    assert_eq!(request.method, Method::Patch);
    assert_eq!(request.path, "/repos/acme/demo/git/refs/tags/v1");
    assert_eq!(member(&request, "force"), &Field::Flag(true));
    done(client.update_ref("acme", "demo", "tags/v1", "commitsha", true, &vec![Document::Nothing], 0));
}

fn fast_forward(client: &GitHubClient) -> ApiRequest {
    let request = asked(client.update_ref_fast_forward(
        "acme",
        "demo",
        "heads/main",
        "commitsha",
        &Vec::new(),
        0,
    ));
    assert_eq!(request.method, Method::Patch);
    assert_eq!(request.path, "/repos/acme/demo/git/refs/heads/main");
    assert_eq!(request.handling, Handling::FastForward);
    assert_eq!(member(&request, "force"), &Field::Flag(false));
    request
}

fn unprocessable(body: &str) -> Outcome {
    Outcome::Response(response(422, "422 Unprocessable Entity", body))
}

#[test]
fn update_ref_fast_forward_reports_non_fast_forward_updates() {
    let client = client();
    let request = fast_forward(&client);
    let refusal = unprocessable(r#"{"message":"Update is not a fast forward"}"#);
    assert_eq!(send(&client, &request, &[(TOKEN, refusal)]), End::Refused);

    let docs = vec![Document::Refused];
    let advanced =
        done(client.update_ref_fast_forward("acme", "demo", "heads/main", "commitsha", &docs, 0));
    assert!(!advanced);
}

#[test]
fn update_ref_fast_forward_errors_on_unrelated_validation_failures() {
    let client = client();
    let request = fast_forward(&client);
    let failure = unprocessable(r#"{"message":"Object does not exist"}"#);
    match send(&client, &request, &[(TOKEN, failure)]) {
        End::Failed(message) => assert!(message.contains("Object does not exist"), "{message}"),
        end => panic!("{end:?}"),
    }
}

#[test]
fn update_ref_fast_forward_succeeds_when_ref_is_current() {
    let client = client();
    let request = fast_forward(&client);
    assert!(matches!(
        send(&client, &request, &[(TOKEN, ok(r#"{"ref":"refs/heads/main"}"#))]),
        End::Body(_)
    ));

    let docs = vec![Document::Nothing];
    let advanced =
        done(client.update_ref_fast_forward("acme", "demo", "heads/main", "commitsha", &docs, 0));
    assert!(advanced);
}

/// Answers the requests of a call with the documents for their paths.
fn converse<T>(
    answers: &[(&str, Document)],
    call: impl Fn(&Vec<Document>) -> Progress<T>,
) -> T {
    let mut docs = Vec::new();
    loop {
        match call(&docs) {
            Progress::Ask(request) => {
                let (path, document) = answers.get(docs.len()).expect("an answer is left");
                assert_eq!(request.path, *path);
                docs.push(document.clone());
            }
            Progress::Done(value, read) => {
                assert_eq!(read, answers.len());
                return value;
            }
            Progress::Failed(message) => panic!("{message}"),
        }
    }
}

fn tag(name: &str, sha: &str) -> TagInfo {
    TagInfo { name: name.to_owned(), sha: Some(sha.to_owned()) }
}

#[test]
fn list_tags_paginates_until_a_short_page() {
    let full_page: Vec<TagInfo> =
        (0..100).map(|index| tag(&format!("v0.0.{index}"), &format!("{index:040}"))).collect();
    let answers = [
        ("/repos/acme/demo/tags?per_page=100&page=1", Document::Tags(full_page)),
        (
            "/repos/acme/demo/tags?per_page=100&page=2",
            Document::Tags(vec![tag("v1.0.0", "lasttagsha")]),
        ),
    ];

    let tags = converse(&answers, |docs| client().list_tags("acme", "demo", 5, docs, 0));

    assert_eq!(tags.len(), 101);
    assert_eq!(tags[100].name, "v1.0.0");
    assert_eq!(tags[100].sha.as_deref(), Some("lasttagsha"));
}

fn entry(sha: &str, message: &str, parents: usize) -> CommitEntry {
    CommitEntry { sha: sha.to_owned(), message: message.to_owned(), parents }
}

fn page(total_commits: u64, message: &str) -> Document {
    Document::Comparison {
        total_commits,
        commits: (0..100)
            .map(|index| entry(&format!("{index:040}"), &format!("{message} {index}"), 1))
            .collect(),
    }
}

const FIRST: &str = "/repos/acme/demo/compare/v0.1.0...headsha?per_page=100&page=1";
const SECOND: &str = "/repos/acme/demo/compare/v0.1.0...headsha?per_page=100&page=2";

#[test]
fn compare_commits_paginates_and_flags_merge_commits() {
    let answers = [
        (FIRST, page(101, "feat: change")),
        (
            SECOND,
            Document::Comparison {
                total_commits: 101,
                commits: vec![entry("mergesha", "Merge pull request #1", 2)],
            },
        ),
    ];

    let range = converse(&answers, |docs| {
        client().compare_commits("acme", "demo", "v0.1.0", "headsha", 5, docs, 0)
    });

    assert_eq!(range.commits.len(), 101);
    assert!(!range.truncated);
    assert!(!range.commits[0].is_merge);
    assert!(range.commits[100].is_merge);
    assert_eq!(range.commits[100].sha, "mergesha");
}

#[test]
fn compare_commits_marks_truncation_at_the_page_cap() {
    let range = converse(&[(FIRST, page(150, "fix:"))], |docs| {
        client().compare_commits("acme", "demo", "v0.1.0", "headsha", 1, docs, 0)
    });

    assert_eq!(range.commits.len(), 100);
    assert!(range.truncated);
}

#[test]
fn compare_commits_stops_when_pages_run_dry() {
    let empty = Document::Comparison { total_commits: 300, commits: Vec::new() };
    let range = converse(&[(FIRST, page(300, "fix:")), (SECOND, empty)], |docs| {
        client().compare_commits("acme", "demo", "v0.1.0", "headsha", 10, docs, 0)
    });

    assert_eq!(range.commits.len(), 100);
    assert!(range.truncated);
}

#[test]
fn list_commits_stops_on_a_short_page() {
    let answers = [(
        "/repos/acme/demo/commits?sha=headsha&per_page=100&page=1",
        Document::Commits(vec![entry("onlysha", "feat: initial", 0)]),
    )];

    let range = converse(&answers, |docs| {
        client().list_commits("acme", "demo", "headsha", 3, docs, 0)
    });

    assert_eq!(range.commits.len(), 1);
    assert!(!range.truncated);
    assert_eq!(range.commits[0].message, "feat: initial");
}

#[test]
fn create_release_posts_tag_and_returns_url() {
    let call = |docs: &Vec<Document>| {
        client().create_release(
            "acme",
            "demo",
            "v1.2.3",
            "Release v1.2.3",
            "notes",
            "commitsha",
            docs,
            0,
        )
    };
    let request = asked(call(&Vec::new()));
    assert_eq!(request.method, Method::Post);
    assert_eq!(request.path, "/repos/acme/demo/releases");
    assert_eq!(member(&request, "tag_name"), &text("v1.2.3"));
    assert_eq!(member(&request, "target_commitish"), &text("commitsha"));
    assert_eq!(member(&request, "name"), &text("Release v1.2.3"));

    let release = done(call(&vec![name("https://github.com/acme/demo/releases/tag/v1.2.3")]));
    assert_eq!(release.url, "https://github.com/acme/demo/releases/tag/v1.2.3");
}

#[test]
fn ensure_token_requires_a_token() {
    let error = GitHubClient::new("https://api.github.com", None)
        .ensure_token()
        .expect_err("missing token");

    assert!(error.contains("GitHub token"));
    assert!(client().ensure_token().is_ok());
    assert!(GitHubClient::new("https://api.github.com", Some(String::from("  ")))
        .ensure_token()
        .is_err());
}

fn user(scopes: Option<&str>) -> Document {
    Document::User {
        login: Some(String::from("octocat")),
        scopes: scopes.map(|scopes| scopes.to_owned()),
    }
}

#[test]
fn scopes_are_told_apart_from_longer_ones() {
    for scopes in ["admin:repo_hook, workflow", "repo:status,workflow", "workflow", ""] {
        match client().validate_token_scopes(&vec![user(Some(scopes))], 0) {
            Progress::Failed(message) => assert_eq!(
                message,
                "GitHub token is missing the repo or public_repo scope"
            ),
            _ => panic!("expected a failure for '{scopes}'"),
        }
    }
    for scopes in ["repo, workflows", "public_repo"] {
        match client().validate_token_scopes(&vec![user(Some(scopes))], 0) {
            Progress::Failed(message) => {
                assert_eq!(message, "GitHub token is missing the workflow scope");
            }
            _ => panic!("expected a failure for '{scopes}'"),
        }
    }
    for scopes in ["public_repo,workflow", "gist, workflow , repo"] {
        done(client().validate_token_scopes(&vec![user(Some(scopes))], 0));
    }
}

#[test]
fn validate_token_scopes_requires_workflow_scope() {
    let request = asked(client().validate_token_scopes(&Vec::new(), 0));
    assert_eq!(request.path, "/user");

    match client().validate_token_scopes(&vec![user(Some("repo"))], 0) {
        Progress::Failed(message) => assert!(message.contains("workflow scope"), "{message}"),
        _ => panic!("expected a failure"),
    }
    match client().validate_token_scopes(&vec![user(Some("workflow"))], 0) {
        Progress::Failed(message) => assert!(message.contains("repo"), "{message}"),
        _ => panic!("expected a failure"),
    }
    done(client().validate_token_scopes(&vec![user(Some("repo, workflow"))], 0));
    done(client().validate_token_scopes(&vec![user(None)], 0));
    match anonymous_client().validate_token_scopes(&Vec::new(), 0) {
        Progress::Failed(message) => assert!(message.contains("token"), "{message}"),
        _ => panic!("expected a failure"),
    }
}

#[test]
fn discovers_latest_release_and_falls_back_to_tags() {
    let client = anonymous_client();
    let release = converse(
        &[
            ("/repos/actions/checkout/releases/latest", name("v5")),
            (
                "/repos/actions/checkout/commits/v5",
                name("1111111111111111111111111111111111111111"),
            ),
        ],
        |docs| client.latest_reference("actions", "checkout", docs, 0),
    );
    assert_eq!(release.version, "v5");
    assert_eq!(release.sha, "1111111111111111111111111111111111111111");

    let fallback = converse(
        &[
            ("/repos/custom/action/releases/latest", Document::Missing),
            (
                "/repos/custom/action/tags?per_page=1",
                Document::Tags(vec![tag("v1.2.3", "2222222222222222222222222222222222222222")]),
            ),
        ],
        |docs| client.latest_reference("custom", "action", docs, 0),
    );
    assert_eq!(fallback.version, "v1.2.3");
    assert_eq!(fallback.sha, "2222222222222222222222222222222222222222");
}

#[test]
fn failures_of_the_server_are_retried_until_the_policy_is_used_up() {
    let client = impatient_client(None);
    let request = resolve(&client, "a", "b", "c");
    let broken =
        || Outcome::Response(response(503, "503 Service Unavailable", "down"));
    assert!(matches!(
        send(&client, &request, &[(None, broken()), (None, broken())]),
        End::Failed(message) if message.contains("503")
    ));
    let lost = || Outcome::Broken { transient: true, message: String::from("timed out") };
    assert!(matches!(
        send(&client, &request, &[(None, lost()), (None, ok("x"))]),
        End::Body(body) if body == "x"
    ));
    let wrong = Outcome::Broken { transient: false, message: String::from("bad url") };
    assert!(matches!(
        send(&client, &request, &[(None, wrong)]),
        End::Failed(message) if message.contains("bad url")
    ));
}

#[test]
fn callers_without_a_token_are_told_of_the_rate_limit() {
    let limited = || forbidden("API Rate Limit exceeded for 10.0.0.1");
    let client = anonymous_client();
    let request = resolve(&client, "a", "b", "c");
    assert_eq!(
        send(&client, &request, &[(None, limited())]),
        End::Failed(String::from(
            "resolve a/b@c: GitHub API rate limit exceeded. Provide --token or GITHUB_TOKEN for higher limits."
        ))
    );
}

#[test]
fn the_end_of_a_rate_limit_is_waited_for() {
    let client = anonymous_client();
    let request = resolve(&client, "a", "b", "c");
    let mut limited = response(403, "403 Forbidden", "API rate limit exceeded");
    limited.rate_limit_remaining = Some(String::from("0"));
    limited.rate_limit_reset = Some((limited.received_at + 90).to_string());
    assert_eq!(
        client.next_step(&request, &vec![Outcome::Response(limited.clone())]),
        Step::Send { anonymous: false, delay: 90_100 }
    );
    limited.rate_limit_reset = Some((limited.received_at + 6_000).to_string());
    assert_eq!(
        client.next_step(&request, &vec![Outcome::Response(limited)]),
        Step::Send { anonymous: false, delay: 1_000 }
    );
}

#[test]
fn backoff_doubles_up_to_the_limit() {
    let policy = RetryPolicy { max_retries: 9, retry_delay: 100, max_retry_delay: 1_000 };
    let delays: Vec<u64> = (0..6).map(|attempt| policy.calculate_backoff(attempt)).collect();
    assert_eq!(delays, [100, 200, 400, 800, 1_000, 1_000]);
    let policy = RetryPolicy { max_retries: 9, retry_delay: 0, max_retry_delay: 1_000 };
    assert_eq!(policy.calculate_backoff(u32::MAX), 0);
}

#[test]
fn names_are_encoded_in_paths() {
    let request = asked(client().resolve_reference("o", "r", "a b+é", &Vec::new(), 0));
    assert_eq!(request.path, "/repos/o/r/commits/a%20b%2B%C3%A9");
    let request = asked(client().find_open_pull_request(
        "acme",
        "demo",
        "automation/release",
        "main",
        &Vec::new(),
        0,
    ));
    assert_eq!(
        request.path,
        "/repos/acme/demo/pulls?state=open&head=acme%3Aautomation%2Frelease&base=main&per_page=100"
    );
}

#[test]
fn the_first_open_pull_request_is_found() {
    let found = |number: u64| PullRequestInfo { number, url: format!("https://example.test/{number}") };
    let docs = vec![Document::PullRequests(vec![found(3), found(9)])];
    let first = done(client().find_open_pull_request("a", "b", "h", "m", &docs, 0));
    assert_eq!(first, Some(found(3)));
    let docs = vec![Document::PullRequests(Vec::new())];
    assert_eq!(done(client().find_open_pull_request("a", "b", "h", "m", &docs, 0)), None);
}

#[test]
fn the_greatest_version_tag_is_found() {
    let tags: Vec<TagInfo> = ["v1.9.0", "v1.10.0-rc.1", "v1.10.0", "x2.0.0", "v2", "v1.2.0"]
        .iter()
        .map(|name| tag(name, "sha"))
        .collect();
    assert_eq!(greatest_tag("v", &tags).map(|tag| tag.name).as_deref(), Some("v1.10.0"));
    assert_eq!(greatest_tag("x", &tags).map(|tag| tag.name).as_deref(), Some("x2.0.0"));
    assert_eq!(greatest_tag("y", &tags), None);
}

#[test]
fn releases_come_behind_their_candidates() {
    let rising = [
        "v1.0.0-alpha",
        "v1.0.0-alpha.1",
        "v1.0.0-alpha.beta",
        "v1.0.0-beta",
        "v1.0.0-beta.2",
        "v1.0.0-beta.11",
        "v1.0.0-rc.1",
        "v1.0.0",
        "v1.0.1-rc.1",
    ];
    for pair in rising.windows(2) {
        let tags = vec![tag(pair[0], "a"), tag(pair[1], "b")];
        assert_eq!(greatest_tag("v", &tags).map(|tag| tag.name).as_deref(), Some(pair[1]));
        let tags = vec![tag(pair[1], "b"), tag(pair[0], "a")];
        assert_eq!(greatest_tag("v", &tags).map(|tag| tag.name).as_deref(), Some(pair[1]));
    }
    let twice = vec![tag("v1.0.0", "a"), tag("v1.0.0", "b")];
    assert_eq!(greatest_tag("v", &twice).and_then(|tag| tag.sha).as_deref(), Some("b"));
}
