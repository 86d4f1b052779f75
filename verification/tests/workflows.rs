use github_actions_maintainer::api::{Document, Method, Progress};
use github_actions_maintainer::model::{
    is_full_length_sha, FileUpdate, PinChange, PolicySeverity, PolicyViolationType, ScriptType,
};
use github_actions_maintainer::paths::discover_workflow_files;
use github_actions_maintainer::pinning::PinOutcome;
use github_actions_maintainer::policy::{scan_policy_violations, summarize};
use github_actions_maintainer::report::{
    action_status_lines, pin_summary, policy_fails, script_lines, violation_lines,
    write_action_status_headline, write_policy_headline,
};
use github_actions_maintainer::scripts::scan_workflow_scripts;
use github_actions_maintainer::workflow::{
    apply_changes, apply_changes_to_content, scan_workflow, WorkflowFile,
};
use github_actions_maintainer::{
    GitHubClient, PinMode, PinOptions, PolicyOptions, PolicyReport, PolicyScanner, UpdateMode,
    UpdateOptions, UpdateReport, WorkflowPinner, WorkflowUpdater,
};

fn workflow(name: &str, content: &str) -> WorkflowFile {
    WorkflowFile {
        path: format!("/work/.github/workflows/{name}"),
        content: content.to_owned(),
    }
}

fn github() -> GitHubClient {
    GitHubClient::new("https://api.test", None)
}

#[test]
fn scan_workflow_collects_github_actions() {
    let workflow = workflow(
        "ci.yml",
        r"jobs:
  lint:
    steps:
      - uses: actions/checkout@v4
      - uses: github/codeql-action/init@v3 # security
      - uses: ./local-action
      - uses: docker://ghcr.io/acme/tool:latest
      - uses: ${{ matrix.action }}
",
    );

    let actions = scan_workflow(&workflow);

    assert_eq!(actions.len(), 2);
    assert_eq!(actions[0].action_slug, "actions/checkout");
    assert_eq!(actions[0].version, "v4");
    assert_eq!(actions[1].action_slug, "github/codeql-action/init");
    assert_eq!(actions[1].inline_comment.as_deref(), Some("security"));
}

#[test]
fn discover_workflow_files_only_returns_yaml() {
    let files = discover_workflow_files(&vec![
        String::from("/work/.github/workflows/ci.yml"),
        String::from("/work/.github/workflows/release.yaml"),
        String::from("/work/.github/workflows/notes.txt"),
    ]);

    assert_eq!(files.len(), 2);
}

fn change(line_number: usize, slug: &str, sha: &str, original: &str, rewritten: &str) -> PinChange {
    PinChange {
        file: String::from("/work/.github/workflows/ci.yml"),
        line_number,
        action_slug: slug.to_owned(),
        from_version: String::from("v4"),
        to_sha: sha.to_owned(),
        original_line: original.to_owned(),
        rewritten_line: rewritten.to_owned(),
    }
}

#[test]
fn apply_changes_rewrites_target_lines() {
    let file = workflow(
        "ci.yml",
        "steps:\n  - uses: actions/checkout@v4\n  - uses: actions/cache@v4\n",
    );
    let changes = vec![
        change(
            2,
            "actions/checkout",
            "0123456789abcdef0123456789abcdef01234567",
            "  - uses: actions/checkout@v4",
            "  - uses: actions/checkout@0123456789abcdef0123456789abcdef01234567  # v4",
        ),
        change(
            3,
            "actions/cache",
            "89abcdef0123456789abcdef0123456789abcdef",
            "  - uses: actions/cache@v4",
            "  - uses: actions/cache@89abcdef0123456789abcdef0123456789abcdef  # v4",
        ),
    ];

    let updates = apply_changes(&vec![file], &changes).expect("apply changes");

    assert_eq!(updates.len(), 1);
    let updated = &updates[0].updated_content;
    assert!(
        updated
            .contains("  - uses: actions/checkout@0123456789abcdef0123456789abcdef01234567  # v4")
    );
    assert!(
        updated.contains("  - uses: actions/cache@89abcdef0123456789abcdef0123456789abcdef  # v4")
    );
}

#[test]
fn files_before_a_failure_are_rewritten() {
    let named = |path: &str, line_number: usize| PinChange {
        file: String::from(path),
        ..change(line_number, "o/r", "x", "two", "TWO")
    };
    let file = |path: &str| WorkflowFile {
        path: String::from(path),
        content: String::from("one\ntwo\n"),
    };
    let files = vec![file("a.yml"), file("b.yml"), file("c.yml"), file("d.yml")];
    let changes = vec![named("d.yml", 2), named("c.yml", 3), named("a.yml", 2)];

    let failure = apply_changes(&files, &changes).expect_err("line behind the end");

    assert_eq!(failure.message, "cannot rewrite content: line 3 is outside the file");
    assert_eq!(
        failure.written,
        vec![FileUpdate {
            file: String::from("a.yml"),
            updated_content: String::from("one\nTWO\n"),
        }]
    );
}

#[test]
fn only_the_named_lines_change() {
    let content = "a\r\n  - uses: o/r@v1\r\nb";
    let rewritten = change(2, "o/r", "x", "  - uses: o/r@v1", "  - uses: o/r@x  # v1");
    assert_eq!(
        apply_changes_to_content(content, &[&rewritten]).as_deref(),
        Ok("a\r\n  - uses: o/r@x  # v1\r\nb")
    );
    assert_eq!(apply_changes_to_content(content, &[]).as_deref(), Ok(content));
    let beyond = change(9, "o/r", "x", "", "y");
    assert!(apply_changes_to_content(content, &[&beyond]).is_err());
}

#[test]
fn full_commits_are_told_from_versions() {
    assert!(is_full_length_sha("0123456789abcdef0123456789abcdef01234567"));
    assert!(is_full_length_sha("0123456789ABCDEF0123456789abcdef01234567"));
    assert!(!is_full_length_sha("0123456789abcdef0123456789abcdef0123456"));
    assert!(!is_full_length_sha("0123456789abcdef0123456789abcdef0123456g"));
    assert!(!is_full_length_sha("v4"));
}

/// Answers the requests of a call, by their paths, until it comes to something.
fn converse<T>(
    answers: &[(&str, Document)],
    call: impl Fn(&Vec<Document>) -> Progress<T>,
) -> Result<T, String> {
    let mut docs = Vec::new();
    loop {
        match call(&docs) {
            Progress::Ask(request) => {
                assert_eq!(request.method, Method::Get);
                let answer = answers.iter().find(|(path, _)| *path == request.path);
                docs.push(answer.expect("an answer").1.clone());
            }
            Progress::Done(value, read) => {
                assert_eq!(read, docs.len());
                return Ok(value);
            }
            Progress::Failed(message) => return Err(message),
        }
    }
}

fn name(text: &str) -> Document {
    Document::Name(text.to_owned())
}

/// Pins the actions of a workflow; the answers are given by path.
fn pin(file: &WorkflowFile, mode: PinMode, answers: &[(&str, &str)]) -> PinOutcome {
    let pinner = WorkflowPinner::new(github());
    let files = vec![file.clone()];
    let answers: Vec<(&str, Document)> =
        answers.iter().map(|(path, sha)| (*path, name(sha))).collect();
    let options = PinOptions {
        repo_root: String::from("/work"),
        workflows_path: String::from(".github/workflows"),
        mode,
    };
    converse(&answers, |docs| pinner.pin(&options, &files, docs)).expect("pin workflows")
}

#[test]
fn pin_dry_run_reports_changes_without_rewriting_files() {
    let file = workflow(
        "ci.yml",
        "steps:\n  - uses: actions/checkout@v4\n  - uses: actions/cache@668228422ae6a00e4ad889ee87cd7109ec5666a7  # v5.0.4\n",
    );

    let outcome = pin(
        &file,
        PinMode::DryRun,
        &[(
            "/repos/actions/checkout/commits/v4",
            "de0fac2e4500dabe0009e67214ff5f5447ce83dd",
        )],
    );

    assert_eq!(outcome.report.workflow_files, 1);
    assert_eq!(outcome.report.references_scanned, 2);
    assert_eq!(outcome.report.already_pinned, 1);
    assert_eq!(outcome.report.changes.len(), 1);
    assert!(outcome.file_updates.is_empty());
    assert_eq!(
        pin_summary(&outcome.report, true),
        [
            "Dry run: would pin 1 action references across 1 files.",
            "- /work/.github/workflows/ci.yml:2 actions/checkout@v4 -> de0fac2e4500dabe0009e67214ff5f5447ce83dd",
        ]
    );
}

#[test]
fn pin_apply_rewrites_workflow_files() {
    let file = workflow(
        "release.yml",
        "steps:\n  - uses: github/codeql-action/init@v3 # security scan\n",
    );

    let outcome = pin(
        &file,
        PinMode::Apply,
        &[(
            "/repos/github/codeql-action/commits/v3",
            "3d8036cf7fe7433e4a725cf513a6ea56c7fd0f14",
        )],
    );

    assert_eq!(outcome.report.changes.len(), 1);
    let content = &outcome.file_updates[0].updated_content;
    assert!(content.contains(
        "  - uses: github/codeql-action/init@3d8036cf7fe7433e4a725cf513a6ea56c7fd0f14  # v3 | security scan"
    ));
    let again = scan_workflow(&workflow("release.yml", content));
    assert!(again[0].is_pinned());
    assert_eq!(again[0].logical_version(), "v3");
    let outcome = pin(&workflow("release.yml", content), PinMode::Apply, &[]);
    assert!(outcome.report.changes.is_empty());
    assert_eq!(
        pin_summary(&outcome.report, false),
        ["No floating GitHub Actions references needed pinning. Scanned 1 references across 1 workflow files; 1 were already pinned."]
    );
}

/// Updates the actions of a workflow; the answers are given by path.
fn update(file: &WorkflowFile, mode: UpdateMode, answers: &[(&str, &str)]) -> UpdateReport {
    let updater = WorkflowUpdater::new(github());
    let files = vec![file.clone()];
    let answers: Vec<(&str, Document)> =
        answers.iter().map(|(path, text)| (*path, name(text))).collect();
    let options = UpdateOptions {
        repo_root: String::from("/work"),
        workflows_path: String::from(".github/workflows"),
        mode,
    };
    converse(&answers, |docs| updater.update(&options, &files, docs)).expect("update workflows")
}

#[test]
fn update_dry_run_reports_latest_versions_without_rewriting() {
    let file = workflow(
        "ci.yml",
        "steps:\n  - uses: actions/checkout@v4\n  - uses: actions/cache@668228422ae6a00e4ad889ee87cd7109ec5666a7  # v5.0.4\n",
    );

    let report = update(
        &file,
        UpdateMode::DryRun,
        &[
            ("/repos/actions/checkout/releases/latest", "v5"),
            (
                "/repos/actions/checkout/commits/v5",
                "de0fac2e4500dabe0009e67214ff5f5447ce83dd",
            ),
            ("/repos/actions/cache/releases/latest", "v5.0.5"),
            (
                "/repos/actions/cache/commits/v5.0.5",
                "aaaaaaaaaaaaaaaaaaaaaaaaaaaaaaaaaaaaaaaa",
            ),
        ],
    );

    assert_eq!(report.entries.len(), 2);
    assert_eq!(report.changes.len(), 2);
    assert_eq!(report.entries[0].latest_version, "v5");
    assert_eq!(report.entries[0].current_version, "v4");
    assert!(report.entries[0].update_needed);
    assert_eq!(report.changed_files(), 1);
}

#[test]
fn status_tracks_current_and_latest_versions() {
    let file = workflow(
        "release.yml",
        "steps:\n  - uses: github/codeql-action/init@3d8036cf7fe7433e4a725cf513a6ea56c7fd0f14  # v2.25.0 | code scanning\n",
    );

    let report = update(
        &file,
        UpdateMode::Status,
        &[
            ("/repos/github/codeql-action/releases/latest", "v2.26.0"),
            (
                "/repos/github/codeql-action/commits/v2.26.0",
                "bbbbbbbbbbbbbbbbbbbbbbbbbbbbbbbbbbbbbbbb",
            ),
        ],
    );

    assert_eq!(report.entries.len(), 1);
    assert_eq!(report.entries[0].current_version, "v2.25.0");
    assert_eq!(report.entries[0].latest_version, "v2.26.0");
    assert!(report.entries[0].pinned);
    assert!(report.entries[0].update_needed);
    assert!(report.changes.is_empty());
    assert!(report.file_updates.is_empty());
    assert_eq!(
        write_action_status_headline(&report),
        "Scanned 1 action references across 1 workflow files. 1 need changes."
    );
    assert_eq!(
        action_status_lines(&report.entries),
        ["- /work/.github/workflows/release.yml:2 github/codeql-action/init current=v2.25.0 latest=v2.26.0 pinned=true status=update-needed"]
    );
}

#[test]
fn an_updated_line_is_current() {
    let answers = [
        ("/repos/o/r/releases/latest", "v2"),
        ("/repos/o/r/commits/v2", "bbbbbbbbbbbbbbbbbbbbbbbbbbbbbbbbbbbbbbbb"),
    ];
    let report = update(&workflow("ci.yml", "- uses: o/r@v1 # note\n"), UpdateMode::Apply, &answers);
    let content = &report.file_updates[0].updated_content;
    assert_eq!(content, "- uses: o/r@bbbbbbbbbbbbbbbbbbbbbbbbbbbbbbbbbbbbbbbb  # v2 | note\n");
    let report = update(&workflow("ci.yml", content), UpdateMode::Apply, &answers);
    assert!(!report.entries[0].update_needed);
    assert!(report.changes.is_empty());
}

#[test]
fn every_action_is_current_after_an_update() {
    let answers = [
        ("/repos/o/r/releases/latest", "v2"),
        ("/repos/o/r/commits/v2", "bbbbbbbbbbbbbbbbbbbbbbbbbbbbbbbbbbbbbbbb"),
        ("/repos/p/q/releases/latest", "main"),
        ("/repos/p/q/commits/main", "cccccccccccccccccccccccccccccccccccccccc"),
    ];
    let content = "steps:\r\n- uses: o/r@v1\r\n- run: true\r\n- uses: p/q/sub@main\r\n- uses: o/r@bbbbbbbbbbbbbbbbbbbbbbbbbbbbbbbbbbbbbbbb  # v2\n- uses: ./local";
    let report = update(&workflow("ci.yml", content), UpdateMode::Apply, &answers);
    assert_eq!(report.changes.len(), 2);
    let content = &report.file_updates[0].updated_content;
    assert_eq!(
        content,
        "steps:\r\n- uses: o/r@bbbbbbbbbbbbbbbbbbbbbbbbbbbbbbbbbbbbbbbb  # v2\r\n- run: true\r\n- uses: p/q/sub@cccccccccccccccccccccccccccccccccccccccc  # main\r\n- uses: o/r@bbbbbbbbbbbbbbbbbbbbbbbbbbbbbbbbbbbbbbbb  # v2\n- uses: ./local"
    );
    let report = update(&workflow("ci.yml", content), UpdateMode::Apply, &answers);
    assert_eq!(report.references_scanned, 3);
    assert!(report.entries.iter().all(|entry| !entry.update_needed));
    assert!(report.file_updates.is_empty());
}

#[test]
fn names_that_do_not_look_like_versions_stay_outdated() {
    let answers = [
        ("/repos/o/r/releases/latest", "release-2"),
        ("/repos/o/r/commits/release-2", "bbbbbbbbbbbbbbbbbbbbbbbbbbbbbbbbbbbbbbbb"),
    ];
    let report = update(&workflow("ci.yml", "- uses: o/r@v1\n"), UpdateMode::Apply, &answers);
    let content = &report.file_updates[0].updated_content;
    let report = update(&workflow("ci.yml", content), UpdateMode::Status, &answers);
    assert!(report.entries[0].pinned);
    assert!(report.entries[0].update_needed);
}

#[test]
fn answers_that_are_no_commits_are_refused() {
    let pinner = WorkflowPinner::new(github());
    let files = vec![workflow("ci.yml", "- uses: o/r@v1\n")];
    let options = PinOptions {
        repo_root: String::from("/work"),
        workflows_path: String::from(".github/workflows"),
        mode: PinMode::Apply,
    };
    let error = converse(&[("/repos/o/r/commits/v1", Document::Nothing)], |docs| {
        pinner.pin(&options, &files, docs)
    });
    assert_eq!(error.unwrap_err(), "resolve o/r@v1: unexpected answer");
}

fn scan(files: &Vec<WorkflowFile>, check_scripts: bool, check_policies: bool) -> PolicyReport {
    PolicyScanner::new().scan(
        &PolicyOptions {
            repo_root: String::from("/work"),
            workflows_path: String::from(".github/workflows"),
            check_scripts,
            check_policies,
        },
        files,
    )
}

#[test]
fn scanner_reports_scripts_and_policy_violations() {
    let file = workflow(
        "ci.yml",
        r"name: CI

on:
  pull_request:

permissions:
  contents: write

jobs:
  lint:
    runs-on: ubuntu-latest
    steps:
      - uses: actions/checkout@v4
      - run: python3 scripts/check.py
      - run: ./bin/bootstrap.sh
",
    );
    let report = scan(&vec![file], true, true);


    assert_eq!(report.workflow_files, 1);
    assert_eq!(report.summary.total_scripts, 2);
    assert_eq!(report.summary.bash_scripts, 1);
    assert_eq!(report.summary.python_scripts, 1);
    assert!(report.script_usages.iter().any(|usage| usage.script_type == ScriptType::Bash));
    assert!(report.script_usages.iter().any(|usage| usage.script_type == ScriptType::Python));
    assert!(
        report
            .policy_violations
            .iter()
            .any(|violation| violation.violation_type == PolicyViolationType::UnpinnedAction)
    );
    assert!(
        report
            .policy_violations
            .iter()
            .any(|violation| violation.violation_type
                == PolicyViolationType::ExcessivePermissions)
    );
    assert!(report.policy_violations.iter().any(
        |violation| violation.violation_type == PolicyViolationType::MissingTimeoutMinutes
    ));
}

#[test]
fn scanner_treats_missing_workflow_directory_as_empty_report() {
    let report = scan(&Vec::new(), true, true);


    assert_eq!(report.workflow_files, 0);
    assert!(!report.has_findings());
}

#[test]
fn scanner_accepts_compliant_workflow() {
    let file = workflow(
        "ci.yml",
        r"name: CI

on:
  pull_request:

permissions:
  contents: read

jobs:
  lint:
    timeout-minutes: 10
    runs-on: ubuntu-latest
    steps:
      - uses: actions/checkout@0123456789abcdef0123456789abcdef01234567 # v4
      - run: cargo test
",
    );
    let report = scan(&vec![file], true, true);


    assert_eq!(report.workflow_files, 1);
    assert!(!report.has_findings());
}

#[test]
fn scanner_stops_job_permission_blocks_at_sibling_fields() {
    let file = workflow(
        "ci.yml",
        r"name: CI

on:
  pull_request:

permissions:
  contents: read

jobs:
  lint:
    permissions:
      contents: read
    timeout-minutes: 10
    runs-on: ubuntu-latest
    steps:
      - run: cargo test
",
    );
    let report = scan(&vec![file], false, true);


    assert!(
        !report
            .policy_violations
            .iter()
            .any(|violation| violation.violation_type
                == PolicyViolationType::ExcessivePermissions)
    );
}

#[test]
fn scanner_flags_missing_top_level_permissions_and_write_all() {
    let file = workflow(
        "release.yml",
        r"name: Release

on:
  workflow_dispatch:

jobs:
  release:
    permissions: write-all
    timeout-minutes: 20
    runs-on: ubuntu-latest
    steps:
      - run: cargo test
",
    );
    let report = scan(&vec![file], false, true);


    assert!(
        report.policy_violations.iter().any(
            |violation| violation.violation_type == PolicyViolationType::MissingPermissions
        )
    );
    assert!(
        report
            .policy_violations
            .iter()
            .any(|violation| violation.severity == PolicySeverity::High)
    );
}

#[test]
fn findings_are_counted_and_printed() {
    let file = workflow("ci.yml", "permissions:\n  contents: read\njobs:\n  a:\n    timeout-minutes: 5\n    steps:\n      - uses: o/r@v1\n      - run: python3 x.py\n      - shell: bash\n");
    let report = scan(&vec![file.clone()], true, true);
    assert_eq!(report.summary, summarize(&report.script_usages, &report.policy_violations));
    assert_eq!(report.script_usages, scan_workflow_scripts(&file));
    assert_eq!(report.policy_violations, scan_policy_violations(&file));
    assert_eq!(report.summary.python_scripts, 1);
    assert_eq!(report.summary.bash_scripts, 1);
    assert_eq!(report.summary.high_violations, 1);
    assert_eq!(
        write_policy_headline(&report),
        "Scanned 1 workflow files. Found 2 script usages and 1 policy findings."
    );
    assert_eq!(
        violation_lines(&report.policy_violations),
        ["- /work/.github/workflows/ci.yml:7 high external action 'o/r' should be pinned to a full 40-character commit SHA"]
    );
    assert_eq!(script_lines(&report.script_usages).len(), 2);
    assert!(policy_fails(&report, true));
    assert!(!policy_fails(&report, false));
    assert!(!policy_fails(&scan(&Vec::new(), true, true), true));
}
