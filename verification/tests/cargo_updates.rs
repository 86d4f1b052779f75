use github_actions_maintainer::cargo::{
    discover_lockfile_manifests, discover_manifest_files, parse_requirement, rewrite_requirement,
    should_scan_entry, CargoProgress, CrateVersion, ManifestFile,
};
use github_actions_maintainer::crates_io::{
    select_stable_version, CrateMetadata, CratesIoClient, CratesIoClientOptions, CratesStep,
};
use github_actions_maintainer::report::{
    cargo_status_label, change_lines, combine_updates, count_changed_files,
    dependency_status_lines, noop_summary, update_mode, update_step, write_dependency_status_headline,
    write_update_headline, UpdateStep,
};
use github_actions_maintainer::transport::{HttpResponse, Outcome};
use github_actions_maintainer::{
    CargoUpdateOptions, CargoUpdateReport, CargoUpdater, FileUpdate, PullRequestResult, UpdateMode,
};

/// Updates a manifest; the answers are given by crate.
fn update(content: &str, mode: UpdateMode, answers: &[(&str, &str)]) -> Result<CargoUpdateReport, String> {
    let updater = CargoUpdater::new(CratesIoClient::new("https://crates.test"));
    let options = CargoUpdateOptions { repo_root: String::from("/work"), mode };
    let manifests =
        vec![ManifestFile { path: String::from("/work/Cargo.toml"), content: content.to_owned() }];
    let mut known = Vec::new();
    loop {
        match updater.update(&options, &manifests, &known) {
            CargoProgress::Ask(name) => {
                let answer = answers.iter().find(|(mocked, _)| *mocked == name);
                let (_, version) = answer.expect("an answer");
                known.push(CrateVersion { name, version: (*version).to_owned() });
            }
            CargoProgress::Done(report) => return Ok(report),
            CargoProgress::Failed(message) => return Err(message),
        }
    }
}

#[test]
fn status_reports_registry_dependencies_and_skips_unmanaged_entries() {
    let report = update(
        r#"[package]
name = "demo"
version = "0.1.0"
edition = "2024"

[dependencies]
anyhow = "1.0.95"
serde = { version = "^1.0.200", features = ["derive"] }
local-crate = { path = "../local-crate" }
git-crate = { git = "https://github.com/example/git-crate" }

[target.'cfg(unix)'.dependencies]
regex = "~1.10.0"
"#,
        UpdateMode::Status,
        &[("anyhow", "1.0.100"), ("serde", "1.0.219"), ("regex", "1.11.1")],
    )
    .expect("cargo status");

    assert_eq!(report.manifest_files, 1);
    assert_eq!(report.dependencies_scanned, 5);
    assert_eq!(report.unmanaged_dependencies, 2);
    assert_eq!(report.entries.len(), 5);

    let anyhow = report
        .entries
        .iter()
        .find(|entry| entry.dependency_name == "anyhow")
        .expect("anyhow entry");
    assert_eq!(anyhow.current_requirement.as_deref(), Some("1.0.95"));
    assert_eq!(anyhow.latest_version.as_deref(), Some("1.0.100"));
    assert!(anyhow.managed);
    assert!(anyhow.update_needed);

    let local = report
        .entries
        .iter()
        .find(|entry| entry.dependency_name == "local-crate")
        .expect("local entry");
    assert!(!local.managed);
    assert_eq!(local.reason.as_deref(), Some("path dependency"));

    assert!(report.changes.is_empty());
    assert_eq!(cargo_status_label(anyhow), "update-needed");
    assert_eq!(cargo_status_label(local), "unmanaged");
    assert_eq!(
        write_dependency_status_headline(&report),
        "Scanned 5 cargo dependencies across 1 manifests. 3 need changes; 2 are unmanaged."
    );
    let lines = dependency_status_lines(&report.entries);
    assert!(lines.contains(&String::from(
        "- /work/Cargo.toml anyhow current=1.0.95 latest=1.0.100 managed=true status=update-needed"
    )));
    assert!(lines.contains(&String::from(
        "- /work/Cargo.toml local-crate current=n/a latest=n/a managed=false status=unmanaged reason=path dependency"
    )));
}

const SUPPORTED: &str = r#"[package]
name = "demo"
version = "0.1.0"
edition = "2024"

[dependencies]
anyhow = "1.0.95"
serde = { version = "^1.0.200", features = ["derive"] }
regex = { version = "~1.10.0" }
reqwest = { version = "=0.12.13", default-features = false }
"#;

const ANSWERS: [(&str, &str); 4] =
    [("anyhow", "1.0.100"), ("serde", "1.0.219"), ("regex", "1.11.1"), ("reqwest", "0.12.15")];

#[test]
fn apply_rewrites_supported_dependency_versions() {
    let report = update(SUPPORTED, UpdateMode::Apply, &ANSWERS).expect("cargo update");

    let manifest_contents = &report.file_updates[0].updated_content;
    assert!(manifest_contents.contains(r#"anyhow = "1.0.100""#), "{manifest_contents}");
    assert!(manifest_contents.contains(r#"version = "^1.0.219""#), "{manifest_contents}");
    assert!(manifest_contents.contains(r#"version = "~1.11.1""#), "{manifest_contents}");
    assert!(manifest_contents.contains(r#"version = "=0.12.15""#), "{manifest_contents}");

    let again = update(manifest_contents, UpdateMode::Apply, &ANSWERS).expect("cargo update");
    assert!(again.changes.is_empty());
    assert!(again.file_updates.is_empty());
}

#[test]
fn manifests_that_cannot_be_read_are_named() {
    let error = update("[dependencies", UpdateMode::Status, &[]).unwrap_err();
    assert!(error.contains("/work/Cargo.toml"), "{error}");
}

#[test]
fn requirements_only_go_up() {
    let content = "[dependencies]\na = \"2.0.0\"\nb = \"~1.4\"\nc = \"=1.0.0\"\n";
    let answers = [("a", "1.9.9"), ("b", "1.4.0"), ("c", "1.0.1")];
    let report = update(content, UpdateMode::Apply, &answers).expect("cargo update");
    assert_eq!(report.changes.len(), 1);
    assert_eq!(report.changes[0].subject, "c");
    assert_eq!(report.changes[0].to_version, "=1.0.1");
    assert_eq!(
        report.file_updates[0].updated_content,
        "[dependencies]\na = \"2.0.0\"\nb = \"~1.4\"\nc = \"=1.0.1\"\n"
    );
}

#[test]
fn requirements_keep_their_operator() {
    assert_eq!(rewrite_requirement("1.0.95", "1.2.0").as_deref(), Some("1.2.0"));
    assert_eq!(rewrite_requirement("^1.0", "1.2.0").as_deref(), Some("^1.2.0"));
    assert_eq!(rewrite_requirement("=0.12.13", "0.12.15").as_deref(), Some("=0.12.15"));
    assert_eq!(rewrite_requirement(">=1, <2", "1.2.0"), None);
    assert_eq!(rewrite_requirement("*", "1.2.0"), None);
    assert!(parse_requirement("~1.10.0").is_some_and(|(operator, version)| {
        operator == "~" && version.to_text() == "1.10.0"
    }));
}

#[test]
fn operators_and_versions_are_rewritten() {
    for operator in ["", "^", "~", "="] {
        for version in ["1.10.0", "0.0.1", "1.2.3-rc.1", "1.0.0-a-b.2+build.7", "4.5.6+x"] {
            for latest in ["1.11.1", "2.0.0-beta", "3.0.0+meta.1"] {
                let rewritten = rewrite_requirement(&format!("{operator}{version}"), latest);
                assert_eq!(rewritten, Some(format!("{operator}{latest}")));
                let again = rewrite_requirement(&format!("{operator}{latest}"), latest);
                assert_eq!(again, rewritten);
            }
        }
    }
    for unsupported in ["", "  ", "1.*", ">=1.0.0", "<2", "1.0.0, 1.1.0", "= 1.0.0", " 1 2 "] {
        assert_eq!(rewrite_requirement(unsupported, "1.0.0"), None, "'{unsupported}'");
    }
}

#[test]
fn manifests_and_lockfiles_are_found() {
    let files = vec![
        String::from("/work/b/Cargo.toml"),
        String::from("/work/Cargo.toml"),
        String::from("/work/Cargo.lock"),
        String::from("/work/src/lib.rs"),
    ];
    assert_eq!(discover_manifest_files(&files), ["/work/Cargo.toml", "/work/b/Cargo.toml"]);
    assert_eq!(discover_lockfile_manifests(&files), ["/work/Cargo.toml"]);
    assert!(should_scan_entry(0, true, &Some(String::from("target"))));
    assert!(!should_scan_entry(1, true, &Some(String::from("target"))));
    assert!(!should_scan_entry(1, true, &Some(String::from(".git"))));
    assert!(should_scan_entry(1, true, &Some(String::from("crates"))));
    assert!(should_scan_entry(1, false, &Some(String::from("Cargo.toml"))));
}

fn metadata(latest: &str, latest_stable: Option<&str>, newest: &str) -> CrateMetadata {
    CrateMetadata {
        latest: Some(latest.to_owned()),
        latest_stable: latest_stable.map(|version| version.to_owned()),
        newest: Some(newest.to_owned()),
    }
}

fn response(status: u16, status_text: &str, body: &str) -> HttpResponse {
    HttpResponse {
        status,
        status_text: status_text.to_owned(),
        has_retry_after: false,
        retry_after: None,
        rate_limit_remaining: None,
        rate_limit_reset: None,
        body: Some(body.to_owned()),
        received_at: 1_700_000_000,
    }
}

#[test]
fn latest_stable_version_prefers_max_stable_version() {
    let client = CratesIoClient::new("https://crates.test/");
    assert_eq!(client.url("reqwest"), "https://crates.test/crates/reqwest");
    assert!(matches!(
        client.next_step("reqwest", &Vec::new()),
        CratesStep::Send { delay: 0 }
    ));
    assert!(matches!(
        client.next_step("reqwest", &vec![Outcome::Response(response(200, "200 OK", "{}"))]),
        CratesStep::Deliver(0)
    ));
    let latest = client
        .latest_stable_version(
            "reqwest",
            &metadata("0.14.0-beta.1", Some("0.13.2"), "0.14.0-beta.1"),
        )
        .expect("latest stable version");

    assert_eq!(latest, "0.13.2");
}

#[test]
fn latest_stable_version_retries_after_rate_limit() {
    let client = CratesIoClient::with_options(&CratesIoClientOptions {
        base_url: String::from("https://crates.test"),
        timeout: 5_000,
        max_retries: 1,
        retry_delay: 1,
        max_retry_delay: 5,
    });
    let mut limited =
        response(429, "429 Too Many Requests", r#"{"errors":[{"detail":"slow down"}]}"#);
    limited.has_retry_after = true;
    limited.retry_after = Some(String::from("0"));
    let limited = Outcome::Response(limited);
    match client.next_step("serde", &vec![limited.clone()]) {
        CratesStep::Send { delay } => assert!(delay <= 5),
        step => panic!("expected another request, not {step:?}"),
    }
    let fine = Outcome::Response(response(200, "200 OK", "{}"));
    assert!(matches!(
        client.next_step("serde", &vec![limited.clone(), fine]),
        CratesStep::Deliver(1)
    ));
    assert!(matches!(
        client.next_step("serde", &vec![limited.clone(), limited]),
        CratesStep::Fail(message) if message.contains("429")
    ));
    let latest = client
        .latest_stable_version("serde", &metadata("1.0.219", Some("1.0.219"), "1.0.219"))
        .expect("latest stable version");

    assert_eq!(latest, "1.0.219");
}

#[test]
fn crates_that_are_missing_or_unstable_are_refused() {
    let client = CratesIoClient::new("https://crates.test");
    let missing = Outcome::Response(response(404, "404 Not Found", "gone"));
    match client.next_step("nothing", &vec![missing]) {
        CratesStep::Fail(message) => assert_eq!(
            message,
            "fetch crates.io metadata for nothing: crate not found (gone)"
        ),
        step => panic!("{step:?}"),
    }
    assert_eq!(select_stable_version(&metadata("1.0.0-rc.1", None, "1.0.0-rc.1")), None);
    assert_eq!(
        select_stable_version(&metadata("1.0.0", None, "1.0.1")).as_deref(),
        Some("1.0.0")
    );
    assert_eq!(
        client.latest_stable_version("x", &metadata("1.0.0-rc.1", None, "1.0.0-rc.1")),
        Err(String::from("no stable crates.io release found for x"))
    );
    assert_eq!(client.url("a b"), "https://crates.test/crates/a%20b");
}

#[test]
fn updates_are_summed_up() {
    let report = update(SUPPORTED, UpdateMode::DryRun, &ANSWERS).expect("cargo update");
    let (changes, updates) = combine_updates(&None, &Some(report.clone()));
    assert_eq!(changes, report.changes);
    assert_eq!(updates, report.file_updates);
    assert_eq!(count_changed_files(&updates), 1);
    assert_eq!(
        change_lines(&changes)[0],
        "- cargo package /work/Cargo.toml anyhow 1.0.95 -> 1.0.100"
    );
    assert_eq!(update_mode(false, false), UpdateMode::Apply);
    assert_eq!(update_mode(false, true), UpdateMode::DryRun);
    assert_eq!(update_step(&changes, false, true), UpdateStep::Propose);
    assert_eq!(update_step(&changes, true, true), UpdateStep::WouldPropose);
    assert_eq!(update_step(&changes, true, false), UpdateStep::WouldApply);
    assert_eq!(update_step(&changes, false, false), UpdateStep::Apply);
    assert_eq!(update_step(&Vec::new(), false, true), UpdateStep::Nothing);
    assert_eq!(
        write_update_headline(UpdateStep::WouldPropose, &changes, &updates, &None),
        "Would create a pull request with 4 dependency updates across 1 files."
    );
    assert_eq!(
        write_update_headline(UpdateStep::Apply, &changes, &updates, &None),
        "Applied 4 dependency updates across 1 files."
    );
    let opened = Some(PullRequestResult {
        branch_name: String::from("deps"),
        number: 7,
        url: String::from("https://example.test/pr/7"),
    });
    assert_eq!(
        write_update_headline(UpdateStep::Propose, &changes, &updates, &opened),
        "Created pull request #7 on branch deps: https://example.test/pr/7"
    );
    assert_eq!(
        noop_summary(&None, &Some(report)),
        ["All managed cargo dependencies are already current. Scanned 4 dependencies across 1 manifests; 0 unmanaged dependencies were skipped."]
    );
}

#[test]
fn files_are_counted_once() {
    let update = |file: &str| FileUpdate { file: file.to_owned(), updated_content: String::new() };
    assert_eq!(count_changed_files(&vec![update("a"), update("b"), update("a")]), 2);
    assert_eq!(count_changed_files(&Vec::new()), 0);
}

#[test]
fn comments_and_layout_stay_around_the_requirements() {
    let report = update(
        "# top\n[dependencies] # here\nanyhow   = \"1.0.95\"\n\n# why serde\n\
         serde = { version = \"^1.0.200\",   features = [\n  \"derive\", # macros\n] }\n# end\n",
        UpdateMode::Apply,
        &[("anyhow", "1.0.100"), ("serde", "1.0.219")],
    )
    .expect("cargo update");

    assert_eq!(
        report.file_updates[0].updated_content,
        "# top\n[dependencies] # here\nanyhow   = \"1.0.100\"\n\n# why serde\n\
         serde = { version = \"^1.0.219\",   features = [\n  \"derive\", # macros\n] }\n# end\n"
    );
}

#[test]
fn requirements_in_inline_tables_are_written_anew() {
    let report = update(
        "[dependencies]\na = {version=\"1.0.0\"}\nb = {version=\"1.0.0\",optional=true}\n",
        UpdateMode::Apply,
        &[("a", "1.0.1"), ("b", "1.0.2")],
    )
    .expect("cargo update");

    assert_eq!(
        report.file_updates[0].updated_content,
        "[dependencies]\na = { version = \"1.0.1\" }\nb = { version = \"1.0.2\",optional=true}\n"
    );
}
