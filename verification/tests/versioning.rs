use github_actions_maintainer::cargo::ManifestFile;
use github_actions_maintainer::glob::{covers, matches_member_pattern};
use github_actions_maintainer::manifest::written_as_read;
use github_actions_maintainer::versioning::{
    current_version, member_manifests, plan_version_rewrite, VersionRewritePlan,
};

/// The manifests and the lockfile of a repository.
struct Tree {
    files: Vec<ManifestFile>,
}

impl Tree {
    fn new() -> Tree {
        Tree { files: Vec::new() }
    }

    fn write(&mut self, path: &str, content: &str) {
        self.files.push(ManifestFile {
            path: format!("/work/{path}"),
            content: content.to_owned(),
        });
    }

    fn read(&self, path: &str) -> Option<ManifestFile> {
        self.files.iter().find(|file| file.path == path).cloned()
    }

    fn current_version(&self) -> Result<String, String> {
        current_version(&self.read("/work/Cargo.toml").expect("root manifest"))
    }

    fn plan(&self, version: &str) -> Result<VersionRewritePlan, String> {
        let root = self.read("/work/Cargo.toml").expect("root manifest");
        let mut paths: Vec<String> = self
            .files
            .iter()
            .map(|file| file.path.clone())
            .filter(|path| path.ends_with("/Cargo.toml"))
            .collect();
        paths.sort();
        let manifests = member_manifests("/work", &root, &paths)?
            .iter()
            .map(|path| self.read(path).expect("member manifest"))
            .collect();
        plan_version_rewrite(&manifests, &self.read("/work/Cargo.lock"), version)
    }
}

#[test]
fn versioning_current_version_prefers_package_over_workspace() {
    let mut tree = Tree::new();
    tree.write("Cargo.toml", "[package]\nname = \"demo\"\nversion = \"0.2.3\"\n");

    let version = tree.current_version().expect("current version");

    assert_eq!(version, "0.2.3");
}

#[test]
fn versioning_current_version_falls_back_to_workspace_package() {
    let mut tree = Tree::new();
    tree.write("Cargo.toml", "[workspace]\nmembers = []\n\n[workspace.package]\nversion = \"1.4.0\"\n");

    let version = tree.current_version().expect("current version");

    assert_eq!(version, "1.4.0");
}

#[test]
fn versioning_current_version_errors_when_no_version_exists() {
    let mut tree = Tree::new();
    tree.write("Cargo.toml", "[workspace]\nmembers = []\n");

    let error = tree.current_version().expect_err("missing version");

    assert!(error.to_string().contains("unable to determine current version"));
}

#[test]
fn versioning_plan_rewrites_single_package_manifest_preserving_formatting() {
    let mut tree = Tree::new();
    tree.write("Cargo.toml", "[package]\nname = \"demo\"\n\n# release version\nversion = \"0.2.3\"\nedition = \"2024\"\n\n[dependencies]\nanyhow = \"1.0.95\"\n");

    let plan = tree.plan("0.3.0").expect("rewrite plan");

    assert_eq!(plan.current_version, "0.2.3");
    assert_eq!(plan.internal_packages, vec![String::from("demo")]);
    assert_eq!(plan.file_updates.len(), 1);
    let updated = &plan.file_updates[0].updated_content;
    assert!(updated.contains("# release version\nversion = \"0.3.0\""), "{updated}");
    assert!(updated.contains("anyhow = \"1.0.95\""), "{updated}");
}

#[test]
fn comments_and_layout_stay_around_the_versions() {
    let mut tree = Tree::new();
    tree.write(
        "Cargo.toml",
        "# top\n[package] # the package\nname    = 'demo'\nversion =   \"0.2.3\"   # moves\n\n\
         [dependencies]\nb = \"1\" # first\na.version = '2'\ndemo = { path = \".\", version = \"0.2.3\",  features = [\n  \"x\", # why\n] }\n# end",
    );
    tree.write(
        "Cargo.lock",
        "# lock\nversion = 4\n\n[[package]] # own\nname = \"demo\"\nversion = \"0.2.3\"\n\n\
         [[package]]\nname = \"b\"\nversion = \"0.2.3\" # stays\n",
    );

    let plan = tree.plan("0.3.0").expect("rewrite plan");

    assert_eq!(
        plan.file_updates[0].updated_content,
        "# top\n[package] # the package\nname    = 'demo'\nversion = \"0.3.0\"\n\n\
         [dependencies]\nb = \"1\" # first\na.version = '2'\ndemo = { path = \".\", version = \"0.3.0\",  features = [\n  \"x\", # why\n] }\n# end"
    );
    assert_eq!(
        plan.file_updates[1].updated_content,
        "# lock\nversion = 4\n\n[[package]] # own\nname = \"demo\"\nversion = \"0.3.0\"\n\n\
         [[package]]\nname = \"b\"\nversion = \"0.2.3\" # stays\n"
    );
}

#[test]
fn entries_of_inline_tables_are_written_anew() {
    let mut tree = Tree::new();
    tree.write(
        "Cargo.toml",
        "package = {name=\"demo\",version=\"0.2.3\"}\ndependencies = {demo=\"0.2.3\"}\n\
         [dev-dependencies]\ndemo = {path=\".\",\"version\"='0.2.3'}\n\
         [build-dependencies.demo]\nversion='0.2.3'\n",
    );

    let plan = tree.plan("0.3.0").expect("rewrite plan");

    assert_eq!(
        plan.file_updates[0].updated_content,
        "package = {name=\"demo\",version= \"0.3.0\" }\ndependencies = {demo= \"0.3.0\" }\n\
         [dev-dependencies]\ndemo = {path=\".\", version = \"0.3.0\" }\n\
         [build-dependencies.demo]\nversion= \"0.3.0\"\n"
    );
}

#[test]
fn texts_that_are_written_as_read_are_told() {
    assert!(written_as_read("# top\n[a] # here\nb   = { c=1,d = '2' } # there\n\n[[e]]\nf = 1\n"));
    assert!(!written_as_read("a = 1\r\n"));
    assert!(!written_as_read("a.b = 1\nc = 2\na.d = 3\n"));
    assert!(!written_as_read("a = 1"));
    assert!(!written_as_read("a = \n"));
}

#[test]
fn plan_rewrites_workspace_members_and_internal_dependencies() {
    let mut tree = Tree::new();
    tree.write("Cargo.toml", "[workspace]\nmembers = [\"crates/*\"]\n\n[workspace.package]\nversion = \"0.2.3\"\n\n[workspace.dependencies]\ndemo-core = { path = \"crates/demo-core\", version = \"0.2.3\" }\n");
    tree.write("crates/demo-core/Cargo.toml", "[package]\nname = \"demo-core\"\nversion = \"0.2.3\"\n");
    tree.write("crates/demo-util/Cargo.toml", "[package]\nname = \"demo-util\"\nversion = \"0.2.3\"\n");
    tree.write("crates/demo-cli/Cargo.toml", "[package]\nname = \"demo-cli\"\nversion = { workspace = true }\n\n[dependencies]\ndemo-core = { path = \"../demo-core\", version = \"0.2.3\" }\nanyhow = \"1.0.95\"\ndemo-extra = { path = \"../../tools/demo-extra\", version = \"0.2.3\" }\n\n[dependencies.demo-util]\npath = \"../demo-util\"\nversion = \"0.2.3\"\n");
    tree.write("tools/demo-extra/Cargo.toml", "[package]\nname = \"demo-extra\"\nversion = \"0.2.3\"\n");

    let plan = tree.plan("0.3.0").expect("rewrite plan");

    let updated_files: Vec<String> = plan
        .file_updates
        .iter()
        .map(|update| update.file.clone())
        .collect();
    assert!(updated_files.iter().any(|file| file.ends_with("crates/demo-core/Cargo.toml")));
    assert!(updated_files.iter().any(|file| file.ends_with("crates/demo-cli/Cargo.toml")));
    assert!(
        !updated_files.iter().any(|file| file.ends_with("tools/demo-extra/Cargo.toml")),
        "non-member manifest must not be rewritten"
    );

    let root = plan
        .file_updates
        .iter()
        .find(|update| {
            update.file == "/work/Cargo.toml"
        })
        .expect("root update");
    assert!(root.updated_content.contains("version = \"0.3.0\""), "{}", root.updated_content);
    assert!(
        root.updated_content
            .contains("demo-core = { path = \"crates/demo-core\", version = \"0.3.0\" }"),
        "{}",
        root.updated_content
    );

    let cli = plan
        .file_updates
        .iter()
        .find(|update| update.file.ends_with("crates/demo-cli/Cargo.toml"))
        .expect("cli update");
    assert!(
        cli.updated_content
            .contains("demo-core = { path = \"../demo-core\", version = \"0.3.0\" }"),
        "{}",
        cli.updated_content
    );
    assert!(
        cli.updated_content.contains("version = { workspace = true }"),
        "workspace-inherited package version must not be replaced: {}",
        cli.updated_content
    );
    assert!(cli.updated_content.contains("anyhow = \"1.0.95\""), "{}", cli.updated_content);
    // Dependencies on non-member packages keep their pinned version.
    assert!(
        cli.updated_content.contains(
            "demo-extra = { path = \"../../tools/demo-extra\", version = \"0.2.3\" }"
        ),
        "{}",
        cli.updated_content
    );
    // Table-shaped internal dependency ([dependencies.demo-util]).
    assert!(
        cli.updated_content.contains("path = \"../demo-util\"\nversion = \"0.3.0\""),
        "{}",
        cli.updated_content
    );
}

#[test]
fn versioning_plan_rewrites_bare_string_internal_dependency() {
    let mut tree = Tree::new();
    tree.write("Cargo.toml", "[workspace]\nmembers = [\"lib\"]\n\n[workspace.package]\nversion = \"0.2.3\"\n");
    tree.write("lib/Cargo.toml", "[package]\nname = \"demo-lib\"\nversion = \"0.2.3\"\n\n[dev-dependencies]\ndemo-lib = \"0.2.3\"\n");

    let plan = tree.plan("0.3.0").expect("rewrite plan");

    let lib = plan
        .file_updates
        .iter()
        .find(|update| update.file.ends_with("lib/Cargo.toml"))
        .expect("lib update");
    assert!(lib.updated_content.contains("demo-lib = \"0.3.0\""), "{}", lib.updated_content);
}

#[test]
fn versioning_plan_updates_lockfile_entries_for_internal_packages_only() {
    let mut tree = Tree::new();
    tree.write("Cargo.toml", "[package]\nname = \"demo\"\nversion = \"0.2.3\"\n");
    tree.write("Cargo.lock", "# This file is automatically @generated by Cargo.\n# It is not intended for manual editing.\nversion = 4\n\n[[package]]\nname = \"anyhow\"\nversion = \"1.0.95\"\nsource = \"registry+https://github.com/rust-lang/crates.io-index\"\nchecksum = \"abc\"\n\n[[package]]\nname = \"demo\"\nversion = \"0.2.3\"\ndependencies = [\n \"anyhow\",\n]\n");

    let plan = tree.plan("0.3.0").expect("rewrite plan");

    let lockfile = plan
        .file_updates
        .iter()
        .find(|update| update.file.ends_with("Cargo.lock"))
        .expect("lockfile update");
    assert!(
        lockfile.updated_content.contains("# This file is automatically @generated by Cargo."),
        "{}",
        lockfile.updated_content
    );
    assert!(lockfile.updated_content.contains("version = 4"), "{}", lockfile.updated_content);
    assert!(
        lockfile.updated_content.contains("name = \"anyhow\"\nversion = \"1.0.95\""),
        "{}",
        lockfile.updated_content
    );
    assert!(
        lockfile.updated_content.contains("name = \"demo\"\nversion = \"0.3.0\""),
        "{}",
        lockfile.updated_content
    );
}

#[test]
fn versioning_member_patterns_respect_segment_boundaries() {
    assert!(matches_member_pattern("crates/*", "crates/demo"));
    assert!(!matches_member_pattern("crates/*", "crates/demo/nested"));
    assert!(matches_member_pattern("crates/**", "crates/demo/nested"));
    assert!(matches_member_pattern("**/demo", "a/b/demo"));
    assert!(matches_member_pattern("crates/demo-?", "crates/demo-a"));
    assert!(!matches_member_pattern("crates/demo-?", "crates/demo-ab"));
    assert!(matches_member_pattern("lib", "lib"));
    assert!(!matches_member_pattern("lib", "libs"));
}

#[test]
fn versioning_tests_current_version_prefers_package_over_workspace() {
    let mut tree = Tree::new();
    tree.write("Cargo.toml", "[package]\nname = \"demo\"\nversion = \"0.2.3\"\n");

    let version = tree.current_version().expect("current version");

    assert_eq!(version, "0.2.3");
}

#[test]
fn versioning_tests_current_version_falls_back_to_workspace_package() {
    let mut tree = Tree::new();
    tree.write("Cargo.toml", "[workspace]\nmembers = []\n\n[workspace.package]\nversion = \"1.4.0\"\n");

    let version = tree.current_version().expect("current version");

    assert_eq!(version, "1.4.0");
}

#[test]
fn versioning_tests_current_version_errors_when_no_version_exists() {
    let mut tree = Tree::new();
    tree.write("Cargo.toml", "[workspace]\nmembers = []\n");

    let error = tree.current_version().expect_err("missing version");

    assert!(error.to_string().contains("unable to determine current version"));
}

#[test]
fn versioning_tests_plan_rewrites_single_package_manifest_preserving_formatting() {
    let mut tree = Tree::new();
    tree.write("Cargo.toml", "[package]\nname = \"demo\"\n\n# release version\nversion = \"0.2.3\"\nedition = \"2024\"\n\n[dependencies]\nanyhow = \"1.0.95\"\n");

    let plan = tree.plan("0.3.0").expect("rewrite plan");

    assert_eq!(plan.current_version, "0.2.3");
    assert_eq!(plan.internal_packages, vec![String::from("demo")]);
    assert_eq!(plan.file_updates.len(), 1);
    let updated = &plan.file_updates[0].updated_content;
    assert!(updated.contains("# release version\nversion = \"0.3.0\""), "{updated}");
    assert!(updated.contains("anyhow = \"1.0.95\""), "{updated}");
}

fn write_workspace_fixture() -> Tree {
    let mut tree = Tree::new();
    tree.write("Cargo.toml", "[workspace]\nmembers = [\"crates/*\"]\n\n[workspace.package]\nversion = \"0.2.3\"\n\n[workspace.dependencies]\ndemo-core = { path = \"crates/demo-core\", version = \"0.2.3\" }\n");
    tree.write("crates/demo-core/Cargo.toml", "[package]\nname = \"demo-core\"\nversion = \"0.2.3\"\n");
    tree.write("crates/demo-util/Cargo.toml", "[package]\nname = \"demo-util\"\nversion = \"0.2.3\"\n");
    tree.write("crates/demo-cli/Cargo.toml", "[package]\nname = \"demo-cli\"\nversion = { workspace = true }\n\n[dependencies]\ndemo-core = { path = \"../demo-core\", version = \"0.2.3\" }\nanyhow = \"1.0.95\"\ndemo-extra = { path = \"../../tools/demo-extra\", version = \"0.2.3\" }\n\n[dependencies.demo-util]\npath = \"../demo-util\"\nversion = \"0.2.3\"\n");
    tree.write("tools/demo-extra/Cargo.toml", "[package]\nname = \"demo-extra\"\nversion = \"0.2.3\"\n");
    tree
}

#[test]
fn plan_selects_workspace_members_and_rewrites_root_versions() {
    let tree = write_workspace_fixture();

    let plan = tree.plan("0.3.0").expect("rewrite plan");

    let updated_files: Vec<String> = plan
        .file_updates
        .iter()
        .map(|update| update.file.clone())
        .collect();
    assert!(updated_files.iter().any(|file| file.ends_with("crates/demo-core/Cargo.toml")));
    assert!(updated_files.iter().any(|file| file.ends_with("crates/demo-cli/Cargo.toml")));
    assert!(
        !updated_files.iter().any(|file| file.ends_with("tools/demo-extra/Cargo.toml")),
        "non-member manifest must not be rewritten"
    );

    let root = plan
        .file_updates
        .iter()
        .find(|update| {
            update.file == "/work/Cargo.toml"
        })
        .expect("root update");
    assert!(root.updated_content.contains("version = \"0.3.0\""), "{}", root.updated_content);
    assert!(
        root.updated_content
            .contains("demo-core = { path = \"crates/demo-core\", version = \"0.3.0\" }"),
        "{}",
        root.updated_content
    );
}

#[test]
fn plan_rewrites_member_dependency_shapes() {
    let tree = write_workspace_fixture();

    let plan = tree.plan("0.3.0").expect("rewrite plan");

    let cli = plan
        .file_updates
        .iter()
        .find(|update| update.file.ends_with("crates/demo-cli/Cargo.toml"))
        .expect("cli update");
    assert!(
        cli.updated_content
            .contains("demo-core = { path = \"../demo-core\", version = \"0.3.0\" }"),
        "{}",
        cli.updated_content
    );
    assert!(
        cli.updated_content.contains("version = { workspace = true }"),
        "workspace-inherited package version must not be replaced: {}",
        cli.updated_content
    );
    assert!(cli.updated_content.contains("anyhow = \"1.0.95\""), "{}", cli.updated_content);
    // Dependencies on non-member packages keep their pinned version.
    assert!(
        cli.updated_content
            .contains("demo-extra = { path = \"../../tools/demo-extra\", version = \"0.2.3\" }"),
        "{}",
        cli.updated_content
    );
    // Table-shaped internal dependency ([dependencies.demo-util]).
    assert!(
        cli.updated_content.contains("path = \"../demo-util\"\nversion = \"0.3.0\""),
        "{}",
        cli.updated_content
    );
}

#[test]
fn versioning_tests_plan_rewrites_bare_string_internal_dependency() {
    let mut tree = Tree::new();
    tree.write("Cargo.toml", "[workspace]\nmembers = [\"lib\"]\n\n[workspace.package]\nversion = \"0.2.3\"\n");
    tree.write("lib/Cargo.toml", "[package]\nname = \"demo-lib\"\nversion = \"0.2.3\"\n\n[dev-dependencies]\ndemo-lib = \"0.2.3\"\n");

    let plan = tree.plan("0.3.0").expect("rewrite plan");

    let lib = plan
        .file_updates
        .iter()
        .find(|update| update.file.ends_with("lib/Cargo.toml"))
        .expect("lib update");
    assert!(lib.updated_content.contains("demo-lib = \"0.3.0\""), "{}", lib.updated_content);
}

#[test]
fn versioning_tests_plan_updates_lockfile_entries_for_internal_packages_only() {
    let mut tree = Tree::new();
    tree.write("Cargo.toml", "[package]\nname = \"demo\"\nversion = \"0.2.3\"\n");
    tree.write("Cargo.lock", "# This file is automatically @generated by Cargo.\n# It is not intended for manual editing.\nversion = 4\n\n[[package]]\nname = \"anyhow\"\nversion = \"1.0.95\"\nsource = \"registry+https://github.com/rust-lang/crates.io-index\"\nchecksum = \"abc\"\n\n[[package]]\nname = \"demo\"\nversion = \"0.1.0\"\nsource = \"registry+https://github.com/rust-lang/crates.io-index\"\nchecksum = \"def\"\n\n[[package]]\nname = \"demo\"\nversion = \"0.2.3\"\ndependencies = [\n \"anyhow\",\n]\n");

    let plan = tree.plan("0.3.0").expect("rewrite plan");

    let lockfile = plan
        .file_updates
        .iter()
        .find(|update| update.file.ends_with("Cargo.lock"))
        .expect("lockfile update");
    assert!(
        lockfile.updated_content.contains("# This file is automatically @generated by Cargo."),
        "{}",
        lockfile.updated_content
    );
    assert!(lockfile.updated_content.contains("version = 4"), "{}", lockfile.updated_content);
    assert!(
        lockfile.updated_content.contains("name = \"anyhow\"\nversion = \"1.0.95\""),
        "{}",
        lockfile.updated_content
    );
    // The registry entry sharing the member's name keeps its version.
    assert!(
        lockfile.updated_content.contains("name = \"demo\"\nversion = \"0.1.0\""),
        "{}",
        lockfile.updated_content
    );
    assert!(
        lockfile.updated_content.contains("name = \"demo\"\nversion = \"0.3.0\""),
        "{}",
        lockfile.updated_content
    );
}

#[test]
fn plan_honors_workspace_exclude() {
    let mut tree = Tree::new();
    tree.write("Cargo.toml", "[workspace]\nmembers = [\"crates/*\"]\nexclude = [\"crates/fixture\"]\n\n[workspace.package]\nversion = \"0.2.3\"\n");
    tree.write("crates/demo-core/Cargo.toml", "[package]\nname = \"demo-core\"\nversion = \"0.2.3\"\n");
    tree.write("crates/fixture/Cargo.toml", "[package]\nname = \"fixture\"\nversion = \"0.2.3\"\n");

    let plan = tree.plan("0.3.0").expect("rewrite plan");

    let updated_files: Vec<String> = plan
        .file_updates
        .iter()
        .map(|update| update.file.clone())
        .collect();
    assert!(updated_files.iter().any(|file| file.ends_with("crates/demo-core/Cargo.toml")));
    assert!(
        !updated_files.iter().any(|file| file.ends_with("crates/fixture/Cargo.toml")),
        "excluded manifest must not be rewritten"
    );
    assert!(!plan.internal_packages.contains(&String::from("fixture")));
}

#[test]
fn versioning_tests_member_patterns_respect_segment_boundaries() {
    assert!(matches_member_pattern("crates/*", "crates/demo"));
    assert!(!matches_member_pattern("crates/*", "crates/demo/nested"));
    assert!(matches_member_pattern("crates/**", "crates/demo/nested"));
    assert!(matches_member_pattern("**/demo", "a/b/demo"));
    assert!(matches_member_pattern("crates/demo-?", "crates/demo-a"));
    assert!(!matches_member_pattern("crates/demo-?", "crates/demo-ab"));
    assert!(matches_member_pattern("lib", "lib"));
    assert!(!matches_member_pattern("lib", "libs"));
}

#[test]
fn a_release_that_changes_nothing_is_refused() {
    let mut tree = Tree::new();
    tree.write("Cargo.toml", "[package]\nname = \"demo\"\nversion = \"0.3.0\"\n");
    assert_eq!(tree.plan("0.3.0").unwrap_err(), "no Cargo.toml files were updated");
}

#[test]
fn manifests_that_are_not_toml_are_named() {
    let mut tree = Tree::new();
    tree.write("Cargo.toml", "[package\n");
    assert!(tree.current_version().unwrap_err().contains("/work/Cargo.toml"));
    assert!(tree.plan("0.3.0").unwrap_err().contains("/work/Cargo.toml"));

    let mut tree = Tree::new();
    tree.write("Cargo.toml", "[package]\nname = \"demo\"\nversion = \"0.2.3\"\n");
    tree.write("Cargo.lock", "version = \n");
    assert!(tree.plan("0.3.0").unwrap_err().contains("/work/Cargo.lock"));
}

#[test]
fn the_released_version_is_read_back() {
    let mut tree = Tree::new();
    tree.write(
        "Cargo.toml",
        "[package]\nname = \"demo\" # kept\nversion = '0.2.3'\n[dependencies]\nserde = \"1\"\n",
    );
    let plan = tree.plan("0.3.0").expect("rewrite plan");
    assert_eq!(
        plan.file_updates[0].updated_content,
        "[package]\nname = \"demo\" # kept\nversion = \"0.3.0\"\n[dependencies]\nserde = \"1\"\n"
    );
    let mut after = Tree::new();
    after.write("Cargo.toml", &plan.file_updates[0].updated_content);
    assert_eq!(after.current_version().as_deref(), Ok("0.3.0"));
}

#[test]
fn other_places_of_internal_packages_are_rewritten() {
    let mut tree = Tree::new();
    tree.write(
        "Cargo.toml",
        "[package]\nname = \"demo\"\nversion = \"0.2.3\"\n[target.'cfg(unix)'.dependencies]\ndemo = { version = \"0.2.3\" }\nother = \"0.2.3\"\n",
    );
    let plan = tree.plan("0.3.0").expect("rewrite plan");
    let updated = &plan.file_updates[0].updated_content;
    assert!(updated.contains("demo = { version = \"0.3.0\" }"), "{updated}");
    assert!(updated.contains("other = \"0.2.3\""), "{updated}");
}

#[test]
fn patterns_with_stars_match_whole_segments() {
    assert!(matches_member_pattern("**", "a/b"));
    assert!(matches_member_pattern("a/**/b", "a/b"));
    assert!(matches_member_pattern("a/*-core", "a/demo-core"));
    assert!(!matches_member_pattern("a/*-core", "a/demo/x-core"));
    assert!(!matches_member_pattern("", "a"));
    assert!(covers("crates/fixture", "crates/fixture"));
    assert!(covers("crates/fixture", "crates/fixture/nested"));
    assert!(!covers("crates/fixture", "crates/fixtures"));
}
