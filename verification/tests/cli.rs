use github_actions_maintainer::cli::{
    parse_arguments, parse_labels, resolve_arguments, resolve_repository, BumpArg, Cli, Commands,
    PhaseArg, PolicyArgs, ReleaseArgs, RepoArgs, TagStyleArg, TargetArgs,
};
use github_actions_maintainer::arguments::GivenOption;
use github_actions_maintainer::conventional::BumpLevel;
use github_actions_maintainer::input_env::{
    environment_plan, lookup, normalized_environment, planned_action, sanitize_args, EnvAction,
    Variable,
};

fn environment(pairs: &[(&str, &str)]) -> Vec<Variable> {
    pairs
        .iter()
        .map(|(name, value)| Variable { name: (*name).to_owned(), value: (*value).to_owned() })
        .collect()
}

fn texts(values: &[&str]) -> Vec<String> {
    values.iter().map(|value| (*value).to_owned()).collect()
}

/// Reads a command line in an environment.
struct Startup {
    environment: Vec<Variable>,
}

impl Startup {
    fn parse(&self, args: &[&str]) -> Cli {
        match parse_arguments(&self.environment, &texts(args)) {
            Ok(cli) => cli,
            Err(error) => panic!("{}", error.message),
        }
    }

    fn failure(&self, args: &[&str]) -> (i32, String) {
        match parse_arguments(&self.environment, &texts(args)) {
            Ok(_) => panic!("expected an error"),
            Err(error) => (error.code, error.message),
        }
    }
}

fn with_env<T>(overrides: &[(&str, &str)], body: impl FnOnce(Startup) -> T) -> T {
    body(Startup { environment: environment(overrides) })
}

fn repo_args(cli: Cli) -> RepoArgs {
    match cli.command {
        Commands::Pin(args) => args.repo,
        Commands::Update(args) => args.repo,
        Commands::Status(args) => args.repo,
        Commands::Policy(args) => args.repo,
        Commands::Release(_) => panic!("expected a maintainer subcommand"),
    }
}

fn target_args(cli: Cli) -> TargetArgs {
    match cli.command {
        Commands::Pin(args) => args.targets,
        Commands::Update(args) => args.targets,
        Commands::Status(args) => args.targets,
        Commands::Policy(_) | Commands::Release(_) => {
            panic!("expected a subcommand with dependency targets")
        }
    }
}

fn release_args(cli: Cli) -> ReleaseArgs {
    match cli.command {
        Commands::Release(args) => args,
        _ => panic!("expected the release subcommand"),
    }
}

fn update_dry_run(cli: Cli) -> bool {
    match cli.command {
        Commands::Update(args) => args.dry_run,
        _ => panic!("expected the update subcommand"),
    }
}

fn policy_args(cli: Cli) -> PolicyArgs {
    match cli.command {
        Commands::Policy(args) => args,
        _ => panic!("expected the policy subcommand"),
    }
}

fn clean(values: &[&str]) -> Vec<String> {
    sanitize_args(&texts(values))
}

#[test]
fn policy_scan_toggles_default_on_and_fail_on_findings_defaults_off() {
    with_env(&[], |startup| {
        let args = policy_args(startup.parse(&["bin", "policy"]));

        assert!(args.check_scripts);
        assert!(args.check_policies);
        assert!(!args.fail_on_findings);
    });
}

#[test]
fn policy_scan_toggles_resolve_from_input_env() {
    with_env(
        &[
            ("INPUT_CHECK-SCRIPTS", "false"),
            ("INPUT_CHECK-POLICIES", "false"),
            ("INPUT_FAIL-ON-FINDINGS", "true"),
        ],
        |startup| {
            let args = policy_args(startup.parse(&["bin", "policy"]));

            assert!(!args.check_scripts);
            assert!(!args.check_policies);
            assert!(args.fail_on_findings);
        },
    );
}

#[test]
fn explicit_policy_flags_beat_input_env() {
    with_env(&[("INPUT_FAIL-ON-FINDINGS", "false")], |startup| {
        let args = policy_args(startup.parse(&["bin", "policy", "--fail-on-findings", "true"]));

        assert!(args.fail_on_findings);
    });
}

#[test]
fn input_env_resolves_options_the_action_no_longer_passes_as_flags() {
    with_env(
        &[
            ("INPUT_REPO", "/checkout"),
            ("INPUT_WORKFLOWS-PATH", ".github/flows"),
            ("INPUT_BRANCH-NAME", "automation/deps"),
            ("INPUT_LABELS", "deps,security"),
            ("INPUT_TITLE", "Refresh pinned actions"),
            ("INPUT_BASE-BRANCH", "dev"),
        ],
        |startup| {
            let args = repo_args(startup.parse(&["bin", "update"]));

            assert_eq!(args.repo, "/checkout");
            assert_eq!(args.workflows_path, ".github/flows");
            assert_eq!(args.branch_name.as_deref(), Some("automation/deps"));
            assert_eq!(args.labels, "deps,security");
            assert_eq!(args.title, "Refresh pinned actions");
            assert_eq!(args.base_branch.as_deref(), Some("dev"));
        },
    );
}

#[test]
fn explicit_flag_beats_input_env() {
    with_env(&[("INPUT_TITLE", "from environment"), ("INPUT_TOKEN", "ghp_env")], |startup| {
        let args =
            repo_args(startup.parse(&["bin", "update", "--title", "from flag", "--token", "ghp_flag"]));

        assert_eq!(args.title, "from flag");
        assert_eq!(args.token.as_deref(), Some("ghp_flag"));
    });
}

#[test]
fn input_env_wins_over_legacy_env() {
    with_env(
        &[
            ("INPUT_TOKEN", "ghp_input"),
            ("GITHUB_TOKEN", "ghp_legacy"),
            ("INPUT_OWNER", "threatflux"),
            ("OWNER", "legacy-owner"),
            ("INPUT_REPO-NAME", "github_actions"),
            ("REPO_NAME", "legacy-repo"),
        ],
        |startup| {
            let args = repo_args(startup.parse(&["bin", "status"]));

            assert_eq!(args.token.as_deref(), Some("ghp_input"));
            assert_eq!(args.owner.as_deref(), Some("threatflux"));
            assert_eq!(args.repo_name.as_deref(), Some("github_actions"));
        },
    );
}

#[test]
fn legacy_env_still_resolves_token_owner_and_repo_name() {
    with_env(
        &[("GITHUB_TOKEN", "ghp_legacy"), ("OWNER", "threatflux"), ("REPO_NAME", "github_actions")],
        |startup| {
            let args = repo_args(startup.parse(&["bin", "update"]));
            assert_eq!(args.token.as_deref(), Some("ghp_legacy"));
            assert_eq!(args.owner.as_deref(), Some("threatflux"));
            assert_eq!(args.repo_name.as_deref(), Some("github_actions"));

            let args = release_args(startup.parse(&["bin", "release"]));
            assert_eq!(args.token.as_deref(), Some("ghp_legacy"));
            assert_eq!(args.owner.as_deref(), Some("threatflux"));
            assert_eq!(args.repo_name.as_deref(), Some("github_actions"));
        },
    );
}

#[test]
fn empty_input_env_falls_through_to_the_legacy_env() {
    with_env(&[("INPUT_TOKEN", "   "), ("GITHUB_TOKEN", "ghp_legacy")], |startup| {
        let args = repo_args(startup.parse(&["bin", "pin"]));
        assert_eq!(args.token.as_deref(), Some("ghp_legacy"));
    });
}

#[test]
fn empty_input_env_falls_through_to_the_subcommand_default() {
    with_env(
        &[
            ("INPUT_REPO", ""),
            ("INPUT_WORKFLOWS-PATH", ""),
            ("INPUT_LABELS", "  "),
            ("INPUT_TITLE", ""),
            ("INPUT_TAG-PREFIX", ""),
            ("INPUT_RELEASE-BRANCH", ""),
            ("INPUT_NOTES-FILE", ""),
        ],
        |startup| {
            let args = repo_args(startup.parse(&["bin", "update"]));
            assert_eq!(args.repo, ".");
            assert_eq!(args.workflows_path, ".github/workflows");
            assert_eq!(args.labels, "dependencies");
            assert_eq!(args.title, "Update dependencies");

            let args = release_args(startup.parse(&["bin", "release"]));
            assert_eq!(args.repo, ".");
            assert_eq!(args.tag_prefix, "v");
            assert_eq!(args.release_branch, "automation/release");
            assert_eq!(args.notes_file, "release_notes.md");
        },
    );
}

#[test]
fn empty_input_env_leaves_optional_values_unset() {
    with_env(
        &[
            ("INPUT_TOKEN", ""),
            ("INPUT_OWNER", " "),
            ("INPUT_REPO-NAME", ""),
            ("INPUT_BASE-BRANCH", ""),
            ("INPUT_BRANCH-NAME", "\t"),
        ],
        |startup| {
            let args = repo_args(startup.parse(&["bin", "update"]));
            assert_eq!(args.token, None);
            assert_eq!(args.owner, None);
            assert_eq!(args.repo_name, None);
            assert_eq!(args.base_branch, None);
            assert_eq!(args.branch_name, None);
        },
    );
}

#[test]
fn commit_message_defaults_stay_per_subcommand() {
    with_env(&[("INPUT_COMMIT-MESSAGE", "")], |startup| {
        assert_eq!(repo_args(startup.parse(&["bin", "update"])).commit_message, "Update dependencies");
        assert_eq!(
            release_args(startup.parse(&["bin", "release"])).commit_message,
            "chore: release v{version}"
        );
    });
}

#[test]
fn release_parses_without_extra_files() {
    with_env(&[], |startup| {
        assert!(release_args(startup.parse(&["bin", "release"])).extra_files.is_empty());
    });
}

#[test]
fn release_extra_files_resolve_from_input_env() {
    with_env(&[("INPUT_EXTRA-FILES", "runtime/Dockerfile,release/Dockerfile")], |startup| {
        assert_eq!(
            release_args(startup.parse(&["bin", "release"])).extra_files,
            vec!["runtime/Dockerfile".to_owned(), "release/Dockerfile".to_owned()]
        );
    });
}

#[test]
fn empty_extra_files_input_env_yields_no_files() {
    with_env(&[("INPUT_EXTRA-FILES", "")], |startup| {
        assert!(release_args(startup.parse(&["bin", "release"])).extra_files.is_empty());
    });
}

#[test]
fn release_phase_defaults_to_a_single_run() {
    with_env(&[], |startup| {
        assert_eq!(release_args(startup.parse(&["bin", "release"])).phase, PhaseArg::All);
    });
}

#[test]
fn release_phase_resolves_from_input_env() {
    with_env(&[("INPUT_PHASE", "bump")], |startup| {
        assert_eq!(release_args(startup.parse(&["bin", "release"])).phase, PhaseArg::Bump);
    });
    with_env(&[("INPUT_PHASE", "tag")], |startup| {
        assert_eq!(release_args(startup.parse(&["bin", "release"])).phase, PhaseArg::Tag);
    });
}

#[test]
fn empty_phase_input_env_still_releases_in_one_run() {
    // action.yml passes every optional input as an empty string when unset, so
    // an unset phase must not turn into a partial release.
    with_env(&[("INPUT_PHASE", "")], |startup| {
        assert_eq!(release_args(startup.parse(&["bin", "release"])).phase, PhaseArg::All);
    });
}

#[test]
fn commit_message_input_env_overrides_both_subcommand_defaults() {
    with_env(&[("INPUT_COMMIT-MESSAGE", "chore: sync deps")], |startup| {
        assert_eq!(repo_args(startup.parse(&["bin", "update"])).commit_message, "chore: sync deps");
        assert_eq!(release_args(startup.parse(&["bin", "release"])).commit_message, "chore: sync deps");
    });
}

#[test]
fn boolean_flags_parse_from_input_env() {
    with_env(
        &[
            ("INPUT_DRY-RUN", "true"),
            ("INPUT_CREATE-PR", "true"),
            ("INPUT_GITHUB-ACTIONS", "true"),
            ("INPUT_CARGO", "false"),
            ("INPUT_ALL", "true"),
        ],
        |startup| {
            assert!(update_dry_run(startup.parse(&["bin", "update"])));
            assert!(repo_args(startup.parse(&["bin", "update"])).create_pr);

            let targets = target_args(startup.parse(&["bin", "status"]));
            assert!(targets.github_actions);
            assert!(!targets.cargo);
            assert!(targets.all);
        },
    );
}

#[test]
fn boolean_flags_read_false_from_input_env() {
    with_env(&[("INPUT_DRY-RUN", "false"), ("INPUT_CREATE-PR", "false")], |startup| {
        assert!(!update_dry_run(startup.parse(&["bin", "update"])));
        assert!(!repo_args(startup.parse(&["bin", "update"])).create_pr);
    });
}

#[test]
fn boolean_flag_on_the_command_line_beats_input_env() {
    with_env(&[("INPUT_DRY-RUN", "true")], |startup| {
        assert!(!update_dry_run(startup.parse(&["bin", "update", "--dry-run", "false"])));
    });
}

#[test]
fn release_only_options_resolve_from_hyphenated_input_env() {
    with_env(
        &[
            ("INPUT_BUMP", "minor"),
            ("INPUT_TAG-PREFIX", "release-"),
            ("INPUT_TAG-STYLE", "lightweight"),
            ("INPUT_UPDATE-MAJOR-ALIAS", "true"),
            ("INPUT_NOTES-FILE", "notes/out.md"),
            ("INPUT_RELEASE-BRANCH", "automation/release/next"),
            ("INPUT_CREATE-PR", "true"),
        ],
        |startup| {
            let args = release_args(startup.parse(&["bin", "release"]));

            assert_eq!(args.bump, BumpArg::Minor);
            assert_eq!(args.tag_prefix, "release-");
            assert_eq!(args.tag_style, TagStyleArg::Lightweight);
            assert!(args.update_major_alias);
            assert_eq!(args.notes_file, "notes/out.md");
            assert_eq!(args.release_branch, "automation/release/next");
            assert!(args.create_pr);
        },
    );
}

#[test]
fn empty_command_line_values_are_unset_in_every_subcommand() {
    with_env(&[], |startup| {
        for command in ["pin", "update", "status"] {
            let args = repo_args(startup.parse(&[
                "bin",
                command,
                "--token",
                "",
                "--owner",
                "  ",
                "--repo-name=",
                "--base-branch",
                "",
                "--branch-name",
                "",
            ]));

            assert_eq!(args.token, None, "{command}");
            assert_eq!(args.owner, None, "{command}");
            assert_eq!(args.repo_name, None, "{command}");
            assert_eq!(args.base_branch, None, "{command}");
            assert_eq!(args.branch_name, None, "{command}");
        }

        let args = release_args(startup.parse(&[
            "bin",
            "release",
            "--token",
            "",
            "--owner",
            "  ",
            "--repo-name=",
            "--base-branch",
            "",
        ]));

        assert_eq!(args.token, None);
        assert_eq!(args.owner, None);
        assert_eq!(args.repo_name, None);
        assert_eq!(args.base_branch, None);
    });
}

#[test]
fn empty_command_line_values_fall_through_to_input_env() {
    with_env(&[("INPUT_OWNER", "threatflux"), ("INPUT_TITLE", "from environment")], |startup| {
        let args = repo_args(startup.parse(&["bin", "update", "--owner", "", "--title", ""]));

        assert_eq!(args.owner.as_deref(), Some("threatflux"));
        assert_eq!(args.title, "from environment");
    });
}

#[test]
fn empty_input_vars_are_removed() {
    let plan = environment_plan(&environment(&[("INPUT_BASE-BRANCH", "")]));
    assert_eq!(planned_action(&plan, "INPUT_BASE-BRANCH"), Some(EnvAction::Remove));
}

#[test]
fn whitespace_only_input_vars_are_removed() {
    let plan = environment_plan(&environment(&[("INPUT_LABELS", "  \t ")]));
    assert_eq!(planned_action(&plan, "INPUT_LABELS"), Some(EnvAction::Remove));
}

#[test]
fn non_empty_input_vars_are_left_alone() {
    let plan = environment_plan(&environment(&[("INPUT_TAG-PREFIX", "release-")]));
    assert!(plan.is_empty());
}

#[test]
fn non_input_vars_are_never_removed() {
    let plan = environment_plan(&environment(&[("PATH", ""), ("GITHUB_TOKEN", "")]));
    assert!(plan.is_empty());
}

#[test]
fn legacy_env_seeds_a_missing_input_var() {
    let plan = environment_plan(&environment(&[
        ("GITHUB_TOKEN", "ghp_legacy"),
        ("OWNER", "threatflux"),
        ("REPO_NAME", "github_actions"),
    ]));

    assert_eq!(planned_action(&plan, "INPUT_TOKEN"), Some(EnvAction::CopyFrom("GITHUB_TOKEN")));
    assert_eq!(planned_action(&plan, "INPUT_OWNER"), Some(EnvAction::CopyFrom("OWNER")));
    assert_eq!(planned_action(&plan, "INPUT_REPO-NAME"), Some(EnvAction::CopyFrom("REPO_NAME")));
}

#[test]
fn input_var_wins_over_legacy_env() {
    let plan = environment_plan(&environment(&[
        ("INPUT_TOKEN", "ghp_input"),
        ("GITHUB_TOKEN", "ghp_legacy"),
    ]));
    assert!(plan.is_empty());
}

#[test]
fn empty_input_var_falls_back_to_legacy_env() {
    let plan = environment_plan(&environment(&[
        ("INPUT_REPO-NAME", "   "),
        ("REPO_NAME", "github_actions"),
    ]));
    assert_eq!(planned_action(&plan, "INPUT_REPO-NAME"), Some(EnvAction::CopyFrom("REPO_NAME")));
}

#[test]
fn blank_legacy_env_never_seeds_an_input_var() {
    let plan = environment_plan(&environment(&[("INPUT_OWNER", ""), ("OWNER", " ")]));
    assert_eq!(planned_action(&plan, "INPUT_OWNER"), Some(EnvAction::Remove));
}

#[test]
fn empty_flag_values_are_dropped_from_args() {
    assert_eq!(
        clean(&["bin", "update", "--token", "", "--owner", "threatflux"]),
        ["bin", "update", "--owner", "threatflux"]
    );
}

#[test]
fn whitespace_only_flag_values_are_dropped_from_args() {
    assert_eq!(clean(&["bin", "release", "--base-branch", "  "]), ["bin", "release"]);
}

#[test]
fn inline_empty_flag_values_are_dropped_from_args() {
    assert_eq!(
        clean(&["bin", "status", "--repo-name=", "--owner=threatflux"]),
        ["bin", "status", "--owner=threatflux"]
    );
}

#[test]
fn non_empty_flag_values_are_preserved_in_args() {
    let line = ["bin", "pin", "--repo", ".", "--dry-run", "true"];
    assert_eq!(clean(&line), line);
}

#[test]
fn args_after_a_double_dash_are_preserved() {
    let line = ["bin", "update", "--", "--title", ""];
    assert_eq!(clean(&line), line);
}

#[test]
fn seeds_and_inputs_are_read_in_order() {
    let normal = normalized_environment(&environment(&[
        ("INPUT_TOKEN", ""),
        ("GITHUB_TOKEN", "seed"),
        ("INPUT_OWNER", "input"),
        ("OWNER", "seed"),
        ("INPUT_LABELS", " "),
        ("PATH", ""),
    ]));

    assert_eq!(lookup(&normal, "INPUT_TOKEN").as_deref(), Some("seed"));
    assert_eq!(lookup(&normal, "INPUT_OWNER").as_deref(), Some("input"));
    assert_eq!(lookup(&normal, "INPUT_LABELS"), None);
    assert_eq!(lookup(&normal, "PATH").as_deref(), Some(""));
    assert_eq!(lookup(&normal, "GITHUB_TOKEN").as_deref(), Some("seed"));
}

#[test]
fn the_last_of_several_variables_counts() {
    let plan = environment_plan(&environment(&[("INPUT_TITLE", ""), ("INPUT_TITLE", "x")]));
    assert!(plan.is_empty());
    let plan = environment_plan(&environment(&[("INPUT_TITLE", "x"), ("INPUT_TITLE", "")]));
    assert_eq!(plan.len(), 1);
    assert_eq!(planned_action(&plan, "INPUT_TITLE"), Some(EnvAction::Remove));
}

#[test]
fn a_lone_flag_keeps_the_flag_behind_it() {
    assert_eq!(clean(&["bin", "--a", "--b", "", "c"]), ["bin", "--a", "c"]);
}

#[test]
fn command_line_errors_carry_a_status() {
    with_env(&[], |startup| {
        let (code, message) = startup.failure(&["bin", "update", "--no-such-flag", "x"]);
        assert_eq!(code, 2);
        assert!(message.contains("--no-such-flag"));

        let (code, message) = startup.failure(&["bin", "--help"]);
        assert_eq!(code, 0);
        assert!(message.contains("release"));
        assert!(!message.contains("github-api-base-url"));

        let (code, message) = startup.failure(&["bin", "--version"]);
        assert_eq!(code, 0);
        assert_eq!(message, "github-actions-maintainer 0.7.0\n");

        let (code, _) = startup.failure(&["bin"]);
        assert_eq!(code, 2);
    });
}

#[test]
fn a_flag_without_a_value_needs_one() {
    with_env(&[], |startup| {
        let (code, message) = startup.failure(&["bin", "update", "--title"]);
        assert_eq!(code, 2);
        assert!(message.contains("--title"));
    });
}

#[test]
fn a_switch_without_a_value_is_on() {
    with_env(&[], |startup| {
        assert!(update_dry_run(startup.parse(&["bin", "update", "--dry-run"])));
        assert!(policy_args(startup.parse(&["bin", "policy", "--fail-on-findings"])).fail_on_findings);
    });
}

#[test]
fn values_outside_the_allowed_ones_are_refused() {
    with_env(&[("INPUT_PHASE", "half")], |startup| {
        let (code, message) = startup.failure(&["bin", "release"]);
        assert_eq!(code, 2);
        assert_eq!(
            message,
            "error: invalid value 'half' for '--phase <PHASE>'\n  [possible values: all, bump, tag]\n\n  \
             tip: a similar value exists: 'all'\n\nFor more information, try '--help'.\n"
        );
    });
    with_env(&[("INPUT_DRY-RUN", "yes")], |startup| {
        let (_, message) = startup.failure(&["bin", "update"]);
        assert!(message.contains("invalid value 'yes' for '--dry-run [<DRY_RUN>]'"));
        assert!(message.contains("[possible values: true, false]"));
    });
    with_env(&[("INPUT_BUMP", "half")], |startup| {
        let (_, from_line) = startup.failure(&["bin", "release", "--phase", "half"]);
        assert!(from_line.contains("invalid value 'half' for '--phase <PHASE>'"));
        let (_, from_environment) = startup.failure(&["bin", "release"]);
        assert!(from_environment.contains("invalid value 'half' for '--bump <BUMP>'"));
        assert!(from_environment.contains("[possible values: auto, major, minor, patch]"));
        assert_eq!(release_args(startup.parse(&["bin", "release", "--bump=minor"])).bump, BumpArg::Minor);
    });
}

#[test]
fn help_tells_variables_defaults_and_values() {
    with_env(&[("INPUT_TITLE", "Refresh"), ("INPUT_TOKEN", "ghp_env")], |startup| {
        let (code, message) = startup.failure(&["bin", "update", "-h"]);
        assert_eq!(code, 0);
        assert!(message.contains("--workflows-path <WORKFLOWS_PATH>"));
        assert!(message.contains("[env: INPUT_WORKFLOWS-PATH=] [default: .github/workflows]"));
        assert!(message.contains("[env: INPUT_TITLE=Refresh] [default: \"Update dependencies\"]"));
        assert!(message.contains("[env: INPUT_TOKEN]"));
        assert!(!message.contains("ghp_env"));
        assert!(message.contains("--dry-run [<DRY_RUN>]"));
        assert!(message.contains(
            "Show available updates without rewriting files [env: INPUT_DRY-RUN=] \
             [default: false] [possible values: true, false]"
        ));
        assert!(!message.contains("github-api-base-url"));

        let (_, message) = startup.failure(&["bin", "release", "-h"]);
        assert!(message.contains(
            "Version bump strategy [env: INPUT_BUMP=] [default: auto] \
             [possible values: auto, major, minor, patch]"
        ));
        let (_, message) = startup.failure(&["bin", "release", "--help"]);
        assert!(message.contains("Bare ref pointing directly at the release commit"));

        let (_, message) = startup.failure(&["bin", "status", "-h"]);
        assert!(!message.contains("--dry-run"));
    });
}

#[test]
fn repeated_flags_are_refused_but_lists_grow() {
    with_env(&[], |startup| {
        let (_, message) = startup.failure(&["bin", "update", "--title", "a", "--title", "b"]);
        assert!(message.contains("the argument '--title <TITLE>' cannot be used multiple times"));
        assert!(message.contains("Usage:"));

        let args = release_args(startup.parse(&[
            "bin",
            "release",
            "--extra-files",
            "a,b",
            "--extra-files",
            "c",
        ]));
        assert_eq!(args.extra_files, ["a", "b", "c"]);

        let (_, message) = startup.failure(&["bin", "release", "--extra-files", "a,,b"]);
        assert!(message.contains("a value is required for '--extra-files <EXTRA_FILES>'"));
    });
}

#[test]
fn an_empty_output_file_is_refused() {
    with_env(&[("GITHUB_OUTPUT", "")], |startup| {
        let (_, message) = startup.failure(&["bin", "release"]);
        assert!(message.contains("a value is required for '--github-output <GITHUB_OUTPUT>'"));
    });
    with_env(&[("GITHUB_OUTPUT", "/tmp/out")], |startup| {
        let args = release_args(startup.parse(&["bin", "release"]));
        assert_eq!(args.github_output.as_deref(), Some("/tmp/out"));
    });
}

#[test]
fn addresses_of_the_services_stand_with_every_command() {
    with_env(&[("CRATES_IO_API_BASE_URL", "http://crates")], |startup| {
        let cli =
            startup.parse(&["bin", "--github-api-base-url", "http://hub", "status"]);
        assert_eq!(cli.github_api_base_url.as_deref(), Some("http://hub"));
        assert_eq!(cli.crates_api_base_url.as_deref(), Some("http://crates"));
        let cli = startup.parse(&["bin", "status", "--github-api-base-url=http://hub"]);
        assert_eq!(cli.github_api_base_url.as_deref(), Some("http://hub"));
    });
}

#[test]
fn given_options_are_resolved_without_a_command_line() {
    let given = vec![GivenOption { name: "title".to_owned(), values: texts(&["given"]) }];
    let environment = environment(&[("INPUT_TITLE", "provided"), ("INPUT_LABELS", "x")]);
    let cli = resolve_arguments("update", &given, &environment).expect("resolved");
    let args = repo_args(cli);
    assert_eq!(args.title, "given");
    assert_eq!(args.labels, "x");
    assert_eq!(args.commit_message, "Update dependencies");

    let invalid = vec![GivenOption { name: "bump".to_owned(), values: texts(&["half"]) }];
    let error = resolve_arguments("release", &invalid, &environment).unwrap_err();
    assert_eq!(error.code, 2);
    assert_eq!(
        error.message,
        "error: invalid value 'half' for '--bump <BUMP>'\n  \
         [possible values: auto, major, minor, patch]\n\nFor more information, try '--help'.\n"
    );
    let twice = vec![GivenOption { name: "cargo".to_owned(), values: texts(&["true", "true"]) }];
    let error = resolve_arguments("pin", &twice, &environment).unwrap_err();
    assert!(error.message.contains("the argument '--cargo [<CARGO>]' cannot be used multiple times"));

    let error = resolve_arguments("unknown", &given, &environment).unwrap_err();
    assert_eq!(error.code, 2);
    assert!(error.message.contains("unrecognized subcommand 'unknown'"));
}

#[test]
fn targets_default_to_the_actions() {
    let select = |github_actions, cargo, all| {
        let selected = TargetArgs { github_actions, cargo, all }.resolve();
        (selected.github_actions, selected.cargo)
    };
    assert_eq!(select(false, false, false), (true, false));
    assert_eq!(select(false, true, false), (false, true));
    assert_eq!(select(true, true, false), (true, true));
    assert_eq!(select(false, false, true), (true, true));
}

#[test]
fn labels_are_trimmed_and_blank_ones_dropped() {
    assert_eq!(parse_labels("deps, security ,, "), ["deps", "security"]);
    assert!(parse_labels(" ").is_empty());
}

#[test]
fn the_repository_falls_back_to_the_environment() {
    let some = |text: &str| Some(text.to_owned());
    assert_eq!(
        resolve_repository(&some(" o "), &some("r"), &some("a/b")),
        Ok(("o".to_owned(), "r".to_owned()))
    );
    assert_eq!(
        resolve_repository(&some("o"), &some(" "), &some("a/b/c")),
        Ok(("a".to_owned(), "b/c".to_owned()))
    );
    assert_eq!(
        resolve_repository(&None, &None, &some("none")),
        Err(
            "--owner and --repo-name (or the GITHUB_REPOSITORY environment variable) are required"
                .to_owned()
        )
    );
}

#[test]
fn release_arguments_name_their_choices() {
    assert_eq!(BumpArg::Auto.level(), None);
    assert_eq!(BumpArg::Major.level(), Some(BumpLevel::Major));
    assert_eq!(BumpArg::Patch.level(), Some(BumpLevel::Patch));
    let args = with_env(&[("INPUT_EXTRA-FILES", "a,b")], |startup| {
        release_args(startup.parse(&["bin", "release", "--bump", "minor", "--phase", "tag"]))
    });
    let options =
        github_actions_maintainer::cli::release_options(&args, "o".to_owned(), "r".to_owned());
    assert_eq!(options.bump, Some(BumpLevel::Minor));
    assert_eq!(options.phase, github_actions_maintainer::ReleasePhase::Tag);
    assert_eq!(options.extra_files, ["a", "b"]);
    assert_eq!(options.owner, "o");
    assert_eq!(options.tag_prefix, "v");
}
