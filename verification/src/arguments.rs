//! The command line: its commands and options, and what was given of them.

use clap::builder::{
    NonEmptyStringValueParser, PossibleValue, PossibleValuesParser, ValueParser,
};
use clap::parser::ValueSource;
use clap::{Arg, ArgAction, ArgMatches, Command};
use vstd::prelude::*;

use crate::input_env::{lookup, value_of, Variable, VariableView};
use crate::text::{join_four, join_six, option_view, same, views};

verus! {

/// The version of the program.
pub const VERSION: &'static str = "0.7.0";

/// What kind of value an option takes.
#[derive(Debug, Clone, Copy, PartialEq, Eq, Structural)]
pub enum OptionKind {
    /// Any text.
    Text,
    /// A path, which is not empty.
    Path,
    /// `true` or `false`; `true` where no value is given.
    Switch,
    /// Paths with commas between them.
    List,
    /// A bump of the version.
    Bump,
    /// A style of tags.
    TagStyle,
    /// A part of a release.
    Phase,
}

/// An option.
#[derive(Debug, Clone, Copy, PartialEq, Eq)]
pub struct OptionShape {
    pub name: &'static str,
    /// What stands for its value in messages.
    pub placeholder: &'static str,
    pub help: &'static str,
    /// The variable that stands in where the option is not given.
    pub variable: &'static str,
    /// The value of the variable is not shown.
    pub secret: bool,
    pub kind: OptionKind,
    pub default: Option<&'static str>,
    pub hidden: bool,
    pub global: bool,
}

/// What an `OptionShape` stands for.
pub struct OptionView {
    pub name: Seq<char>,
    pub placeholder: Seq<char>,
    pub help: Seq<char>,
    pub variable: Seq<char>,
    pub secret: bool,
    pub kind: OptionKind,
    pub default: Option<Seq<char>>,
    pub hidden: bool,
    pub global: bool,
}

impl View for OptionShape {
    type V = OptionView;

    open spec fn view(&self) -> OptionView {
        OptionView {
            name: self.name@,
            placeholder: self.placeholder@,
            help: self.help@,
            variable: self.variable@,
            secret: self.secret,
            kind: self.kind,
            default: option_view(self.default),
            hidden: self.hidden,
            global: self.global,
        }
    }
}

/// A command with its options.
#[derive(Debug, Clone, PartialEq, Eq)]
pub struct CommandShape {
    pub name: &'static str,
    pub about: &'static str,
    pub version: Option<&'static str>,
    /// It is used with one of its commands; alone it shows its help.
    pub needs_command: bool,
    pub options: Vec<OptionShape>,
}

/// What a `CommandShape` stands for.
pub struct CommandView {
    pub name: Seq<char>,
    pub about: Seq<char>,
    pub version: Option<Seq<char>>,
    pub needs_command: bool,
    pub options: Seq<OptionView>,
}

impl View for CommandShape {
    type V = CommandView;

    open spec fn view(&self) -> CommandView {
        CommandView {
            name: self.name@,
            about: self.about@,
            version: option_view(self.version),
            needs_command: self.needs_command,
            options: views(self.options@),
        }
    }
}

/// The options of every command on workflows.
pub open spec fn repo_options() -> Seq<OptionView> {
    seq![
        OptionView {
            name: "repo"@,
            placeholder: "REPO"@,
            help: "Repository root to scan"@,
            variable: "INPUT_REPO"@,
            secret: false,
            kind: OptionKind::Path,
            default: Some("."@),
            hidden: false,
            global: false,
        },
        OptionView {
            name: "workflows-path"@,
            placeholder: "WORKFLOWS_PATH"@,
            help: "Relative path to workflow files beneath the repository root"@,
            variable: "INPUT_WORKFLOWS-PATH"@,
            secret: false,
            kind: OptionKind::Path,
            default: Some(".github/workflows"@),
            hidden: false,
            global: false,
        },
        OptionView {
            name: "token"@,
            placeholder: "TOKEN"@,
            help: "GitHub token used to raise API rate limits; falls back to `GITHUB_TOKEN`"@,
            variable: "INPUT_TOKEN"@,
            secret: true,
            kind: OptionKind::Text,
            default: None,
            hidden: false,
            global: false,
        },
        OptionView {
            name: "owner"@,
            placeholder: "OWNER"@,
            help: "Repository owner used for remote PR creation; falls back to `OWNER`"@,
            variable: "INPUT_OWNER"@,
            secret: false,
            kind: OptionKind::Text,
            default: None,
            hidden: false,
            global: false,
        },
        OptionView {
            name: "repo-name"@,
            placeholder: "REPO_NAME"@,
            help: "Repository name used for remote PR creation; falls back to `REPO_NAME`"@,
            variable: "INPUT_REPO-NAME"@,
            secret: false,
            kind: OptionKind::Text,
            default: None,
            hidden: false,
            global: false,
        },
        OptionView {
            name: "create-pr"@,
            placeholder: "CREATE_PR"@,
            help: "Create a branch and pull request remotely instead of rewriting files locally"@,
            variable: "INPUT_CREATE-PR"@,
            secret: false,
            kind: OptionKind::Switch,
            default: Some("false"@),
            hidden: false,
            global: false,
        },
        OptionView {
            name: "base-branch"@,
            placeholder: "BASE_BRANCH"@,
            help: "Override the base branch for remote PR creation"@,
            variable: "INPUT_BASE-BRANCH"@,
            secret: false,
            kind: OptionKind::Text,
            default: None,
            hidden: false,
            global: false,
        },
        OptionView {
            name: "branch-name"@,
            placeholder: "BRANCH_NAME"@,
            help: "Override the update branch name for remote PR creation"@,
            variable: "INPUT_BRANCH-NAME"@,
            secret: false,
            kind: OptionKind::Text,
            default: None,
            hidden: false,
            global: false,
        },
        OptionView {
            name: "labels"@,
            placeholder: "LABELS"@,
            help: "Labels to add to a created pull request, comma-separated"@,
            variable: "INPUT_LABELS"@,
            secret: false,
            kind: OptionKind::Text,
            default: Some("dependencies"@),
            hidden: false,
            global: false,
        },
        OptionView {
            name: "title"@,
            placeholder: "TITLE"@,
            help: "Pull request title for remote update mode"@,
            variable: "INPUT_TITLE"@,
            secret: false,
            kind: OptionKind::Text,
            default: Some("Update dependencies"@),
            hidden: false,
            global: false,
        },
        OptionView {
            name: "commit-message"@,
            placeholder: "COMMIT_MESSAGE"@,
            help: "Commit message for remote update mode"@,
            variable: "INPUT_COMMIT-MESSAGE"@,
            secret: false,
            kind: OptionKind::Text,
            default: Some("Update dependencies"@),
            hidden: false,
            global: false,
        },
    ]
}

fn list_repo_options() -> (result: Vec<OptionShape>)
    ensures
        views(result@) == repo_options(),
{
    let options: Vec<OptionShape> = vec![
        OptionShape {
            name: "repo",
            placeholder: "REPO",
            help: "Repository root to scan",
            variable: "INPUT_REPO",
            secret: false,
            kind: OptionKind::Path,
            default: Some("."),
            hidden: false,
            global: false,
        },
        OptionShape {
            name: "workflows-path",
            placeholder: "WORKFLOWS_PATH",
            help: "Relative path to workflow files beneath the repository root",
            variable: "INPUT_WORKFLOWS-PATH",
            secret: false,
            kind: OptionKind::Path,
            default: Some(".github/workflows"),
            hidden: false,
            global: false,
        },
        OptionShape {
            name: "token",
            placeholder: "TOKEN",
            help: "GitHub token used to raise API rate limits; falls back to `GITHUB_TOKEN`",
            variable: "INPUT_TOKEN",
            secret: true,
            kind: OptionKind::Text,
            default: None,
            hidden: false,
            global: false,
        },
        OptionShape {
            name: "owner",
            placeholder: "OWNER",
            help: "Repository owner used for remote PR creation; falls back to `OWNER`",
            variable: "INPUT_OWNER",
            secret: false,
            kind: OptionKind::Text,
            default: None,
            hidden: false,
            global: false,
        },
        OptionShape {
            name: "repo-name",
            placeholder: "REPO_NAME",
            help: "Repository name used for remote PR creation; falls back to `REPO_NAME`",
            variable: "INPUT_REPO-NAME",
            secret: false,
            kind: OptionKind::Text,
            default: None,
            hidden: false,
            global: false,
        },
        OptionShape {
            name: "create-pr",
            placeholder: "CREATE_PR",
            help: "Create a branch and pull request remotely instead of rewriting files locally",
            variable: "INPUT_CREATE-PR",
            secret: false,
            kind: OptionKind::Switch,
            default: Some("false"),
            hidden: false,
            global: false,
        },
        OptionShape {
            name: "base-branch",
            placeholder: "BASE_BRANCH",
            help: "Override the base branch for remote PR creation",
            variable: "INPUT_BASE-BRANCH",
            secret: false,
            kind: OptionKind::Text,
            default: None,
            hidden: false,
            global: false,
        },
        OptionShape {
            name: "branch-name",
            placeholder: "BRANCH_NAME",
            help: "Override the update branch name for remote PR creation",
            variable: "INPUT_BRANCH-NAME",
            secret: false,
            kind: OptionKind::Text,
            default: None,
            hidden: false,
            global: false,
        },
        OptionShape {
            name: "labels",
            placeholder: "LABELS",
            help: "Labels to add to a created pull request, comma-separated",
            variable: "INPUT_LABELS",
            secret: false,
            kind: OptionKind::Text,
            default: Some("dependencies"),
            hidden: false,
            global: false,
        },
        OptionShape {
            name: "title",
            placeholder: "TITLE",
            help: "Pull request title for remote update mode",
            variable: "INPUT_TITLE",
            secret: false,
            kind: OptionKind::Text,
            default: Some("Update dependencies"),
            hidden: false,
            global: false,
        },
        OptionShape {
            name: "commit-message",
            placeholder: "COMMIT_MESSAGE",
            help: "Commit message for remote update mode",
            variable: "INPUT_COMMIT-MESSAGE",
            secret: false,
            kind: OptionKind::Text,
            default: Some("Update dependencies"),
            hidden: false,
            global: false,
        },
    ];
    assert(views(options@) == repo_options());
    options
}

/// The options that select what is updated.
pub open spec fn target_options() -> Seq<OptionView> {
    seq![
        OptionView {
            name: "github-actions"@,
            placeholder: "GITHUB_ACTIONS"@,
            help: "Include GitHub Actions workflow updates"@,
            variable: "INPUT_GITHUB-ACTIONS"@,
            secret: false,
            kind: OptionKind::Switch,
            default: Some("false"@),
            hidden: false,
            global: false,
        },
        OptionView {
            name: "cargo"@,
            placeholder: "CARGO"@,
            help: "Include cargo package dependency updates"@,
            variable: "INPUT_CARGO"@,
            secret: false,
            kind: OptionKind::Switch,
            default: Some("false"@),
            hidden: false,
            global: false,
        },
        OptionView {
            name: "all"@,
            placeholder: "ALL"@,
            help: "Include both GitHub Actions and cargo package updates"@,
            variable: "INPUT_ALL"@,
            secret: false,
            kind: OptionKind::Switch,
            default: Some("false"@),
            hidden: false,
            global: false,
        },
    ]
}

fn list_target_options() -> (result: Vec<OptionShape>)
    ensures
        views(result@) == target_options(),
{
    let options: Vec<OptionShape> = vec![
        OptionShape {
            name: "github-actions",
            placeholder: "GITHUB_ACTIONS",
            help: "Include GitHub Actions workflow updates",
            variable: "INPUT_GITHUB-ACTIONS",
            secret: false,
            kind: OptionKind::Switch,
            default: Some("false"),
            hidden: false,
            global: false,
        },
        OptionShape {
            name: "cargo",
            placeholder: "CARGO",
            help: "Include cargo package dependency updates",
            variable: "INPUT_CARGO",
            secret: false,
            kind: OptionKind::Switch,
            default: Some("false"),
            hidden: false,
            global: false,
        },
        OptionShape {
            name: "all",
            placeholder: "ALL",
            help: "Include both GitHub Actions and cargo package updates",
            variable: "INPUT_ALL",
            secret: false,
            kind: OptionKind::Switch,
            default: Some("false"),
            hidden: false,
            global: false,
        },
    ];
    assert(views(options@) == target_options());
    options
}

/// The option of commands that can be run without effect.
pub open spec fn run_options(help: Seq<char>, hidden: bool) -> Seq<OptionView> {
    seq![
        OptionView {
            name: "dry-run"@,
            placeholder: "DRY_RUN"@,
            help,
            variable: "INPUT_DRY-RUN"@,
            secret: false,
            kind: OptionKind::Switch,
            default: Some("false"@),
            hidden,
            global: false,
        },
    ]
}

fn list_run_options(help: &'static str, hidden: bool) -> (result: Vec<OptionShape>)
    ensures
        views(result@) == run_options(help@, hidden),
{
    let options: Vec<OptionShape> = vec![
        OptionShape {
            name: "dry-run",
            placeholder: "DRY_RUN",
            help,
            variable: "INPUT_DRY-RUN",
            secret: false,
            kind: OptionKind::Switch,
            default: Some("false"),
            hidden,
            global: false,
        },
    ];
    assert(views(options@) == run_options(help@, hidden));
    options
}

/// The options of the policy scan.
pub open spec fn policy_options() -> Seq<OptionView> {
    seq![
        OptionView {
            name: "check-scripts"@,
            placeholder: "CHECK_SCRIPTS"@,
            help: "Report explicit Bash and Python script usage"@,
            variable: "INPUT_CHECK-SCRIPTS"@,
            secret: false,
            kind: OptionKind::Switch,
            default: Some("true"@),
            hidden: false,
            global: false,
        },
        OptionView {
            name: "check-policies"@,
            placeholder: "CHECK_POLICIES"@,
            help: "Report baseline workflow policy findings"@,
            variable: "INPUT_CHECK-POLICIES"@,
            secret: false,
            kind: OptionKind::Switch,
            default: Some("true"@),
            hidden: false,
            global: false,
        },
        OptionView {
            name: "fail-on-findings"@,
            placeholder: "FAIL_ON_FINDINGS"@,
            help: "Exit non-zero when the scan reports any finding"@,
            variable: "INPUT_FAIL-ON-FINDINGS"@,
            secret: false,
            kind: OptionKind::Switch,
            default: Some("false"@),
            hidden: false,
            global: false,
        },
    ]
}

fn list_policy_options() -> (result: Vec<OptionShape>)
    ensures
        views(result@) == policy_options(),
{
    let options: Vec<OptionShape> = vec![
        OptionShape {
            name: "check-scripts",
            placeholder: "CHECK_SCRIPTS",
            help: "Report explicit Bash and Python script usage",
            variable: "INPUT_CHECK-SCRIPTS",
            secret: false,
            kind: OptionKind::Switch,
            default: Some("true"),
            hidden: false,
            global: false,
        },
        OptionShape {
            name: "check-policies",
            placeholder: "CHECK_POLICIES",
            help: "Report baseline workflow policy findings",
            variable: "INPUT_CHECK-POLICIES",
            secret: false,
            kind: OptionKind::Switch,
            default: Some("true"),
            hidden: false,
            global: false,
        },
        OptionShape {
            name: "fail-on-findings",
            placeholder: "FAIL_ON_FINDINGS",
            help: "Exit non-zero when the scan reports any finding",
            variable: "INPUT_FAIL-ON-FINDINGS",
            secret: false,
            kind: OptionKind::Switch,
            default: Some("false"),
            hidden: false,
            global: false,
        },
    ];
    assert(views(options@) == policy_options());
    options
}

/// The options of a release.
pub open spec fn release_options() -> Seq<OptionView> {
    seq![
        OptionView {
            name: "repo"@,
            placeholder: "REPO"@,
            help: "Repository root containing Cargo.toml"@,
            variable: "INPUT_REPO"@,
            secret: false,
            kind: OptionKind::Path,
            default: Some("."@),
            hidden: false,
            global: false,
        },
        OptionView {
            name: "token"@,
            placeholder: "TOKEN"@,
            help: "GitHub token used to create the release commit, tag, and release; falls back to `GITHUB_TOKEN`"@,
            variable: "INPUT_TOKEN"@,
            secret: true,
            kind: OptionKind::Text,
            default: None,
            hidden: false,
            global: false,
        },
        OptionView {
            name: "owner"@,
            placeholder: "OWNER"@,
            help: "Repository owner; falls back to `OWNER`, then `GITHUB_REPOSITORY`"@,
            variable: "INPUT_OWNER"@,
            secret: false,
            kind: OptionKind::Text,
            default: None,
            hidden: false,
            global: false,
        },
        OptionView {
            name: "repo-name"@,
            placeholder: "REPO_NAME"@,
            help: "Repository name; falls back to `REPO_NAME`, then `GITHUB_REPOSITORY`"@,
            variable: "INPUT_REPO-NAME"@,
            secret: false,
            kind: OptionKind::Text,
            default: None,
            hidden: false,
            global: false,
        },
        OptionView {
            name: "base-branch"@,
            placeholder: "BASE_BRANCH"@,
            help: "Branch to release from; defaults to the repository default branch"@,
            variable: "INPUT_BASE-BRANCH"@,
            secret: false,
            kind: OptionKind::Text,
            default: None,
            hidden: false,
            global: false,
        },
        OptionView {
            name: "bump"@,
            placeholder: "BUMP"@,
            help: "Version bump strategy"@,
            variable: "INPUT_BUMP"@,
            secret: false,
            kind: OptionKind::Bump,
            default: Some("auto"@),
            hidden: false,
            global: false,
        },
        OptionView {
            name: "tag-prefix"@,
            placeholder: "TAG_PREFIX"@,
            help: "Prefix for release tags"@,
            variable: "INPUT_TAG-PREFIX"@,
            secret: false,
            kind: OptionKind::Text,
            default: Some("v"@),
            hidden: false,
            global: false,
        },
        OptionView {
            name: "tag-style"@,
            placeholder: "TAG_STYLE"@,
            help: "How the release tag is created. Annotated tags carry a tagger identity and satisfy provenance checks; the major alias stays lightweight"@,
            variable: "INPUT_TAG-STYLE"@,
            secret: false,
            kind: OptionKind::TagStyle,
            default: Some("annotated"@),
            hidden: false,
            global: false,
        },
        OptionView {
            name: "update-major-alias"@,
            placeholder: "UPDATE_MAJOR_ALIAS"@,
            help: "Also move the moving major alias tag (e.g. v1) to the new release"@,
            variable: "INPUT_UPDATE-MAJOR-ALIAS"@,
            secret: false,
            kind: OptionKind::Switch,
            default: Some("false"@),
            hidden: false,
            global: false,
        },
        OptionView {
            name: "notes-file"@,
            placeholder: "NOTES_FILE"@,
            help: "Path where generated release notes are written, including on dry runs"@,
            variable: "INPUT_NOTES-FILE"@,
            secret: false,
            kind: OptionKind::Path,
            default: Some("release_notes.md"@),
            hidden: false,
            global: false,
        },
        OptionView {
            name: "commit-message"@,
            placeholder: "COMMIT_MESSAGE"@,
            help: "Commit message template; \"{version}\" is replaced with the new version"@,
            variable: "INPUT_COMMIT-MESSAGE"@,
            secret: false,
            kind: OptionKind::Text,
            default: Some("chore: release v{version}"@),
            hidden: false,
            global: false,
        },
        OptionView {
            name: "create-pr"@,
            placeholder: "CREATE_PR"@,
            help: "Create or update an automated release branch and pull request instead of publishing directly to the base branch"@,
            variable: "INPUT_CREATE-PR"@,
            secret: false,
            kind: OptionKind::Switch,
            default: Some("false"@),
            hidden: false,
            global: false,
        },
        OptionView {
            name: "release-branch"@,
            placeholder: "RELEASE_BRANCH"@,
            help: "Automation-owned branch used for the release pull request"@,
            variable: "INPUT_RELEASE-BRANCH"@,
            secret: false,
            kind: OptionKind::Text,
            default: Some("automation/release"@),
            hidden: false,
            global: false,
        },
        OptionView {
            name: "extra-files"@,
            placeholder: "EXTRA_FILES"@,
            help: "Extra repository-relative files to stage into the release commit, on top of the manifest and lockfile version rewrites. Lets a caller pin a value it can only resolve at release time, such as a runtime image digest, inside the commit the release tag points at"@,
            variable: "INPUT_EXTRA-FILES"@,
            secret: false,
            kind: OptionKind::List,
            default: None,
            hidden: false,
            global: false,
        },
        OptionView {
            name: "github-output"@,
            placeholder: "GITHUB_OUTPUT"@,
            help: "File that the outputs of the run are appended to"@,
            variable: "GITHUB_OUTPUT"@,
            secret: false,
            kind: OptionKind::Path,
            default: None,
            hidden: true,
            global: false,
        },
        OptionView {
            name: "phase"@,
            placeholder: "PHASE"@,
            help: "Which part of the release to perform. `all` bumps, tags, and publishes in one run. `bump` stops after committing the version bump so a runtime image can be built from the released version before the tag exists, and `tag` then tags the version the manifest already holds"@,
            variable: "INPUT_PHASE"@,
            secret: false,
            kind: OptionKind::Phase,
            default: Some("all"@),
            hidden: false,
            global: false,
        },
        OptionView {
            name: "dry-run"@,
            placeholder: "DRY_RUN"@,
            help: "Analyze and report without creating any commit, tag, or release"@,
            variable: "INPUT_DRY-RUN"@,
            secret: false,
            kind: OptionKind::Switch,
            default: Some("false"@),
            hidden: false,
            global: false,
        },
    ]
}

fn list_release_options() -> (result: Vec<OptionShape>)
    ensures
        views(result@) == release_options(),
{
    let options: Vec<OptionShape> = vec![
        OptionShape {
            name: "repo",
            placeholder: "REPO",
            help: "Repository root containing Cargo.toml",
            variable: "INPUT_REPO",
            secret: false,
            kind: OptionKind::Path,
            default: Some("."),
            hidden: false,
            global: false,
        },
        OptionShape {
            name: "token",
            placeholder: "TOKEN",
            help: "GitHub token used to create the release commit, tag, and release; falls back to `GITHUB_TOKEN`",
            variable: "INPUT_TOKEN",
            secret: true,
            kind: OptionKind::Text,
            default: None,
            hidden: false,
            global: false,
        },
        OptionShape {
            name: "owner",
            placeholder: "OWNER",
            help: "Repository owner; falls back to `OWNER`, then `GITHUB_REPOSITORY`",
            variable: "INPUT_OWNER",
            secret: false,
            kind: OptionKind::Text,
            default: None,
            hidden: false,
            global: false,
        },
        OptionShape {
            name: "repo-name",
            placeholder: "REPO_NAME",
            help: "Repository name; falls back to `REPO_NAME`, then `GITHUB_REPOSITORY`",
            variable: "INPUT_REPO-NAME",
            secret: false,
            kind: OptionKind::Text,
            default: None,
            hidden: false,
            global: false,
        },
        OptionShape {
            name: "base-branch",
            placeholder: "BASE_BRANCH",
            help: "Branch to release from; defaults to the repository default branch",
            variable: "INPUT_BASE-BRANCH",
            secret: false,
            kind: OptionKind::Text,
            default: None,
            hidden: false,
            global: false,
        },
        OptionShape {
            name: "bump",
            placeholder: "BUMP",
            help: "Version bump strategy",
            variable: "INPUT_BUMP",
            secret: false,
            kind: OptionKind::Bump,
            default: Some("auto"),
            hidden: false,
            global: false,
        },
        OptionShape {
            name: "tag-prefix",
            placeholder: "TAG_PREFIX",
            help: "Prefix for release tags",
            variable: "INPUT_TAG-PREFIX",
            secret: false,
            kind: OptionKind::Text,
            default: Some("v"),
            hidden: false,
            global: false,
        },
        OptionShape {
            name: "tag-style",
            placeholder: "TAG_STYLE",
            help: "How the release tag is created. Annotated tags carry a tagger identity and satisfy provenance checks; the major alias stays lightweight",
            variable: "INPUT_TAG-STYLE",
            secret: false,
            kind: OptionKind::TagStyle,
            default: Some("annotated"),
            hidden: false,
            global: false,
        },
        OptionShape {
            name: "update-major-alias",
            placeholder: "UPDATE_MAJOR_ALIAS",
            help: "Also move the moving major alias tag (e.g. v1) to the new release",
            variable: "INPUT_UPDATE-MAJOR-ALIAS",
            secret: false,
            kind: OptionKind::Switch,
            default: Some("false"),
            hidden: false,
            global: false,
        },
        OptionShape {
            name: "notes-file",
            placeholder: "NOTES_FILE",
            help: "Path where generated release notes are written, including on dry runs",
            variable: "INPUT_NOTES-FILE",
            secret: false,
            kind: OptionKind::Path,
            default: Some("release_notes.md"),
            hidden: false,
            global: false,
        },
        OptionShape {
            name: "commit-message",
            placeholder: "COMMIT_MESSAGE",
            help: "Commit message template; \"{version}\" is replaced with the new version",
            variable: "INPUT_COMMIT-MESSAGE",
            secret: false,
            kind: OptionKind::Text,
            default: Some("chore: release v{version}"),
            hidden: false,
            global: false,
        },
        OptionShape {
            name: "create-pr",
            placeholder: "CREATE_PR",
            help: "Create or update an automated release branch and pull request instead of publishing directly to the base branch",
            variable: "INPUT_CREATE-PR",
            secret: false,
            kind: OptionKind::Switch,
            default: Some("false"),
            hidden: false,
            global: false,
        },
        OptionShape {
            name: "release-branch",
            placeholder: "RELEASE_BRANCH",
            help: "Automation-owned branch used for the release pull request",
            variable: "INPUT_RELEASE-BRANCH",
            secret: false,
            kind: OptionKind::Text,
            default: Some("automation/release"),
            hidden: false,
            global: false,
        },
        OptionShape {
            name: "extra-files",
            placeholder: "EXTRA_FILES",
            help: "Extra repository-relative files to stage into the release commit, on top of the manifest and lockfile version rewrites. Lets a caller pin a value it can only resolve at release time, such as a runtime image digest, inside the commit the release tag points at",
            variable: "INPUT_EXTRA-FILES",
            secret: false,
            kind: OptionKind::List,
            default: None,
            hidden: false,
            global: false,
        },
        OptionShape {
            name: "github-output",
            placeholder: "GITHUB_OUTPUT",
            help: "File that the outputs of the run are appended to",
            variable: "GITHUB_OUTPUT",
            secret: false,
            kind: OptionKind::Path,
            default: None,
            hidden: true,
            global: false,
        },
        OptionShape {
            name: "phase",
            placeholder: "PHASE",
            help: "Which part of the release to perform. `all` bumps, tags, and publishes in one run. `bump` stops after committing the version bump so a runtime image can be built from the released version before the tag exists, and `tag` then tags the version the manifest already holds",
            variable: "INPUT_PHASE",
            secret: false,
            kind: OptionKind::Phase,
            default: Some("all"),
            hidden: false,
            global: false,
        },
        OptionShape {
            name: "dry-run",
            placeholder: "DRY_RUN",
            help: "Analyze and report without creating any commit, tag, or release",
            variable: "INPUT_DRY-RUN",
            secret: false,
            kind: OptionKind::Switch,
            default: Some("false"),
            hidden: false,
            global: false,
        },
    ];
    assert(views(options@) == release_options());
    options
}

/// The options that stand with every command.
pub open spec fn global_options() -> Seq<OptionView> {
    seq![
        OptionView {
            name: "github-api-base-url"@,
            placeholder: "GITHUB_API_BASE_URL"@,
            help: "Address of the GitHub API"@,
            variable: "GITHUB_API_BASE_URL"@,
            secret: false,
            kind: OptionKind::Text,
            default: None,
            hidden: true,
            global: true,
        },
        OptionView {
            name: "crates-api-base-url"@,
            placeholder: "CRATES_API_BASE_URL"@,
            help: "Address of the crates.io API"@,
            variable: "CRATES_IO_API_BASE_URL"@,
            secret: false,
            kind: OptionKind::Text,
            default: None,
            hidden: true,
            global: true,
        },
    ]
}

fn list_global_options() -> (result: Vec<OptionShape>)
    ensures
        views(result@) == global_options(),
{
    let options: Vec<OptionShape> = vec![
        OptionShape {
            name: "github-api-base-url",
            placeholder: "GITHUB_API_BASE_URL",
            help: "Address of the GitHub API",
            variable: "GITHUB_API_BASE_URL",
            secret: false,
            kind: OptionKind::Text,
            default: None,
            hidden: true,
            global: true,
        },
        OptionShape {
            name: "crates-api-base-url",
            placeholder: "CRATES_API_BASE_URL",
            help: "Address of the crates.io API",
            variable: "CRATES_IO_API_BASE_URL",
            secret: false,
            kind: OptionKind::Text,
            default: None,
            hidden: true,
            global: true,
        },
    ];
    assert(views(options@) == global_options());
    options
}

/// The program itself, with the options that stand with every command.
pub open spec fn program() -> CommandView {
    CommandView {
        name: "github-actions-maintainer"@,
        about: "General-purpose GitHub Actions maintenance with secure pinning as the first feature."@,
        version: Some(VERSION@),
        needs_command: true,
        options: global_options(),
    }
}

/// A command of the program.
pub open spec fn command_of(
    name: Seq<char>,
    about: Seq<char>,
    options: Seq<OptionView>,
) -> CommandView {
    CommandView { name, about, version: None, needs_command: false, options }
}

/// The options of a command on actions and dependencies.
pub open spec fn update_options(help: Seq<char>, hidden: bool) -> Seq<OptionView> {
    repo_options() + target_options() + run_options(help, hidden)
}

/// The commands of the program.
pub open spec fn commands() -> Seq<CommandView> {
    seq![
        command_of(
            "pin"@,
            "Resolve floating GitHub Action refs to immutable commit SHAs"@,
            update_options("Show changes without rewriting files"@, false),
        ),
        command_of(
            "update"@,
            "Update GitHub Actions to the latest release or tag, then pin them"@,
            update_options("Show available updates without rewriting files"@, false),
        ),
        command_of(
            "status"@,
            "Report current and latest versions for GitHub Actions in workflows"@,
            update_options("Show the report without rewriting files"@, true),
        ),
        command_of(
            "policy"@,
            "Report script usage and baseline workflow policy findings"@,
            repo_options() + policy_options(),
        ),
        command_of(
            "release"@,
            "Bump the Cargo version from conventional commits, then commit, tag, and publish a GitHub Release"@,
            release_options(),
        ),
    ]
}

fn list_update_options(help: &'static str, hidden: bool) -> (result: Vec<OptionShape>)
    ensures
        views(result@) == update_options(help@, hidden),
{
    let mut options = list_repo_options();
    append_options(&mut options, list_target_options());
    append_options(&mut options, list_run_options(help, hidden));
    options
}

fn list_policy_scan_options() -> (result: Vec<OptionShape>)
    ensures
        views(result@) == repo_options() + policy_options(),
{
    let mut options = list_repo_options();
    append_options(&mut options, list_policy_options());
    options
}

fn append_options(options: &mut Vec<OptionShape>, more: Vec<OptionShape>)
    ensures
        views(final(options)@) == views(old(options)@) + views(more@),
{
    let mut rest = more;
    options.append(&mut rest);
    assert(views(options@) == views(old(options)@) + views(more@));
}

fn describe_program() -> (result: CommandShape)
    ensures
        result@ == program(),
{
    CommandShape {
        name: "github-actions-maintainer",
        about: "General-purpose GitHub Actions maintenance with secure pinning as the first feature.",
        version: Some(VERSION),
        needs_command: true,
        options: list_global_options(),
    }
}

fn describe_command(
    name: &'static str,
    about: &'static str,
    options: Vec<OptionShape>,
) -> (result: CommandShape)
    ensures
        result@ == command_of(name@, about@, views(options@)),
{
    CommandShape { name, about, version: None, needs_command: false, options }
}

fn describe_commands() -> (result: Vec<CommandShape>)
    ensures
        views(result@) == commands(),
{
    let shapes: Vec<CommandShape> = vec![
        describe_command(
            "pin",
            "Resolve floating GitHub Action refs to immutable commit SHAs",
            list_update_options("Show changes without rewriting files", false),
        ),
        describe_command(
            "update",
            "Update GitHub Actions to the latest release or tag, then pin them",
            list_update_options("Show available updates without rewriting files", false),
        ),
        describe_command(
            "status",
            "Report current and latest versions for GitHub Actions in workflows",
            list_update_options("Show the report without rewriting files", true),
        ),
        describe_command(
            "policy",
            "Report script usage and baseline workflow policy findings",
            list_policy_scan_options(),
        ),
        describe_command(
            "release",
            "Bump the Cargo version from conventional commits, then commit, tag, and publish a GitHub Release",
            list_release_options(),
        ),
    ];
    assert(views(shapes@) == commands());
    shapes
}

// ---------------------------------------------------------------------------
// How the command line is described
// ---------------------------------------------------------------------------
/// A value that an option may have, and what it means.
#[derive(Debug, Clone, Copy, PartialEq, Eq)]
pub struct ValueShape {
    pub name: &'static str,
    pub help: Option<&'static str>,
}

/// What a `ValueShape` stands for.
pub struct ValueView {
    pub name: Seq<char>,
    pub help: Option<Seq<char>>,
}

impl View for ValueShape {
    type V = ValueView;

    open spec fn view(&self) -> ValueView {
        ValueView { name: self.name@, help: option_view(self.help) }
    }
}

/// The values that an option of a kind may have, where they are limited.
pub open spec fn possible_values(kind: OptionKind) -> Option<Seq<ValueView>> {
    match kind {
        OptionKind::Switch => Some(
            seq![
                ValueView { name: "true"@, help: None },
                ValueView { name: "false"@, help: None },
            ],
        ),
        OptionKind::Bump => Some(
            seq![
                ValueView {
                    name: "auto"@,
                    help: Some(
                        "Derive the bump from conventional commits since the last release tag"@,
                    ),
                },
                ValueView { name: "major"@, help: None },
                ValueView { name: "minor"@, help: None },
                ValueView { name: "patch"@, help: None },
            ],
        ),
        OptionKind::TagStyle => Some(
            seq![
                ValueView {
                    name: "annotated"@,
                    help: Some("Annotated tag object with a tagger identity (secure default)"@),
                },
                ValueView {
                    name: "lightweight"@,
                    help: Some("Bare ref pointing directly at the release commit"@),
                },
            ],
        ),
        OptionKind::Phase => Some(
            seq![
                ValueView {
                    name: "all"@,
                    help: Some("Bump, tag, and publish in a single run"@),
                },
                ValueView {
                    name: "bump"@,
                    help: Some("Commit the version bump and stop, leaving the version untagged"@),
                },
                ValueView {
                    name: "tag"@,
                    help: Some("Tag the version the manifest already holds, without bumping it"@),
                },
            ],
        ),
        _ => None,
    }
}

/// What a list of values stands for, where there is one.
pub open spec fn values_view(values: Option<Vec<ValueShape>>) -> Option<Seq<ValueView>> {
    match values {
        Some(values) => Some(views(values@)),
        None => None,
    }
}

/// The values that an option of a kind may have, where they are limited.
pub(crate) fn list_values(kind: OptionKind) -> (result: Option<Vec<ValueShape>>)
    ensures
        values_view(result) == possible_values(kind),
{
    let values: Vec<ValueShape> = match kind {
        OptionKind::Switch => vec![
            ValueShape { name: "true", help: None },
            ValueShape { name: "false", help: None },
        ],
        OptionKind::Bump => vec![
            ValueShape {
                name: "auto",
                help: Some("Derive the bump from conventional commits since the last release tag"),
            },
            ValueShape { name: "major", help: None },
            ValueShape { name: "minor", help: None },
            ValueShape { name: "patch", help: None },
        ],
        OptionKind::TagStyle => vec![
            ValueShape {
                name: "annotated",
                help: Some("Annotated tag object with a tagger identity (secure default)"),
            },
            ValueShape {
                name: "lightweight",
                help: Some("Bare ref pointing directly at the release commit"),
            },
        ],
        OptionKind::Phase => vec![
            ValueShape { name: "all", help: Some("Bump, tag, and publish in a single run") },
            ValueShape {
                name: "bump",
                help: Some("Commit the version bump and stop, leaving the version untagged"),
            },
            ValueShape {
                name: "tag",
                help: Some("Tag the version the manifest already holds, without bumping it"),
            },
        ],
        _ => {
            return None;
        },
    };
    assert(views(values@) == possible_values(kind)->0);
    Some(values)
}

/// An option as the command line takes it.
pub struct ArgShape {
    pub name: &'static str,
    pub placeholder: &'static str,
    pub help: String,
    /// The values that it may have, where they are limited.
    pub values: Option<Vec<ValueShape>>,
    /// No value is empty.
    pub filled: bool,
    /// What stands between values that are given as one.
    pub delimiter: Option<char>,
    /// It may be given more than once.
    pub many: bool,
    pub default: Option<&'static str>,
    /// The value where it is given without one.
    pub missing: Option<&'static str>,
    /// How many values it takes at least; at most it takes one.
    pub least: usize,
    pub hidden: bool,
    pub global: bool,
}

/// What an `ArgShape` stands for.
pub struct ArgView {
    pub name: Seq<char>,
    pub placeholder: Seq<char>,
    pub help: Seq<char>,
    pub values: Option<Seq<ValueView>>,
    pub filled: bool,
    pub delimiter: Option<char>,
    pub many: bool,
    pub default: Option<Seq<char>>,
    pub missing: Option<Seq<char>>,
    pub least: usize,
    pub hidden: bool,
    pub global: bool,
}

impl View for ArgShape {
    type V = ArgView;

    open spec fn view(&self) -> ArgView {
        ArgView {
            name: self.name@,
            placeholder: self.placeholder@,
            help: self.help@,
            values: values_view(self.values),
            filled: self.filled,
            delimiter: self.delimiter,
            many: self.many,
            default: option_view(self.default),
            missing: option_view(self.missing),
            least: self.least,
            hidden: self.hidden,
            global: self.global,
        }
    }
}

/// The help of an option: what it is for, and its variable with its value.
pub open spec fn shown_help(option: OptionView, value: Option<Seq<char>>) -> Seq<char> {
    if option.secret {
        option.help + " [env: "@ + option.variable + "]"@
    } else {
        option.help + " [env: "@ + option.variable + "="@ + (match value {
            Some(value) => value,
            None => ""@,
        }) + "]"@
    }
}

/// An option as the command line takes it, where its variable has the value.
pub open spec fn arg_of(option: OptionView, value: Option<Seq<char>>) -> ArgView {
    ArgView {
        name: option.name,
        placeholder: option.placeholder,
        help: shown_help(option, value),
        values: possible_values(option.kind),
        filled: option.kind == OptionKind::Path || option.kind == OptionKind::List,
        delimiter: if option.kind == OptionKind::List {
            Some(',')
        } else {
            None
        },
        many: option.kind == OptionKind::List,
        default: option.default,
        missing: if option.kind == OptionKind::Switch {
            Some("true"@)
        } else {
            None
        },
        least: if option.kind == OptionKind::Switch {
            0
        } else {
            1
        },
        hidden: option.hidden,
        global: option.global,
    }
}

fn describe_option(option: &OptionShape, environment: &Vec<Variable>) -> (result: ArgShape)
    ensures
        result@ == arg_of(option@, value_of(views(environment@), option.variable@)),
{
    let help = if option.secret {
        join_four(option.help, " [env: ", option.variable, "]")
    } else {
        let value = match lookup(environment, option.variable) {
            Some(value) => value,
            None => "".to_owned(),
        };
        join_six(option.help, " [env: ", option.variable, "=", &value, "]")
    };
    ArgShape {
        name: option.name,
        placeholder: option.placeholder,
        help,
        values: list_values(option.kind),
        filled: option.kind == OptionKind::Path || option.kind == OptionKind::List,
        delimiter: if option.kind == OptionKind::List {
            Some(',')
        } else {
            None
        },
        many: option.kind == OptionKind::List,
        default: option.default,
        missing: if option.kind == OptionKind::Switch {
            Some("true")
        } else {
            None
        },
        least: if option.kind == OptionKind::Switch {
            0
        } else {
            1
        },
        hidden: option.hidden,
        global: option.global,
    }
}

/// A command as the command line takes it.
pub struct LineCommand {
    pub name: Seq<char>,
    pub about: Seq<char>,
    pub version: Option<Seq<char>>,
    pub needs_command: bool,
    pub args: Seq<ArgView>,
}

/// A command as the command line takes it in an environment.
pub open spec fn line_command(
    command: CommandView,
    environment: Seq<VariableView>,
) -> LineCommand {
    LineCommand {
        name: command.name,
        about: command.about,
        version: command.version,
        needs_command: command.needs_command,
        args: command.options.map_values(
            |option: OptionView| arg_of(option, value_of(environment, option.variable)),
        ),
    }
}

/// The commands as the command line takes them in an environment.
pub open spec fn line_commands(environment: Seq<VariableView>) -> Seq<LineCommand> {
    commands().map_values(|command: CommandView| line_command(command, environment))
}

/// `clap::Arg`, an option of a command line.
#[verifier::external_type_specification]
#[verifier::external_body]
pub struct ExArg(clap::Arg);

/// `clap::Command`, a command of a command line.
#[verifier::external_type_specification]
#[verifier::external_body]
pub struct ExCommand(clap::Command);

/// What an option was made with.
pub uninterp spec fn arg_made(arg: clap::Arg) -> ArgView;

/// What a command was made with.
pub uninterp spec fn command_made(command: clap::Command) -> LineCommand;

/// `clap::Arg::new` with the methods of `clap::Arg` that set what the shape says. The range
/// of how many values it takes is not empty, and values are limited in one way at most.
#[verifier::external_body]
fn make_arg(shape: &ArgShape) -> (result: Arg)
    requires
        shape.least <= 1,
        shape.values is Some ==> !shape.filled,
    ensures
        arg_made(result) == shape@,
{
    let named = |value: &ValueShape| PossibleValue::new(value.name).help(value.help);
    let limited = shape.values.as_ref().map(|all| PossibleValuesParser::new(all.iter().map(named)));
    let filled = shape.filled.then_some(ValueParser::new(NonEmptyStringValueParser::new()));
    Arg::new(shape.name).long(shape.name).value_name(shape.placeholder).help(shape.help.clone())
        .value_parser(limited.map(ValueParser::new).or(filled)).value_delimiter(shape.delimiter)
        .action(shape.many.then_some(ArgAction::Append)).num_args(shape.least..=1)
        .default_value(shape.default).default_missing_value(shape.missing).global(shape.global)
        .hide_short_help(shape.hidden).hide_long_help(shape.hidden)
}

/// `clap::Command::new` with the methods of `clap::Command` that set what the shape says,
/// and `clap::Command::args` with its options.
#[verifier::external_body]
fn make_command(shape: &CommandShape, args: Vec<Arg>) -> (result: Command)
    ensures
        command_made(result) == (LineCommand {
            name: shape.name@,
            about: shape.about@,
            version: option_view(shape.version),
            needs_command: shape.needs_command,
            args: args@.map_values(|arg: Arg| arg_made(arg)),
        }),
{
    Command::new(shape.name).about(shape.about).version(shape.version)
        .subcommand_required(shape.needs_command).arg_required_else_help(shape.needs_command)
        .args(args)
}

/// A command as the command line takes it in an environment.
fn build_command(shape: &CommandShape, environment: &Vec<Variable>) -> (result: Command)
    ensures
        command_made(result) == line_command(shape@, views(environment@)),
{
    let ghost all = line_command(shape@, views(environment@)).args;
    let mut args: Vec<Arg> = Vec::new();
    let mut i: usize = 0;
    while i < shape.options.len()
        invariant
            i <= shape.options.len(),
            all == line_command(shape@, views(environment@)).args,
            args@.map_values(|arg: Arg| arg_made(arg)) == all.take(i as int),
        decreases shape.options.len() - i,
    {
        let ghost before = args@;
        let arg = make_arg(&describe_option(&shape.options[i], environment));
        args.push(arg);
        proof {
            assert(shape@.options[i as int] == shape.options@[i as int]@);
            assert(args@.map_values(|arg: Arg| arg_made(arg)) == before.map_values(
                |arg: Arg| arg_made(arg),
            ).push(arg_made(arg)));
            assert(all.take(i + 1) == all.take(i as int).push(all[i as int]));
        }
        i = i + 1;
    }
    assert(all.take(i as int) == all);
    make_command(shape, args)
}

/// The commands as the command line takes them in an environment.
fn build_commands(environment: &Vec<Variable>) -> (result: Vec<Command>)
    ensures
        commands_made(result@) == line_commands(views(environment@)),
{
    let shapes = describe_commands();
    let ghost all = line_commands(views(environment@));
    let mut built: Vec<Command> = Vec::new();
    let mut i: usize = 0;
    assert(commands_made(built@) == all.take(0));
    while i < shapes.len()
        invariant
            i <= shapes.len(),
            views(shapes@) == commands(),
            all == line_commands(views(environment@)),
            commands_made(built@) == all.take(i as int),
        decreases shapes.len() - i,
    {
        let ghost before = built@;
        let command = build_command(&shapes[i], environment);
        built.push(command);
        proof {
            assert(commands()[i as int] == shapes@[i as int]@);
            assert(commands_made(built@) == commands_made(before).push(command_made(command)));
            assert(all.take(i + 1) == all.take(i as int).push(all[i as int]));
        }
        i = i + 1;
    }
    assert(all.take(i as int) == all);
    built
}

/// What the commands were made with.
pub open spec fn commands_made(commands: Seq<Command>) -> Seq<LineCommand> {
    commands.map_values(|command: Command| command_made(command))
}

// ---------------------------------------------------------------------------
// What was given
// ---------------------------------------------------------------------------
/// What was given of a command.
#[verifier::external_type_specification]
#[verifier::external_body]
pub struct ExArgMatches(clap::ArgMatches);

/// The values that the command line gave, by the names of the options.
pub uninterp spec fn given_values(matches: ArgMatches) -> Map<Seq<char>, Seq<Seq<char>>>;

/// The command that a command line names and the values that it gives, where it is one of
/// the program with its commands; or the status to exit with and what to print, where it
/// is none, or asks for help.
pub uninterp spec fn command_line(
    program: LineCommand,
    commands: Seq<LineCommand>,
    args: Seq<Seq<char>>,
) -> Result<(Seq<char>, Map<Seq<char>, Seq<Seq<char>>>), (i32, Seq<char>)>;

/// What a command line comes to in an environment. The environment shows in the help, and
/// nowhere else.
pub open spec fn line_result(environment: Seq<VariableView>, args: Seq<Seq<char>>) -> Result<
    (Seq<char>, Map<Seq<char>, Seq<Seq<char>>>),
    (i32, Seq<char>),
> {
    command_line(line_command(program(), environment), line_commands(environment), args)
}

/// The program and its commands are those of the library, in some environment.
pub open spec fn are_ours(program_made: LineCommand, made: Seq<LineCommand>) -> bool {
    exists|environment: Seq<VariableView>|
        made == #[trigger] line_commands(environment) && program_made == line_command(
            program(),
            environment,
        )
}

/// Why a command line does not lead to a command: the status to exit with, and what to
/// print.
#[derive(Debug, Clone, PartialEq, Eq)]
pub struct LineError {
    pub code: i32,
    pub message: String,
}

/// `clap::Command::try_get_matches_from`, on the program with `clap::Command::subcommands`:
/// the command that the line names, with what was given of it. The result is a function of
/// what the program and the commands were made with and of the line, the first argument
/// included, which names the program in messages. The names of the commands and of the
/// options of each differ, and their defaults are values that they may have, so that the
/// command line is well defined.
#[verifier::external_body]
fn read_line(program: Command, commands: Vec<Command>, args: &Vec<String>) -> (result: Result<
    (String, ArgMatches),
    LineError,
>)
    requires
        are_ours(command_made(program), commands_made(commands@)),
    ensures
        match result {
            Ok((command, matches)) => command_line(
                command_made(program),
                commands_made(commands@),
                views(args@),
            ) == Ok::<(Seq<char>, Map<Seq<char>, Seq<Seq<char>>>), (i32, Seq<char>)>(
                (command@, given_values(matches)),
            ),
            Err(error) => command_line(
                command_made(program),
                commands_made(commands@),
                views(args@),
            ) == Err::<(Seq<char>, Map<Seq<char>, Seq<Seq<char>>>), (i32, Seq<char>)>(
                (error.code, error.message@),
            ),
        },
{
    program.subcommands(commands).try_get_matches_from(args)
        .map(|mut matches| matches.remove_subcommand().unwrap_or_default())
        .map_err(|e| LineError { code: e.exit_code(), message: e.to_string() })
}

/// The values that were given for an option.
pub open spec fn values_in(given: Map<Seq<char>, Seq<Seq<char>>>, name: Seq<char>) -> Seq<
    Seq<char>,
> {
    if given.contains_key(name) {
        given[name]
    } else {
        Seq::empty()
    }
}

/// `clap::ArgMatches::try_get_many`, where `clap::ArgMatches::value_source` is the command
/// line: the values that were given for an option, in order; none where it was not given
/// or is not one of the command.
#[verifier::external_body]
fn read_values(matches: &ArgMatches, name: &str) -> (result: Option<Vec<String>>)
    ensures
        match result {
            Some(values) => given_values(*matches).contains_pair(name@, views(values@)),
            None => !given_values(*matches).contains_key(name@),
        },
{
    let values = matches.try_get_many::<String>(name).ok().flatten()?;
    matches.value_source(name).filter(|source| *source == ValueSource::CommandLine)?;
    Some(values.cloned().collect())
}

/// An option with the values that were given for it.
#[derive(Debug, Clone, PartialEq, Eq)]
pub struct GivenOption {
    pub name: String,
    pub values: Vec<String>,
}

/// What a `GivenOption` stands for.
pub struct GivenView {
    pub name: Seq<char>,
    pub values: Seq<Seq<char>>,
}

impl View for GivenOption {
    type V = GivenView;

    open spec fn view(&self) -> GivenView {
        GivenView { name: self.name@, values: views(self.values@) }
    }
}

/// The options of a command, those that stand with every command in front.
pub open spec fn options_of(command: Seq<char>) -> Seq<OptionView> {
    global_options() + options_in(commands(), command)
}

/// The options of a command among some.
pub open spec fn options_in(shapes: Seq<CommandView>, command: Seq<char>) -> Seq<OptionView>
    decreases shapes.len(),
{
    if shapes.len() == 0 {
        Seq::empty()
    } else if shapes[0].name == command {
        shapes[0].options
    } else {
        options_in(shapes.skip(1), command)
    }
}

/// What was given for each of the options.
pub open spec fn given_for(
    options: Seq<OptionView>,
    given: Map<Seq<char>, Seq<Seq<char>>>,
) -> Seq<GivenView> {
    options.map_values(
        |option: OptionView|
            GivenView { name: option.name, values: values_in(given, option.name) },
    )
}

/// The options of a command, those that stand with every command in front.
pub fn list_options(command: &str) -> (result: Vec<OptionShape>)
    ensures
        views(result@) == options_of(command@),
{
    let mut options = list_global_options();
    let shapes = describe_commands();
    let ghost all = commands();
    let mut i: usize = 0;
    assert(all.skip(0) == all);
    while i < shapes.len()
        invariant
            i <= shapes.len(),
            all == commands(),
            views(shapes@) == all,
            views(options@) == global_options(),
            options_in(all.skip(i as int), command@) == options_in(all, command@),
        decreases shapes.len() - i,
    {
        proof {
            assert(all.skip(i as int)[0] == shapes@[i as int]@);
            assert(all.skip(i as int).skip(1) == all.skip(i + 1));
        }
        if same(shapes[i].name, command) {
            let mut j: usize = 0;
            let ghost mine = views(shapes@[i as int].options@);
            let ghost before = views(options@);
            assert(views(options@) == before + mine.take(0));
            while j < shapes[i as usize].options.len()
                invariant
                    i < shapes.len(),
                    j <= shapes@[i as int].options@.len(),
                    mine == views(shapes@[i as int].options@),
                    views(options@) == before + mine.take(j as int),
                decreases shapes@[i as int].options@.len() - j,
            {
                let ghost so_far = views(options@);
                options.push(shapes[i].options[j]);
                proof {
                    assert(views(options@) == so_far.push(mine[j as int]));
                    assert(mine.take(j + 1) == mine.take(j as int).push(mine[j as int]));
                    assert(views(options@) == before + mine.take(j + 1));
                }
                j = j + 1;
            }
            assert(mine.take(j as int) == mine);
            return options;
        }
        i = i + 1;
    }
    assert(all.skip(i as int).len() == 0);
    assert(global_options() + Seq::<OptionView>::empty() == global_options());
    options
}

/// The command that a command line names, and what was given for each of its options.
pub fn read_arguments(environment: &Vec<Variable>, args: &Vec<String>) -> (result: Result<
    (String, Vec<GivenOption>),
    LineError,
>)
    ensures
        match (result, line_result(views(environment@), views(args@))) {
            (Ok((command, given)), Ok((named, values))) => command@ == named && views(given@)
                == given_for(options_of(named), values),
            (Err(error), Err((code, message))) => error.code == code && error.message@ == message,
            _ => false,
        },
{
    let line_program = build_command(&describe_program(), environment);
    let built = build_commands(environment);
    assert(commands_made(built@) == line_commands(views(environment@)));
    let (command, matches) = match read_line(line_program, built, args) {
        Ok(found) => found,
        Err(error) => {
            return Err(error);
        },
    };
    let options = list_options(&command);
    let ghost all = options_of(command@);
    let ghost values = given_values(matches);
    let mut given: Vec<GivenOption> = Vec::new();
    let mut i: usize = 0;
    assert(views(given@) == given_for(all.take(0), values));
    while i < options.len()
        invariant
            i <= options.len(),
            all == views(options@),
            values == given_values(matches),
            views(given@) == given_for(all.take(i as int), values),
        decreases options.len() - i,
    {
        let ghost before = given@;
        let name = options[i].name;
        let found: Vec<String> = match read_values(&matches, name) {
            Some(found) => found,
            None => {
                let none: Vec<String> = Vec::new();
                assert(views(none@) == Seq::<Seq<char>>::empty());
                none
            },
        };
        let option = GivenOption { name: name.to_owned(), values: found };
        given.push(option);
        proof {
            assert(views(given@) == views(before).push(option@));
            assert(all.take(i + 1) == all.take(i as int).push(options@[i as int]@));
            assert(views(given@) == given_for(all.take(i + 1), values));
        }
        i = i + 1;
    }
    assert(all.take(i as int) == all);
    Ok((command, given))
}

} // verus!
