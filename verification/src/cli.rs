//! The commands with their options: what was given on the command line, what the
//! environment provides, and the defaults.

use vstd::prelude::*;

use crate::arguments::{
    given_for, line_result, list_options, list_values, options_of, possible_values, read_arguments,
    GivenOption, GivenView, LineError, OptionKind, OptionShape, OptionView, ValueView,
};
use crate::conventional::BumpLevel;
use crate::input_env::{
    is_input, lookup, normal_value, normalize_inputs, provides, sanitized, seed_of, value_of,
    Variable, VariableView,
};
use crate::release::{ReleaseOptions, ReleasePhase, TagStyle};
use crate::text::{
    blank, copy_option, cut, is_blank, join, join_five, join_four, join_six, join_three, join_two,
    joined, option_view, pieces, same, split, split_once, trim, trimmed, views,
};

verus! {

/// How the version goes up.
#[derive(Debug, Clone, Copy, PartialEq, Eq, Structural)]
pub enum BumpArg {
    /// As the commits since the last release tag ask for.
    Auto,
    Major,
    Minor,
    Patch,
}

impl BumpArg {
    /// The bump that is forced, where one is.
    pub open spec fn forced(self) -> Option<BumpLevel> {
        match self {
            BumpArg::Auto => None,
            BumpArg::Major => Some(BumpLevel::Major),
            BumpArg::Minor => Some(BumpLevel::Minor),
            BumpArg::Patch => Some(BumpLevel::Patch),
        }
    }

    /// The bump that is forced, where one is.
    pub fn level(self) -> (result: Option<BumpLevel>)
        ensures
            result == self.forced(),
    {
        match self {
            BumpArg::Auto => None,
            BumpArg::Major => Some(BumpLevel::Major),
            BumpArg::Minor => Some(BumpLevel::Minor),
            BumpArg::Patch => Some(BumpLevel::Patch),
        }
    }
}

/// How the release tag is created.
#[derive(Debug, Clone, Copy, PartialEq, Eq, Structural)]
pub enum TagStyleArg {
    Annotated,
    Lightweight,
}

impl TagStyleArg {
    /// The style of the tag.
    pub open spec fn chosen(self) -> TagStyle {
        match self {
            TagStyleArg::Annotated => TagStyle::Annotated,
            TagStyleArg::Lightweight => TagStyle::Lightweight,
        }
    }

    /// The style of the tag.
    pub fn style(self) -> (result: TagStyle)
        ensures
            result == self.chosen(),
    {
        match self {
            TagStyleArg::Annotated => TagStyle::Annotated,
            TagStyleArg::Lightweight => TagStyle::Lightweight,
        }
    }
}

/// Which part of a release is performed.
#[derive(Debug, Clone, Copy, PartialEq, Eq, Structural)]
pub enum PhaseArg {
    All,
    Bump,
    Tag,
}

impl PhaseArg {
    /// The part of the release.
    pub open spec fn chosen(self) -> ReleasePhase {
        match self {
            PhaseArg::All => ReleasePhase::All,
            PhaseArg::Bump => ReleasePhase::Bump,
            PhaseArg::Tag => ReleasePhase::Tag,
        }
    }

    /// The part of the release.
    pub fn phase(self) -> (result: ReleasePhase)
        ensures
            result == self.chosen(),
    {
        match self {
            PhaseArg::All => ReleasePhase::All,
            PhaseArg::Bump => ReleasePhase::Bump,
            PhaseArg::Tag => ReleasePhase::Tag,
        }
    }
}

/// The options of every command on workflows.
#[derive(Debug, Clone, PartialEq, Eq)]
pub struct RepoArgs {
    pub repo: String,
    pub workflows_path: String,
    pub token: Option<String>,
    pub owner: Option<String>,
    pub repo_name: Option<String>,
    pub create_pr: bool,
    pub base_branch: Option<String>,
    pub branch_name: Option<String>,
    pub labels: String,
    pub title: String,
    pub commit_message: String,
}

/// The options that select what is updated.
#[derive(Debug, Clone, Copy, PartialEq, Eq)]
pub struct TargetArgs {
    pub github_actions: bool,
    pub cargo: bool,
    pub all: bool,
}

/// What is updated.
#[derive(Debug, Clone, Copy, PartialEq, Eq)]
pub struct SelectedTargets {
    pub github_actions: bool,
    pub cargo: bool,
}

impl TargetArgs {
    /// What is updated: everything with `all`, the actions where nothing is selected,
    /// else what is selected.
    pub fn resolve(&self) -> (result: SelectedTargets)
        ensures
            result.github_actions == (self.all || self.github_actions || !self.cargo),
            result.cargo == (self.all || self.cargo),
    {
        if self.all {
            return SelectedTargets { github_actions: true, cargo: true };
        }
        if !self.github_actions && !self.cargo {
            return SelectedTargets { github_actions: true, cargo: false };
        }
        SelectedTargets { github_actions: self.github_actions, cargo: self.cargo }
    }
}

/// The options of `pin`.
#[derive(Debug, Clone, PartialEq, Eq)]
pub struct PinArgs {
    pub repo: RepoArgs,
    pub targets: TargetArgs,
    pub dry_run: bool,
}

/// The options of `update`.
#[derive(Debug, Clone, PartialEq, Eq)]
pub struct UpdateArgs {
    pub repo: RepoArgs,
    pub targets: TargetArgs,
    pub dry_run: bool,
}

/// The options of `status`.
#[derive(Debug, Clone, PartialEq, Eq)]
pub struct StatusArgs {
    pub repo: RepoArgs,
    pub targets: TargetArgs,
    pub dry_run: bool,
}

/// The options of `policy`.
#[derive(Debug, Clone, PartialEq, Eq)]
pub struct PolicyArgs {
    pub repo: RepoArgs,
    pub check_scripts: bool,
    pub check_policies: bool,
    pub fail_on_findings: bool,
}

/// The options of `release`.
#[derive(Debug, Clone, PartialEq, Eq)]
pub struct ReleaseArgs {
    pub repo: String,
    pub token: Option<String>,
    pub owner: Option<String>,
    pub repo_name: Option<String>,
    pub base_branch: Option<String>,
    pub bump: BumpArg,
    pub tag_prefix: String,
    pub tag_style: TagStyleArg,
    pub update_major_alias: bool,
    pub notes_file: String,
    pub commit_message: String,
    pub create_pr: bool,
    pub release_branch: String,
    pub extra_files: Vec<String>,
    pub github_output: Option<String>,
    pub phase: PhaseArg,
    pub dry_run: bool,
}

/// A command with its options.
#[derive(Debug, Clone, PartialEq, Eq)]
pub enum Commands {
    /// Resolves floating action references to commits.
    Pin(PinArgs),
    /// Updates actions and dependencies.
    Update(UpdateArgs),
    /// Reports current and latest versions.
    Status(StatusArgs),
    /// Reports script usage and policy findings.
    Policy(PolicyArgs),
    /// Publishes a release.
    Release(ReleaseArgs),
}

/// What the command line comes to.
#[derive(Debug, Clone, PartialEq, Eq)]
pub struct Cli {
    pub command: Commands,
    pub github_api_base_url: Option<String>,
    pub crates_api_base_url: Option<String>,
}

// ---------------------------------------------------------------------------
// Values
// ---------------------------------------------------------------------------
/// The values that were given for an option.
pub open spec fn given_of(given: Seq<GivenView>, name: Seq<char>) -> Seq<Seq<char>>
    decreases given.len(),
{
    if given.len() == 0 {
        Seq::empty()
    } else if given.last().name == name {
        given.last().values
    } else {
        given_of(given.drop_last(), name)
    }
}

/// What an option is: what was given for it, else what its variable holds.
pub open spec fn option_value(
    given: Seq<GivenView>,
    environment: Seq<VariableView>,
    name: Seq<char>,
    variable: Seq<char>,
) -> Option<Seq<char>> {
    if given_of(given, name).len() > 0 {
        Some(given_of(given, name)[0])
    } else {
        value_of(environment, variable)
    }
}

/// What an option is, or the default.
pub open spec fn value_or(
    given: Seq<GivenView>,
    environment: Seq<VariableView>,
    name: Seq<char>,
    variable: Seq<char>,
    default: Seq<char>,
) -> Seq<char> {
    match option_value(given, environment, name, variable) {
        Some(value) => value,
        None => default,
    }
}

/// What a switch is, or the default.
pub open spec fn switch_or(
    given: Seq<GivenView>,
    environment: Seq<VariableView>,
    name: Seq<char>,
    variable: Seq<char>,
    default: bool,
) -> bool {
    match option_value(given, environment, name, variable) {
        Some(value) => value == "true"@,
        None => default,
    }
}

/// The pieces between the commas of all the texts.
pub open spec fn all_pieces(texts: Seq<Seq<char>>) -> Seq<Seq<char>>
    decreases texts.len(),
{
    if texts.len() == 0 {
        Seq::empty()
    } else {
        all_pieces(texts.drop_last()) + split(texts.last(), ',')
    }
}

/// What a list is: the pieces of what was given for it, else of what its variable
/// holds.
pub open spec fn list_value(
    given: Seq<GivenView>,
    environment: Seq<VariableView>,
    name: Seq<char>,
    variable: Seq<char>,
) -> Seq<Seq<char>> {
    if given_of(given, name).len() > 0 {
        all_pieces(given_of(given, name))
    } else {
        match value_of(environment, variable) {
            Some(value) => split(value, ','),
            None => Seq::empty(),
        }
    }
}

/// The values that an option of a kind may have, where they are limited.
pub open spec fn allowed(kind: OptionKind) -> Option<Seq<Seq<char>>> {
    match possible_values(kind) {
        Some(values) => Some(values.map_values(|value: ValueView| value.name)),
        None => None,
    }
}

/// An option with what stands for its value.
pub open spec fn shown(option: OptionView) -> Seq<char> {
    if option.kind == OptionKind::Switch {
        "--"@ + option.name + " [<"@ + option.placeholder + ">]"@
    } else {
        "--"@ + option.name + " <"@ + option.placeholder + ">"@
    }
}

/// What is said of an option.
pub open spec fn usage_error(text: Seq<char>) -> Seq<char> {
    "error: "@ + text + "\n\nFor more information, try '--help'.\n"@
}

/// What is said of an option that is given more than once.
pub open spec fn repeated(option: OptionView) -> Seq<char> {
    usage_error("the argument '"@ + shown(option) + "' cannot be used multiple times"@)
}

/// What is said of an option without a value.
pub open spec fn without_value(option: OptionView) -> Seq<char> {
    usage_error("a value is required for '"@ + shown(option) + "' but none was supplied"@)
}

/// What is said of an option with a value that it may not have.
pub open spec fn invalid_value(option: OptionView, value: Seq<char>) -> Seq<char> {
    usage_error(
        "invalid value '"@ + value + "' for '"@ + shown(option) + "'\n  [possible values: "@
            + join(allowed(option.kind)->0, ", "@) + "]"@,
    )
}

/// One of the texts is empty.
pub open spec fn has_empty(texts: Seq<Seq<char>>) -> bool {
    exists|i: int| 0 <= i < texts.len() && (#[trigger] texts[i]).len() == 0
}

/// What is wrong with an option, if anything.
pub open spec fn option_failure(
    option: OptionView,
    given: Seq<GivenView>,
    environment: Seq<VariableView>,
) -> Option<Seq<char>> {
    let value = option_value(given, environment, option.name, option.variable);
    if option.kind == OptionKind::List {
        if has_empty(list_value(given, environment, option.name, option.variable)) {
            Some(without_value(option))
        } else {
            None
        }
    } else if given_of(given, option.name).len() > 1 {
        Some(repeated(option))
    } else if value is None {
        None
    } else if option.kind == OptionKind::Path && value->0.len() == 0 {
        Some(without_value(option))
    } else if allowed(option.kind) is Some && !allowed(option.kind)->0.contains(value->0) {
        Some(invalid_value(option, value->0))
    } else {
        None
    }
}

/// What is wrong with the first option that something is wrong with.
pub open spec fn first_failure(
    options: Seq<OptionView>,
    given: Seq<GivenView>,
    environment: Seq<VariableView>,
) -> Option<Seq<char>>
    decreases options.len(),
{
    if options.len() == 0 {
        None
    } else {
        match first_failure(options.drop_last(), given, environment) {
            Some(message) => Some(message),
            None => option_failure(options.last(), given, environment),
        }
    }
}

fn find_given(given: &Vec<GivenOption>, name: &str) -> (result: Vec<String>)
    ensures
        views(result@) == given_of(views(given@), name@),
{
    let ghost all = views(given@);
    let mut i: usize = given.len();
    assert(all.take(i as int) == all);
    while i > 0
        invariant
            i <= given.len(),
            all == views(given@),
            given_of(all.take(i as int), name@) == given_of(all, name@),
        decreases i,
    {
        proof {
            assert(all.take(i as int).drop_last() == all.take(i - 1));
            assert(all.take(i as int).last() == given@[i - 1]@);
        }
        i = i - 1;
        if same(&given[i].name, name) {
            return copy_texts(&given[i].values);
        }
    }
    let none: Vec<String> = Vec::new();
    assert(views(none@) == Seq::<Seq<char>>::empty());
    none
}

fn copy_texts(texts: &Vec<String>) -> (result: Vec<String>)
    ensures
        views(result@) == views(texts@),
{
    let ghost all = views(texts@);
    let mut result: Vec<String> = Vec::new();
    let mut i: usize = 0;
    assert(views(result@) == all.take(0));
    while i < texts.len()
        invariant
            i <= texts.len(),
            all == views(texts@),
            views(result@) == all.take(i as int),
        decreases texts.len() - i,
    {
        let ghost before = views(result@);
        result.push(texts[i].clone());
        proof {
            assert(views(result@) == before.push(texts@[i as int]@));
            assert(all.take(i + 1) == all.take(i as int).push(texts@[i as int]@));
        }
        i = i + 1;
    }
    assert(all.take(i as int) == all);
    result
}

fn find_value(
    given: &Vec<GivenOption>,
    environment: &Vec<Variable>,
    name: &str,
    variable: &str,
) -> (result: Option<String>)
    ensures
        option_view(result) == option_value(
            views(given@),
            views(environment@),
            name@,
            variable@,
        ),
{
    let values = find_given(given, name);
    assert(views(values@).len() == values@.len());
    if values.len() > 0 {
        assert(views(values@)[0] == values@[0]@);
        Some(values[0].clone())
    } else {
        lookup(environment, variable)
    }
}

fn find_value_or(
    given: &Vec<GivenOption>,
    environment: &Vec<Variable>,
    name: &str,
    variable: &str,
    default: &str,
) -> (result: String)
    ensures
        result@ == value_or(views(given@), views(environment@), name@, variable@, default@),
{
    match find_value(given, environment, name, variable) {
        Some(value) => value,
        None => default.to_owned(),
    }
}

fn find_switch_or(
    given: &Vec<GivenOption>,
    environment: &Vec<Variable>,
    name: &str,
    variable: &str,
    default: bool,
) -> (result: bool)
    ensures
        result == switch_or(views(given@), views(environment@), name@, variable@, default),
{
    match find_value(given, environment, name, variable) {
        Some(value) => same(&value, "true"),
        None => default,
    }
}

fn find_list(
    given: &Vec<GivenOption>,
    environment: &Vec<Variable>,
    name: &str,
    variable: &str,
) -> (result: Vec<String>)
    ensures
        views(result@) == list_value(views(given@), views(environment@), name@, variable@),
{
    let values = find_given(given, name);
    let ghost all = views(values@);
    let mut result: Vec<String> = Vec::new();
    assert(views(result@) == Seq::<Seq<char>>::empty());
    if values.len() == 0 {
        return match lookup(environment, variable) {
            Some(value) => pieces(&value, ','),
            None => result,
        };
    }
    let mut i: usize = 0;
    while i < values.len()
        invariant
            i <= values.len(),
            all == views(values@),
            views(result@) == all_pieces(all.take(i as int)),
        decreases values.len() - i,
    {
        let ghost before = views(result@);
        let mut more = pieces(&values[i], ',');
        let ghost found = views(more@);
        result.append(&mut more);
        proof {
            assert(all.take(i + 1).drop_last() == all.take(i as int));
            assert(all.take(i + 1).last() == values@[i as int]@);
            assert(views(result@) == before + found);
        }
        i = i + 1;
    }
    assert(all.take(i as int) == all);
    result
}

fn any_empty(texts: &Vec<String>) -> (result: bool)
    ensures
        result == has_empty(views(texts@)),
{
    let ghost all = views(texts@);
    let mut i: usize = 0;
    while i < texts.len()
        invariant
            i <= texts.len(),
            all == views(texts@),
            forall|k: int| 0 <= k < i ==> (#[trigger] all[k]).len() > 0,
        decreases texts.len() - i,
    {
        assert(all[i as int] == texts@[i as int]@);
        if texts[i].as_str().is_empty() {
            return true;
        }
        i = i + 1;
    }
    false
}

fn list_allowed(kind: OptionKind) -> (result: Option<Vec<String>>)
    ensures
        match result {
            Some(names) => allowed(kind) == Some(views(names@)),
            None => allowed(kind) is None,
        },
{
    let values = match list_values(kind) {
        Some(values) => values,
        None => {
            return None;
        },
    };
    let ghost all = allowed(kind)->0;
    let mut names: Vec<String> = Vec::new();
    let mut i: usize = 0;
    assert(views(names@) == all.take(0));
    while i < values.len()
        invariant
            i <= values.len(),
            possible_values(kind) == Some(views(values@)),
            allowed(kind) == Some(all),
            views(names@) == all.take(i as int),
        decreases values.len() - i,
    {
        let ghost before = views(names@);
        names.push(values[i].name.to_owned());
        proof {
            assert(views(values@)[i as int] == values@[i as int]@);
            assert(views(names@) == before.push(all[i as int]));
            assert(all.take(i + 1) == all.take(i as int).push(all[i as int]));
        }
        i = i + 1;
    }
    assert(all.take(i as int) == all);
    Some(names)
}

fn holds_text(texts: &Vec<String>, text: &str) -> (result: bool)
    ensures
        result == views(texts@).contains(text@),
{
    let ghost all = views(texts@);
    let mut i: usize = 0;
    while i < texts.len()
        invariant
            i <= texts.len(),
            all == views(texts@),
            forall|k: int| 0 <= k < i ==> #[trigger] all[k] != text@,
        decreases texts.len() - i,
    {
        assert(all[i as int] == texts@[i as int]@);
        if same(&texts[i], text) {
            return true;
        }
        i = i + 1;
    }
    false
}

fn show_option(option: &OptionShape) -> (result: String)
    ensures
        result@ == shown(option@),
{
    if option.kind == OptionKind::Switch {
        join_five("--", option.name, " [<", option.placeholder, ">]")
    } else {
        join_five("--", option.name, " <", option.placeholder, ">")
    }
}

fn say_usage(text: &str) -> (result: String)
    ensures
        result@ == usage_error(text@),
{
    join_three("error: ", text, "\n\nFor more information, try '--help'.\n")
}

fn check_option(
    option: &OptionShape,
    given: &Vec<GivenOption>,
    environment: &Vec<Variable>,
) -> (result: Option<String>)
    ensures
        option_view(result) == option_failure(option@, views(given@), views(environment@)),
{
    let name = option.name;
    if option.kind == OptionKind::List {
        return if any_empty(&find_list(given, environment, name, option.variable)) {
            Some(say_without_value(option))
        } else {
            None
        };
    }
    let values = find_given(given, name);
    assert(views(values@).len() == values@.len());
    if values.len() > 1 {
        return Some(
            say_usage(
                &join_three(
                    "the argument '",
                    &show_option(option),
                    "' cannot be used multiple times",
                ),
            ),
        );
    }
    let value = match find_value(given, environment, name, option.variable) {
        Some(value) => value,
        None => {
            return None;
        },
    };
    if option.kind == OptionKind::Path && value.as_str().is_empty() {
        return Some(say_without_value(option));
    }
    match list_allowed(option.kind) {
        Some(names) if !holds_text(&names, &value) => Some(
            say_usage(
                &join_six(
                    "invalid value '",
                    &value,
                    "' for '",
                    &show_option(option),
                    "'\n  [possible values: ",
                    &join_two(&joined(&names, ", "), "]"),
                ),
            ),
        ),
        _ => None,
    }
}

fn say_without_value(option: &OptionShape) -> (result: String)
    ensures
        result@ == without_value(option@),
{
    say_usage(
        &join_three("a value is required for '", &show_option(option), "' but none was supplied"),
    )
}

fn check_options(
    options: &Vec<OptionShape>,
    given: &Vec<GivenOption>,
    environment: &Vec<Variable>,
) -> (result: Option<String>)
    ensures
        option_view(result) == first_failure(
            views(options@),
            views(given@),
            views(environment@),
        ),
{
    let ghost all = views(options@);
    let mut failure: Option<String> = None;
    let mut i: usize = 0;
    while i < options.len()
        invariant
            i <= options.len(),
            all == views(options@),
            option_view(failure) == first_failure(
                all.take(i as int),
                views(given@),
                views(environment@),
            ),
        decreases options.len() - i,
    {
        proof {
            assert(all.take(i + 1).drop_last() == all.take(i as int));
            assert(all.take(i + 1).last() == options@[i as int]@);
        }
        if failure.is_none() {
            failure = check_option(&options[i], given, environment);
        }
        i = i + 1;
    }
    assert(all.take(i as int) == all);
    failure
}

// ---------------------------------------------------------------------------
// Commands
// ---------------------------------------------------------------------------
/// The bump that a text names.
pub open spec fn bump_arg(text: Seq<char>) -> BumpArg {
    if text == "major"@ {
        BumpArg::Major
    } else if text == "minor"@ {
        BumpArg::Minor
    } else if text == "patch"@ {
        BumpArg::Patch
    } else {
        BumpArg::Auto
    }
}

fn read_bump_arg(text: &str) -> (result: BumpArg)
    ensures
        result == bump_arg(text@),
{
    if same(text, "major") {
        BumpArg::Major
    } else if same(text, "minor") {
        BumpArg::Minor
    } else if same(text, "patch") {
        BumpArg::Patch
    } else {
        BumpArg::Auto
    }
}

/// The style that a text names.
pub open spec fn style_arg(text: Seq<char>) -> TagStyleArg {
    if text == "lightweight"@ {
        TagStyleArg::Lightweight
    } else {
        TagStyleArg::Annotated
    }
}

fn read_style_arg(text: &str) -> (result: TagStyleArg)
    ensures
        result == style_arg(text@),
{
    if same(text, "lightweight") {
        TagStyleArg::Lightweight
    } else {
        TagStyleArg::Annotated
    }
}

/// The part of a release that a text names.
pub open spec fn phase_arg(text: Seq<char>) -> PhaseArg {
    if text == "bump"@ {
        PhaseArg::Bump
    } else if text == "tag"@ {
        PhaseArg::Tag
    } else {
        PhaseArg::All
    }
}

fn read_phase_arg(text: &str) -> (result: PhaseArg)
    ensures
        result == phase_arg(text@),
{
    if same(text, "bump") {
        PhaseArg::Bump
    } else if same(text, "tag") {
        PhaseArg::Tag
    } else {
        PhaseArg::All
    }
}

/// The options of a command on workflows are as they were given.
pub open spec fn are_repo_args(
    args: RepoArgs,
    given: Seq<GivenView>,
    environment: Seq<VariableView>,
) -> bool {
    &&& args.repo@ == value_or(given, environment, "repo"@, "INPUT_REPO"@, "."@)
    &&& args.workflows_path@ == value_or(
        given,
        environment,
        "workflows-path"@,
        "INPUT_WORKFLOWS-PATH"@,
        ".github/workflows"@,
    )
    &&& option_view(args.token) == option_value(given, environment, "token"@, "INPUT_TOKEN"@)
    &&& option_view(args.owner) == option_value(given, environment, "owner"@, "INPUT_OWNER"@)
    &&& option_view(args.repo_name) == option_value(
        given,
        environment,
        "repo-name"@,
        "INPUT_REPO-NAME"@,
    )
    &&& args.create_pr == switch_or(given, environment, "create-pr"@, "INPUT_CREATE-PR"@, false)
    &&& option_view(args.base_branch) == option_value(
        given,
        environment,
        "base-branch"@,
        "INPUT_BASE-BRANCH"@,
    )
    &&& option_view(args.branch_name) == option_value(
        given,
        environment,
        "branch-name"@,
        "INPUT_BRANCH-NAME"@,
    )
    &&& args.labels@ == value_or(given, environment, "labels"@, "INPUT_LABELS"@, "dependencies"@)
    &&& args.title@ == value_or(
        given,
        environment,
        "title"@,
        "INPUT_TITLE"@,
        "Update dependencies"@,
    )
    &&& args.commit_message@ == value_or(
        given,
        environment,
        "commit-message"@,
        "INPUT_COMMIT-MESSAGE"@,
        "Update dependencies"@,
    )
}

fn find_repo_args(given: &Vec<GivenOption>, environment: &Vec<Variable>) -> (result: RepoArgs)
    ensures
        are_repo_args(result, views(given@), views(environment@)),
{
    RepoArgs {
        repo: find_value_or(given, environment, "repo", "INPUT_REPO", "."),
        workflows_path: find_value_or(
            given,
            environment,
            "workflows-path",
            "INPUT_WORKFLOWS-PATH",
            ".github/workflows",
        ),
        token: find_value(given, environment, "token", "INPUT_TOKEN"),
        owner: find_value(given, environment, "owner", "INPUT_OWNER"),
        repo_name: find_value(given, environment, "repo-name", "INPUT_REPO-NAME"),
        create_pr: find_switch_or(given, environment, "create-pr", "INPUT_CREATE-PR", false),
        base_branch: find_value(given, environment, "base-branch", "INPUT_BASE-BRANCH"),
        branch_name: find_value(given, environment, "branch-name", "INPUT_BRANCH-NAME"),
        labels: find_value_or(given, environment, "labels", "INPUT_LABELS", "dependencies"),
        title: find_value_or(given, environment, "title", "INPUT_TITLE", "Update dependencies"),
        commit_message: find_value_or(
            given,
            environment,
            "commit-message",
            "INPUT_COMMIT-MESSAGE",
            "Update dependencies",
        ),
    }
}

/// What is selected is as it was given.
pub open spec fn are_target_args(
    args: TargetArgs,
    given: Seq<GivenView>,
    environment: Seq<VariableView>,
) -> bool {
    &&& args.github_actions == switch_or(
        given,
        environment,
        "github-actions"@,
        "INPUT_GITHUB-ACTIONS"@,
        false,
    )
    &&& args.cargo == switch_or(given, environment, "cargo"@, "INPUT_CARGO"@, false)
    &&& args.all == switch_or(given, environment, "all"@, "INPUT_ALL"@, false)
}

fn find_target_args(given: &Vec<GivenOption>, environment: &Vec<Variable>) -> (result: TargetArgs)
    ensures
        are_target_args(result, views(given@), views(environment@)),
{
    TargetArgs {
        github_actions: find_switch_or(
            given,
            environment,
            "github-actions",
            "INPUT_GITHUB-ACTIONS",
            false,
        ),
        cargo: find_switch_or(given, environment, "cargo", "INPUT_CARGO", false),
        all: find_switch_or(given, environment, "all", "INPUT_ALL", false),
    }
}

/// The options of `pin` are as they were given.
pub open spec fn are_pin_args(
    args: PinArgs,
    given: Seq<GivenView>,
    environment: Seq<VariableView>,
) -> bool {
    &&& are_repo_args(args.repo, given, environment)
    &&& are_target_args(args.targets, given, environment)
    &&& args.dry_run == switch_or(given, environment, "dry-run"@, "INPUT_DRY-RUN"@, false)
}

fn find_pin_args(given: &Vec<GivenOption>, environment: &Vec<Variable>) -> (result: PinArgs)
    ensures
        are_pin_args(result, views(given@), views(environment@)),
{
    PinArgs {
        repo: find_repo_args(given, environment),
        targets: find_target_args(given, environment),
        dry_run: find_switch_or(given, environment, "dry-run", "INPUT_DRY-RUN", false),
    }
}

/// The options of `update` are as they were given.
pub open spec fn are_update_args(
    args: UpdateArgs,
    given: Seq<GivenView>,
    environment: Seq<VariableView>,
) -> bool {
    &&& are_repo_args(args.repo, given, environment)
    &&& are_target_args(args.targets, given, environment)
    &&& args.dry_run == switch_or(given, environment, "dry-run"@, "INPUT_DRY-RUN"@, false)
}

fn find_update_args(given: &Vec<GivenOption>, environment: &Vec<Variable>) -> (result: UpdateArgs)
    ensures
        are_update_args(result, views(given@), views(environment@)),
{
    UpdateArgs {
        repo: find_repo_args(given, environment),
        targets: find_target_args(given, environment),
        dry_run: find_switch_or(given, environment, "dry-run", "INPUT_DRY-RUN", false),
    }
}

/// The options of `status` are as they were given.
pub open spec fn are_status_args(
    args: StatusArgs,
    given: Seq<GivenView>,
    environment: Seq<VariableView>,
) -> bool {
    &&& are_repo_args(args.repo, given, environment)
    &&& are_target_args(args.targets, given, environment)
    &&& args.dry_run == switch_or(given, environment, "dry-run"@, "INPUT_DRY-RUN"@, false)
}

fn find_status_args(given: &Vec<GivenOption>, environment: &Vec<Variable>) -> (result: StatusArgs)
    ensures
        are_status_args(result, views(given@), views(environment@)),
{
    StatusArgs {
        repo: find_repo_args(given, environment),
        targets: find_target_args(given, environment),
        dry_run: find_switch_or(given, environment, "dry-run", "INPUT_DRY-RUN", false),
    }
}

/// The options of `policy` are as they were given.
pub open spec fn are_policy_args(
    args: PolicyArgs,
    given: Seq<GivenView>,
    environment: Seq<VariableView>,
) -> bool {
    &&& are_repo_args(args.repo, given, environment)
    &&& args.check_scripts == switch_or(
        given,
        environment,
        "check-scripts"@,
        "INPUT_CHECK-SCRIPTS"@,
        true,
    )
    &&& args.check_policies == switch_or(
        given,
        environment,
        "check-policies"@,
        "INPUT_CHECK-POLICIES"@,
        true,
    )
    &&& args.fail_on_findings == switch_or(
        given,
        environment,
        "fail-on-findings"@,
        "INPUT_FAIL-ON-FINDINGS"@,
        false,
    )
}

fn find_policy_args(given: &Vec<GivenOption>, environment: &Vec<Variable>) -> (result: PolicyArgs)
    ensures
        are_policy_args(result, views(given@), views(environment@)),
{
    PolicyArgs {
        repo: find_repo_args(given, environment),
        check_scripts: find_switch_or(
            given,
            environment,
            "check-scripts",
            "INPUT_CHECK-SCRIPTS",
            true,
        ),
        check_policies: find_switch_or(
            given,
            environment,
            "check-policies",
            "INPUT_CHECK-POLICIES",
            true,
        ),
        fail_on_findings: find_switch_or(
            given,
            environment,
            "fail-on-findings",
            "INPUT_FAIL-ON-FINDINGS",
            false,
        ),
    }
}

/// The options of `release` are as they were given.
pub open spec fn are_release_args(
    args: ReleaseArgs,
    given: Seq<GivenView>,
    environment: Seq<VariableView>,
) -> bool {
    &&& args.repo@ == value_or(given, environment, "repo"@, "INPUT_REPO"@, "."@)
    &&& option_view(args.token) == option_value(given, environment, "token"@, "INPUT_TOKEN"@)
    &&& option_view(args.owner) == option_value(given, environment, "owner"@, "INPUT_OWNER"@)
    &&& option_view(args.repo_name) == option_value(
        given,
        environment,
        "repo-name"@,
        "INPUT_REPO-NAME"@,
    )
    &&& option_view(args.base_branch) == option_value(
        given,
        environment,
        "base-branch"@,
        "INPUT_BASE-BRANCH"@,
    )
    &&& args.bump == bump_arg(value_or(given, environment, "bump"@, "INPUT_BUMP"@, "auto"@))
    &&& args.tag_prefix@ == value_or(given, environment, "tag-prefix"@, "INPUT_TAG-PREFIX"@, "v"@)
    &&& args.tag_style == style_arg(
        value_or(given, environment, "tag-style"@, "INPUT_TAG-STYLE"@, "annotated"@),
    )
    &&& args.update_major_alias == switch_or(
        given,
        environment,
        "update-major-alias"@,
        "INPUT_UPDATE-MAJOR-ALIAS"@,
        false,
    )
    &&& args.notes_file@ == value_or(
        given,
        environment,
        "notes-file"@,
        "INPUT_NOTES-FILE"@,
        "release_notes.md"@,
    )
    &&& args.commit_message@ == value_or(
        given,
        environment,
        "commit-message"@,
        "INPUT_COMMIT-MESSAGE"@,
        "chore: release v{version}"@,
    )
    &&& args.create_pr == switch_or(given, environment, "create-pr"@, "INPUT_CREATE-PR"@, false)
    &&& args.release_branch@ == value_or(
        given,
        environment,
        "release-branch"@,
        "INPUT_RELEASE-BRANCH"@,
        "automation/release"@,
    )
    &&& views(args.extra_files@) == list_value(
        given,
        environment,
        "extra-files"@,
        "INPUT_EXTRA-FILES"@,
    )
    &&& option_view(args.github_output) == option_value(
        given,
        environment,
        "github-output"@,
        "GITHUB_OUTPUT"@,
    )
    &&& args.phase == phase_arg(value_or(given, environment, "phase"@, "INPUT_PHASE"@, "all"@))
    &&& args.dry_run == switch_or(given, environment, "dry-run"@, "INPUT_DRY-RUN"@, false)
}

fn find_release_args(given: &Vec<GivenOption>, environment: &Vec<Variable>) -> (result: ReleaseArgs)
    ensures
        are_release_args(result, views(given@), views(environment@)),
{
    ReleaseArgs {
        repo: find_value_or(given, environment, "repo", "INPUT_REPO", "."),
        token: find_value(given, environment, "token", "INPUT_TOKEN"),
        owner: find_value(given, environment, "owner", "INPUT_OWNER"),
        repo_name: find_value(given, environment, "repo-name", "INPUT_REPO-NAME"),
        base_branch: find_value(given, environment, "base-branch", "INPUT_BASE-BRANCH"),
        bump: read_bump_arg(&find_value_or(given, environment, "bump", "INPUT_BUMP", "auto")),
        tag_prefix: find_value_or(given, environment, "tag-prefix", "INPUT_TAG-PREFIX", "v"),
        tag_style: read_style_arg(
            &find_value_or(given, environment, "tag-style", "INPUT_TAG-STYLE", "annotated"),
        ),
        update_major_alias: find_switch_or(
            given,
            environment,
            "update-major-alias",
            "INPUT_UPDATE-MAJOR-ALIAS",
            false,
        ),
        notes_file: find_value_or(
            given,
            environment,
            "notes-file",
            "INPUT_NOTES-FILE",
            "release_notes.md",
        ),
        commit_message: find_value_or(
            given,
            environment,
            "commit-message",
            "INPUT_COMMIT-MESSAGE",
            "chore: release v{version}",
        ),
        create_pr: find_switch_or(given, environment, "create-pr", "INPUT_CREATE-PR", false),
        release_branch: find_value_or(
            given,
            environment,
            "release-branch",
            "INPUT_RELEASE-BRANCH",
            "automation/release",
        ),
        extra_files: find_list(given, environment, "extra-files", "INPUT_EXTRA-FILES"),
        github_output: find_value(given, environment, "github-output", "GITHUB_OUTPUT"),
        phase: read_phase_arg(&find_value_or(given, environment, "phase", "INPUT_PHASE", "all")),
        dry_run: find_switch_or(given, environment, "dry-run", "INPUT_DRY-RUN", false),
    }
}

/// The command is the named one, with its options as they were given.
pub open spec fn is_command(
    command: Commands,
    name: Seq<char>,
    given: Seq<GivenView>,
    environment: Seq<VariableView>,
) -> bool {
    match command {
        Commands::Pin(args) => name == "pin"@ && are_pin_args(args, given, environment),
        Commands::Update(args) => name == "update"@ && are_update_args(args, given, environment),
        Commands::Status(args) => name == "status"@ && are_status_args(args, given, environment),
        Commands::Policy(args) => name == "policy"@ && are_policy_args(args, given, environment),
        Commands::Release(args) => name == "release"@ && are_release_args(
            args,
            given,
            environment,
        ),
    }
}

/// The name is that of a command.
pub open spec fn is_command_name(name: Seq<char>) -> bool {
    name == "pin"@ || name == "update"@ || name == "status"@ || name == "policy"@ || name
        == "release"@
}

/// What is said of a command that is not one.
pub open spec fn unknown_command(name: Seq<char>) -> Seq<char> {
    usage_error("unrecognized subcommand '"@ + name + "'"@)
}

/// The result is what the named command comes to with what was given: the first thing
/// that is wrong with an option, else the command with its options.
pub open spec fn is_resolution(
    result: Result<Cli, LineError>,
    name: Seq<char>,
    given: Seq<GivenView>,
    environment: Seq<VariableView>,
) -> bool {
    match first_failure(options_of(name), given, environment) {
        Some(message) => result matches Err(error) && error.code == 2 && error.message@ == message,
        None => if is_command_name(name) {
            result matches Ok(cli) && is_command(cli.command, name, given, environment)
                && option_view(cli.github_api_base_url) == option_value(
                given,
                environment,
                "github-api-base-url"@,
                "GITHUB_API_BASE_URL"@,
            ) && option_view(cli.crates_api_base_url) == option_value(
                given,
                environment,
                "crates-api-base-url"@,
                "CRATES_IO_API_BASE_URL"@,
            )
        } else {
            result matches Err(error) && error.code == 2 && error.message@ == unknown_command(name)
        },
    }
}

/// Resolves the options of a command: what was given wins over the environment, and the
/// environment over the defaults.
pub fn resolve_arguments(name: &str, given: &Vec<GivenOption>, environment: &Vec<Variable>) -> (result:
    Result<Cli, LineError>)
    ensures
        is_resolution(result, name@, views(given@), views(environment@)),
{
    if let Some(message) = check_options(&list_options(name), given, environment) {
        return Err(LineError { code: 2, message });
    }
    let command = if same(name, "pin") {
        Commands::Pin(find_pin_args(given, environment))
    } else if same(name, "update") {
        Commands::Update(find_update_args(given, environment))
    } else if same(name, "status") {
        Commands::Status(find_status_args(given, environment))
    } else if same(name, "policy") {
        Commands::Policy(find_policy_args(given, environment))
    } else if same(name, "release") {
        Commands::Release(find_release_args(given, environment))
    } else {
        let message = say_usage(&join_three("unrecognized subcommand '", name, "'"));
        return Err(LineError { code: 2, message });
    };
    Ok(
        Cli {
            command,
            github_api_base_url: find_value(
                given,
                environment,
                "github-api-base-url",
                "GITHUB_API_BASE_URL",
            ),
            crates_api_base_url: find_value(
                given,
                environment,
                "crates-api-base-url",
                "CRATES_IO_API_BASE_URL",
            ),
        },
    )
}

/// The environment has the values of the other, normalized.
pub open spec fn is_normalized(
    environment: Seq<VariableView>,
    before: Seq<VariableView>,
) -> bool {
    forall|name: Seq<char>| #[trigger] value_of(environment, name) == normal_value(before, name)
}

/// The options that are not given and whose variables have values, as arguments.
pub open spec fn environment_args(
    options: Seq<OptionView>,
    given: Seq<GivenView>,
    environment: Seq<VariableView>,
) -> Seq<Seq<char>>
    decreases options.len(),
{
    if options.len() == 0 {
        Seq::empty()
    } else {
        let before = environment_args(options.drop_last(), given, environment);
        let option = options.last();
        match value_of(environment, option.variable) {
            Some(value) if given_of(given, option.name).len() == 0 => before.push(
                "--"@ + option.name + "="@ + value,
            ),
            _ => before,
        }
    }
}

/// The command line that would have given what the environment provides.
pub open spec fn environment_line(
    line: Seq<Seq<char>>,
    name: Seq<char>,
    given: Seq<GivenView>,
    environment: Seq<VariableView>,
) -> Seq<Seq<char>> {
    (if line.len() == 0 {
        line
    } else {
        line.take(1)
    }) + seq![name] + environment_args(options_of(name), given, environment)
}

fn write_environment_line(
    line: &Vec<String>,
    name: &str,
    given: &Vec<GivenOption>,
    environment: &Vec<Variable>,
) -> (result: Vec<String>)
    ensures
        views(result@) == environment_line(
            views(line@),
            name@,
            views(given@),
            views(environment@),
        ),
{
    let options = list_options(name);
    let ghost all = options_of(name@);
    let mut result: Vec<String> = Vec::new();
    if line.len() > 0 {
        result.push(line[0].clone());
        assert(views(result@) == views(line@).take(1));
    } else {
        assert(views(result@) == views(line@));
    }
    let ghost start = views(result@);
    result.push(name.to_owned());
    let ghost front = start + seq![name@];
    assert(views(result@) == front);
    assert(front + environment_args(all.take(0), views(given@), views(environment@)) == front);
    let mut i: usize = 0;
    while i < options.len()
        invariant
            i <= options.len(),
            all == views(options@),
            views(result@) == front + environment_args(
                all.take(i as int),
                views(given@),
                views(environment@),
            ),
        decreases options.len() - i,
    {
        let option = &options[i];
        let ghost before = views(result@);
        proof {
            assert(all.take(i + 1).drop_last() == all.take(i as int));
            assert(all.take(i + 1).last() == option@);
        }
        let values = find_given(given, option.name);
        assert(views(values@).len() == values@.len());
        if values.len() == 0 {
            if let Some(value) = lookup(environment, option.variable) {
                let arg = join_four("--", option.name, "=", &value);
                result.push(arg);
                assert(views(result@) == before.push(arg@));
            }
        }
        i = i + 1;
    }
    assert(all.take(i as int) == all);
    result
}

/// The result is what a line comes to in an environment: what is said of the line, where
/// it is refused; else what is said of the values that the environment provides, where
/// they are refused as if they had been given; else the command that was named.
pub open spec fn is_reading(
    result: Result<Cli, LineError>,
    environment: Seq<VariableView>,
    line: Seq<Seq<char>>,
) -> bool {
    match line_result(environment, line) {
        Err((code, message)) => result matches Err(error) && error.code == code && error.message@
            == message,
        Ok((name, values)) => {
            let given = given_for(options_of(name), values);
            match line_result(environment, environment_line(line, name, given, environment)) {
                Err((code, message)) => result matches Err(error) && error.code == code
                    && error.message@ == message,
                Ok(_) => is_resolution(result, name, given, environment),
            }
        },
    }
}

/// Reads the command line in an environment. Blank values count as not provided.
pub fn parse_arguments(environment: &Vec<Variable>, args: &Vec<String>) -> (result: Result<
    Cli,
    LineError,
>)
    ensures
        exists|normal: Seq<VariableView>| #[trigger]
            is_normalized(normal, views(environment@)) && is_reading(
                result,
                normal,
                sanitized(views(args@)),
            ),
{
    let (normal, line) = normalize_inputs(environment, args);
    assert(is_normalized(views(normal@), views(environment@)));
    let (name, given) = match read_arguments(&normal, &line) {
        Ok(found) => found,
        Err(error) => {
            return Err(error);
        },
    };
    match read_arguments(&normal, &write_environment_line(&line, &name, &given, &normal)) {
        Ok(_) => resolve_arguments(&name, &given, &normal),
        Err(error) => Err(error),
    }
}

// ---------------------------------------------------------------------------
// What the commands need
// ---------------------------------------------------------------------------
/// The labels in a text: the pieces between its commas, without the white space around
/// them and without those that are blank.
pub open spec fn labels_in(text: Seq<char>) -> Seq<Seq<char>> {
    split(text, ',').filter(|label: Seq<char>| !is_blank(label)).map_values(
        |label: Seq<char>| trim(label),
    )
}

/// The labels in a text that lists them with commas.
pub fn parse_labels(raw: &str) -> (result: Vec<String>)
    ensures
        views(result@) == labels_in(raw@),
{
    let found = pieces(raw, ',');
    let ghost all = views(found@);
    let ghost keep = |label: Seq<char>| !is_blank(label);
    let ghost bare = |label: Seq<char>| trim(label);
    let mut labels: Vec<String> = Vec::new();
    let mut i: usize = 0;
    proof {
        reveal(Seq::filter);
        assert(all.take(0).filter(keep) == Seq::<Seq<char>>::empty());
        assert(views(labels@) == all.take(0).filter(keep).map_values(bare));
    }
    while i < found.len()
        invariant
            i <= found.len(),
            all == views(found@),
            keep == (|label: Seq<char>| !is_blank(label)),
            bare == (|label: Seq<char>| trim(label)),
            views(labels@) == all.take(i as int).filter(keep).map_values(bare),
        decreases found.len() - i,
    {
        let ghost before = views(labels@);
        proof {
            reveal(Seq::filter);
            assert(all.take(i + 1).drop_last() == all.take(i as int));
            assert(all.take(i + 1).last() == found@[i as int]@);
        }
        if !blank(&found[i]) {
            labels.push(trimmed(&found[i]));
            assert(views(labels@) == before.push(trim(found@[i as int]@)));
        }
        assert(views(labels@) == all.take(i + 1).filter(keep).map_values(bare));
        i = i + 1;
    }
    assert(all.take(i as int) == all);
    labels
}

/// The text, without the white space around it, where it is given and not blank.
pub open spec fn given_name(text: Option<Seq<char>>) -> Option<Seq<char>> {
    match text {
        Some(text) => if is_blank(text) {
            None
        } else {
            Some(trim(text))
        },
        None => None,
    }
}

/// The owner and the name of the repository: as given, where both are, else as
/// `GITHUB_REPOSITORY` has them.
pub open spec fn repository_for(
    owner: Option<Seq<char>>,
    repo_name: Option<Seq<char>>,
    repository: Option<Seq<char>>,
) -> Option<(Seq<char>, Seq<char>)> {
    if given_name(owner) is Some && given_name(repo_name) is Some {
        Some((given_name(owner)->0, given_name(repo_name)->0))
    } else {
        match repository {
            Some(repository) => split_once(repository, '/'),
            None => None,
        }
    }
}

fn read_name(text: &Option<String>) -> (result: Option<String>)
    ensures
        option_view(result) == given_name(option_view(*text)),
{
    match text {
        Some(text) => if blank(text) {
            None
        } else {
            Some(trimmed(text))
        },
        None => None,
    }
}

/// The owner and the name of the repository. `repository` is what `GITHUB_REPOSITORY`
/// holds.
pub fn resolve_repository(
    owner: &Option<String>,
    repo_name: &Option<String>,
    repository: &Option<String>,
) -> (result: Result<(String, String), String>)
    ensures
        match result {
            Ok((found_owner, found_name)) => repository_for(
                option_view(*owner),
                option_view(*repo_name),
                option_view(*repository),
            ) == Some((found_owner@, found_name@)),
            Err(message) => repository_for(
                option_view(*owner),
                option_view(*repo_name),
                option_view(*repository),
            ) is None && message@
                == "--owner and --repo-name (or the GITHUB_REPOSITORY environment variable) are required"@,
        },
{
    if let Some(owner) = read_name(owner) {
        if let Some(name) = read_name(repo_name) {
            return Ok((owner, name));
        }
    }
    let found = match repository {
        Some(repository) => cut(repository, '/'),
        None => None,
    };
    match found {
        Some(found) => Ok(found),
        None => Err(
            "--owner and --repo-name (or the GITHUB_REPOSITORY environment variable) are required".to_owned(),
        ),
    }
}

/// The options of the release that the arguments ask for.
pub open spec fn is_release_of(
    options: ReleaseOptions,
    args: ReleaseArgs,
    owner: Seq<char>,
    repo: Seq<char>,
) -> bool {
    &&& options.repo_root@ == args.repo@
    &&& options.owner@ == owner
    &&& options.repo@ == repo
    &&& option_view(options.base_branch) == option_view(args.base_branch)
    &&& options.bump == args.bump.forced()
    &&& options.tag_prefix@ == args.tag_prefix@
    &&& options.tag_style == args.tag_style.chosen()
    &&& options.update_major_alias == args.update_major_alias
    &&& options.commit_message@ == args.commit_message@
    &&& options.create_pr == args.create_pr
    &&& options.release_branch@ == args.release_branch@
    &&& options.dry_run == args.dry_run
    &&& views(options.extra_files@) == views(args.extra_files@).filter(
        |file: Seq<char>| file.len() > 0,
    )
    &&& options.phase == args.phase.chosen()
}

fn without_empty(files: &Vec<String>) -> (result: Vec<String>)
    ensures
        views(result@) == views(files@).filter(|file: Seq<char>| file.len() > 0),
{
    let ghost all = views(files@);
    let ghost keep = |file: Seq<char>| file.len() > 0;
    let mut result: Vec<String> = Vec::new();
    let mut i: usize = 0;
    proof {
        reveal(Seq::filter);
        assert(views(result@) == all.take(0).filter(keep));
    }
    while i < files.len()
        invariant
            i <= files.len(),
            all == views(files@),
            keep == (|file: Seq<char>| file.len() > 0),
            views(result@) == all.take(i as int).filter(keep),
        decreases files.len() - i,
    {
        let ghost before = views(result@);
        proof {
            reveal(Seq::filter);
            assert(all.take(i + 1).drop_last() == all.take(i as int));
            assert(all.take(i + 1).last() == files@[i as int]@);
        }
        if !files[i].as_str().is_empty() {
            result.push(files[i].clone());
            assert(views(result@) == before.push(files@[i as int]@));
        }
        i = i + 1;
    }
    assert(all.take(i as int) == all);
    result
}

/// The options of the release that the arguments ask for, of the given repository.
pub fn release_options(args: &ReleaseArgs, owner: String, repo: String) -> (result: ReleaseOptions)
    ensures
        is_release_of(result, *args, owner@, repo@),
{
    ReleaseOptions {
        repo_root: args.repo.clone(),
        owner,
        repo,
        base_branch: copy_option(&args.base_branch),
        bump: args.bump.level(),
        tag_prefix: args.tag_prefix.clone(),
        tag_style: args.tag_style.style(),
        update_major_alias: args.update_major_alias,
        commit_message: args.commit_message.clone(),
        create_pr: args.create_pr,
        release_branch: args.release_branch.clone(),
        dry_run: args.dry_run,
        extra_files: without_empty(&args.extra_files),
        phase: args.phase.phase(),
    }
}

// ---------------------------------------------------------------------------
// Laws
// ---------------------------------------------------------------------------
/// A flag wins over the environment.
pub proof fn law_flag_wins_over_the_environment(
    given: Seq<GivenView>,
    environment: Seq<VariableView>,
    other: Seq<VariableView>,
    name: Seq<char>,
    variable: Seq<char>,
)
    requires
        given_of(given, name).len() > 0,
    ensures
        option_value(given, environment, name, variable) == option_value(
            given,
            other,
            name,
            variable,
        ),
        option_value(given, environment, name, variable) == Some(given_of(given, name)[0]),
{
}

/// Where neither a flag nor the environment says anything, the default holds. An input
/// whose variable is blank says nothing, nor does its seed where that is blank.
pub proof fn law_blank_inputs_leave_the_default(
    given: Seq<GivenView>,
    before: Seq<VariableView>,
    environment: Seq<VariableView>,
    name: Seq<char>,
    variable: Seq<char>,
    default: Seq<char>,
)
    requires
        given_of(given, name).len() == 0,
        is_normalized(environment, before),
        is_input(variable),
        !provides(before, variable),
        seed_of(variable) matches Some(seed) ==> !provides(before, seed),
    ensures
        value_or(given, environment, name, variable, default) == default,
        option_value(given, environment, name, variable) is None,
{
    assert(value_of(environment, variable) == normal_value(before, variable));
}

/// Where no flag is given, the input wins over its seed, and the seed over the default.
pub proof fn law_environment_is_read_in_order(
    given: Seq<GivenView>,
    before: Seq<VariableView>,
    environment: Seq<VariableView>,
    name: Seq<char>,
    variable: Seq<char>,
)
    requires
        given_of(given, name).len() == 0,
        is_normalized(environment, before),
    ensures
        provides(before, variable) ==> option_value(given, environment, name, variable) == value_of(
            before,
            variable,
        ),
        !provides(before, variable) && (seed_of(variable) matches Some(seed) && provides(
            before,
            seed,
        )) ==> option_value(given, environment, name, variable) == value_of(
            before,
            seed_of(variable)->0,
        ),
{
    assert(value_of(environment, variable) == normal_value(before, variable));
}

} // verus!
