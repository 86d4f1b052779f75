//! What messages say: each names what went wrong and where.

use vstd::prelude::*;

use crate::api::{Document, Handling, ProgressView, RequestView};
use crate::arguments::{GivenView, OptionKind, OptionView};
use crate::call_laws::user;
use crate::calls::{grants, scopes_checked};
use crate::cargo::CargoUpdateReport;
use crate::cli::{allowed, given_of, option_failure, option_value, unknown_command};
use crate::conventional::{can_bump, BumpLevel};
use crate::crates_io::{crate_context, crate_step_from, CratesStepView};
use crate::github::{body_text, step_after, StepView};
use crate::input_env::VariableView;
use crate::model::{ActionView, PinReport};
use crate::paths::{lies_in, repository_path};
use crate::policy::PolicyReport;
use crate::release::{
    decided, manifest_version, options_failure, AnalysisView, DecisionView, ReleaseOptions,
    ReleasePhase,
};
use crate::release_flow_laws::is_level;
use crate::report::{
    action_status_headline, dependency_status_headline, noop_lines, pin_lines, policy_headline,
    stale_actions, stale_dependencies,
};
use crate::retry_laws::{is_last, may_pass, succeeds};
use crate::scan_laws::{begins_with, holds};
use crate::text::{decimal, join, lowercase, views};
use crate::transport::{Outcome, RetryPolicy};
use crate::update::UpdateReport;
use crate::version::parsed_version;
use crate::versioning::version_result;

verus! {

// ---------------------------------------------------------------------------
// Requests
// ---------------------------------------------------------------------------
/// A last answer of no other meaning fails with its status and its body.
pub proof fn law_failed_request_tells_its_answer(
    policy: RetryPolicy,
    has_token: bool,
    request: RequestView,
    outcomes: Seq<Outcome>,
    at: int,
)
    requires
        is_last(policy, outcomes, at),
        !succeeds(outcomes[at]),
        outcomes[at] matches Outcome::Response(response) && response.status != 403
            && response.status != 404 && response.status != 422,
    ensures
        step_after(policy, has_token, request, outcomes) == StepView::Fail(
            request.context + ": GitHub API returned "@ + outcomes[at]->Response_0.status_text@
                + " ("@ + body_text(outcomes[at]->Response_0) + ")"@,
        ),
{
    crate::retry_laws::lemma_series(policy, outcomes, at, 0);
}

/// Where the request without the token fails too, both answers are told.
pub proof fn law_second_refusal_tells_both_answers(
    policy: RetryPolicy,
    request: RequestView,
    outcomes: Seq<Outcome>,
    at: int,
)
    requires
        is_last(policy, outcomes, at),
        !may_pass(outcomes[at]),
        outcomes[at] matches Outcome::Response(response) && response.status == 403 && !holds(
            lowercase(body_text(response)),
            "rate limit"@,
        ),
        request.handling == Handling::Read || request.handling == Handling::ReadOrMissing,
        at + 1 < outcomes.len(),
        outcomes[at + 1] is Response,
        !succeeds(outcomes[at + 1]),
        !may_pass(outcomes[at + 1]),
    ensures
        step_after(policy, true, request, outcomes) == StepView::Fail(
            request.context + ": GitHub API returned 403 Forbidden ("@ + body_text(
                outcomes[at]->Response_0,
            ) + "); the anonymous retry without the token also "@ + ("returned "@ + outcomes[at
                + 1]->Response_0.status_text@),
        ),
{
    crate::retry_laws::lemma_series(policy, outcomes, at, 0);
    crate::policy_laws::lemma_holds(
        lowercase(body_text(outcomes[at]->Response_0)),
        "rate limit"@,
    );
}

/// The body of an answer that could not be read is told as such.
pub proof fn law_unread_body_is_told(response: crate::transport::HttpResponse)
    ensures
        response.body is None ==> body_text(response) == "<response body unavailable>"@,
        response.body matches Some(body) ==> body_text(response) == body@,
{
}

/// Any other answer on a crate fails with its status and its body.
pub proof fn law_failed_crate_tells_its_answer(
    policy: RetryPolicy,
    context: Seq<char>,
    outcomes: Seq<Outcome>,
)
    requires
        outcomes.len() > 0,
        !succeeds(outcomes[0]),
        !crate::retry_laws::crate_may_pass(outcomes[0]),
    ensures
        (outcomes[0] matches Outcome::Response(response) && response.status != 404)
            ==> crate_step_from(policy, context, outcomes, 0) == CratesStepView::Fail(
            context + ": crates.io API returned "@ + outcomes[0]->Response_0.status_text@ + " ("@
                + body_text(outcomes[0]->Response_0) + ")"@,
        ),
        outcomes[0] is Broken ==> crate_step_from(policy, context, outcomes, 0)
            == CratesStepView::Fail(context + ": "@ + outcomes[0]->message@),
{
}

/// What a token lacks is told: itself, its user, the scope for repositories, or the one for
/// workflows.
pub proof fn law_token_failure_tells_what_is_missing(
    docs: Seq<Document>,
    at: int,
    login: Option<String>,
    scopes: Option<String>,
)
    requires
        0 <= at < docs.len(),
        docs[at] == user(login, scopes),
    ensures
        scopes_checked(false, docs, at) == ProgressView::<()>::Failed(
            "a GitHub token is required for remote PR creation"@,
        ),
        login is None ==> scopes_checked(true, docs, at) == ProgressView::<()>::Failed(
            "failed to validate GitHub token: authenticated user is missing"@,
        ),
        (login is Some && (scopes matches Some(list) && !grants(list@, "repo"@) && !grants(
            list@,
            "public_repo"@,
        ))) ==> scopes_checked(true, docs, at) == ProgressView::<()>::Failed(
            "GitHub token is missing the repo or public_repo scope"@,
        ),
        (login is Some && (scopes matches Some(list) && (grants(list@, "repo"@) || grants(
            list@,
            "public_repo"@,
        )) && !grants(list@, "workflow"@))) ==> scopes_checked(true, docs, at) == ProgressView::<
            (),
        >::Failed("GitHub token is missing the workflow scope"@),
{
}

// ---------------------------------------------------------------------------
// Releases
// ---------------------------------------------------------------------------
/// What does not fit in the options of a release is told.
pub proof fn law_unfit_release_options_are_told(options: ReleaseOptions)
    ensures
        options.create_pr && options.phase != ReleasePhase::All ==> options_failure(options)
            == Some(
            "--create-pr cannot be combined with --phase: the release pull request already separates the version bump from the tag"@,
        ),
        options.create_pr && options.phase == ReleasePhase::All && options.release_branch@
            != "automation/release"@ && !begins_with(
            options.release_branch@,
            "automation/release/"@,
        ) ==> options_failure(options) == Some(
            "automated release branch '"@ + options.release_branch@
                + "' must use the reserved 'automation/release/' prefix"@,
        ),
{
    crate::scan_laws::lemma_starts(options.release_branch@, "automation/release/"@);
}

/// A version that cannot go up, and one that is none, are told.
pub proof fn law_unfit_versions_are_told(
    options: ReleaseOptions,
    analysis: AnalysisView,
    level: BumpLevel,
    docs: Seq<Document>,
    at: int,
    file: crate::cargo::ManifestFile,
    text: Seq<char>,
)
    ensures
        options.phase != ReleasePhase::Tag && is_level(options, analysis, level) && !can_bump(
            analysis.current,
            level,
        ) ==> decided(options, analysis, docs, at) == ProgressView::<DecisionView>::Failed(
            "the version '"@ + analysis.current_version + "' cannot go up"@,
        ),
        version_result(file@) == Ok::<Seq<char>, Seq<char>>(text) && parsed_version(text) is None
            ==> manifest_version(Ok(file)) == Err::<
            (Seq<char>, crate::version::VersionView),
            Seq<char>,
        >("invalid current version '"@ + text + "' in Cargo.toml"@),
{
}

/// A file outside the repository, and the root itself, have no path in it.
pub proof fn law_paths_outside_are_told(root: Seq<char>, file: Seq<char>)
    ensures
        !lies_in(root, file) ==> repository_path(root, file) == Err::<Seq<char>, Seq<char>>(
            "failed to derive repository-relative path: prefix not found"@,
        ),
        lies_in(root, file) && crate::paths::path_below(root, file).len() == 0
            ==> repository_path(root, file) == Err::<Seq<char>, Seq<char>>(
            "repository-relative path is empty"@,
        ),
        lies_in(root, file) && crate::paths::path_below(root, file).len() > 0
            ==> repository_path(root, file) is Ok,
{
}

// ---------------------------------------------------------------------------
// The command line
// ---------------------------------------------------------------------------
/// How an option is shown in a message: a switch may stand without its value.
pub open spec fn option_text(option: OptionView) -> Seq<char> {
    if option.kind == OptionKind::Switch {
        "--"@ + option.name + " [<"@ + option.placeholder + ">]"@
    } else {
        "--"@ + option.name + " <"@ + option.placeholder + ">"@
    }
}

/// A refused option is told, with what is wrong with it and where help is.
pub proof fn law_refusals_name_the_option(
    option: OptionView,
    given: Seq<GivenView>,
    environment: Seq<VariableView>,
    value: Seq<char>,
    name: Seq<char>,
)
    requires
        option.kind != OptionKind::List,
    ensures
        given_of(given, option.name).len() > 1 ==> option_failure(option, given, environment)
            == Some(
            "error: "@ + ("the argument '"@ + option_text(option)
                + "' cannot be used multiple times"@)
                + "\n\nFor more information, try '--help'.\n"@,
        ),
        given_of(given, option.name).len() <= 1 && option_value(
            given,
            environment,
            option.name,
            option.variable,
        ) == Some(value) && option.kind == OptionKind::Path && value.len() == 0 ==> option_failure(
            option,
            given,
            environment,
        ) == Some(
            "error: "@ + ("a value is required for '"@ + option_text(option)
                + "' but none was supplied"@) + "\n\nFor more information, try '--help'.\n"@,
        ),
        given_of(given, option.name).len() <= 1 && option_value(
            given,
            environment,
            option.name,
            option.variable,
        ) == Some(value) && option.kind != OptionKind::Path && !crate::cli_laws::may_be(
            option.kind,
            value,
        ) ==> option_failure(option, given, environment) == Some(
            "error: "@ + ("invalid value '"@ + value + "' for '"@ + option_text(option)
                + "'\n  [possible values: "@ + join(allowed(option.kind)->0, ", "@) + "]"@)
                + "\n\nFor more information, try '--help'.\n"@,
        ),
        unknown_command(name) == "error: "@ + ("unrecognized subcommand '"@ + name + "'"@)
            + "\n\nFor more information, try '--help'.\n"@,
{
    if option_value(given, environment, option.name, option.variable) == Some(value) {
        crate::cli_laws::lemma_allowed(option.kind, value);
    }
}

// ---------------------------------------------------------------------------
// Reports
// ---------------------------------------------------------------------------
/// Where nothing needed pinning, one line tells how much was scanned and was pinned already.
pub proof fn law_nothing_to_pin_is_told(report: PinReport, dry_run: bool)
    requires
        report.changes@.len() == 0,
    ensures
        pin_lines(report, dry_run).len() == 1,
        pin_lines(report, dry_run)[0]
            == "No floating GitHub Actions references needed pinning. Scanned "@ + decimal(
            report.references_scanned as nat,
        ) + " references across "@ + decimal(report.workflow_files as nat) + " workflow files; "@
            + decimal(report.already_pinned as nat) + " were already pinned."@,
{
    assert(views(report.changes@).len() == 0);
}

/// Where nothing needed an update, each part that was scanned has its line.
pub proof fn law_nothing_to_update_is_told(
    actions: Option<UpdateReport>,
    dependencies: Option<CargoUpdateReport>,
)
    ensures
        noop_lines(actions, dependencies).len() == (if actions is Some {
            1int
        } else {
            0
        }) + (if dependencies is Some {
            1int
        } else {
            0
        }),
        actions matches Some(report) ==> noop_lines(actions, dependencies)[0]
            == "All scanned GitHub Actions are already current and pinned. Scanned "@ + decimal(
            report.references_scanned as nat,
        ) + " references across "@ + decimal(report.workflow_files as nat) + " workflow files."@,
        dependencies matches Some(report) ==> noop_lines(actions, dependencies).last()
            == "All managed cargo dependencies are already current. Scanned "@ + decimal(
            report.dependencies_scanned as nat,
        ) + " dependencies across "@ + decimal(report.manifest_files as nat) + " manifests; "@
            + decimal(report.unmanaged_dependencies as nat)
            + " unmanaged dependencies were skipped."@,
{
}

/// The headlines tell how much was scanned and how much of it needs changes.
pub proof fn law_headlines_count(
    actions: UpdateReport,
    dependencies: CargoUpdateReport,
    policy: PolicyReport,
)
    ensures
        action_status_headline(actions) == "Scanned "@ + decimal(
            actions.references_scanned as nat,
        ) + " action references across "@ + decimal(actions.workflow_files as nat)
            + " workflow files. "@ + decimal(stale_actions(views(actions.entries@)))
            + " need changes."@,
        dependency_status_headline(dependencies) == "Scanned "@ + decimal(
            dependencies.dependencies_scanned as nat,
        ) + " cargo dependencies across "@ + decimal(dependencies.manifest_files as nat)
            + " manifests. "@ + decimal(stale_dependencies(views(dependencies.entries@)))
            + " need changes; "@ + decimal(dependencies.unmanaged_dependencies as nat)
            + " are unmanaged."@,
        policy_headline(policy) == "Scanned "@ + decimal(policy.workflow_files as nat)
            + " workflow files. Found "@ + decimal(policy.script_usages@.len())
            + " script usages and "@ + decimal(policy.policy_violations@.len())
            + " policy findings."@,
{
}

/// A repository is named by its owner and its name; what is asked of a crate names the crate.
pub proof fn law_names_are_put_together(action: ActionView, name: Seq<char>)
    ensures
        action.repository_slug() == action.owner + "/"@ + action.repository,
        crate_context(name) == "fetch crates.io metadata for "@ + name,
{
}

} // verus!
