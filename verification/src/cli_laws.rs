//! Where the values of options come from, and which of them are refused.

use vstd::prelude::*;

use crate::arguments::{
    arg_of, commands, given_for, global_options, options_of, program, GivenView, LineError,
    OptionKind, OptionView,
};
use crate::cli::{
    all_pieces, are_pin_args, are_policy_args, are_release_args, are_repo_args, are_status_args,
    are_update_args, bump_arg, environment_args, environment_line, first_failure, given_of,
    is_release_of, is_resolution, labels_in, list_value, option_failure, option_value,
    repository_for, BumpArg, Cli, PhaseArg, PinArgs, PolicyArgs, ReleaseArgs, RepoArgs, StatusArgs,
    TagStyleArg, UpdateArgs,
};
use crate::conventional::BumpLevel;
use crate::input_env::{normal_value, provides, sanitized, value_of, VariableView};
use crate::member_laws::lemma_kept;
use crate::release::{ReleaseOptions, ReleasePhase, TagStyle};
use crate::scan_laws::{begins_with, holds, is_gap, lemma_starts};
use crate::text::{is_blank, is_space, option_view, split, trim, views};
use crate::text_laws::{
    law_cut_at_the_first_mark, law_pieces_of_both_sides, law_white_space_is_trimmed,
};

verus! {

// ---------------------------------------------------------------------------
// Sources of values
// ---------------------------------------------------------------------------
/// The last entry of an option counts.
pub proof fn law_last_given_option_counts(given: Seq<GivenView>, entry: GivenView, name: Seq<char>)
    ensures
        given_of(given.push(entry), name) == if entry.name == name {
            entry.values
        } else {
            given_of(given, name)
        },
        given_of(Seq::empty(), name) == Seq::<Seq<char>>::empty(),
{
    assert(given.push(entry).drop_last() == given);
}

/// The last entry of a variable counts.
pub proof fn law_last_variable_counts(
    environment: Seq<VariableView>,
    entry: VariableView,
    name: Seq<char>,
)
    ensures
        value_of(environment.push(entry), name) == if entry.name == name {
            Some(entry.value)
        } else {
            value_of(environment, name)
        },
        value_of(Seq::empty(), name) is None,
{
    assert(environment.push(entry).drop_last() == environment);
}

/// The text is the one given on the line, or else the one in the environment, or else the
/// default.
pub open spec fn is_taken(
    text: Seq<char>,
    given: Seq<GivenView>,
    environment: Seq<VariableView>,
    name: Seq<char>,
    variable: Seq<char>,
    default: Seq<char>,
) -> bool {
    if given_of(given, name).len() > 0 {
        text == given_of(given, name)[0]
    } else {
        match value_of(environment, variable) {
            Some(value) => text == value,
            None => text == default,
        }
    }
}

/// The text, if any, is the one given on the line, or else the one in the environment.
pub open spec fn is_taken_if_there(
    text: Option<Seq<char>>,
    given: Seq<GivenView>,
    environment: Seq<VariableView>,
    name: Seq<char>,
    variable: Seq<char>,
) -> bool {
    if given_of(given, name).len() > 0 {
        text == Some(given_of(given, name)[0])
    } else {
        text == value_of(environment, variable)
    }
}

/// The switch is on where the line says `true`, or else the environment does, or else by
/// default.
pub open spec fn is_switched(
    switch: bool,
    given: Seq<GivenView>,
    environment: Seq<VariableView>,
    name: Seq<char>,
    variable: Seq<char>,
    default: bool,
) -> bool {
    if given_of(given, name).len() > 0 {
        switch == (given_of(given, name)[0] == "true"@)
    } else {
        match value_of(environment, variable) {
            Some(value) => switch == (value == "true"@),
            None => switch == default,
        }
    }
}

/// The options of a repository come from the line, its inputs or their defaults.
pub proof fn law_repository_options_are_taken(
    args: RepoArgs,
    given: Seq<GivenView>,
    environment: Seq<VariableView>,
)
    requires
        are_repo_args(args, given, environment),
    ensures
        is_taken(args.repo@, given, environment, "repo"@, "INPUT_REPO"@, "."@),
        is_taken(
            args.workflows_path@,
            given,
            environment,
            "workflows-path"@,
            "INPUT_WORKFLOWS-PATH"@,
            ".github/workflows"@,
        ),
        is_taken_if_there(option_view(args.token), given, environment, "token"@, "INPUT_TOKEN"@),
        is_taken_if_there(option_view(args.owner), given, environment, "owner"@, "INPUT_OWNER"@),
        is_taken_if_there(
            option_view(args.repo_name),
            given,
            environment,
            "repo-name"@,
            "INPUT_REPO-NAME"@,
        ),
        is_switched(
            args.create_pr,
            given,
            environment,
            "create-pr"@,
            "INPUT_CREATE-PR"@,
            false,
        ),
        is_taken_if_there(
            option_view(args.base_branch),
            given,
            environment,
            "base-branch"@,
            "INPUT_BASE-BRANCH"@,
        ),
        is_taken_if_there(
            option_view(args.branch_name),
            given,
            environment,
            "branch-name"@,
            "INPUT_BRANCH-NAME"@,
        ),
        is_taken(args.labels@, given, environment, "labels"@, "INPUT_LABELS"@, "dependencies"@),
        is_taken(
            args.title@,
            given,
            environment,
            "title"@,
            "INPUT_TITLE"@,
            "Update dependencies"@,
        ),
        is_taken(
            args.commit_message@,
            given,
            environment,
            "commit-message"@,
            "INPUT_COMMIT-MESSAGE"@,
            "Update dependencies"@,
        ),
{
}

/// What is updated, and whether files are written, is off unless it is switched on.
pub proof fn law_update_switches_are_taken(
    pin: PinArgs,
    update: UpdateArgs,
    status: StatusArgs,
    given: Seq<GivenView>,
    environment: Seq<VariableView>,
)
    requires
        are_pin_args(pin, given, environment),
        are_update_args(update, given, environment),
        are_status_args(status, given, environment),
    ensures
        pin.targets == update.targets && update.targets == status.targets,
        is_switched(
            pin.targets.github_actions,
            given,
            environment,
            "github-actions"@,
            "INPUT_GITHUB-ACTIONS"@,
            false,
        ),
        is_switched(pin.targets.cargo, given, environment, "cargo"@, "INPUT_CARGO"@, false),
        is_switched(pin.targets.all, given, environment, "all"@, "INPUT_ALL"@, false),
        is_switched(pin.dry_run, given, environment, "dry-run"@, "INPUT_DRY-RUN"@, false),
        is_switched(update.dry_run, given, environment, "dry-run"@, "INPUT_DRY-RUN"@, false),
        is_switched(status.dry_run, given, environment, "dry-run"@, "INPUT_DRY-RUN"@, false),
{
}

/// Scripts and policies are checked unless that is switched off; findings fail only where that
/// is switched on.
pub proof fn law_policy_switches_are_taken(
    args: PolicyArgs,
    given: Seq<GivenView>,
    environment: Seq<VariableView>,
)
    requires
        are_policy_args(args, given, environment),
    ensures
        is_switched(
            args.check_scripts,
            given,
            environment,
            "check-scripts"@,
            "INPUT_CHECK-SCRIPTS"@,
            true,
        ),
        is_switched(
            args.check_policies,
            given,
            environment,
            "check-policies"@,
            "INPUT_CHECK-POLICIES"@,
            true,
        ),
        is_switched(
            args.fail_on_findings,
            given,
            environment,
            "fail-on-findings"@,
            "INPUT_FAIL-ON-FINDINGS"@,
            false,
        ),
{
}

/// The options of a release come from the line, its inputs or their defaults.
pub proof fn law_release_options_are_taken(
    args: ReleaseArgs,
    given: Seq<GivenView>,
    environment: Seq<VariableView>,
)
    requires
        are_release_args(args, given, environment),
    ensures
        is_taken(args.repo@, given, environment, "repo"@, "INPUT_REPO"@, "."@),
        is_taken_if_there(option_view(args.token), given, environment, "token"@, "INPUT_TOKEN"@),
        is_taken_if_there(option_view(args.owner), given, environment, "owner"@, "INPUT_OWNER"@),
        is_taken_if_there(
            option_view(args.repo_name),
            given,
            environment,
            "repo-name"@,
            "INPUT_REPO-NAME"@,
        ),
        is_taken_if_there(
            option_view(args.base_branch),
            given,
            environment,
            "base-branch"@,
            "INPUT_BASE-BRANCH"@,
        ),
        is_taken(args.tag_prefix@, given, environment, "tag-prefix"@, "INPUT_TAG-PREFIX"@, "v"@),
        is_switched(
            args.update_major_alias,
            given,
            environment,
            "update-major-alias"@,
            "INPUT_UPDATE-MAJOR-ALIAS"@,
            false,
        ),
        is_taken(
            args.notes_file@,
            given,
            environment,
            "notes-file"@,
            "INPUT_NOTES-FILE"@,
            "release_notes.md"@,
        ),
        is_taken(
            args.commit_message@,
            given,
            environment,
            "commit-message"@,
            "INPUT_COMMIT-MESSAGE"@,
            "chore: release v{version}"@,
        ),
        is_switched(
            args.create_pr,
            given,
            environment,
            "create-pr"@,
            "INPUT_CREATE-PR"@,
            false,
        ),
        is_taken(
            args.release_branch@,
            given,
            environment,
            "release-branch"@,
            "INPUT_RELEASE-BRANCH"@,
            "automation/release"@,
        ),
        is_taken_if_there(
            option_view(args.github_output),
            given,
            environment,
            "github-output"@,
            "GITHUB_OUTPUT"@,
        ),
        is_switched(args.dry_run, given, environment, "dry-run"@, "INPUT_DRY-RUN"@, false),
        exists|text: Seq<char>| #[trigger]
            is_taken(text, given, environment, "bump"@, "INPUT_BUMP"@, "auto"@)
                && args.bump.forced() == forced_by(text),
        exists|text: Seq<char>| #[trigger]
            is_taken(text, given, environment, "tag-style"@, "INPUT_TAG-STYLE"@, "annotated"@) && (
            args.tag_style.chosen() == TagStyle::Lightweight) == (text == "lightweight"@),
        exists|text: Seq<char>| #[trigger]
            is_taken(text, given, environment, "phase"@, "INPUT_PHASE"@, "all"@)
                && args.phase.chosen() == phase_by(text),
{
    reveal_strlit("major");
    reveal_strlit("minor");
    reveal_strlit("patch");
    reveal_strlit("bump");
    reveal_strlit("tag");
    assert("major"@[1] == 'a' && "minor"@[1] == 'i' && "patch"@[0] == 'p' && "minor"@[0] == 'm');
    assert("major"@[0] == 'm');
    assert("bump"@.len() == 4 && "tag"@.len() == 3);
    let bump = crate::cli::value_or(given, environment, "bump"@, "INPUT_BUMP"@, "auto"@);
    assert(is_taken(bump, given, environment, "bump"@, "INPUT_BUMP"@, "auto"@));
    assert(bump_arg(bump).forced() == forced_by(bump));
    let style = crate::cli::value_or(
        given,
        environment,
        "tag-style"@,
        "INPUT_TAG-STYLE"@,
        "annotated"@,
    );
    assert(is_taken(style, given, environment, "tag-style"@, "INPUT_TAG-STYLE"@, "annotated"@));
    let phase = crate::cli::value_or(given, environment, "phase"@, "INPUT_PHASE"@, "all"@);
    assert(is_taken(phase, given, environment, "phase"@, "INPUT_PHASE"@, "all"@));
}

/// The bump that the text forces.
pub open spec fn forced_by(text: Seq<char>) -> Option<BumpLevel> {
    if text == "patch"@ {
        Some(BumpLevel::Patch)
    } else if text == "minor"@ {
        Some(BumpLevel::Minor)
    } else if text == "major"@ {
        Some(BumpLevel::Major)
    } else {
        None
    }
}

/// The phase that the text names.
pub open spec fn phase_by(text: Seq<char>) -> ReleasePhase {
    if text == "tag"@ {
        ReleasePhase::Tag
    } else if text == "bump"@ {
        ReleasePhase::Bump
    } else {
        ReleasePhase::All
    }
}

// ---------------------------------------------------------------------------
// Lists
// ---------------------------------------------------------------------------
/// Labels are what stands between commas, without the blanks around it; what is blank is left
/// out.
pub proof fn law_labels_stand_between_commas(
    front: Seq<char>,
    label: Seq<char>,
    back: Seq<char>,
    rest: Seq<char>,
)
    requires
        is_gap(front),
        is_gap(back),
        !label.contains(','),
        label.len() > 0 ==> !is_space(label[0]) && !is_space(label.last()),
    ensures
        labels_in(front + label + back) == if label.len() > 0 {
            seq![label]
        } else {
            Seq::empty()
        },
        labels_in(front + label + back + seq![','] + rest) == labels_in(front + label + back)
            + labels_in(rest),
{
    let piece = front + label + back;
    let blank = |label: Seq<char>| !is_blank(label);
    let cut = |label: Seq<char>| trim(label);
    assert(!piece.contains(',')) by {
        if piece.contains(',') {
            let i = choose|i: int| 0 <= i < piece.len() && piece[i] == ',';
            if i < front.len() {
                assert(is_space(front[i]));
            } else if i < front.len() + label.len() {
                assert(label.contains(label[i - front.len()]));
            } else {
                assert(is_space(back[i - front.len() - label.len()]));
            }
        }
    }
    assert forall|i: int| 0 <= i < piece.len() implies #[trigger] piece[i] != ',' by {
        assert(piece.contains(piece[i]));
    }
    crate::text::lemma_find_is(piece, ',', 0, piece.len() as int);
    assert(split(piece, ',') == seq![piece]);
    law_white_space_is_trimmed(front, label, back);
    reveal(Seq::filter);
    assert(seq![piece].drop_last() == Seq::<Seq<char>>::empty());
    assert(Seq::<Seq<char>>::empty().filter(blank) == Seq::<Seq<char>>::empty());
    if label.len() > 0 {
        assert(piece[front.len() as int] == label[0]);
        assert(!is_blank(piece));
        assert(seq![piece].filter(blank) == seq![piece]);
        assert(labels_in(piece) == seq![label]);
    } else {
        assert forall|i: int| 0 <= i < piece.len() implies is_space(#[trigger] piece[i]) by {
            if i < front.len() {
                assert(piece[i] == front[i]);
            } else {
                assert(piece[i] == back[i - front.len()]);
            }
        }
        assert(is_blank(piece));
        assert(seq![piece].filter(blank) == Seq::<Seq<char>>::empty());
        assert(labels_in(piece) == Seq::<Seq<char>>::empty());
    }
    law_pieces_of_both_sides(piece, rest, ',');
    lemma_filter_of_both(split(piece, ','), split(rest, ','), blank);
    let a = split(piece, ',').filter(blank);
    let b = split(rest, ',').filter(blank);
    assert((a + b).map_values(cut) == a.map_values(cut) + b.map_values(cut));
}

proof fn lemma_filter_of_both(
    a: Seq<Seq<char>>,
    b: Seq<Seq<char>>,
    chosen: spec_fn(Seq<char>) -> bool,
)
    ensures
        (a + b).filter(chosen) == a.filter(chosen) + b.filter(chosen),
    decreases b.len(),
{
    reveal(Seq::filter);
    if b.len() > 0 {
        assert((a + b).drop_last() == a + b.drop_last());
        assert((a + b).last() == b.last());
        lemma_filter_of_both(a, b.drop_last(), chosen);
        assert((a + b).filter(chosen) == a.filter(chosen) + b.filter(chosen));
    } else {
        assert(a + b == a);
        assert(b.filter(chosen) == Seq::<Seq<char>>::empty());
    }
}

/// The pieces of all values of a list are its entries, in their order.
pub proof fn law_list_is_cut_at_commas(
    texts: Seq<Seq<char>>,
    text: Seq<char>,
    given: Seq<GivenView>,
    environment: Seq<VariableView>,
    name: Seq<char>,
    variable: Seq<char>,
)
    ensures
        all_pieces(texts.push(text)) == all_pieces(texts) + split(text, ','),
        all_pieces(Seq::empty()) == Seq::<Seq<char>>::empty(),
        given_of(given, name).len() > 0 ==> list_value(given, environment, name, variable)
            == all_pieces(given_of(given, name)),
        given_of(given, name).len() == 0 && value_of(environment, variable) == Some(text)
            ==> list_value(given, environment, name, variable) == split(text, ','),
        given_of(given, name).len() == 0 && value_of(environment, variable) is None
            ==> list_value(given, environment, name, variable).len() == 0,
{
    assert(texts.push(text).drop_last() == texts);
}

// ---------------------------------------------------------------------------
// The repository
// ---------------------------------------------------------------------------
/// The repository is that of the owner and the name where both are given, without the blanks
/// around them; otherwise it is read from `owner/name`, and without that there is none.
pub proof fn law_repository_is_found(
    owner: Option<Seq<char>>,
    name: Option<Seq<char>>,
    front: Seq<char>,
    rest: Seq<char>,
)
    requires
        !front.contains('/'),
    ensures
        (owner matches Some(a) && !is_gap(a)) && (name matches Some(b) && !is_gap(b))
            ==> repository_for(owner, name, Some(front + seq!['/'] + rest)) == Some(
            (trim(owner->0), trim(name->0)),
        ) && repository_for(owner, name, None) == Some((trim(owner->0), trim(name->0))),
        (owner is None || is_gap(owner->0)) || (name is None || is_gap(name->0))
            ==> repository_for(owner, name, Some(front + seq!['/'] + rest)) == Some((front, rest))
            && repository_for(owner, name, Some(front)) is None && repository_for(
            owner,
            name,
            None,
        ) is None,
{
    law_cut_at_the_first_mark(front, rest, '/');
    if owner is Some {
        assert(is_gap(owner->0) == is_blank(owner->0));
    }
    if name is Some {
        assert(is_gap(name->0) == is_blank(name->0));
    }
}

// ---------------------------------------------------------------------------
// Refusals
// ---------------------------------------------------------------------------
/// The values that an option of the kind may have, where they are limited.
pub open spec fn may_be(kind: OptionKind, value: Seq<char>) -> bool {
    match kind {
        OptionKind::Switch => value == "true"@ || value == "false"@,
        OptionKind::Bump => value == "auto"@ || value == "major"@ || value == "minor"@ || value
            == "patch"@,
        OptionKind::TagStyle => value == "annotated"@ || value == "lightweight"@,
        OptionKind::Phase => value == "all"@ || value == "bump"@ || value == "tag"@,
        OptionKind::Path => value.len() > 0,
        _ => true,
    }
}

/// An option with one value is refused exactly when it is given more than once, or its value
/// is none that it may have.
pub proof fn law_unfit_values_are_refused(
    option: OptionView,
    given: Seq<GivenView>,
    environment: Seq<VariableView>,
)
    requires
        option.kind != OptionKind::List,
    ensures
        (option_failure(option, given, environment) is Some) == (given_of(
            given,
            option.name,
        ).len() > 1 || exists|value: Seq<char>|
            option_value(given, environment, option.name, option.variable) == Some(value)
                && !#[trigger] may_be(option.kind, value)),
{
    let value = option_value(given, environment, option.name, option.variable);
    if value is Some {
        lemma_allowed(option.kind, value->0);
        assert(may_be(option.kind, value->0) || !may_be(option.kind, value->0));
    }
}

pub(crate) proof fn lemma_allowed(kind: OptionKind, value: Seq<char>)
    requires
        kind != OptionKind::List,
    ensures
        may_be(kind, value) == !(kind == OptionKind::Path && value.len() == 0
            || crate::cli::allowed(kind) is Some && !crate::cli::allowed(kind)->0.contains(value)),
{
    match crate::cli::allowed(kind) {
        Some(names) => {
            let values = crate::arguments::possible_values(kind)->0;
            assert(names.len() == values.len());
            assert forall|i: int| 0 <= i < names.len() implies #[trigger] names[i]
                == values[i].name by {}
            if names.contains(value) {
                let i = choose|i: int| 0 <= i < names.len() && names[i] == value;
                assert(names[i] == values[i].name);
            }
            match kind {
                OptionKind::Switch => {
                    assert(names[0] == "true"@ && names[1] == "false"@);
                },
                OptionKind::Bump => {
                    assert(names[0] == "auto"@ && names[1] == "major"@);
                    assert(names[2] == "minor"@ && names[3] == "patch"@);
                },
                OptionKind::TagStyle => {
                    assert(names[0] == "annotated"@ && names[1] == "lightweight"@);
                },
                OptionKind::Phase => {
                    assert(names[0] == "all"@ && names[1] == "bump"@ && names[2] == "tag"@);
                },
                _ => {},
            }
        },
        None => {},
    }
}

/// A list is refused exactly when one of its entries is empty.
pub proof fn law_empty_entries_are_refused(
    option: OptionView,
    given: Seq<GivenView>,
    environment: Seq<VariableView>,
)
    requires
        option.kind == OptionKind::List,
    ensures
        (option_failure(option, given, environment) is Some) == (exists|i: int|
            0 <= i < list_value(given, environment, option.name, option.variable).len() && (
            #[trigger] list_value(given, environment, option.name, option.variable)[i]).len()
                == 0),
{
}

/// The options are refused when one of them is, with the message of the first.
pub proof fn law_first_refusal_is_told(
    options: Seq<OptionView>,
    given: Seq<GivenView>,
    environment: Seq<VariableView>,
)
    ensures
        (first_failure(options, given, environment) is None) == (forall|i: int|
            0 <= i < options.len() ==> option_failure(
                #[trigger] options[i],
                given,
                environment,
            ) is None),
        forall|i: int|
            0 <= i < options.len() && option_failure(
                #[trigger] options[i],
                given,
                environment,
            ) is Some && (forall|j: int|
                0 <= j < i ==> option_failure(#[trigger] options[j], given, environment) is None)
                ==> first_failure(options, given, environment) == option_failure(
                options[i],
                given,
                environment,
            ),
    decreases options.len(),
{
    if options.len() > 0 {
        let front = options.drop_last();
        law_first_refusal_is_told(front, given, environment);
        assert(options[options.len() - 1] == options.last());
        assert forall|i: int| 0 <= i < front.len() implies #[trigger] front[i] == options[i] by {}
        if first_failure(options, given, environment) is None {
            assert forall|i: int| 0 <= i < options.len() implies option_failure(
                #[trigger] options[i],
                given,
                environment,
            ) is None by {
                if i < front.len() {
                    assert(option_failure(front[i], given, environment) is None);
                }
            }
        } else if first_failure(front, given, environment) is Some {
            let i = choose|i: int|
                0 <= i < front.len() && !(option_failure(
                    #[trigger] front[i],
                    given,
                    environment,
                ) is None);
            assert(option_failure(options[i], given, environment) is Some);
        } else {
            assert(option_failure(options[options.len() - 1], given, environment) is Some);
        }
        assert forall|i: int|
            0 <= i < options.len() && option_failure(
                #[trigger] options[i],
                given,
                environment,
            ) is Some && (forall|j: int|
                0 <= j < i ==> option_failure(
                    #[trigger] options[j],
                    given,
                    environment,
                ) is None) implies first_failure(options, given, environment) == option_failure(
            options[i],
            given,
            environment,
        ) by {
            if i < front.len() {
                assert(front[i] == options[i]);
                assert(option_failure(front[i], given, environment) is Some);
                assert forall|j: int| 0 <= j < i implies option_failure(
                    #[trigger] front[j],
                    given,
                    environment,
                ) is None by {
                    assert(front[j] == options[j]);
                }
            } else {
                assert forall|j: int| 0 <= j < front.len() implies option_failure(
                    #[trigger] front[j],
                    given,
                    environment,
                ) is None by {
                    assert(front[j] == options[j]);
                }
            }
        }
    }
}

// ---------------------------------------------------------------------------
// Inputs
// ---------------------------------------------------------------------------
/// The token, the owner and the name of the repository are taken from `GITHUB_TOKEN`, `OWNER`
/// and `REPO_NAME` where their own inputs are not provided.
pub proof fn law_inputs_have_their_seeds(environment: Seq<VariableView>)
    ensures
        !provides(environment, "INPUT_TOKEN"@) && provides(environment, "GITHUB_TOKEN"@)
            ==> normal_value(environment, "INPUT_TOKEN"@) == value_of(
            environment,
            "GITHUB_TOKEN"@,
        ),
        !provides(environment, "INPUT_OWNER"@) && provides(environment, "OWNER"@) ==> normal_value(
            environment,
            "INPUT_OWNER"@,
        ) == value_of(environment, "OWNER"@),
        !provides(environment, "INPUT_REPO-NAME"@) && provides(environment, "REPO_NAME"@)
            ==> normal_value(environment, "INPUT_REPO-NAME"@) == value_of(
            environment,
            "REPO_NAME"@,
        ),
{
    reveal_strlit("INPUT_TOKEN");
    reveal_strlit("INPUT_OWNER");
    reveal_strlit("INPUT_REPO-NAME");
    assert("INPUT_TOKEN"@[6] == 'T');
    assert("INPUT_OWNER"@[6] == 'O');
    assert("INPUT_REPO-NAME"@[6] == 'R');
}

/// An input counts as provided where its value is not blank; a blank one is dropped, and
/// whatever is no input is left as it is.
pub proof fn law_blank_inputs_are_dropped(environment: Seq<VariableView>, name: Seq<char>)
    ensures
        provides(environment, name) == (value_of(environment, name) matches Some(value) && !is_gap(
            value,
        )),
        begins_with(name, "INPUT_"@) && name != "INPUT_TOKEN"@ && name != "INPUT_OWNER"@ && name
            != "INPUT_REPO-NAME"@ ==> normal_value(environment, name) == if provides(
            environment,
            name,
        ) {
            value_of(environment, name)
        } else {
            None
        },
        !begins_with(name, "INPUT_"@) ==> normal_value(environment, name) == value_of(
            environment,
            name,
        ),
{
    lemma_starts(name, "INPUT_"@);
    if value_of(environment, name) is Some {
        let value = value_of(environment, name)->0;
        assert(is_gap(value) == is_blank(value));
    }
    if !begins_with(name, "INPUT_"@) {
        crate::input_env::law_other_variables_are_kept(environment, name);
    }
}

/// A flag with a blank value, behind an equals sign or as the next word, is left out with its
/// value.
pub proof fn law_blank_flags_are_left_out(
    flag: Seq<char>,
    blank: Seq<char>,
    rest: Seq<Seq<char>>,
)
    requires
        is_gap(blank),
        flag.len() > 0,
        !flag.contains('='),
    ensures
        sanitized(seq!["--"@ + flag + seq!['='] + blank] + rest) == sanitized(rest),
        sanitized(seq!["--"@ + flag, blank] + rest) == sanitized(rest),
{
    reveal_strlit("--");
    assert(is_blank(blank));
    let whole = "--"@ + flag + seq!['='] + blank;
    let first = seq![whole] + rest;
    assert(first[0] == whole);
    assert(first.skip(1) == rest);
    assert(whole.subrange(0, 2) == "--"@);
    assert(whole.len() > 2);
    assert(whole.skip(2) == flag + seq!['='] + blank);
    law_cut_at_the_first_mark(flag, blank, '=');
    let word = "--"@ + flag;
    let second = seq![word, blank] + rest;
    assert(second[0] == word);
    assert(second[1] == blank);
    assert(second.skip(2) == rest);
    assert(word.subrange(0, 2) == "--"@);
    assert(word.len() > 2);
    assert(word.skip(2) == flag);
}

/// Every other word stays, and behind two dashes all words stay.
pub proof fn law_other_words_stay(word: Seq<char>, rest: Seq<Seq<char>>)
    ensures
        !begins_with(word, "--"@) ==> sanitized(seq![word] + rest) == seq![word] + sanitized(rest),
        sanitized(seq!["--"@] + rest) == seq!["--"@] + rest,
        begins_with(word, "--"@) && word != "--"@ && !word.skip(2).contains('=') && (rest.len() == 0
            || !is_gap(rest[0])) ==> sanitized(seq![word] + rest) == seq![word] + sanitized(rest),
{
    reveal_strlit("--");
    lemma_starts(word, "--"@);
    let all = seq![word] + rest;
    assert(all[0] == word);
    assert(all.skip(1) == rest);
    if begins_with(word, "--"@) && !word.skip(2).contains('=') {
        law_cut_at_the_first_mark(word.skip(2), Seq::empty(), '=');
        if rest.len() > 0 {
            assert(all[1] == rest[0]);
            assert(is_gap(rest[0]) == is_blank(rest[0]));
        }
    }
    let dashes = seq!["--"@] + rest;
    assert(dashes[0] == "--"@);
    if !begins_with(word, "--"@) && word == "--"@ {
        assert(word.take(2) == word);
    }
}

/// What the environment provides for an option that is not given is read as if it stood on the
/// line.
pub proof fn law_environment_is_read_as_a_line(
    options: Seq<OptionView>,
    option: OptionView,
    given: Seq<GivenView>,
    environment: Seq<VariableView>,
)
    ensures
        environment_args(Seq::empty(), given, environment) == Seq::<Seq<char>>::empty(),
        environment_args(options.push(option), given, environment) == if given_of(
            given,
            option.name,
        ).len() == 0 && value_of(environment, option.variable) is Some {
            environment_args(options, given, environment).push(
                "--"@ + option.name + "="@ + value_of(environment, option.variable)->0,
            )
        } else {
            environment_args(options, given, environment)
        },
{
    assert(options.push(option).drop_last() == options);
}

// ---------------------------------------------------------------------------
// Commands
// ---------------------------------------------------------------------------
/// The line comes to the command that it names; options that do not fit, and a name that is no
/// command, fail with the code of a usage error.
pub proof fn law_line_comes_to_its_command(
    result: Result<Cli, LineError>,
    name: Seq<char>,
    given: Seq<GivenView>,
    environment: Seq<VariableView>,
)
    requires
        is_resolution(result, name, given, environment),
    ensures
        first_failure(options_of(name), given, environment) matches Some(message) ==> (
        result matches Err(error) && error.code == 2 && error.message@ == message),
        first_failure(options_of(name), given, environment) is None ==> {
            &&& name == "pin"@ ==> (result matches Ok(cli) && cli.command is Pin)
            &&& name == "update"@ ==> (result matches Ok(cli) && cli.command is Update)
            &&& name == "status"@ ==> (result matches Ok(cli) && cli.command is Status)
            &&& name == "policy"@ ==> (result matches Ok(cli) && cli.command is Policy)
            &&& name == "release"@ ==> (result matches Ok(cli) && cli.command is Release)
            &&& name != "pin"@ && name != "update"@ && name != "status"@ && name != "policy"@
                && name != "release"@ ==> (result matches Err(error) && error.code == 2)
        },
        result matches Ok(cli) ==> is_taken_if_there(
            option_view(cli.github_api_base_url),
            given,
            environment,
            "github-api-base-url"@,
            "GITHUB_API_BASE_URL"@,
        ) && is_taken_if_there(
            option_view(cli.crates_api_base_url),
            given,
            environment,
            "crates-api-base-url"@,
            "CRATES_IO_API_BASE_URL"@,
        ),
{
    reveal_strlit("pin");
    reveal_strlit("update");
    reveal_strlit("status");
    reveal_strlit("policy");
    reveal_strlit("release");
    assert("pin"@.len() == 3 && "release"@.len() == 7);
    assert("update"@[0] == 'u' && "status"@[0] == 's' && "policy"@[0] == 'p');
    assert("update"@.len() == 6 && "status"@.len() == 6 && "policy"@.len() == 6);
}

/// What a release is made with is what its arguments say; only empty names of extra files are
/// left out.
pub proof fn law_release_follows_its_arguments(
    options: ReleaseOptions,
    args: ReleaseArgs,
    owner: Seq<char>,
    repo: Seq<char>,
    file: Seq<char>,
)
    requires
        is_release_of(options, args, owner, repo),
    ensures
        options.repo_root@ == args.repo@,
        options.owner@ == owner && options.repo@ == repo,
        option_view(options.base_branch) == option_view(args.base_branch),
        options.tag_prefix@ == args.tag_prefix@,
        (options.bump is None) == (args.bump == BumpArg::Auto),
        (options.bump == Some(BumpLevel::Major)) == (args.bump == BumpArg::Major),
        (options.bump == Some(BumpLevel::Minor)) == (args.bump == BumpArg::Minor),
        (options.tag_style == TagStyle::Annotated) == (args.tag_style == TagStyleArg::Annotated),
        (options.phase == ReleasePhase::Tag) == (args.phase == PhaseArg::Tag),
        (options.phase == ReleasePhase::Bump) == (args.phase == PhaseArg::Bump),
        options.update_major_alias == args.update_major_alias,
        options.commit_message@ == args.commit_message@,
        options.create_pr == args.create_pr,
        options.release_branch@ == args.release_branch@,
        options.dry_run == args.dry_run,
        views(options.extra_files@).contains(file) == (views(args.extra_files@).contains(file)
            && file.len() > 0),
{
    lemma_kept(views(args.extra_files@), |file: Seq<char>| file.len() > 0, file);
}

/// How an option stands on the line: a switch may stand without a value and is then on, a list
/// may be given more than once and is cut at commas, and paths are not empty. The value of a
/// secret is not shown.
pub proof fn law_options_stand_on_the_line(
    option: OptionView,
    value: Option<Seq<char>>,
    other: Option<Seq<char>>,
)
    ensures
        arg_of(option, value).name == option.name,
        arg_of(option, value).default == option.default,
        arg_of(option, value).hidden == option.hidden,
        arg_of(option, value).global == option.global,
        arg_of(option, value).many == (option.kind == OptionKind::List),
        (arg_of(option, value).delimiter == Some(',')) == (option.kind == OptionKind::List),
        (arg_of(option, value).delimiter is None) == (option.kind != OptionKind::List),
        arg_of(option, value).filled == (option.kind == OptionKind::Path || option.kind
            == OptionKind::List),
        (arg_of(option, value).missing == Some("true"@)) == (option.kind == OptionKind::Switch),
        (arg_of(option, value).missing is None) == (option.kind != OptionKind::Switch),
        (arg_of(option, value).least == 0) == (option.kind == OptionKind::Switch),
        (arg_of(option, value).least == 1) == (option.kind != OptionKind::Switch),
        option.secret ==> arg_of(option, value) == arg_of(option, other),
        !option.secret && value is Some ==> holds(
            arg_of(option, value).help,
            option.variable + "="@ + value->0,
        ),
{
    if !option.secret && value is Some {
        let help = arg_of(option, value).help;
        let part = option.variable + "="@ + value->0;
        let n = (option.help + " [env: "@).len() as int;
        assert(help.subrange(n, n + part.len()) == part);
    }
}

/// What was given of each option is handed on under its name.
pub proof fn law_given_values_are_handed_on(
    options: Seq<OptionView>,
    given: Map<Seq<char>, Seq<Seq<char>>>,
    i: int,
)
    requires
        0 <= i < options.len(),
    ensures
        given_for(options, given).len() == options.len(),
        given_for(options, given)[i].name == options[i].name,
        given.contains_key(options[i].name) ==> given_for(options, given)[i].values
            == given[options[i].name],
        !given.contains_key(options[i].name) ==> given_for(options, given)[i].values.len() == 0,
{
}

/// What the environment provides is checked as if it had been given: on a line of the same
/// program with the same command and nothing but one argument for each such value.
pub proof fn law_environment_is_checked_as_a_line(
    program: Seq<char>,
    rest: Seq<Seq<char>>,
    name: Seq<char>,
    given: Seq<GivenView>,
    environment: Seq<VariableView>,
)
    ensures
        ({
            let line = environment_line(seq![program] + rest, name, given, environment);
            &&& line.len() >= 2
            &&& line[0] == program
            &&& line[1] == name
            &&& line.skip(2) == environment_args(options_of(name), given, environment)
        }),
        environment_line(Seq::empty(), name, given, environment) == seq![name] + environment_args(
            options_of(name),
            given,
            environment,
        ),
{
    assert((seq![program] + rest).take(1) == seq![program]);
}

/// The program wants a command and knows its version; its commands want none and have the
/// version of the program.
pub proof fn law_program_wants_a_command(k: int)
    requires
        0 <= k < commands().len(),
    ensures
        program().name == "github-actions-maintainer"@,
        program().needs_command,
        program().version is Some,
        program().options == global_options(),
        !commands()[k].needs_command,
        commands()[k].version is None,
{
}

} // verus!
