//! The environment and the command line before they are read.
//!
//! The container action hands every input over as a variable `INPUT_<NAME>` whose name
//! keeps its hyphens, so the input `tag-prefix` arrives as `INPUT_TAG-PREFIX`. Inputs
//! that were left out arrive as empty values, and empty values can also reach the
//! command line as `--token ""`. Both count as not provided. What remains is read in
//! this order: a flag, then its `INPUT_<NAME>` variable, then one of the variables
//! `GITHUB_TOKEN`, `OWNER` and `REPO_NAME` that seed an input, then the default of the
//! command.

use vstd::prelude::*;

use crate::text::{
    begins, blank, cut, is_blank, option_view, same, split_once, starts_with, views, without_prefix,
};

verus! {

/// A variable of the environment.
#[derive(Debug, Clone, PartialEq, Eq)]
pub struct Variable {
    pub name: String,
    pub value: String,
}

/// What a `Variable` stands for.
pub struct VariableView {
    pub name: Seq<char>,
    pub value: Seq<char>,
}

impl View for Variable {
    type V = VariableView;

    open spec fn view(&self) -> VariableView {
        VariableView { name: self.name@, value: self.value@ }
    }
}

/// An edit of a variable.
#[derive(Debug, Clone, Copy, PartialEq, Eq)]
pub enum EnvAction {
    /// The variable is dropped: the input counts as not provided.
    Remove,
    /// The variable gets the value of another.
    CopyFrom(&'static str),
}

/// What an `EnvAction` stands for.
pub enum ActionKind {
    Remove,
    CopyFrom(Seq<char>),
}

impl View for EnvAction {
    type V = ActionKind;

    open spec fn view(&self) -> ActionKind {
        match self {
            EnvAction::Remove => ActionKind::Remove,
            EnvAction::CopyFrom(source) => ActionKind::CopyFrom(source@),
        }
    }
}

/// The value of a variable; of several, that of the last.
pub open spec fn value_of(environment: Seq<VariableView>, name: Seq<char>) -> Option<Seq<char>>
    decreases environment.len(),
{
    if environment.len() == 0 {
        None
    } else if environment.last().name == name {
        Some(environment.last().value)
    } else {
        value_of(environment.drop_last(), name)
    }
}

/// The variable has a value that is not blank.
pub open spec fn provides(environment: Seq<VariableView>, name: Seq<char>) -> bool {
    value_of(environment, name) matches Some(value) && !is_blank(value)
}

/// The variable that seeds an input that is not provided.
pub open spec fn seed_of(name: Seq<char>) -> Option<Seq<char>> {
    if name == "INPUT_TOKEN"@ {
        Some("GITHUB_TOKEN"@)
    } else if name == "INPUT_OWNER"@ {
        Some("OWNER"@)
    } else if name == "INPUT_REPO-NAME"@ {
        Some("REPO_NAME"@)
    } else {
        None
    }
}

/// The variable belongs to an input.
pub open spec fn is_input(name: Seq<char>) -> bool {
    starts_with(name, "INPUT_"@)
}

/// What is done with a variable. An input that is not provided is seeded where its
/// seed is provided, and dropped otherwise. Everything else stays.
pub open spec fn action_for(environment: Seq<VariableView>, name: Seq<char>) -> Option<ActionKind> {
    if provides(environment, name) {
        None
    } else if seed_of(name) is Some && provides(environment, seed_of(name)->0) {
        Some(ActionKind::CopyFrom(seed_of(name)->0))
    } else if is_input(name) && value_of(environment, name) is Some {
        Some(ActionKind::Remove)
    } else {
        None
    }
}

/// The value of a variable once the environment is normalized.
pub open spec fn normal_value(environment: Seq<VariableView>, name: Seq<char>) -> Option<
    Seq<char>,
> {
    match action_for(environment, name) {
        Some(ActionKind::Remove) => None,
        Some(ActionKind::CopyFrom(source)) => value_of(environment, source),
        None => value_of(environment, name),
    }
}

/// The value of a variable.
pub fn lookup(environment: &Vec<Variable>, name: &str) -> (result: Option<String>)
    ensures
        option_view(result) == value_of(views(environment@), name@),
{
    let ghost all = views(environment@);
    let mut i: usize = environment.len();
    assert(all.take(i as int) == all);
    while i > 0
        invariant
            i <= environment.len(),
            all == views(environment@),
            value_of(all.take(i as int), name@) == value_of(all, name@),
        decreases i,
    {
        proof {
            assert(all.take(i as int).drop_last() == all.take(i - 1));
            assert(all.take(i as int).last() == environment@[i - 1]@);
        }
        i = i - 1;
        if same(&environment[i].name, name) {
            return Some(environment[i].value.clone());
        }
    }
    None
}

fn has_value(environment: &Vec<Variable>, name: &str) -> (result: bool)
    ensures
        result == provides(views(environment@), name@),
{
    match lookup(environment, name) {
        Some(value) => !blank(&value),
        None => false,
    }
}

fn find_seed(name: &str) -> (result: Option<&'static str>)
    ensures
        match result {
            Some(seed) => seed_of(name@) == Some(seed@),
            None => seed_of(name@) is None,
        },
{
    if same(name, "INPUT_TOKEN") {
        Some("GITHUB_TOKEN")
    } else if same(name, "INPUT_OWNER") {
        Some("OWNER")
    } else if same(name, "INPUT_REPO-NAME") {
        Some("REPO_NAME")
    } else {
        None
    }
}

fn find_action(environment: &Vec<Variable>, name: &str) -> (result: Option<EnvAction>)
    ensures
        option_view(result) == action_for(views(environment@), name@),
{
    if has_value(environment, name) {
        return None;
    }
    if let Some(seed) = find_seed(name) {
        if has_value(environment, seed) {
            return Some(EnvAction::CopyFrom(seed));
        }
    }
    if begins(name, "INPUT_") && lookup(environment, name).is_some() {
        Some(EnvAction::Remove)
    } else {
        None
    }
}

/// What is done with one variable.
#[derive(Debug, Clone, PartialEq, Eq)]
pub struct PlannedEdit {
    pub name: String,
    pub action: EnvAction,
}

/// What is planned for a variable.
pub open spec fn planned_for(plan: Seq<PlannedEdit>, name: Seq<char>) -> Option<ActionKind>
    decreases plan.len(),
{
    if plan.len() == 0 {
        None
    } else if plan.last().name@ == name {
        Some(plan.last().action@)
    } else {
        planned_for(plan.drop_last(), name)
    }
}

/// No variable is edited twice.
pub open spec fn edits_once(plan: Seq<PlannedEdit>) -> bool {
    forall|i: int, j: int|
        0 <= i < j < plan.len() ==> (#[trigger] plan[i]).name@ != (#[trigger] plan[j]).name@
}

/// What is planned for a variable.
pub fn planned_action(plan: &Vec<PlannedEdit>, name: &str) -> (result: Option<EnvAction>)
    ensures
        option_view(result) == planned_for(plan@, name@),
        result is None ==> forall|k: int|
            0 <= k < plan@.len() ==> (#[trigger] plan@[k]).name@ != name@,
{
    let mut i: usize = plan.len();
    assert(plan@.take(i as int) == plan@);
    while i > 0
        invariant
            i <= plan.len(),
            planned_for(plan@.take(i as int), name@) == planned_for(plan@, name@),
            forall|k: int| i <= k < plan@.len() ==> (#[trigger] plan@[k]).name@ != name@,
        decreases i,
    {
        assert(plan@.take(i as int).drop_last() == plan@.take(i - 1));
        i = i - 1;
        if same(&plan[i].name, name) {
            return Some(plan[i].action);
        }
    }
    None
}

fn plan_edit(environment: &Vec<Variable>, plan: &mut Vec<PlannedEdit>, name: &str)
    requires
        edits_once(old(plan)@),
        forall|key: Seq<char>|
            planned_for(old(plan)@, key) is None || #[trigger] planned_for(old(plan)@, key)
                == action_for(views(environment@), key),
    ensures
        edits_once(final(plan)@),
        forall|key: Seq<char>| #[trigger]
            planned_for(final(plan)@, key) == (if key == name@ {
                action_for(views(environment@), key)
            } else {
                planned_for(old(plan)@, key)
            }),
{
    let ghost before = plan@;
    if planned_action(plan, name).is_none() {
        if let Some(action) = find_action(environment, name) {
            plan.push(PlannedEdit { name: name.to_owned(), action });
            assert(plan@.drop_last() == before);
            assert(edits_once(plan@)) by {
                assert forall|i: int, j: int| 0 <= i < j < plan@.len() implies (
                #[trigger] plan@[i]).name@ != (#[trigger] plan@[j]).name@ by {
                    if j < before.len() {
                        assert(before[i].name@ != before[j].name@);
                    } else {
                        assert(before[i].name@ != name@);
                    }
                }
            }
        }
    }
}

/// The edits that make "empty means not provided" true, and that seed the inputs that
/// are not provided.
pub fn environment_plan(environment: &Vec<Variable>) -> (result: Vec<PlannedEdit>)
    ensures
        edits_once(result@),
        forall|name: Seq<char>| #[trigger]
            planned_for(result@, name) == action_for(views(environment@), name),
{
    let ghost all = views(environment@);
    let mut plan: Vec<PlannedEdit> = Vec::new();
    let mut i: usize = 0;
    while i < environment.len()
        invariant
            i <= environment.len(),
            all == views(environment@),
            edits_once(plan@),
            forall|name: Seq<char>| #[trigger]
                planned_for(plan@, name) == (if value_of(all.take(i as int), name) is Some {
                    action_for(all, name)
                } else {
                    None
                }),
        decreases environment.len() - i,
    {
        plan_edit(environment, &mut plan, &environment[i].name);
        proof {
            assert(all.take(i + 1).drop_last() == all.take(i as int));
            assert(all.take(i + 1).last() == environment@[i as int]@);
        }
        i = i + 1;
    }
    assert(all.take(i as int) == all);
    plan_edit(environment, &mut plan, "INPUT_TOKEN");
    plan_edit(environment, &mut plan, "INPUT_OWNER");
    plan_edit(environment, &mut plan, "INPUT_REPO-NAME");
    plan
}

fn copy_normal(environment: &Vec<Variable>, result: &mut Vec<Variable>, name: &str)
    requires
        forall|key: Seq<char>|
            value_of(views(old(result)@), key) is None || #[trigger] value_of(
                views(old(result)@),
                key,
            ) == normal_value(views(environment@), key),
    ensures
        forall|key: Seq<char>| #[trigger]
            value_of(views(final(result)@), key) == (if key == name@ {
                normal_value(views(environment@), key)
            } else {
                value_of(views(old(result)@), key)
            }),
{
    let ghost before = views(result@);
    let value = match find_action(environment, name) {
        Some(EnvAction::Remove) => None,
        Some(EnvAction::CopyFrom(source)) => lookup(environment, source),
        None => lookup(environment, name),
    };
    if let Some(value) = value {
        result.push(Variable { name: name.to_owned(), value });
        assert(views(result@).drop_last() == before);
    }
}

/// The environment with the plan carried out.
pub fn normalized_environment(environment: &Vec<Variable>) -> (result: Vec<Variable>)
    ensures
        forall|name: Seq<char>| #[trigger]
            value_of(views(result@), name) == normal_value(views(environment@), name),
{
    let ghost all = views(environment@);
    let mut result: Vec<Variable> = Vec::new();
    let mut i: usize = 0;
    assert(views(result@) == Seq::<VariableView>::empty());
    while i < environment.len()
        invariant
            i <= environment.len(),
            all == views(environment@),
            forall|name: Seq<char>| #[trigger]
                value_of(views(result@), name) == (if value_of(all.take(i as int), name) is Some {
                    normal_value(all, name)
                } else {
                    None
                }),
        decreases environment.len() - i,
    {
        copy_normal(environment, &mut result, &environment[i].name);
        proof {
            assert(all.take(i + 1).drop_last() == all.take(i as int));
            assert(all.take(i + 1).last() == environment@[i as int]@);
        }
        i = i + 1;
    }
    assert(all.take(i as int) == all);
    copy_normal(environment, &mut result, "INPUT_TOKEN");
    copy_normal(environment, &mut result, "INPUT_OWNER");
    copy_normal(environment, &mut result, "INPUT_REPO-NAME");
    result
}

// ---------------------------------------------------------------------------
// The command line
// ---------------------------------------------------------------------------
/// The argument is a long flag.
pub open spec fn is_flag(arg: Seq<char>) -> bool {
    starts_with(arg, "--"@) && arg != "--"@
}

/// The flag brings its value along.
pub open spec fn has_inline_value(arg: Seq<char>) -> bool {
    split_once(arg.skip(2), '=') is Some
}

/// The value that a flag brings along.
pub open spec fn inline_value(arg: Seq<char>) -> Seq<char> {
    let parts = split_once(arg.skip(2), '=')->0;
    parts.1
}

/// The arguments without the flags whose value is blank, up to a bare `--`.
pub open spec fn sanitized(args: Seq<Seq<char>>) -> Seq<Seq<char>>
    decreases args.len(),
{
    if args.len() == 0 || args[0] == "--"@ {
        args
    } else if is_flag(args[0]) && has_inline_value(args[0]) && is_blank(inline_value(args[0])) {
        sanitized(args.skip(1))
    } else if is_flag(args[0]) && !has_inline_value(args[0]) && args.len() > 1 && is_blank(
        args[1],
    ) {
        sanitized(args.skip(2))
    } else {
        seq![args[0]] + sanitized(args.skip(1))
    }
}

/// Drops flags with a blank value: `--flag ""` and `--flag=`. Everything from a bare
/// `--` on stays as it is.
pub fn sanitize_args(args: &Vec<String>) -> (result: Vec<String>)
    ensures
        views(result@) == sanitized(views(args@)),
{
    let ghost all = views(args@);
    let mut result: Vec<String> = Vec::new();
    let mut ended = false;
    let mut i: usize = 0;
    assert(all.skip(0) == all);
    assert(views(result@) + sanitized(all.skip(0)) == sanitized(all));
    proof {
        reveal_strlit("--");
    }
    while i < args.len()
        invariant
            i <= args.len(),
            all == views(args@),
            "--"@.len() == 2,
            if ended {
                views(result@) + all.skip(i as int) == sanitized(all)
            } else {
                views(result@) + sanitized(all.skip(i as int)) == sanitized(all)
            },
        decreases args.len() - i,
    {
        let ghost before = views(result@);
        let ghost rest = all.skip(i as int);
        proof {
            assert(rest[0] == args@[i as int]@);
            assert(rest.skip(1) == all.skip(i + 1));
            assert(rest == seq![rest[0]] + rest.skip(1));
            if i + 1 < args.len() {
                assert(rest[1] == args@[i + 1]@);
                assert(rest.skip(2) == all.skip(i + 2));
            }
        }
        if same(&args[i], "--") {
            ended = true;
        }
        let mut skipped: usize = 0;
        if !ended {
            if let Some(flag) = without_prefix(&args[i], "--") {
                match cut(&flag, '=') {
                    Some((_, value)) => if blank(&value) {
                        skipped = 1;
                    },
                    None => if i + 1 < args.len() && blank(&args[i + 1]) {
                        skipped = 2;
                    },
                }
            }
        }
        if skipped == 0 {
            result.push(args[i].clone());
            proof {
                assert(views(result@) == before.push(rest[0]));
                if ended {
                    assert(before.push(rest[0]) + rest.skip(1) == before + rest);
                } else {
                    assert(before.push(rest[0]) + sanitized(rest.skip(1)) == before + (
                    seq![rest[0]] + sanitized(rest.skip(1))));
                }
            }
            i = i + 1;
        } else {
            i = i + skipped;
        }
    }
    proof {
        assert(all.skip(i as int) == Seq::<Seq<char>>::empty());
        assert(views(result@) + Seq::<Seq<char>>::empty() == views(result@));
    }
    result
}

/// The environment and the command line, ready to be read.
pub fn normalize_inputs(environment: &Vec<Variable>, args: &Vec<String>) -> (result: (
    Vec<Variable>,
    Vec<String>,
))
    ensures
        forall|name: Seq<char>| #[trigger]
            value_of(views(result.0@), name) == normal_value(views(environment@), name),
        views(result.1@) == sanitized(views(args@)),
{
    (normalized_environment(environment), sanitize_args(args))
}

// ---------------------------------------------------------------------------
// Laws
// ---------------------------------------------------------------------------
/// An input that is provided wins over the variable that would seed it.
pub proof fn law_input_wins_over_its_seed(environment: Seq<VariableView>, name: Seq<char>)
    requires
        provides(environment, name),
    ensures
        normal_value(environment, name) == value_of(environment, name),
{
}

/// An input that is not provided has the value of its seed, where that is provided.
pub proof fn law_seed_stands_in_for_its_input(environment: Seq<VariableView>, name: Seq<char>)
    requires
        !provides(environment, name),
        seed_of(name) is Some,
        provides(environment, seed_of(name)->0),
    ensures
        normal_value(environment, name) == value_of(environment, seed_of(name)->0),
{
}

/// Variables that belong to no input are never changed.
pub proof fn law_other_variables_are_kept(environment: Seq<VariableView>, name: Seq<char>)
    requires
        !is_input(name),
    ensures
        normal_value(environment, name) == value_of(environment, name),
{
    reveal_strlit("INPUT_");
    reveal_strlit("INPUT_TOKEN");
    reveal_strlit("INPUT_OWNER");
    reveal_strlit("INPUT_REPO-NAME");
    assert("INPUT_TOKEN"@.subrange(0, 6) == "INPUT_"@);
    assert("INPUT_OWNER"@.subrange(0, 6) == "INPUT_"@);
    assert("INPUT_REPO-NAME"@.subrange(0, 6) == "INPUT_"@);
}

/// Once the environment is normalized, an input has no blank value.
pub proof fn law_blank_inputs_are_not_provided(environment: Seq<VariableView>, name: Seq<char>)
    requires
        is_input(name),
    ensures
        normal_value(environment, name) matches Some(value) ==> !is_blank(value),
{
}

/// The arguments hold no blank value: none of them is blank or a flag with a blank
/// value.
pub open spec fn has_no_blank(args: Seq<Seq<char>>) -> bool {
    forall|i: int|
        0 <= i < args.len() ==> !is_blank(#[trigger] args[i]) && !(is_flag(args[i])
            && has_inline_value(args[i]) && is_blank(inline_value(args[i])))
}

/// Arguments without blank values stay as they are.
pub proof fn law_arguments_with_values_are_kept(args: Seq<Seq<char>>)
    requires
        has_no_blank(args),
    ensures
        sanitized(args) == args,
    decreases args.len(),
{
    if args.len() > 0 {
        assert forall|i: int| 0 <= i < args.skip(1).len() implies !is_blank(
            #[trigger] args.skip(1)[i],
        ) && !(is_flag(args.skip(1)[i]) && has_inline_value(args.skip(1)[i]) && is_blank(
            inline_value(args.skip(1)[i]),
        )) by {
            assert(args.skip(1)[i] == args[i + 1]);
        }
        law_arguments_with_values_are_kept(args.skip(1));
        assert(args == seq![args[0]] + args.skip(1));
        if args.len() > 1 {
            assert(!is_blank(args[1]));
        }
    }
}

/// What follows a bare `--` stays as it is, whatever stands before it.
pub proof fn law_arguments_behind_dashes_are_kept(args: Seq<Seq<char>>, rest: Seq<Seq<char>>)
    requires
        forall|i: int| 0 <= i < args.len() ==> #[trigger] args[i] != "--"@,
    ensures
        sanitized(args + seq!["--"@] + rest) == sanitized(args) + seq!["--"@] + rest,
    decreases args.len(),
{
    let tail = seq!["--"@] + rest;
    let all = args + seq!["--"@] + rest;
    assert(all == args + tail);
    if args.len() == 0 {
        assert(all == tail);
        assert(sanitized(args) == args);
        assert(args + seq!["--"@] + rest == tail);
    } else {
        let one = args.skip(1);
        assert(one + seq!["--"@] + rest == all.skip(1));
        assert forall|i: int| 0 <= i < one.len() implies #[trigger] one[i] != "--"@ by {
            assert(one[i] == args[i + 1]);
        }
        law_arguments_behind_dashes_are_kept(one, rest);
        assert(all[0] == args[0]);
        reveal_strlit("--");
        assert("--"@[0] == '-');
        assert(!is_blank("--"@));
        if args.len() == 1 {
            assert(all[1] == "--"@);
        } else {
            assert(all[1] == args[1]);
            let two = args.skip(2);
            assert(two + seq!["--"@] + rest == all.skip(2));
            assert forall|i: int| 0 <= i < two.len() implies #[trigger] two[i] != "--"@ by {
                assert(two[i] == args[i + 2]);
            }
            law_arguments_behind_dashes_are_kept(two, rest);
        }
        assert(seq![args[0]] + (sanitized(one) + seq!["--"@] + rest) == seq![args[0]] + sanitized(
            one,
        ) + seq!["--"@] + rest);
    }
}

} // verus!
