//! What reports tell, and which options the commands have.

use vstd::prelude::*;

use crate::arguments::{
    commands, global_options, options_in, options_of, repo_options, OptionKind, OptionView,
};
use crate::cargo::{CargoUpdateReport, EntryView};
use crate::model::{
    PinReport, PolicySeverity, ScriptType, ScriptUsageView, UpdateChangeKind, UpdateChangeView,
    ViolationView,
};
use crate::release::{ReleaseOutcome, ReleaseView};
use crate::report::{
    action_status_line, change_line, combined_changes, combined_updates, dependency_status_line,
    file_lines, line_for, outcome_lines, pin_lines, release_lines, script_line, stale_actions,
    stale_dependencies, status_label, update_headline, updated_set, violation_line, UpdateStep,
};
use crate::scan_laws::begins_with;
use crate::script_laws::ends_in;
use crate::text::{decimal, views};
use crate::update::{UpdateReport, VersionEntryView};

verus! {

// ---------------------------------------------------------------------------
// Lines
// ---------------------------------------------------------------------------
/// Every pinned reference has its line behind the headline, and there are no more lines; where
/// nothing was pinned, one line tells what was scanned.
pub proof fn law_every_pin_has_its_line(report: PinReport, dry_run: bool, i: int)
    requires
        0 <= i < report.changes@.len(),
    ensures
        pin_lines(report, dry_run).len() == report.changes@.len() + 1,
        ({
            let change = report.changes@[i]@;
            pin_lines(report, dry_run)[i + 1] == "- "@ + change.file + ":"@ + decimal(
                change.line_number,
            ) + " "@ + change.action_slug + "@"@ + change.from_version + " -> "@ + change.to_sha
        }),
        begins_with(
            pin_lines(report, dry_run)[0],
            (if dry_run {
                "Dry run: would pin "@
            } else {
                "Pinned "@
            }) + decimal(report.changes@.len()) + " action references"@,
        ),
{
    let changes = views(report.changes@);
    let first = if dry_run {
        "Dry run: would pin "@
    } else {
        "Pinned "@
    };
    reveal_strlit(" action references across ");
    reveal_strlit(" action references");
    let line = pin_lines(report, dry_run)[0];
    let front = first + decimal(changes.len()) + " action references"@;
    assert(line.take(front.len() as int) == front);
}

/// The line of a change tells its kind, its place, its subject and both versions.
pub proof fn law_change_line_tells_the_change(change: UpdateChangeView)
    ensures
        change_line(change) == "- "@ + (if change.kind == UpdateChangeKind::CargoDependency {
            "cargo package"@
        } else {
            "GitHub Action"@
        }) + " "@ + change.file + (match change.line_number {
            Some(number) => ":"@ + decimal(number as nat),
            None => Seq::empty(),
        }) + " "@ + change.subject + " "@ + change.from_version + " -> "@ + change.to_version,
{
}

/// The lines of scripts and findings begin with their place and tell their sort.
pub proof fn law_policy_lines_tell_the_finding(usage: ScriptUsageView, found: ViolationView)
    ensures
        script_line(usage) == "- "@ + usage.file + ":"@ + decimal(usage.line_number) + " "@ + (
        if usage.script_type == ScriptType::Python {
            "python"@
        } else {
            "bash"@
        }) + " "@ + usage.context,
        violation_line(found) == "- "@ + found.file + ":"@ + decimal(found.line_number) + " "@ + (
        if found.severity == PolicySeverity::Low {
            "low"@
        } else if found.severity == PolicySeverity::Medium {
            "medium"@
        } else {
            "high"@
        }) + " "@ + found.description,
{
}

/// A dependency is unmanaged, or current, or needs an update; an action is current or needs
/// one. The lines end with that, but for the reason of a dependency.
pub proof fn law_status_lines_tell_the_state(entry: EntryView, action: VersionEntryView)
    ensures
        (status_label(entry) == "unmanaged"@) == !entry.managed,
        entry.managed ==> (status_label(entry) == "update-needed"@) == entry.update_needed,
        entry.managed && !entry.update_needed ==> status_label(entry) == "current"@,
        entry.reason is None ==> ends_in(
            dependency_status_line(entry),
            " status="@ + status_label(entry),
        ),
        entry.reason is Some ==> ends_in(
            dependency_status_line(entry),
            " reason="@ + entry.reason->0,
        ),
        begins_with(
            dependency_status_line(entry),
            "- "@ + entry.file + " "@ + entry.dependency_name + " current="@ + (
            match entry.current_requirement {
                Some(text) => text,
                None => "n/a"@,
            }) + " latest="@ + (match entry.latest_version {
                Some(text) => text,
                None => "n/a"@,
            }) + " managed="@ + (if entry.managed {
                "true"@
            } else {
                "false"@
            }) + " status="@,
        ),
        ends_in(
            action_status_line(action),
            " pinned="@ + (if action.pinned {
                "true"@
            } else {
                "false"@
            }) + " status="@ + (if action.update_needed {
                "update-needed"@
            } else {
                "current"@
            }),
        ),
        begins_with(
            action_status_line(action),
            "- "@ + action.file + ":"@ + decimal(action.line_number) + " "@ + action.action_slug
                + " current="@ + action.current_version + " latest="@ + action.latest_version,
        ),
{
    reveal_strlit("unmanaged");
    reveal_strlit("update-needed");
    reveal_strlit("current");
    assert("unmanaged"@.len() == 9 && "update-needed"@.len() == 13 && "current"@.len() == 7);
    let line = dependency_status_line(entry);
    let front = "- "@ + entry.file + " "@ + entry.dependency_name + " current="@ + (
    match entry.current_requirement {
        Some(text) => text,
        None => "n/a"@,
    }) + " latest="@ + (match entry.latest_version {
        Some(text) => text,
        None => "n/a"@,
    }) + " managed="@ + (if entry.managed {
        "true"@
    } else {
        "false"@
    }) + " status="@;
    assert(line.take(front.len() as int) == front);
    if entry.reason is None {
        let back = " status="@ + status_label(entry);
        assert(line.skip(line.len() - back.len()) == back);
    } else {
        let back = " reason="@ + entry.reason->0;
        assert(line.skip(line.len() - back.len()) == back);
    }
    let told = action_status_line(action);
    let head = "- "@ + action.file + ":"@ + decimal(action.line_number) + " "@ + action.action_slug
        + " current="@ + action.current_version + " latest="@ + action.latest_version;
    assert(told.take(head.len() as int) == head);
    let tail = " pinned="@ + (if action.pinned {
        "true"@
    } else {
        "false"@
    }) + " status="@ + (if action.update_needed {
        "update-needed"@
    } else {
        "current"@
    });
    assert(told.skip(told.len() - tail.len()) == tail);
}

/// What needs an update is counted, one by one.
pub proof fn law_stale_entries_are_counted(
    entries: Seq<EntryView>,
    entry: EntryView,
    actions: Seq<VersionEntryView>,
    action: VersionEntryView,
)
    ensures
        stale_dependencies(Seq::empty()) == 0,
        stale_dependencies(entries.push(entry)) - stale_dependencies(entries) == (
        if entry.update_needed {
            1int
        } else {
            0
        }),
        stale_actions(Seq::empty()) == 0,
        stale_actions(actions.push(action)) - stale_actions(actions) == (if action.update_needed {
            1int
        } else {
            0
        }),
{
    reveal(Seq::filter);
    assert(entries.push(entry).drop_last() == entries);
    assert(actions.push(action).drop_last() == actions);
}

// ---------------------------------------------------------------------------
// Both reports
// ---------------------------------------------------------------------------
/// All changes and all files of both reports are taken together, the actions first.
pub proof fn law_both_reports_are_taken(
    actions: Option<UpdateReport>,
    dependencies: Option<CargoUpdateReport>,
    i: int,
)
    ensures
        ({
            let n: int = match actions {
                Some(report) => report.changes@.len() as int,
                None => 0,
            };
            let m: int = match dependencies {
                Some(report) => report.changes@.len() as int,
                None => 0,
            };
            let all = combined_changes(actions, dependencies);
            &&& all.len() == n + m
            &&& 0 <= i < n ==> {
                let change = actions->0.changes@[i];
                &&& all[i].kind == UpdateChangeKind::GitHubAction
                &&& all[i].file == change.file@
                &&& all[i].line_number == Some(change.line_number)
                &&& all[i].subject == change.action_slug@
                &&& all[i].from_version == change.from_version@
                &&& all[i].to_version == change.to_sha@
            }
            &&& 0 <= i < m ==> all[n + i] == dependencies->0.changes@[i]@
        }),
        ({
            let n: int = match actions {
                Some(report) => report.file_updates@.len() as int,
                None => 0,
            };
            let m: int = match dependencies {
                Some(report) => report.file_updates@.len() as int,
                None => 0,
            };
            let all = combined_updates(actions, dependencies);
            &&& all.len() == n + m
            &&& 0 <= i < n ==> all[i] == actions->0.file_updates@[i]@
            &&& 0 <= i < m ==> all[n + i] == dependencies->0.file_updates@[i]@
        }),
{
}

/// The headline tells what was done: a pull request with its number, its branch and its
/// address, or how many changes in how many files were or would be made.
pub proof fn law_headline_tells_what_was_done(
    changes: nat,
    files: nat,
    number: u64,
    branch: Seq<char>,
    url: Seq<char>,
)
    ensures
        update_headline(UpdateStep::Propose, changes, files, Some((number, branch, url)))
            == "Created pull request #"@ + decimal(number as nat) + " on branch "@ + branch + ": "@
            + url,
        forall|step: UpdateStep|
            step != UpdateStep::Propose ==> ends_in(
                #[trigger] update_headline(step, changes, files, None),
                decimal(changes) + " dependency updates across "@ + decimal(files) + " files."@,
            ) && begins_with(
                update_headline(step, changes, files, None),
                match step {
                    UpdateStep::WouldPropose => "Would create a pull request with "@,
                    UpdateStep::WouldApply => "Would apply "@,
                    _ => "Applied "@,
                },
            ),
{
    assert forall|step: UpdateStep| step != UpdateStep::Propose implies ends_in(
        #[trigger] update_headline(step, changes, files, None),
        decimal(changes) + " dependency updates across "@ + decimal(files) + " files."@,
    ) && begins_with(
        update_headline(step, changes, files, None),
        match step {
            UpdateStep::WouldPropose => "Would create a pull request with "@,
            UpdateStep::WouldApply => "Would apply "@,
            _ => "Applied "@,
        },
    ) by {
        let line = update_headline(step, changes, files, None);
        let back = decimal(changes) + " dependency updates across "@ + decimal(files) + " files."@;
        let front = match step {
            UpdateStep::WouldPropose => "Would create a pull request with "@,
            UpdateStep::WouldApply => "Would apply "@,
            _ => "Applied "@,
        };
        assert(line.skip(line.len() - back.len()) == back);
        assert(line.take(front.len() as int) == front);
    }
}

/// The number of changed files does not count a file twice.
pub proof fn law_changed_files_count_once(
    updates: Seq<crate::model::FileUpdateView>,
    update: crate::model::FileUpdateView,
)
    ensures
        updated_set(updates.push(update)) == updated_set(updates).insert(update.file),
        updated_set(Seq::empty()) == Set::<Seq<char>>::empty(),
{
    let before = updates.map_values(|update: crate::model::FileUpdateView| update.file);
    let after = updates.push(update).map_values(
        |update: crate::model::FileUpdateView| update.file,
    );
    assert(after == before.push(update.file));
    assert forall|file: Seq<char>| #[trigger] after.contains(file) == (before.contains(file)
        || file == update.file) by {
        if before.contains(file) {
            let i = choose|i: int| 0 <= i < before.len() && before[i] == file;
            assert(after[i] == file);
        }
        if after.contains(file) {
            let i = choose|i: int| 0 <= i < after.len() && after[i] == file;
            if i < before.len() {
                assert(before[i] == file);
            }
        }
        assert(after[before.len() as int] == update.file);
    }
    assert(updated_set(updates.push(update)) == updated_set(updates).insert(update.file));
    let none = Seq::<crate::model::FileUpdateView>::empty().map_values(
        |update: crate::model::FileUpdateView| update.file,
    );
    assert(none == Seq::<Seq<char>>::empty());
    assert(updated_set(Seq::empty()) == Set::<Seq<char>>::empty());
}

// ---------------------------------------------------------------------------
// Releases
// ---------------------------------------------------------------------------
/// Every updated file has its line, in every outcome that comes to a commit.
pub proof fn law_release_tells_its_files(report: ReleaseView, notes_file: Seq<char>, i: int)
    requires
        0 <= i < report.files_updated.len(),
        report.outcome == ReleaseOutcome::Released || report.outcome
            == ReleaseOutcome::VersionCommitted || report.outcome
            == ReleaseOutcome::PullRequestCreated || report.outcome
            == ReleaseOutcome::PullRequestUpdated || report.outcome == ReleaseOutcome::DryRun,
    ensures
        release_lines(report, notes_file).contains(
            (if report.outcome == ReleaseOutcome::DryRun {
                "- would update "@
            } else {
                "- updated "@
            }) + report.files_updated[i],
        ),
{
    let first = if report.outcome == ReleaseOutcome::DryRun {
        "- would update "@
    } else {
        "- updated "@
    };
    let files = file_lines(first, report.files_updated);
    let lines = outcome_lines(report, notes_file);
    let n: int = match report.outcome {
        ReleaseOutcome::Released => 1int + line_for("- release commit "@, report.commit_sha).len()
            + line_for("- moved major alias tag "@, report.major_alias).len() + line_for(
            "- release "@,
            report.release_url,
        ).len(),
        ReleaseOutcome::VersionCommitted => 1int + line_for(
            "- version commit "@,
            report.commit_sha,
        ).len() as int,
        ReleaseOutcome::PullRequestCreated | ReleaseOutcome::PullRequestUpdated => 1int + line_for(
            "- release branch "@,
            report.release_branch,
        ).len() + line_for("- pull request "@, report.pull_request_url).len(),
        _ => 1,
    };
    assert(lines[n + i] == files[i]);
    assert(release_lines(report, notes_file)[n + i] == files[i]);
}

/// The first line of a release names its outcome, its tag and its versions; what is known of
/// the commit, the alias, the branch and the addresses has its own line.
pub proof fn law_release_tells_its_outcome(report: ReleaseView, notes_file: Seq<char>)
    ensures
        ({
            let lines = release_lines(report, notes_file);
            let tag = match report.tag {
                Some(tag) => tag,
                None => Seq::empty(),
            };
            let step = "("@ + report.current_version + " -> "@ + (match report.next_version {
                Some(version) => version,
                None => Seq::empty(),
            }) + ")"@;
            &&& report.outcome == ReleaseOutcome::Released ==> lines[0] == "Released "@ + tag + " "@
                + step + "."@
            &&& report.outcome == ReleaseOutcome::DryRun ==> lines[0]
                == "Dry run: would release "@ + tag + " "@ + step + "."@
            &&& report.outcome == ReleaseOutcome::PullRequestCreated ==> lines[0]
                == "Created automated release PR for "@ + tag + " "@ + step + "."@
            &&& report.outcome == ReleaseOutcome::PullRequestUpdated ==> lines[0]
                == "Updated automated release PR for "@ + tag + " "@ + step + "."@
            &&& report.outcome == ReleaseOutcome::SkippedTagExists ==> begins_with(
                lines[0],
                "Skipped release: tag "@ + tag + " already exists."@,
            )
            &&& report.outcome == ReleaseOutcome::SkippedNoReleasableChanges ==> begins_with(
                lines[0],
                "No release needed: "@ + decimal(report.commits_analyzed) + " commits"@,
            )
            &&& report.outcome == ReleaseOutcome::Released && report.commit_sha is Some
                ==> lines.contains("- release commit "@ + report.commit_sha->0)
            &&& report.commit_range_truncated ==> lines.last()
                == "- note: the analyzed commit list was truncated; release notes may be incomplete."@
            &&& !report.commit_range_truncated ==> lines == outcome_lines(report, notes_file)
        }),
{
    let lines = release_lines(report, notes_file);
    let tag = match report.tag {
        Some(tag) => tag,
        None => Seq::empty(),
    };
    if report.outcome == ReleaseOutcome::SkippedTagExists {
        reveal_strlit(" already exists. If its GitHub Release is missing, create it manually.");
        reveal_strlit(" already exists.");
        let front = "Skipped release: tag "@ + tag + " already exists."@;
        assert(lines[0].take(front.len() as int) == front);
    }
    if report.outcome == ReleaseOutcome::SkippedNoReleasableChanges {
        reveal_strlit(
            " commits since the last release contain no feat, fix, or breaking changes.",
        );
        reveal_strlit(" commits");
        let front = "No release needed: "@ + decimal(report.commits_analyzed) + " commits"@;
        assert(lines[0].take(front.len() as int) == front);
    }
    if report.outcome == ReleaseOutcome::Released && report.commit_sha is Some {
        assert(lines[1] == "- release commit "@ + report.commit_sha->0);
    }
}

// ---------------------------------------------------------------------------
// Options
// ---------------------------------------------------------------------------
/// The command has the option, with that variable and that default.
pub open spec fn has_option(
    command: Seq<char>,
    name: Seq<char>,
    variable: Seq<char>,
    kind: OptionKind,
    default: Option<Seq<char>>,
) -> bool {
    exists|i: int| 0 <= i < options_of(command).len() && #[trigger]
        is_option(options_of(command)[i], name, variable, kind, default)
}

/// The option has that name, that variable and that default.
pub open spec fn is_option(
    option: OptionView,
    name: Seq<char>,
    variable: Seq<char>,
    kind: OptionKind,
    default: Option<Seq<char>>,
) -> bool {
    option.name == name && option.variable == variable && option.kind == kind && option.default
        == default
}

proof fn lemma_options(k: int)
    requires
        0 <= k < 5,
    ensures
        options_of(commands()[k].name) == global_options() + commands()[k].options,
        commands()[0].name == "pin"@,
        commands()[1].name == "update"@,
        commands()[2].name == "status"@,
        commands()[3].name == "policy"@,
        commands()[4].name == "release"@,
        commands().len() == 5,
{
    reveal_strlit("pin");
    reveal_strlit("update");
    reveal_strlit("status");
    reveal_strlit("policy");
    reveal_strlit("release");
    assert("pin"@.len() == 3 && "release"@.len() == 7);
    assert("update"@[0] == 'u' && "status"@[0] == 's' && "policy"@[0] == 'p');
    assert("update"@.len() == 6 && "status"@.len() == 6 && "policy"@.len() == 6);
    let all = commands();
    let a = all.skip(1);
    let b = a.skip(1);
    let c = b.skip(1);
    let d = c.skip(1);
    assert(a[0] == all[1] && b[0] == all[2] && c[0] == all[3] && d[0] == all[4]);
    let name = all[k].name;
    if k == 4 {
        assert(options_in(d, name) == d[0].options);
    }
    if k >= 3 {
        assert(options_in(c, name) == all[k].options);
    }
    if k >= 2 {
        assert(options_in(b, name) == all[k].options);
    }
    if k >= 1 {
        assert(options_in(a, name) == all[k].options);
    }
    assert(options_in(all, name) == all[k].options);
}

/// Every command of a repository has the options that its arguments are read from.
pub proof fn law_commands_have_the_repository_options(k: int)
    requires
        0 <= k < 4,
    ensures
        ({
            let command = commands()[k].name;
            &&& has_option(command, "repo"@, "INPUT_REPO"@, OptionKind::Path, Some("."@))
            &&& has_option(
                command,
                "workflows-path"@,
                "INPUT_WORKFLOWS-PATH"@,
                OptionKind::Path,
                Some(".github/workflows"@),
            )
            &&& has_option(command, "token"@, "INPUT_TOKEN"@, OptionKind::Text, None)
            &&& has_option(command, "owner"@, "INPUT_OWNER"@, OptionKind::Text, None)
            &&& has_option(command, "repo-name"@, "INPUT_REPO-NAME"@, OptionKind::Text, None)
            &&& has_option(
                command,
                "create-pr"@,
                "INPUT_CREATE-PR"@,
                OptionKind::Switch,
                Some("false"@),
            )
            &&& has_option(command, "base-branch"@, "INPUT_BASE-BRANCH"@, OptionKind::Text, None)
            &&& has_option(command, "branch-name"@, "INPUT_BRANCH-NAME"@, OptionKind::Text, None)
            &&& has_option(
                command,
                "labels"@,
                "INPUT_LABELS"@,
                OptionKind::Text,
                Some("dependencies"@),
            )
            &&& has_option(
                command,
                "title"@,
                "INPUT_TITLE"@,
                OptionKind::Text,
                Some("Update dependencies"@),
            )
            &&& has_option(
                command,
                "commit-message"@,
                "INPUT_COMMIT-MESSAGE"@,
                OptionKind::Text,
                Some("Update dependencies"@),
            )
        }),
{
    lemma_options(k);
    let command = commands()[k].name;
    let all = options_of(command);
    let own = commands()[k].options;
    let shared = repo_options();
    assert(own.take(11) == shared);
    assert forall|i: int| 0 <= i < 11 implies #[trigger] all[i + 2] == shared[i] by {
        assert(all[i + 2] == own[i]);
        assert(own.take(11)[i] == own[i]);
    }
    assert(is_option(all[2], "repo"@, "INPUT_REPO"@, OptionKind::Path, Some("."@)));
    assert(is_option(
        all[3],
        "workflows-path"@,
        "INPUT_WORKFLOWS-PATH"@,
        OptionKind::Path,
        Some(".github/workflows"@),
    ));
    assert(is_option(all[4], "token"@, "INPUT_TOKEN"@, OptionKind::Text, None));
    assert(is_option(all[5], "owner"@, "INPUT_OWNER"@, OptionKind::Text, None));
    assert(is_option(all[6], "repo-name"@, "INPUT_REPO-NAME"@, OptionKind::Text, None));
    assert(is_option(
        all[7],
        "create-pr"@,
        "INPUT_CREATE-PR"@,
        OptionKind::Switch,
        Some("false"@),
    ));
    assert(is_option(all[8], "base-branch"@, "INPUT_BASE-BRANCH"@, OptionKind::Text, None));
    assert(is_option(all[9], "branch-name"@, "INPUT_BRANCH-NAME"@, OptionKind::Text, None));
    assert(is_option(
        all[10],
        "labels"@,
        "INPUT_LABELS"@,
        OptionKind::Text,
        Some("dependencies"@),
    ));
    assert(is_option(
        all[11],
        "title"@,
        "INPUT_TITLE"@,
        OptionKind::Text,
        Some("Update dependencies"@),
    ));
    assert(is_option(
        all[12],
        "commit-message"@,
        "INPUT_COMMIT-MESSAGE"@,
        OptionKind::Text,
        Some("Update dependencies"@),
    ));
}

/// The commands that update have the switches for what is updated and for a dry run.
pub proof fn law_commands_have_the_update_switches(k: int)
    requires
        0 <= k < 3,
    ensures
        ({
            let command = commands()[k].name;
            let off = Some("false"@);
            &&& has_option(
                command,
                "github-actions"@,
                "INPUT_GITHUB-ACTIONS"@,
                OptionKind::Switch,
                off,
            )
            &&& has_option(command, "cargo"@, "INPUT_CARGO"@, OptionKind::Switch, off)
            &&& has_option(command, "all"@, "INPUT_ALL"@, OptionKind::Switch, off)
            &&& has_option(command, "dry-run"@, "INPUT_DRY-RUN"@, OptionKind::Switch, off)
        }),
{
    lemma_options(k);
    let all = options_of(commands()[k].name);
    let off = Some("false"@);
    assert(is_option(
        all[13],
        "github-actions"@,
        "INPUT_GITHUB-ACTIONS"@,
        OptionKind::Switch,
        off,
    ));
    assert(is_option(all[14], "cargo"@, "INPUT_CARGO"@, OptionKind::Switch, off));
    assert(is_option(all[15], "all"@, "INPUT_ALL"@, OptionKind::Switch, off));
    assert(is_option(all[16], "dry-run"@, "INPUT_DRY-RUN"@, OptionKind::Switch, off));
}

/// The policy command has its switches behind the options of a repository.
pub proof fn law_policy_has_its_switches()
    ensures
        has_option(
            "policy"@,
            "check-scripts"@,
            "INPUT_CHECK-SCRIPTS"@,
            OptionKind::Switch,
            Some("true"@),
        ),
        has_option(
            "policy"@,
            "check-policies"@,
            "INPUT_CHECK-POLICIES"@,
            OptionKind::Switch,
            Some("true"@),
        ),
        has_option(
            "policy"@,
            "fail-on-findings"@,
            "INPUT_FAIL-ON-FINDINGS"@,
            OptionKind::Switch,
            Some("false"@),
        ),
{
    lemma_options(3);
    let all = options_of("policy"@);
    assert(is_option(
        all[13],
        "check-scripts"@,
        "INPUT_CHECK-SCRIPTS"@,
        OptionKind::Switch,
        Some("true"@),
    ));
    assert(is_option(
        all[14],
        "check-policies"@,
        "INPUT_CHECK-POLICIES"@,
        OptionKind::Switch,
        Some("true"@),
    ));
    assert(is_option(
        all[15],
        "fail-on-findings"@,
        "INPUT_FAIL-ON-FINDINGS"@,
        OptionKind::Switch,
        Some("false"@),
    ));
}

/// The release command has the options that a release is made with.
pub proof fn law_release_has_its_options()
    ensures
        has_option("release"@, "repo"@, "INPUT_REPO"@, OptionKind::Path, Some("."@)),
        has_option("release"@, "token"@, "INPUT_TOKEN"@, OptionKind::Text, None),
        has_option("release"@, "owner"@, "INPUT_OWNER"@, OptionKind::Text, None),
        has_option("release"@, "repo-name"@, "INPUT_REPO-NAME"@, OptionKind::Text, None),
        has_option("release"@, "base-branch"@, "INPUT_BASE-BRANCH"@, OptionKind::Text, None),
        has_option("release"@, "bump"@, "INPUT_BUMP"@, OptionKind::Bump, Some("auto"@)),
        has_option("release"@, "tag-prefix"@, "INPUT_TAG-PREFIX"@, OptionKind::Text, Some("v"@)),
        has_option(
            "release"@,
            "tag-style"@,
            "INPUT_TAG-STYLE"@,
            OptionKind::TagStyle,
            Some("annotated"@),
        ),
        has_option(
            "release"@,
            "update-major-alias"@,
            "INPUT_UPDATE-MAJOR-ALIAS"@,
            OptionKind::Switch,
            Some("false"@),
        ),
        has_option(
            "release"@,
            "notes-file"@,
            "INPUT_NOTES-FILE"@,
            OptionKind::Path,
            Some("release_notes.md"@),
        ),
        has_option(
            "release"@,
            "commit-message"@,
            "INPUT_COMMIT-MESSAGE"@,
            OptionKind::Text,
            Some("chore: release v{version}"@),
        ),
        has_option(
            "release"@,
            "create-pr"@,
            "INPUT_CREATE-PR"@,
            OptionKind::Switch,
            Some("false"@),
        ),
        has_option(
            "release"@,
            "release-branch"@,
            "INPUT_RELEASE-BRANCH"@,
            OptionKind::Text,
            Some("automation/release"@),
        ),
        has_option("release"@, "extra-files"@, "INPUT_EXTRA-FILES"@, OptionKind::List, None),
        has_option("release"@, "github-output"@, "GITHUB_OUTPUT"@, OptionKind::Path, None),
        has_option("release"@, "phase"@, "INPUT_PHASE"@, OptionKind::Phase, Some("all"@)),
        has_option("release"@, "dry-run"@, "INPUT_DRY-RUN"@, OptionKind::Switch, Some("false"@)),
{
    lemma_options(4);
    let all = options_of("release"@);
    assert(is_option(all[2], "repo"@, "INPUT_REPO"@, OptionKind::Path, Some("."@)));
    assert(is_option(all[3], "token"@, "INPUT_TOKEN"@, OptionKind::Text, None));
    assert(is_option(all[4], "owner"@, "INPUT_OWNER"@, OptionKind::Text, None));
    assert(is_option(all[5], "repo-name"@, "INPUT_REPO-NAME"@, OptionKind::Text, None));
    assert(is_option(all[6], "base-branch"@, "INPUT_BASE-BRANCH"@, OptionKind::Text, None));
    assert(is_option(all[7], "bump"@, "INPUT_BUMP"@, OptionKind::Bump, Some("auto"@)));
    assert(is_option(all[8], "tag-prefix"@, "INPUT_TAG-PREFIX"@, OptionKind::Text, Some("v"@)));
    assert(is_option(
        all[9],
        "tag-style"@,
        "INPUT_TAG-STYLE"@,
        OptionKind::TagStyle,
        Some("annotated"@),
    ));
    assert(is_option(
        all[10],
        "update-major-alias"@,
        "INPUT_UPDATE-MAJOR-ALIAS"@,
        OptionKind::Switch,
        Some("false"@),
    ));
    assert(is_option(
        all[11],
        "notes-file"@,
        "INPUT_NOTES-FILE"@,
        OptionKind::Path,
        Some("release_notes.md"@),
    ));
    assert(is_option(
        all[12],
        "commit-message"@,
        "INPUT_COMMIT-MESSAGE"@,
        OptionKind::Text,
        Some("chore: release v{version}"@),
    ));
    assert(is_option(
        all[13],
        "create-pr"@,
        "INPUT_CREATE-PR"@,
        OptionKind::Switch,
        Some("false"@),
    ));
    assert(is_option(
        all[14],
        "release-branch"@,
        "INPUT_RELEASE-BRANCH"@,
        OptionKind::Text,
        Some("automation/release"@),
    ));
    assert(is_option(all[15], "extra-files"@, "INPUT_EXTRA-FILES"@, OptionKind::List, None));
    assert(is_option(all[16], "github-output"@, "GITHUB_OUTPUT"@, OptionKind::Path, None));
    assert(is_option(all[17], "phase"@, "INPUT_PHASE"@, OptionKind::Phase, Some("all"@)));
    assert(is_option(all[18], "dry-run"@, "INPUT_DRY-RUN"@, OptionKind::Switch, Some("false"@)));
}

/// A release that was made, proposed or only tried tells at the end where its notes are, and one
/// that waits for its image says so; a refused one has a single line.
pub proof fn law_release_ends_with_its_notes(report: ReleaseView, notes_file: Seq<char>)
    requires
        !report.commit_range_truncated,
    ensures
        ({
            let lines = release_lines(report, notes_file);
            &&& report.outcome == ReleaseOutcome::Released || report.outcome
                == ReleaseOutcome::PullRequestCreated || report.outcome
                == ReleaseOutcome::PullRequestUpdated || report.outcome == ReleaseOutcome::DryRun
                ==> lines.last() == "- release notes written to "@ + notes_file
            &&& report.outcome == ReleaseOutcome::VersionCommitted ==> lines.last()
                == "- publish the runtime image for this commit, then re-run with --phase tag"@
            &&& report.outcome == ReleaseOutcome::DryRun ==> lines.len()
                == report.files_updated.len() + 2
            &&& report.outcome == ReleaseOutcome::SkippedNoReleasableChanges || report.outcome
                == ReleaseOutcome::SkippedRace || report.outcome
                == ReleaseOutcome::SkippedTagExists ==> lines.len() == 1
        }),
{
}

} // verus!
