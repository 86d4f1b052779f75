//! What the commands print.

use vstd::prelude::*;

use crate::cargo::{CargoDependencyEntry, CargoUpdateReport, EntryView};
use crate::model::{
    FileUpdate, FileUpdateView, PinChange, PinChangeView, PinReport, PolicySeverity,
    PolicyViolation, ScriptType, ScriptUsage, ScriptUsageView, UpdateChange, UpdateChangeView,
    ViolationView, touched_files,
};
use crate::policy::PolicyReport;
use crate::release::{or_nothing, ReleaseOutcome, ReleaseReport, ReleaseView};
use crate::remote::PullRequestResult;
use crate::text::{
    decimal, decimal_text, join_five, join_four, join_six, join_three, join_two, option_view, same,
    views,
};
use crate::update::{as_update, UpdateMode, UpdateReport, VersionEntry, VersionEntryView};

verus! {

fn number_text(number: usize) -> (result: String)
    ensures
        result@ == decimal(number as nat),
{
    decimal_text(number as u64)
}

// ---------------------------------------------------------------------------
// Pinning
// ---------------------------------------------------------------------------
/// The line for a pinned reference.
pub open spec fn pin_line(change: PinChangeView) -> Seq<char> {
    "- "@ + change.file + ":"@ + decimal(change.line_number) + " "@ + change.action_slug + "@"@
        + change.from_version + " -> "@ + change.to_sha
}

/// What `pin` prints.
pub open spec fn pin_lines(report: PinReport, dry_run: bool) -> Seq<Seq<char>> {
    let changes = views(report.changes@);
    if changes.len() == 0 {
        seq![
            "No floating GitHub Actions references needed pinning. Scanned "@ + decimal(
                report.references_scanned as nat,
            ) + " references across "@ + decimal(report.workflow_files as nat)
                + " workflow files; "@ + decimal(report.already_pinned as nat)
                + " were already pinned."@,
        ]
    } else {
        let first = if dry_run {
            "Dry run: would pin "@
        } else {
            "Pinned "@
        };
        seq![
            first + decimal(changes.len()) + " action references across "@ + decimal(
                touched_files(changes).len(),
            ) + " files."@,
        ] + changes.map_values(|change: PinChangeView| pin_line(change))
    }
}

fn write_pin_line(change: &PinChange) -> (result: String)
    ensures
        result@ == pin_line(change@),
{
    let mut line = join_four("- ", &change.file, ":", &number_text(change.line_number));
    line.append(" ");
    line.append(&change.action_slug);
    line.append("@");
    line.append(&change.from_version);
    line.append(" -> ");
    line.append(&change.to_sha);
    line
}

/// What `pin` prints.
pub fn pin_summary(report: &PinReport, dry_run: bool) -> (result: Vec<String>)
    ensures
        views(result@) == pin_lines(*report, dry_run),
{
    let changes = &report.changes;
    let ghost all = views(changes@);
    let mut lines: Vec<String> = Vec::new();
    if changes.len() == 0 {
        let mut line = join_four(
            "No floating GitHub Actions references needed pinning. Scanned ",
            &number_text(report.references_scanned),
            " references across ",
            &number_text(report.workflow_files),
        );
        line.append(" workflow files; ");
        line.append(&number_text(report.already_pinned));
        line.append(" were already pinned.");
        lines.push(line);
        assert(views(lines@) == pin_lines(*report, dry_run));
        return lines;
    }
    let first = if dry_run {
        "Dry run: would pin "
    } else {
        "Pinned "
    };
    lines.push(
        join_five(
            first,
            &number_text(changes.len()),
            " action references across ",
            &number_text(report.changed_files()),
            " files.",
        ),
    );
    let ghost head = views(lines@);
    let ghost line_of = |change: PinChangeView| pin_line(change);
    assert(head + all.take(0).map_values(line_of) == head);
    let mut i: usize = 0;
    while i < changes.len()
        invariant
            i <= changes.len(),
            all == views(changes@),
            line_of == (|change: PinChangeView| pin_line(change)),
            views(lines@) == head + all.take(i as int).map_values(line_of),
        decreases changes.len() - i,
    {
        let ghost before = views(lines@);
        lines.push(write_pin_line(&changes[i]));
        proof {
            assert(all.take(i + 1) == all.take(i as int).push(changes@[i as int]@));
            assert(views(lines@) == before.push(pin_line(changes@[i as int]@)));
            assert(views(lines@) == head + all.take(i + 1).map_values(line_of));
        }
        i = i + 1;
    }
    proof {
        assert(all.take(i as int) == all);
        assert(head == seq![head[0]]);
    }
    lines
}

// ---------------------------------------------------------------------------
// Updating
// ---------------------------------------------------------------------------
/// The mode that `update` runs in: files are only rewritten where nothing else is
/// asked for.
pub fn update_mode(dry_run: bool, create_pr: bool) -> (result: UpdateMode)
    ensures
        result == if dry_run || create_pr {
            UpdateMode::DryRun
        } else {
            UpdateMode::Apply
        },
{
    if dry_run || create_pr {
        UpdateMode::DryRun
    } else {
        UpdateMode::Apply
    }
}

/// The files of the updates.
pub open spec fn updated_set(updates: Seq<FileUpdateView>) -> Set<Seq<char>> {
    updates.map_values(|update: FileUpdateView| update.file).to_set()
}

/// How many files the updates are for.
pub fn count_changed_files(file_updates: &Vec<FileUpdate>) -> (result: usize)
    ensures
        result == updated_set(views(file_updates@)).len(),
{
    let ghost files = views(file_updates@).map_values(|update: FileUpdateView| update.file);
    let mut count: usize = 0;
    let mut i: usize = 0;
    assert(files.take(0).to_set() =~= Set::<Seq<char>>::empty());
    while i < file_updates.len()
        invariant
            i <= file_updates.len(),
            count <= i,
            files == views(file_updates@).map_values(|update: FileUpdateView| update.file),
            files.take(i as int).to_set().finite(),
            count == files.take(i as int).to_set().len(),
        decreases file_updates.len() - i,
    {
        let seen = occurs_before(file_updates, i);
        proof {
            let before = files.take(i as int);
            let after = files.take(i + 1);
            assert(after == before.push(files[i as int]));
            assert(after.to_set() =~= before.to_set().insert(files[i as int])) by {
                assert forall|file: Seq<char>| after.to_set().contains(file) implies
                    before.to_set().insert(files[i as int]).contains(file) by {
                    let k = choose|k: int| 0 <= k < after.len() && after[k] == file;
                    if k < i {
                        assert(before[k] == file);
                    }
                }
                assert forall|file: Seq<char>|
                    before.to_set().insert(files[i as int]).contains(
                        file,
                    ) implies after.to_set().contains(file) by {
                    if file == files[i as int] {
                        assert(after[i as int] == file);
                    } else {
                        let k = choose|k: int| 0 <= k < before.len() && before[k] == file;
                        assert(after[k] == file);
                    }
                }
            }
            if seen {
                let k = choose|k: int| 0 <= k < i && #[trigger] files[k] == files[i as int];
                assert(before[k] == files[i as int]);
                assert(before.to_set().insert(files[i as int]) =~= before.to_set());
            } else {
                assert(!before.to_set().contains(files[i as int])) by {
                    if before.to_set().contains(files[i as int]) {
                        let k = choose|k: int| 0 <= k < before.len() && before[k] == files[i as int];
                        assert(files[k] == files[i as int]);
                    }
                }
            }
        }
        if !seen {
            count = count + 1;
        }
        i = i + 1;
    }
    assert(files.take(i as int) == files);
    count
}

fn occurs_before(file_updates: &Vec<FileUpdate>, i: usize) -> (result: bool)
    requires
        i < file_updates.len(),
    ensures
        ({
            let files = views(file_updates@).map_values(|update: FileUpdateView| update.file);
            result == exists|k: int| 0 <= k < i && #[trigger] files[k] == files[i as int]
        }),
{
    let ghost files = views(file_updates@).map_values(|update: FileUpdateView| update.file);
    let mut j: usize = 0;
    while j < i
        invariant
            j <= i < file_updates.len(),
            files == views(file_updates@).map_values(|update: FileUpdateView| update.file),
            forall|k: int| 0 <= k < j ==> #[trigger] files[k] != files[i as int],
        decreases i - j,
    {
        assert(files[j as int] == file_updates@[j as int].file@);
        assert(files[i as int] == file_updates@[i as int].file@);
        if same(&file_updates[j].file, &file_updates[i].file) {
            return true;
        }
        j = j + 1;
    }
    false
}

/// The line for a change.
pub open spec fn change_line(change: UpdateChangeView) -> Seq<char> {
    let place = match change.line_number {
        Some(line_number) => ":"@ + decimal(line_number as nat),
        None => Seq::empty(),
    };
    "- "@ + change.kind.label_text() + " "@ + change.file + place + " "@ + change.subject + " "@
        + change.from_version + " -> "@ + change.to_version
}

fn write_change_line(change: &UpdateChange) -> (result: String)
    ensures
        result@ == change_line(change@),
{
    let place = match change.line_number {
        Some(line_number) => join_two(":", &number_text(line_number)),
        None => String::new(),
    };
    let mut line = join_five("- ", change.kind.label(), " ", &change.file, &place);
    line.append(" ");
    line.append(&change.subject);
    line.append(" ");
    line.append(&change.from_version);
    line.append(" -> ");
    line.append(&change.to_version);
    line
}

/// The lines for the changes.
pub fn change_lines(changes: &Vec<UpdateChange>) -> (result: Vec<String>)
    ensures
        views(result@) == views(changes@).map_values(
            |change: UpdateChangeView| change_line(change),
        ),
{
    let ghost all = views(changes@);
    let ghost line_of = |change: UpdateChangeView| change_line(change);
    let mut lines: Vec<String> = Vec::new();
    let mut i: usize = 0;
    assert(views(lines@) == all.take(0).map_values(line_of));
    while i < changes.len()
        invariant
            i <= changes.len(),
            all == views(changes@),
            line_of == (|change: UpdateChangeView| change_line(change)),
            views(lines@) == all.take(i as int).map_values(line_of),
        decreases changes.len() - i,
    {
        let ghost before = views(lines@);
        lines.push(write_change_line(&changes[i]));
        proof {
            assert(all.take(i + 1) == all.take(i as int).push(changes@[i as int]@));
            assert(views(lines@) == before.push(change_line(changes@[i as int]@)));
            assert(views(lines@) == all.take(i + 1).map_values(line_of));
        }
        i = i + 1;
    }
    assert(all.take(i as int) == all);
    lines
}

/// What `update` does once it knows the changes.
#[derive(Debug, Clone, Copy, PartialEq, Eq, Structural)]
pub enum UpdateStep {
    /// There is nothing to do.
    Nothing,
    /// A pull request would be opened.
    WouldPropose,
    /// A pull request is opened.
    Propose,
    /// The changes would be applied.
    WouldApply,
    /// The changes are applied.
    Apply,
}

/// What `update` does once it knows the changes.
pub fn update_step(changes: &Vec<UpdateChange>, dry_run: bool, create_pr: bool) -> (result:
    UpdateStep)
    ensures
        result == if changes@.len() == 0 {
            UpdateStep::Nothing
        } else if create_pr {
            if dry_run {
                UpdateStep::WouldPropose
            } else {
                UpdateStep::Propose
            }
        } else if dry_run {
            UpdateStep::WouldApply
        } else {
            UpdateStep::Apply
        },
{
    if changes.len() == 0 {
        UpdateStep::Nothing
    } else if create_pr {
        if dry_run {
            UpdateStep::WouldPropose
        } else {
            UpdateStep::Propose
        }
    } else if dry_run {
        UpdateStep::WouldApply
    } else {
        UpdateStep::Apply
    }
}

/// The line above the changes.
pub open spec fn update_headline(
    step: UpdateStep,
    changes: nat,
    files: nat,
    opened: Option<(u64, Seq<char>, Seq<char>)>,
) -> Seq<char> {
    match (step, opened) {
        (UpdateStep::Propose, Some((number, branch, url))) => "Created pull request #"@ + decimal(
            number as nat,
        ) + " on branch "@ + branch + ": "@ + url,
        (UpdateStep::WouldPropose, _) => "Would create a pull request with "@ + decimal(changes)
            + " dependency updates across "@ + decimal(files) + " files."@,
        (UpdateStep::WouldApply, _) => "Would apply "@ + decimal(changes)
            + " dependency updates across "@ + decimal(files) + " files."@,
        _ => "Applied "@ + decimal(changes) + " dependency updates across "@ + decimal(files)
            + " files."@,
    }
}

/// A pull request that was opened, by its number, branch and address.
pub open spec fn opened_view(opened: Option<PullRequestResult>) -> Option<
    (u64, Seq<char>, Seq<char>),
> {
    match opened {
        Some(opened) => Some((opened.number, opened.branch_name@, opened.url@)),
        None => None,
    }
}

/// The line above the changes.
pub fn write_update_headline(
    step: UpdateStep,
    changes: &Vec<UpdateChange>,
    file_updates: &Vec<FileUpdate>,
    opened: &Option<PullRequestResult>,
) -> (result: String)
    ensures
        result@ == update_headline(
            step,
            changes@.len(),
            updated_set(views(file_updates@)).len(),
            opened_view(*opened),
        ),
{
    if let Some(opened) = opened {
        if step == UpdateStep::Propose {
            return join_six(
                "Created pull request #",
                &decimal_text(opened.number),
                " on branch ",
                &opened.branch_name,
                ": ",
                &opened.url,
            );
        }
    }
    let first = match step {
        UpdateStep::WouldPropose => "Would create a pull request with ",
        UpdateStep::WouldApply => "Would apply ",
        _ => "Applied ",
    };
    join_five(
        first,
        &number_text(changes.len()),
        " dependency updates across ",
        &number_text(count_changed_files(file_updates)),
        " files.",
    )
}

/// The line for actions that are all current.
pub open spec fn current_actions_line(references: nat, files: nat) -> Seq<char> {
    "All scanned GitHub Actions are already current and pinned. Scanned "@ + decimal(references)
        + " references across "@ + decimal(files) + " workflow files."@
}

/// The line for dependencies that are all current.
pub open spec fn current_dependencies_line(
    dependencies: nat,
    manifests: nat,
    unmanaged: nat,
) -> Seq<
    char,
> {
    "All managed cargo dependencies are already current. Scanned "@ + decimal(dependencies)
        + " dependencies across "@ + decimal(manifests) + " manifests; "@ + decimal(unmanaged)
        + " unmanaged dependencies were skipped."@
}

/// What `update` prints where there is nothing to do.
pub open spec fn noop_lines(
    actions: Option<UpdateReport>,
    dependencies: Option<CargoUpdateReport>,
) -> Seq<Seq<char>> {
    let first = match actions {
        Some(report) => seq![
            current_actions_line(report.references_scanned as nat, report.workflow_files as nat),
        ],
        None => Seq::empty(),
    };
    let second = match dependencies {
        Some(report) => seq![
            current_dependencies_line(
                report.dependencies_scanned as nat,
                report.manifest_files as nat,
                report.unmanaged_dependencies as nat,
            ),
        ],
        None => Seq::empty(),
    };
    first + second
}

/// What `update` prints where there is nothing to do.
pub fn noop_summary(
    actions: &Option<UpdateReport>,
    dependencies: &Option<CargoUpdateReport>,
) -> (result: Vec<String>)
    ensures
        views(result@) == noop_lines(*actions, *dependencies),
{
    let mut lines: Vec<String> = Vec::new();
    if let Some(report) = actions {
        lines.push(
            join_five(
                "All scanned GitHub Actions are already current and pinned. Scanned ",
                &number_text(report.references_scanned),
                " references across ",
                &number_text(report.workflow_files),
                " workflow files.",
            ),
        );
    }
    if let Some(report) = dependencies {
        let mut line = join_four(
            "All managed cargo dependencies are already current. Scanned ",
            &number_text(report.dependencies_scanned),
            " dependencies across ",
            &number_text(report.manifest_files),
        );
        line.append(" manifests; ");
        line.append(&number_text(report.unmanaged_dependencies));
        line.append(" unmanaged dependencies were skipped.");
        lines.push(line);
    }
    assert(views(lines@) == noop_lines(*actions, *dependencies));
    lines
}

/// The changes of both reports, those of the actions first.
pub open spec fn combined_changes(
    actions: Option<UpdateReport>,
    dependencies: Option<CargoUpdateReport>,
) -> Seq<UpdateChangeView> {
    let first = match actions {
        Some(report) => Seq::new(
            report.changes@.len(),
            |i: int| as_update(report.changes@[i]@, report.changes@[i].line_number),
        ),
        None => Seq::empty(),
    };
    let second = match dependencies {
        Some(report) => views(report.changes@),
        None => Seq::empty(),
    };
    first + second
}

/// What both reports change in files, those of the actions first.
pub open spec fn combined_updates(
    actions: Option<UpdateReport>,
    dependencies: Option<CargoUpdateReport>,
) -> Seq<FileUpdateView> {
    let first = match actions {
        Some(report) => views(report.file_updates@),
        None => Seq::empty(),
    };
    let second = match dependencies {
        Some(report) => views(report.file_updates@),
        None => Seq::empty(),
    };
    first + second
}

fn push_updates(all: &mut Vec<FileUpdate>, more: &Vec<FileUpdate>)
    ensures
        views(final(all)@) == views(old(all)@) + views(more@),
{
    let ghost before = views(all@);
    let ghost added = views(more@);
    let mut i: usize = 0;
    assert(before + added.take(0) == before);
    while i < more.len()
        invariant
            i <= more.len(),
            added == views(more@),
            views(all@) == before + added.take(i as int),
        decreases more.len() - i,
    {
        let ghost so_far = views(all@);
        let update = FileUpdate {
            file: more[i].file.clone(),
            updated_content: more[i].updated_content.clone(),
        };
        all.push(update);
        proof {
            assert(views(all@) == so_far.push(more@[i as int]@));
            assert(added.take(i + 1) == added.take(i as int).push(more@[i as int]@));
            assert(views(all@) == before + added.take(i + 1));
        }
        i = i + 1;
    }
    assert(added.take(i as int) == added);
}

fn push_changes(all: &mut Vec<UpdateChange>, more: &Vec<UpdateChange>)
    ensures
        views(final(all)@) == views(old(all)@) + views(more@),
{
    let ghost before = views(all@);
    let ghost added = views(more@);
    let mut i: usize = 0;
    assert(before + added.take(0) == before);
    while i < more.len()
        invariant
            i <= more.len(),
            added == views(more@),
            views(all@) == before + added.take(i as int),
        decreases more.len() - i,
    {
        let ghost so_far = views(all@);
        let change = UpdateChange {
            kind: more[i].kind,
            file: more[i].file.clone(),
            line_number: more[i].line_number,
            subject: more[i].subject.clone(),
            from_version: more[i].from_version.clone(),
            to_version: more[i].to_version.clone(),
        };
        all.push(change);
        proof {
            assert(views(all@) == so_far.push(more@[i as int]@));
            assert(added.take(i + 1) == added.take(i as int).push(more@[i as int]@));
            assert(views(all@) == before + added.take(i + 1));
        }
        i = i + 1;
    }
    assert(added.take(i as int) == added);
}

/// The changes of both reports, and what they change in files, those of the actions
/// first.
pub fn combine_updates(
    actions: &Option<UpdateReport>,
    dependencies: &Option<CargoUpdateReport>,
) -> (result: (Vec<UpdateChange>, Vec<FileUpdate>))
    ensures
        views(result.0@) == combined_changes(*actions, *dependencies),
        views(result.1@) == combined_updates(*actions, *dependencies),
{
    let mut changes: Vec<UpdateChange> = Vec::new();
    let mut updates: Vec<FileUpdate> = Vec::new();
    if let Some(report) = actions {
        changes = report.update_changes();
        push_updates(&mut updates, &report.file_updates);
    }
    proof {
        assert(views(changes@) + Seq::<UpdateChangeView>::empty() == views(changes@));
        assert(views(changes@) == combined_changes(*actions, None));
        assert(views(updates@) == combined_updates(*actions, None));
    }
    if let Some(report) = dependencies {
        push_changes(&mut changes, &report.changes);
        push_updates(&mut updates, &report.file_updates);
    }
    proof {
        assert(views(changes@) == combined_changes(*actions, *dependencies));
        assert(views(updates@) == combined_updates(*actions, *dependencies));
    }
    (changes, updates)
}

// ---------------------------------------------------------------------------
// Status
// ---------------------------------------------------------------------------
/// How a flag is printed.
pub open spec fn flag_text(flag: bool) -> Seq<char> {
    if flag {
        "true"@
    } else {
        "false"@
    }
}

fn write_flag(flag: bool) -> (result: &'static str)
    ensures
        result@ == flag_text(flag),
{
    if flag {
        "true"
    } else {
        "false"
    }
}

/// The line for an action.
pub open spec fn action_status_line(entry: VersionEntryView) -> Seq<char> {
    let status = if entry.update_needed {
        "update-needed"@
    } else {
        "current"@
    };
    "- "@ + entry.file + ":"@ + decimal(entry.line_number) + " "@ + entry.action_slug
        + " current="@ + entry.current_version + " latest="@ + entry.latest_version + " pinned="@
        + flag_text(entry.pinned) + " status="@ + status
}

fn write_action_status(entry: &VersionEntry) -> (result: String)
    ensures
        result@ == action_status_line(entry@),
{
    let mut line = join_four("- ", &entry.file, ":", &number_text(entry.line_number));
    line.append(" ");
    line.append(&entry.action_slug);
    line.append(" current=");
    line.append(&entry.current_version);
    line.append(" latest=");
    line.append(&entry.latest_version);
    line.append(" pinned=");
    line.append(write_flag(entry.pinned));
    line.append(" status=");
    line.append(
        if entry.update_needed {
            "update-needed"
        } else {
            "current"
        },
    );
    line
}

/// What is said of the state of a dependency.
pub open spec fn status_label(entry: EntryView) -> Seq<char> {
    if !entry.managed {
        "unmanaged"@
    } else if entry.update_needed {
        "update-needed"@
    } else {
        "current"@
    }
}

/// What is said of the state of a dependency.
pub fn cargo_status_label(entry: &CargoDependencyEntry) -> (result: &'static str)
    ensures
        result@ == status_label(entry@),
{
    if !entry.managed {
        "unmanaged"
    } else if entry.update_needed {
        "update-needed"
    } else {
        "current"
    }
}

/// A text, and `n/a` where there is none.
pub open spec fn or_not_available(text: Option<Seq<char>>) -> Seq<char> {
    match text {
        Some(text) => text,
        None => "n/a"@,
    }
}

fn text_or_not_available(text: &Option<String>) -> (result: String)
    ensures
        result@ == or_not_available(option_view(*text)),
{
    match text {
        Some(text) => text.clone(),
        None => "n/a".to_owned(),
    }
}

/// The line for a dependency.
pub open spec fn dependency_status_line(entry: EntryView) -> Seq<char> {
    let reason = match entry.reason {
        Some(reason) => " reason="@ + reason,
        None => Seq::empty(),
    };
    "- "@ + entry.file + " "@ + entry.dependency_name + " current="@ + or_not_available(
        entry.current_requirement,
    ) + " latest="@ + or_not_available(entry.latest_version) + " managed="@ + flag_text(
        entry.managed,
    ) + " status="@ + status_label(entry) + reason
}

fn write_dependency_status(entry: &CargoDependencyEntry) -> (result: String)
    ensures
        result@ == dependency_status_line(entry@),
{
    let reason = match &entry.reason {
        Some(reason) => join_two(" reason=", reason),
        None => String::new(),
    };
    let mut line = join_four("- ", &entry.file, " ", &entry.dependency_name);
    line.append(" current=");
    line.append(&text_or_not_available(&entry.current_requirement));
    line.append(" latest=");
    line.append(&text_or_not_available(&entry.latest_version));
    line.append(" managed=");
    line.append(write_flag(entry.managed));
    line.append(" status=");
    line.append(cargo_status_label(entry));
    line.append(&reason);
    line
}

/// How many actions need a change.
pub open spec fn stale_actions(entries: Seq<VersionEntryView>) -> nat {
    entries.filter(|entry: VersionEntryView| entry.update_needed).len()
}

fn count_stale_actions(entries: &Vec<VersionEntry>) -> (result: usize)
    ensures
        result == stale_actions(views(entries@)),
{
    let ghost all = views(entries@);
    let ghost keep = |entry: VersionEntryView| entry.update_needed;
    let mut count: usize = 0;
    let mut i: usize = 0;
    proof {
        reveal(Seq::filter);
        assert(all.take(0).filter(keep).len() == 0);
    }
    while i < entries.len()
        invariant
            i <= entries.len(),
            count <= i,
            all == views(entries@),
            keep == (|entry: VersionEntryView| entry.update_needed),
            count == all.take(i as int).filter(keep).len(),
        decreases entries.len() - i,
    {
        proof {
            reveal(Seq::filter);
            assert(all.take(i + 1).drop_last() == all.take(i as int));
            assert(all.take(i + 1).last() == entries@[i as int]@);
        }
        if entries[i].update_needed {
            count = count + 1;
        }
        i = i + 1;
    }
    assert(all.take(i as int) == all);
    count
}

/// How many dependencies need a change.
pub open spec fn stale_dependencies(entries: Seq<EntryView>) -> nat {
    entries.filter(|entry: EntryView| entry.update_needed).len()
}

fn count_stale_dependencies(entries: &Vec<CargoDependencyEntry>) -> (result: usize)
    ensures
        result == stale_dependencies(views(entries@)),
{
    let ghost all = views(entries@);
    let ghost keep = |entry: EntryView| entry.update_needed;
    let mut count: usize = 0;
    let mut i: usize = 0;
    proof {
        reveal(Seq::filter);
        assert(all.take(0).filter(keep).len() == 0);
    }
    while i < entries.len()
        invariant
            i <= entries.len(),
            count <= i,
            all == views(entries@),
            keep == (|entry: EntryView| entry.update_needed),
            count == all.take(i as int).filter(keep).len(),
        decreases entries.len() - i,
    {
        proof {
            reveal(Seq::filter);
            assert(all.take(i + 1).drop_last() == all.take(i as int));
            assert(all.take(i + 1).last() == entries@[i as int]@);
        }
        if entries[i].update_needed {
            count = count + 1;
        }
        i = i + 1;
    }
    assert(all.take(i as int) == all);
    count
}

/// The lines for the actions.
pub fn action_status_lines(entries: &Vec<VersionEntry>) -> (result: Vec<String>)
    ensures
        views(result@) == views(entries@).map_values(
            |item: VersionEntryView| action_status_line(item),
        ),
{
    let ghost all = views(entries@);
    let ghost line_of = |item: VersionEntryView| action_status_line(item);
    let mut lines: Vec<String> = Vec::new();
    let mut i: usize = 0;
    assert(views(lines@) == all.take(0).map_values(line_of));
    while i < entries.len()
        invariant
            i <= entries.len(),
            all == views(entries@),
            line_of == (|item: VersionEntryView| action_status_line(item)),
            views(lines@) == all.take(i as int).map_values(line_of),
        decreases entries.len() - i,
    {
        let ghost before = views(lines@);
        lines.push(write_action_status(&entries[i]));
        proof {
            assert(all.take(i + 1) == all.take(i as int).push(entries@[i as int]@));
            assert(views(lines@) == before.push(action_status_line(entries@[i as int]@)));
            assert(views(lines@) == all.take(i + 1).map_values(line_of));
        }
        i = i + 1;
    }
    assert(all.take(i as int) == all);
    lines
}

/// The lines for the dependencies.
pub fn dependency_status_lines(entries: &Vec<CargoDependencyEntry>) -> (result: Vec<String>)
    ensures
        views(result@) == views(entries@).map_values(
            |item: EntryView| dependency_status_line(item),
        ),
{
    let ghost all = views(entries@);
    let ghost line_of = |item: EntryView| dependency_status_line(item);
    let mut lines: Vec<String> = Vec::new();
    let mut i: usize = 0;
    assert(views(lines@) == all.take(0).map_values(line_of));
    while i < entries.len()
        invariant
            i <= entries.len(),
            all == views(entries@),
            line_of == (|item: EntryView| dependency_status_line(item)),
            views(lines@) == all.take(i as int).map_values(line_of),
        decreases entries.len() - i,
    {
        let ghost before = views(lines@);
        lines.push(write_dependency_status(&entries[i]));
        proof {
            assert(all.take(i + 1) == all.take(i as int).push(entries@[i as int]@));
            assert(views(lines@) == before.push(dependency_status_line(entries@[i as int]@)));
            assert(views(lines@) == all.take(i + 1).map_values(line_of));
        }
        i = i + 1;
    }
    assert(all.take(i as int) == all);
    lines
}

/// The line above the actions.
pub open spec fn action_status_headline(report: UpdateReport) -> Seq<char> {
    "Scanned "@ + decimal(report.references_scanned as nat) + " action references across "@
        + decimal(report.workflow_files as nat) + " workflow files. "@ + decimal(
        stale_actions(views(report.entries@)),
    ) + " need changes."@
}

/// The line above the actions.
pub fn write_action_status_headline(report: &UpdateReport) -> (result: String)
    ensures
        result@ == action_status_headline(*report),
{
    let mut line = join_four(
        "Scanned ",
        &number_text(report.references_scanned),
        " action references across ",
        &number_text(report.workflow_files),
    );
    line.append(" workflow files. ");
    line.append(&number_text(count_stale_actions(&report.entries)));
    line.append(" need changes.");
    line
}

/// The line above the dependencies.
pub open spec fn dependency_status_headline(report: CargoUpdateReport) -> Seq<char> {
    "Scanned "@ + decimal(report.dependencies_scanned as nat) + " cargo dependencies across "@
        + decimal(report.manifest_files as nat) + " manifests. "@ + decimal(
        stale_dependencies(views(report.entries@)),
    ) + " need changes; "@ + decimal(report.unmanaged_dependencies as nat) + " are unmanaged."@
}

/// The line above the dependencies.
pub fn write_dependency_status_headline(report: &CargoUpdateReport) -> (result: String)
    ensures
        result@ == dependency_status_headline(*report),
{
    let mut line = join_four(
        "Scanned ",
        &number_text(report.dependencies_scanned),
        " cargo dependencies across ",
        &number_text(report.manifest_files),
    );
    line.append(" manifests. ");
    line.append(&number_text(count_stale_dependencies(&report.entries)));
    line.append(" need changes; ");
    line.append(&number_text(report.unmanaged_dependencies));
    line.append(" are unmanaged.");
    line
}

// ---------------------------------------------------------------------------
// Policy
// ---------------------------------------------------------------------------
/// The line for a script.
pub open spec fn script_line(usage: ScriptUsageView) -> Seq<char> {
    let kind = match usage.script_type {
        ScriptType::Bash => "bash"@,
        ScriptType::Python => "python"@,
    };
    "- "@ + usage.file + ":"@ + decimal(usage.line_number) + " "@ + kind + " "@ + usage.context
}

fn write_script_line(usage: &ScriptUsage) -> (result: String)
    ensures
        result@ == script_line(usage@),
{
    let kind = match usage.script_type {
        ScriptType::Bash => "bash",
        ScriptType::Python => "python",
    };
    let mut line = join_four("- ", &usage.file, ":", &number_text(usage.line_number));
    line.append(" ");
    line.append(kind);
    line.append(" ");
    line.append(&usage.context);
    line
}

/// The line for a policy finding.
pub open spec fn violation_line(violation: ViolationView) -> Seq<char> {
    let severity = match violation.severity {
        PolicySeverity::High => "high"@,
        PolicySeverity::Medium => "medium"@,
        PolicySeverity::Low => "low"@,
    };
    "- "@ + violation.file + ":"@ + decimal(violation.line_number) + " "@ + severity + " "@
        + violation.description
}

fn write_violation_line(violation: &PolicyViolation) -> (result: String)
    ensures
        result@ == violation_line(violation@),
{
    let severity = match violation.severity {
        PolicySeverity::High => "high",
        PolicySeverity::Medium => "medium",
        PolicySeverity::Low => "low",
    };
    let mut line = join_four("- ", &violation.file, ":", &number_text(violation.line_number));
    line.append(" ");
    line.append(severity);
    line.append(" ");
    line.append(&violation.description);
    line
}

/// The lines for the scripts.
pub fn script_lines(usages: &Vec<ScriptUsage>) -> (result: Vec<String>)
    ensures
        views(result@) == views(usages@).map_values(|item: ScriptUsageView| script_line(item)),
{
    let ghost all = views(usages@);
    let ghost line_of = |item: ScriptUsageView| script_line(item);
    let mut lines: Vec<String> = Vec::new();
    let mut i: usize = 0;
    assert(views(lines@) == all.take(0).map_values(line_of));
    while i < usages.len()
        invariant
            i <= usages.len(),
            all == views(usages@),
            line_of == (|item: ScriptUsageView| script_line(item)),
            views(lines@) == all.take(i as int).map_values(line_of),
        decreases usages.len() - i,
    {
        let ghost before = views(lines@);
        lines.push(write_script_line(&usages[i]));
        proof {
            assert(all.take(i + 1) == all.take(i as int).push(usages@[i as int]@));
            assert(views(lines@) == before.push(script_line(usages@[i as int]@)));
            assert(views(lines@) == all.take(i + 1).map_values(line_of));
        }
        i = i + 1;
    }
    assert(all.take(i as int) == all);
    lines
}

/// The lines for the policy findings.
pub fn violation_lines(violations: &Vec<PolicyViolation>) -> (result: Vec<String>)
    ensures
        views(result@) == views(violations@).map_values(|item: ViolationView| violation_line(item)),
{
    let ghost all = views(violations@);
    let ghost line_of = |item: ViolationView| violation_line(item);
    let mut lines: Vec<String> = Vec::new();
    let mut i: usize = 0;
    assert(views(lines@) == all.take(0).map_values(line_of));
    while i < violations.len()
        invariant
            i <= violations.len(),
            all == views(violations@),
            line_of == (|item: ViolationView| violation_line(item)),
            views(lines@) == all.take(i as int).map_values(line_of),
        decreases violations.len() - i,
    {
        let ghost before = views(lines@);
        lines.push(write_violation_line(&violations[i]));
        proof {
            assert(all.take(i + 1) == all.take(i as int).push(violations@[i as int]@));
            assert(views(lines@) == before.push(violation_line(violations@[i as int]@)));
            assert(views(lines@) == all.take(i + 1).map_values(line_of));
        }
        i = i + 1;
    }
    assert(all.take(i as int) == all);
    lines
}

/// The line above the findings.
pub open spec fn policy_headline(report: PolicyReport) -> Seq<char> {
    "Scanned "@ + decimal(report.workflow_files as nat) + " workflow files. Found "@ + decimal(
        report.script_usages@.len(),
    ) + " script usages and "@ + decimal(report.policy_violations@.len()) + " policy findings."@
}

/// The line above the findings.
pub fn write_policy_headline(report: &PolicyReport) -> (result: String)
    ensures
        result@ == policy_headline(*report),
{
    let mut line = join_four(
        "Scanned ",
        &number_text(report.workflow_files),
        " workflow files. Found ",
        &number_text(report.script_usages.len()),
    );
    line.append(" script usages and ");
    line.append(&number_text(report.policy_violations.len()));
    line.append(" policy findings.");
    line
}

/// Whether `policy` fails: where findings are to fail it and there is one.
pub fn policy_fails(report: &PolicyReport, fail_on_findings: bool) -> (result: bool)
    ensures
        result == (fail_on_findings && (report.script_usages@.len() > 0
            || report.policy_violations@.len() > 0)),
{
    fail_on_findings && report.has_findings()
}

// ---------------------------------------------------------------------------
// Releases
// ---------------------------------------------------------------------------
/// A line, where there is something to put in it.
pub open spec fn line_for(first: Seq<char>, text: Option<Seq<char>>) -> Seq<Seq<char>> {
    match text {
        Some(text) => seq![first + text],
        None => Seq::empty(),
    }
}

/// A line for each of the files.
pub open spec fn file_lines(first: Seq<char>, files: Seq<Seq<char>>) -> Seq<Seq<char>> {
    files.map_values(|file: Seq<char>| first + file)
}

/// The two versions of a report.
pub open spec fn version_step(report: ReleaseView) -> Seq<char> {
    "("@ + report.current_version + " -> "@ + or_nothing(report.next_version) + ")"@
}

/// The line that says where the notes are.
pub open spec fn notes_line(notes_file: Seq<char>) -> Seq<char> {
    "- release notes written to "@ + notes_file
}

/// The lines of a report, but for a remark on the commits.
pub open spec fn outcome_lines(report: ReleaseView, notes_file: Seq<char>) -> Seq<Seq<char>> {
    let tag = or_nothing(report.tag);
    let updated = file_lines("- updated "@, report.files_updated);
    match report.outcome {
        ReleaseOutcome::Released => seq![
            "Released "@ + tag + " "@ + version_step(report) + "."@,
        ] + line_for("- release commit "@, report.commit_sha) + line_for(
            "- moved major alias tag "@,
            report.major_alias,
        ) + line_for("- release "@, report.release_url) + updated + seq![notes_line(notes_file)],
        ReleaseOutcome::VersionCommitted => seq![
            "Committed version "@ + or_nothing(report.next_version) + " "@ + version_step(report)
                + "; tag and release are still pending."@,
        ] + line_for("- version commit "@, report.commit_sha) + updated + seq![
            "- publish the runtime image for this commit, then re-run with --phase tag"@,
        ],
        ReleaseOutcome::PullRequestCreated => seq![
            "Created automated release PR for "@ + tag + " "@ + version_step(report) + "."@,
        ] + line_for("- release branch "@, report.release_branch) + line_for(
            "- pull request "@,
            report.pull_request_url,
        ) + updated + seq![notes_line(notes_file)],
        ReleaseOutcome::PullRequestUpdated => seq![
            "Updated automated release PR for "@ + tag + " "@ + version_step(report) + "."@,
        ] + line_for("- release branch "@, report.release_branch) + line_for(
            "- pull request "@,
            report.pull_request_url,
        ) + updated + seq![notes_line(notes_file)],
        ReleaseOutcome::DryRun => seq![
            "Dry run: would release "@ + tag + " "@ + version_step(report) + "."@,
        ] + file_lines("- would update "@, report.files_updated) + seq![notes_line(notes_file)],
        ReleaseOutcome::SkippedNoReleasableChanges => seq![
            "No release needed: "@ + decimal(report.commits_analyzed)
                + " commits since the last release contain no feat, fix, or breaking changes."@,
        ],
        ReleaseOutcome::SkippedRace => seq![
            "Skipped release: the branch advanced past the analyzed commit. Re-run against the new head."@,
        ],
        ReleaseOutcome::SkippedTagExists => seq![
            "Skipped release: tag "@ + tag
                + " already exists. If its GitHub Release is missing, create it manually."@,
        ],
    }
}

/// The lines of a report.
pub open spec fn release_lines(report: ReleaseView, notes_file: Seq<char>) -> Seq<Seq<char>> {
    if report.commit_range_truncated {
        outcome_lines(report, notes_file).push(
            "- note: the analyzed commit list was truncated; release notes may be incomplete."@,
        )
    } else {
        outcome_lines(report, notes_file)
    }
}

fn push_line(lines: &mut Vec<String>, line: String)
    ensures
        views(final(lines)@) == views(old(lines)@) + seq![line@],
{
    lines.push(line);
    assert(views(lines@) == views(old(lines)@) + seq![line@]);
}

fn push_line_for(lines: &mut Vec<String>, first: &str, text: &Option<String>)
    ensures
        views(final(lines)@) == views(old(lines)@) + line_for(first@, option_view(*text)),
{
    match text {
        Some(text) => push_line(lines, join_two(first, text)),
        None => {
            assert(views(lines@) == views(old(lines)@) + Seq::<Seq<char>>::empty());
        },
    }
}

fn push_file_lines(lines: &mut Vec<String>, first: &str, files: &Vec<String>)
    ensures
        views(final(lines)@) == views(old(lines)@) + file_lines(first@, views(files@)),
{
    let ghost before = views(lines@);
    let ghost all = views(files@);
    let mut i: usize = 0;
    assert(before + file_lines(first@, all.take(0)) == before);
    while i < files.len()
        invariant
            i <= files.len(),
            all == views(files@),
            views(lines@) == before + file_lines(first@, all.take(i as int)),
        decreases files.len() - i,
    {
        let ghost so_far = views(lines@);
        lines.push(join_two(first, &files[i]));
        proof {
            assert(views(lines@) == so_far.push(first@ + files@[i as int]@));
            assert(all.take(i + 1) == all.take(i as int).push(files@[i as int]@));
            assert(views(lines@) == before + file_lines(first@, all.take(i + 1)));
        }
        i = i + 1;
    }
    assert(all.take(i as int) == all);
}

fn text_or_nothing(text: &Option<String>) -> (result: String)
    ensures
        result@ == or_nothing(option_view(*text)),
{
    match text {
        Some(text) => text.clone(),
        None => String::new(),
    }
}

fn write_version_step(report: &ReleaseReport) -> (result: String)
    ensures
        result@ == version_step(report@),
{
    join_five("(", &report.current_version, " -> ", &text_or_nothing(&report.next_version), ")")
}

fn write_headline(first: &str, name: &str, report: &ReleaseReport, last: &str) -> (result: String)
    ensures
        result@ == first@ + name@ + " "@ + version_step(report@) + last@,
{
    join_five(first, name, " ", &write_version_step(report), last)
}

/// What `release` prints.
pub fn release_summary(report: &ReleaseReport, notes_file: &str) -> (result: Vec<String>)
    ensures
        views(result@) == release_lines(report@, notes_file@),
{
    let tag = text_or_nothing(&report.tag);
    let mut lines: Vec<String> = Vec::new();
    assert(views(lines@) == Seq::<Seq<char>>::empty());
    match report.outcome {
        ReleaseOutcome::Released => {
            lines.push(write_headline("Released ", &tag, report, "."));
            assert(
                views(lines@) == seq!["Released "@ + tag@ + " "@ + version_step(report@) + "."@]
            );
            push_line_for(&mut lines, "- release commit ", &report.commit_sha);
            push_line_for(&mut lines, "- moved major alias tag ", &report.major_alias);
            push_line_for(&mut lines, "- release ", &report.release_url);
            push_file_lines(&mut lines, "- updated ", &report.files_updated);
            push_line(&mut lines, join_two("- release notes written to ", notes_file));
        },
        ReleaseOutcome::VersionCommitted => {
            let next = text_or_nothing(&report.next_version);
            lines.push(
                write_headline(
                    "Committed version ",
                    &next,
                    report,
                    "; tag and release are still pending.",
                ),
            );
            assert(views(lines@) == seq![
                "Committed version "@ + next@ + " "@ + version_step(report@)
                    + "; tag and release are still pending."@,
            ]);
            push_line_for(&mut lines, "- version commit ", &report.commit_sha);
            push_file_lines(&mut lines, "- updated ", &report.files_updated);
            push_line(
                &mut lines,
                "- publish the runtime image for this commit, then re-run with --phase tag".to_owned(),
            );
        },
        ReleaseOutcome::PullRequestCreated | ReleaseOutcome::PullRequestUpdated => {
            let first = if report.outcome == ReleaseOutcome::PullRequestCreated {
                "Created automated release PR for "
            } else {
                "Updated automated release PR for "
            };
            lines.push(write_headline(first, &tag, report, "."));
            assert(views(lines@) == seq![first@ + tag@ + " "@ + version_step(report@) + "."@]);
            push_line_for(&mut lines, "- release branch ", &report.release_branch);
            push_line_for(&mut lines, "- pull request ", &report.pull_request_url);
            push_file_lines(&mut lines, "- updated ", &report.files_updated);
            push_line(&mut lines, join_two("- release notes written to ", notes_file));
        },
        ReleaseOutcome::DryRun => {
            lines.push(write_headline("Dry run: would release ", &tag, report, "."));
            assert(views(lines@) == seq![
                "Dry run: would release "@ + tag@ + " "@ + version_step(report@) + "."@,
            ]);
            push_file_lines(&mut lines, "- would update ", &report.files_updated);
            push_line(&mut lines, join_two("- release notes written to ", notes_file));
        },
        ReleaseOutcome::SkippedNoReleasableChanges => {
            lines.push(
                join_three(
                    "No release needed: ",
                    &number_text(report.commits_analyzed),
                    " commits since the last release contain no feat, fix, or breaking changes.",
                ),
            );
        },
        ReleaseOutcome::SkippedRace => {
            lines.push(
                "Skipped release: the branch advanced past the analyzed commit. Re-run against the new head.".to_owned(),
            );
        },
        ReleaseOutcome::SkippedTagExists => {
            lines.push(
                join_three(
                    "Skipped release: tag ",
                    &tag,
                    " already exists. If its GitHub Release is missing, create it manually.",
                ),
            );
        },
    }
    assert(views(lines@) == outcome_lines(report@, notes_file@));
    if report.commit_range_truncated {
        let ghost before = views(lines@);
        lines.push(
            "- note: the analyzed commit list was truncated; release notes may be incomplete.".to_owned(),
        );
        assert(views(lines@) == before.push(
            "- note: the analyzed commit list was truncated; release notes may be incomplete."@,
        ));
    }
    lines
}

} // verus!
