//! The baseline policy for workflow files: pinned actions, explicit and narrow
//! permissions, and job timeouts. Scanning changes nothing.

use vstd::prelude::*;

use crate::model::{
    ActionView, PolicySeverity, PolicyViolation, PolicyViolationType, ScriptType, ScriptUsage,
    ScriptUsageView, ViolationView,
};
use crate::pattern::{
    group_text, groups, groups_view, job_field, job_line, or_empty, permission_entry,
    permissions_line, top_level_key, yaml_key, JOB_FIELD, JOB_LINE, PERMISSIONS_LINE,
    PERMISSION_ENTRY, TOP_LEVEL_KEY, YAML_KEY,
};
use crate::scripts::{scan_workflow_scripts, usages_on};
use crate::text::{
    begins, blank, characters, contains_text, holds, is_blank, join_three, lines, lines_of,
    option_view, same, starts_with, trim, trimmed, views,
};
use crate::workflow::{actions_of, scan_workflow, WorkflowFile, WorkflowFileView};

verus! {

/// What is to be scanned, and for what.
#[derive(Debug, Clone, PartialEq, Eq)]
pub struct PolicyOptions {
    pub repo_root: String,
    pub workflows_path: String,
    pub check_scripts: bool,
    pub check_policies: bool,
}

/// How many findings there are of each sort.
#[derive(Debug, Clone, Copy, PartialEq, Eq, Default, Structural)]
pub struct PolicySummary {
    pub total_scripts: usize,
    pub bash_scripts: usize,
    pub python_scripts: usize,
    pub high_violations: usize,
    pub medium_violations: usize,
    pub low_violations: usize,
}

/// What scanning found.
#[derive(Debug, Clone, PartialEq, Eq)]
pub struct PolicyReport {
    pub workflow_files: usize,
    pub script_usages: Vec<ScriptUsage>,
    pub policy_violations: Vec<PolicyViolation>,
    pub summary: PolicySummary,
}

impl PolicyReport {
    /// Whether there is any finding.
    pub fn has_findings(&self) -> (result: bool)
        ensures
            result == (self.script_usages@.len() > 0 || self.policy_violations@.len() > 0),
    {
        self.script_usages.len() > 0 || self.policy_violations.len() > 0
    }
}

/// Scans workflow files.
#[derive(Debug, Clone, Copy, PartialEq, Eq, Default, Structural)]
pub struct PolicyScanner;

// ---------------------------------------------------------------------------
// Pinning
// ---------------------------------------------------------------------------
/// The finding for an action that is not pinned.
pub open spec fn unpinned_finding(action: ActionView) -> ViolationView {
    ViolationView {
        file: action.file,
        line_number: action.line_number,
        violation_type: PolicyViolationType::UnpinnedAction,
        severity: PolicySeverity::High,
        description: "external action '"@ + action.action_slug
            + "' should be pinned to a full 40-character commit SHA"@,
        context: action.original_line,
    }
}

/// The findings for the actions that are not pinned.
pub open spec fn unpinned_findings(actions: Seq<ActionView>) -> Seq<ViolationView> {
    actions.filter(|action: ActionView| !action.is_pinned()).map_values(
        |action: ActionView| unpinned_finding(action),
    )
}

// ---------------------------------------------------------------------------
// Permissions
// ---------------------------------------------------------------------------
/// A finding about permissions.
pub open spec fn permission_finding(
    path: Seq<char>,
    number: nat,
    severity: PolicySeverity,
    description: Seq<char>,
    line: Seq<char>,
) -> ViolationView {
    ViolationView {
        file: path,
        line_number: number,
        violation_type: PolicyViolationType::ExcessivePermissions,
        severity,
        description,
        context: line,
    }
}

/// How many spaces the line begins with.
pub open spec fn indentation(line: Seq<char>) -> nat
    decreases line.len(),
{
    if line.len() > 0 && line[0] == ' ' {
        1 + indentation(line.skip(1))
    } else {
        0
    }
}

/// The line is a key that does not belong to the block.
pub open spec fn closes_block(line: Seq<char>, block: nat) -> bool {
    !is_blank(line) && indentation(line) <= block && yaml_key(line) is Some
}

/// The finding for an entry of a permissions block.
pub open spec fn entry_findings(
    path: Seq<char>,
    line: Seq<char>,
    number: nat,
    block: Option<nat>,
) -> Seq<ViolationView> {
    match (block, permission_entry(line)) {
        (Some(column), Some(parts)) => {
            let scope = or_empty(parts[0]);
            if !closes_block(line, column) && or_empty(parts[1]) == "write"@ {
                seq![
                    permission_finding(
                        path,
                        number,
                        if scope == "id-token"@ {
                            PolicySeverity::Low
                        } else {
                            PolicySeverity::Medium
                        },
                        "permission '"@ + scope + ": write' should be minimized or justified"@,
                        line,
                    ),
                ]
            } else {
                Seq::empty()
            }
        },
        _ => Seq::empty(),
    }
}

/// The finding for permissions that are given in one word.
pub open spec fn shorthand_findings(path: Seq<char>, line: Seq<char>, number: nat) -> Seq<
    ViolationView,
> {
    match permissions_line(line) {
        Some(parts) => {
            let value = trim(or_empty(parts[1]));
            if value == "write-all"@ {
                seq![
                    permission_finding(
                        path,
                        number,
                        PolicySeverity::High,
                        "permissions should not use write-all"@,
                        line,
                    ),
                ]
            } else if contains_text(value, "write"@) {
                seq![
                    permission_finding(
                        path,
                        number,
                        PolicySeverity::Medium,
                        "permission shorthand '"@ + value + "' should be reviewed"@,
                        line,
                    ),
                ]
            } else {
                Seq::empty()
            }
        },
        None => Seq::empty(),
    }
}

/// The column of the permissions block that is open behind a line.
pub open spec fn block_behind(line: Seq<char>, block: Option<nat>) -> Option<nat> {
    match permissions_line(line) {
        Some(parts) => if trim(or_empty(parts[1])).len() == 0 {
            Some(or_empty(parts[0]).len())
        } else {
            block_kept(line, block)
        },
        None => block_kept(line, block),
    }
}

/// The block, unless the line closes it.
pub open spec fn block_kept(line: Seq<char>, block: Option<nat>) -> Option<nat> {
    match block {
        Some(column) => if closes_block(line, column) {
            None
        } else {
            block
        },
        None => None,
    }
}

/// The column of the permissions block that is open behind the lines.
pub open spec fn open_permissions(all: Seq<Seq<char>>) -> Option<nat>
    decreases all.len(),
{
    if all.len() == 0 {
        None
    } else {
        block_behind(all.last(), open_permissions(all.drop_last()))
    }
}

/// The findings about the permissions that the lines give.
pub open spec fn given_findings(path: Seq<char>, all: Seq<Seq<char>>) -> Seq<ViolationView>
    decreases all.len(),
{
    if all.len() == 0 {
        Seq::empty()
    } else {
        given_findings(path, all.drop_last()) + entry_findings(
            path,
            all.last(),
            all.len(),
            open_permissions(all.drop_last()),
        ) + shorthand_findings(path, all.last(), all.len())
    }
}

/// The line declares permissions at the left margin.
pub open spec fn declares_permissions(line: Seq<char>) -> bool {
    permissions_line(line) matches Some(parts) && or_empty(parts[0]).len() == 0
}

/// Some line declares permissions at the left margin.
pub open spec fn has_top_level_permissions(all: Seq<Seq<char>>) -> bool {
    exists|i: int| 0 <= i < all.len() && declares_permissions(#[trigger] all[i])
}

/// The findings about permissions.
pub open spec fn permission_findings(path: Seq<char>, all: Seq<Seq<char>>) -> Seq<ViolationView> {
    if has_top_level_permissions(all) {
        given_findings(path, all)
    } else {
        given_findings(path, all).push(
            ViolationView {
                file: path,
                line_number: 1,
                violation_type: PolicyViolationType::MissingPermissions,
                severity: PolicySeverity::Medium,
                description: "workflow should declare explicit top-level permissions"@,
                context: Seq::empty(),
            },
        )
    }
}

// ---------------------------------------------------------------------------
// Timeouts
// ---------------------------------------------------------------------------
/// A job as far as it was read.
pub struct JobView {
    pub name: Seq<char>,
    pub line_number: nat,
    pub context: Seq<char>,
    pub has_timeout: bool,
    pub has_runnable_content: bool,
}

/// What was read: whether the jobs were reached, and the job that is open.
pub struct JobsView {
    pub in_jobs: bool,
    pub job: Option<JobView>,
}

/// The finding for a job that runs something without a timeout.
pub open spec fn job_findings(path: Seq<char>, job: Option<JobView>) -> Seq<ViolationView> {
    match job {
        Some(job) => if job.has_runnable_content && !job.has_timeout {
            seq![
                ViolationView {
                    file: path,
                    line_number: job.line_number,
                    violation_type: PolicyViolationType::MissingTimeoutMinutes,
                    severity: PolicySeverity::Medium,
                    description: "job '"@ + job.name + "' should declare timeout-minutes"@,
                    context: job.context,
                },
            ]
        } else {
            Seq::empty()
        },
        None => Seq::empty(),
    }
}

/// The line is a key at the left margin behind the jobs.
pub open spec fn leaves_jobs(line: Seq<char>, before: JobsView) -> bool {
    before.in_jobs && !starts_with(line, "jobs:"@) && top_level_key(line) is Some
}

/// The line opens a job.
pub open spec fn opens_job(line: Seq<char>, before: JobsView) -> bool {
    before.in_jobs && !starts_with(line, "jobs:"@) && top_level_key(line) is None && job_line(
        line,
    ) is Some
}

/// A job after a line that belongs to it.
pub open spec fn job_with(line: Seq<char>, job: JobView) -> JobView {
    match job_field(line) {
        Some(parts) => {
            let field = or_empty(parts[0]);
            if field == "timeout-minutes"@ {
                JobView { has_timeout: true, ..job }
            } else if field == "runs-on"@ || field == "steps"@ {
                JobView { has_runnable_content: true, ..job }
            } else {
                job
            }
        },
        None => job,
    }
}

/// What was read behind a line.
pub open spec fn jobs_behind(line: Seq<char>, number: nat, before: JobsView) -> JobsView {
    if starts_with(line, "jobs:"@) {
        JobsView { in_jobs: true, job: before.job }
    } else if leaves_jobs(line, before) {
        JobsView { in_jobs: false, job: None }
    } else if opens_job(line, before) {
        JobsView {
            in_jobs: true,
            job: Some(
                JobView {
                    name: or_empty(job_line(line)->0[0]),
                    line_number: number,
                    context: line,
                    has_timeout: false,
                    has_runnable_content: false,
                },
            ),
        }
    } else if before.in_jobs && before.job is Some {
        JobsView { in_jobs: true, job: Some(job_with(line, before.job->0)) }
    } else {
        before
    }
}

/// What was read behind the lines.
pub open spec fn jobs_read(all: Seq<Seq<char>>) -> JobsView
    decreases all.len(),
{
    if all.len() == 0 {
        JobsView { in_jobs: false, job: None }
    } else {
        jobs_behind(all.last(), all.len(), jobs_read(all.drop_last()))
    }
}

/// The findings for the jobs that ended on the lines.
pub open spec fn ended_jobs(path: Seq<char>, all: Seq<Seq<char>>) -> Seq<ViolationView>
    decreases all.len(),
{
    if all.len() == 0 {
        Seq::empty()
    } else {
        let before = jobs_read(all.drop_last());
        let found = ended_jobs(path, all.drop_last());
        if leaves_jobs(all.last(), before) || opens_job(all.last(), before) {
            found + job_findings(path, before.job)
        } else {
            found
        }
    }
}

/// The findings about timeouts.
pub open spec fn timeout_findings(path: Seq<char>, all: Seq<Seq<char>>) -> Seq<ViolationView> {
    ended_jobs(path, all) + job_findings(path, jobs_read(all).job)
}

// ---------------------------------------------------------------------------
// Files
// ---------------------------------------------------------------------------
/// The policy findings of a file.
pub open spec fn findings_of(file: WorkflowFileView) -> Seq<ViolationView> {
    unpinned_findings(actions_of(file)) + permission_findings(file.path, lines(file.content))
        + timeout_findings(file.path, lines(file.content))
}

/// The policy findings of the files.
pub open spec fn all_findings(files: Seq<WorkflowFileView>) -> Seq<ViolationView>
    decreases files.len(),
{
    if files.len() == 0 {
        Seq::empty()
    } else {
        all_findings(files.drop_last()) + findings_of(files.last())
    }
}

/// The scripts that the files run.
pub open spec fn all_usages(files: Seq<WorkflowFileView>) -> Seq<ScriptUsageView>
    decreases files.len(),
{
    if files.len() == 0 {
        Seq::empty()
    } else {
        all_usages(files.drop_last()) + usages_on(files.last().path, lines(files.last().content))
    }
}

/// How many uses are of the language.
pub open spec fn count_scripts(usages: Seq<ScriptUsageView>, script_type: ScriptType) -> nat
    decreases usages.len(),
{
    if usages.len() == 0 {
        0
    } else {
        count_scripts(usages.drop_last(), script_type) + if usages.last().script_type
            == script_type {
            1nat
        } else {
            0
        }
    }
}

/// How many findings are of the severity.
pub open spec fn count_severity(findings: Seq<ViolationView>, severity: PolicySeverity) -> nat
    decreases findings.len(),
{
    if findings.len() == 0 {
        0
    } else {
        count_severity(findings.drop_last(), severity) + if findings.last().severity == severity {
            1nat
        } else {
            0
        }
    }
}

fn leading_spaces(value: &str) -> (result: usize)
    ensures
        result == indentation(value@),
{
    let chars = characters(value);
    let mut i: usize = 0;
    assert(chars@.skip(0) == chars@);
    while i < chars.len() && chars[i] == ' '
        invariant
            i <= chars.len(),
            indentation(chars@) == i + indentation(chars@.skip(i as int)),
        decreases chars.len() - i,
    {
        assert(chars@.skip(i as int).skip(1) == chars@.skip(i + 1));
        i = i + 1;
    }
    i
}

fn push_finding(
    path: &str,
    number: usize,
    severity: PolicySeverity,
    description: String,
    line: &str,
    violations: &mut Vec<PolicyViolation>,
)
    ensures
        views(final(violations)@) == views(old(violations)@).push(
            permission_finding(path@, number as nat, severity, description@, line@),
        ),
{
    let ghost before = violations@;
    let found = PolicyViolation {
        file: path.to_owned(),
        line_number: number,
        violation_type: PolicyViolationType::ExcessivePermissions,
        severity,
        description,
        context: line.to_owned(),
    };
    violations.push(found);
    assert(views(violations@) == views(before).push(found@));
}

fn push_permissions_shorthand_violation(
    path: &str,
    number: usize,
    value: &str,
    line: &str,
    violations: &mut Vec<PolicyViolation>,
)
    requires
        permissions_line(line@) is Some,
        value@ == trim(or_empty(permissions_line(line@)->0[1])),
    ensures
        views(final(violations)@) == views(old(violations)@) + shorthand_findings(
            path@,
            line@,
            number as nat,
        ),
{
    let ghost before = views(violations@);
    if same(value, "write-all") {
        push_finding(
            path,
            number,
            PolicySeverity::High,
            "permissions should not use write-all".to_owned(),
            line,
            violations,
        );
        assert(views(violations@) == before + shorthand_findings(path@, line@, number as nat));
    } else if holds(value, "write") {
        push_finding(
            path,
            number,
            PolicySeverity::Medium,
            join_three("permission shorthand '", value, "' should be reviewed"),
            line,
            violations,
        );
        assert(views(violations@) == before + shorthand_findings(path@, line@, number as nat));
    } else {
        assert(views(violations@) == before + shorthand_findings(path@, line@, number as nat));
    }
}

fn push_permission_value_violation(
    path: &str,
    number: usize,
    scope: &str,
    value: &str,
    line: &str,
    violations: &mut Vec<PolicyViolation>,
)
    ensures
        views(final(violations)@) == views(old(violations)@) + if value@ == "write"@ {
            seq![
                permission_finding(
                    path@,
                    number as nat,
                    if scope@ == "id-token"@ {
                        PolicySeverity::Low
                    } else {
                        PolicySeverity::Medium
                    },
                    "permission '"@ + scope@ + ": write' should be minimized or justified"@,
                    line@,
                ),
            ]
        } else {
            Seq::empty()
        },
{
    let ghost before = views(violations@);
    if !same(value, "write") {
        assert(views(violations@) == before + Seq::<ViolationView>::empty());
        return;
    }
    let severity = if same(scope, "id-token") {
        PolicySeverity::Low
    } else {
        PolicySeverity::Medium
    };
    push_finding(
        path,
        number,
        severity,
        join_three("permission '", scope, ": write' should be minimized or justified"),
        line,
        violations,
    );
    proof {
        let found = permission_finding(
            path@,
            number as nat,
            severity,
            "permission '"@ + scope@ + ": write' should be minimized or justified"@,
            line@,
        );
        assert(before.push(found) == before + seq![found]);
    }
}

/// Whether the line closes a permissions block.
fn closes(line: &str, block: usize) -> (result: bool)
    ensures
        result == closes_block(line@, block as nat),
{
    !blank(line) && leading_spaces(line) <= block && groups(YAML_KEY, line).is_some()
}

/// The findings about permissions: a job or workflow that may write, and a workflow
/// that declares none.
pub fn scan_permission_violations(path: &str, content: &str) -> (result: Vec<PolicyViolation>)
    ensures
        views(result@) == permission_findings(path@, lines(content@)),
{
    let all = lines_of(content);
    let ghost seen = views(all@);
    let mut violations: Vec<PolicyViolation> = Vec::new();
    let mut declared = false;
    let mut block: Option<usize> = None;
    let mut i: usize = 0;
    assert(views(violations@) == Seq::<ViolationView>::empty());
    while i < all.len()
        invariant
            i <= all.len(),
            seen == views(all@),
            views(violations@) == given_findings(path@, seen.take(i as int)),
            declared == has_top_level_permissions(seen.take(i as int)),
            open_permissions(seen.take(i as int)) == (match block {
                Some(column) => Some(column as nat),
                None => None,
            }),
        decreases all.len() - i,
    {
        let ghost line_view = all@[i as int]@;
        proof {
            assert(seen.take(i + 1).drop_last() == seen.take(i as int));
            assert(seen.take(i + 1).last() == line_view);
            lemma_declared(seen, i as int);
            assert(seen[i as int] == line_view);
        }
        let line = &all[i];
        let ghost before = views(violations@);
        let ghost old_block = open_permissions(seen.take(i as int));
        match block {
            Some(column) => {
                if closes(line, column) {
                    block = None;
                } else {
                    match groups(PERMISSION_ENTRY, line) {
                        Some(parts) => {
                            assert(groups_view(Some(parts))->0.len() == 2);
                            assert(groups_view(Some(parts))->0[0] == option_view(parts@[0]));
                            assert(groups_view(Some(parts))->0[1] == option_view(parts@[1]));
                            push_permission_value_violation(
                                path,
                                i + 1,
                                &group_text(&parts[0]),
                                &group_text(&parts[1]),
                                line,
                                &mut violations,
                            );
                        },
                        None => {},
                    }
                }
            },
            None => {},
        }
        let ghost middle = views(violations@);
        assert(middle == before + entry_findings(path@, line_view, (i + 1) as nat, old_block));
        match groups(PERMISSIONS_LINE, line) {
            Some(parts) => {
                assert(groups_view(Some(parts))->0.len() == 2);
                assert(groups_view(Some(parts))->0[0] == option_view(parts@[0]));
                assert(groups_view(Some(parts))->0[1] == option_view(parts@[1]));
                let indent = characters(&group_text(&parts[0])).len();
                if indent == 0 {
                    declared = true;
                }
                let value = trimmed(&group_text(&parts[1]));
                proof {
                    reveal_strlit("");
                    if value@.len() == 0 {
                        assert(value@ == ""@);
                    }
                }
                if same(&value, "") {
                    block = Some(indent);
                    proof {
                        reveal_strlit("write-all");
                        reveal_strlit("write");
                        assert(!contains_text(value@, "write"@));
                        assert(middle == middle + shorthand_findings(
                            path@,
                            line_view,
                            (i + 1) as nat,
                        ));
                    }
                } else {
                    push_permissions_shorthand_violation(
                        path,
                        i + 1,
                        &value,
                        line,
                        &mut violations,
                    );
                }
            },
            None => {
                assert(middle == middle + shorthand_findings(path@, line_view, (i + 1) as nat));
            },
        }
        i = i + 1;
    }
    assert(seen.take(i as int) == seen);
    if !declared {
        let ghost before = violations@;
        let found = PolicyViolation {
            file: path.to_owned(),
            line_number: 1,
            violation_type: PolicyViolationType::MissingPermissions,
            severity: PolicySeverity::Medium,
            description: "workflow should declare explicit top-level permissions".to_owned(),
            context: String::new(),
        };
        violations.push(found);
        assert(found@.context == Seq::<char>::empty());
        assert(views(violations@) == views(before).push(found@));
    }
    violations
}

proof fn lemma_declared(all: Seq<Seq<char>>, i: int)
    requires
        0 <= i < all.len(),
    ensures
        has_top_level_permissions(all.take(i + 1)) == (has_top_level_permissions(all.take(i))
            || declares_permissions(all[i])),
{
    let before = all.take(i);
    let now = all.take(i + 1);
    if has_top_level_permissions(now) && !declares_permissions(all[i]) {
        let k = choose|k: int| 0 <= k < now.len() && declares_permissions(#[trigger] now[k]);
        assert(declares_permissions(before[k]));
    }
    if has_top_level_permissions(before) {
        let k = choose|k: int| 0 <= k < before.len() && declares_permissions(#[trigger] before[k]);
        assert(declares_permissions(now[k]));
    }
    if declares_permissions(all[i]) {
        assert(declares_permissions(now[i]));
    }
}

struct JobState {
    name: String,
    line_number: usize,
    context: String,
    has_timeout: bool,
    has_runnable_content: bool,
}

impl View for JobState {
    type V = JobView;

    closed spec fn view(&self) -> JobView {
        JobView {
            name: self.name@,
            line_number: self.line_number as nat,
            context: self.context@,
            has_timeout: self.has_timeout,
            has_runnable_content: self.has_runnable_content,
        }
    }
}

fn finish_job(path: &str, job: &Option<JobState>, violations: &mut Vec<PolicyViolation>)
    ensures
        views(final(violations)@) == views(old(violations)@) + job_findings(
            path@,
            option_view(*job),
        ),
{
    let ghost before = violations@;
    match job {
        Some(job) => {
            if job.has_runnable_content && !job.has_timeout {
                let found = PolicyViolation {
                    file: path.to_owned(),
                    line_number: job.line_number,
                    violation_type: PolicyViolationType::MissingTimeoutMinutes,
                    severity: PolicySeverity::Medium,
                    description: join_three("job '", &job.name, "' should declare timeout-minutes"),
                    context: job.context.clone(),
                };
                violations.push(found);
                assert(views(violations@) == views(before).push(found@));
                assert(views(before).push(found@) == views(before) + seq![found@]);
            } else {
                assert(views(violations@) == views(before) + Seq::<ViolationView>::empty());
            }
        },
        None => {
            assert(views(violations@) == views(before) + Seq::<ViolationView>::empty());
        },
    }
}

/// The findings about timeouts: jobs that run something without a limit.
pub fn scan_timeout_violations(path: &str, content: &str) -> (result: Vec<PolicyViolation>)
    ensures
        views(result@) == timeout_findings(path@, lines(content@)),
{
    let all = lines_of(content);
    let ghost seen = views(all@);
    let mut violations: Vec<PolicyViolation> = Vec::new();
    let mut in_jobs = false;
    let mut current: Option<JobState> = None;
    let mut i: usize = 0;
    assert(views(violations@) == Seq::<ViolationView>::empty());
    while i < all.len()
        invariant
            i <= all.len(),
            seen == views(all@),
            views(violations@) == ended_jobs(path@, seen.take(i as int)),
            jobs_read(seen.take(i as int)) == (JobsView { in_jobs, job: option_view(current) }),
        decreases all.len() - i,
    {
        proof {
            assert(seen.take(i + 1).drop_last() == seen.take(i as int));
            assert(seen.take(i + 1).last() == all@[i as int]@);
        }
        let line = &all[i];
        if begins(line, "jobs:") {
            in_jobs = true;
        } else if in_jobs {
            if groups(TOP_LEVEL_KEY, line).is_some() {
                finish_job(path, &current, &mut violations);
                current = None;
                in_jobs = false;
            } else {
                match groups(JOB_LINE, line) {
                    Some(parts) => {
                        assert(groups_view(Some(parts))->0.len() == 1);
                        assert(groups_view(Some(parts))->0[0] == option_view(parts@[0]));
                        finish_job(path, &current, &mut violations);
                        current = Some(
                            JobState {
                                name: group_text(&parts[0]),
                                line_number: i + 1,
                                context: line.clone(),
                                has_timeout: false,
                                has_runnable_content: false,
                            },
                        );
                    },
                    None => {
                        current = read_field(line, current);
                    },
                }
            }
        }
        i = i + 1;
    }
    assert(seen.take(i as int) == seen);
    finish_job(path, &current, &mut violations);
    violations
}

/// The job after a line that belongs to it.
fn read_field(line: &str, job: Option<JobState>) -> (result: Option<JobState>)
    ensures
        option_view(result) == (match job {
            Some(job) => Some(job_with(line@, job@)),
            None => None,
        }),
{
    match job {
        Some(job) => match groups(JOB_FIELD, line) {
            Some(parts) => {
                assert(groups_view(Some(parts))->0.len() == 1);
                assert(groups_view(Some(parts))->0[0] == option_view(parts@[0]));
                let field = group_text(&parts[0]);
                if same(&field, "timeout-minutes") {
                    Some(JobState { has_timeout: true, ..job })
                } else if same(&field, "runs-on") || same(&field, "steps") {
                    Some(JobState { has_runnable_content: true, ..job })
                } else {
                    Some(job)
                }
            },
            None => Some(job),
        },
        None => None,
    }
}

/// The policy findings of a file: actions that are not pinned, then permissions,
/// then timeouts.
pub fn scan_policy_violations(file: &WorkflowFile) -> (result: Vec<PolicyViolation>)
    ensures
        views(result@) == findings_of(file@),
{
    let actions = scan_workflow(file);
    let ghost all = views(actions@);
    let ghost keep = |action: ActionView| !action.is_pinned();
    let mut violations: Vec<PolicyViolation> = Vec::new();
    let mut i: usize = 0;
    proof {
        reveal(Seq::filter);
        assert(all.take(0).filter(keep) == Seq::<ActionView>::empty());
        assert(views(violations@) == unpinned_findings(all.take(0)));
    }
    while i < actions.len()
        invariant
            i <= actions.len(),
            all == views(actions@),
            keep == (|action: ActionView| !action.is_pinned()),
            views(violations@) == unpinned_findings(all.take(i as int)),
        decreases actions.len() - i,
    {
        let ghost before = violations@;
        proof {
            reveal(Seq::filter);
            assert(all.take(i + 1).drop_last() == all.take(i as int));
            assert(all.take(i + 1).last() == actions@[i as int]@);
        }
        if !actions[i].is_pinned() {
            let found = PolicyViolation {
                file: actions[i].file.clone(),
                line_number: actions[i].line_number,
                violation_type: PolicyViolationType::UnpinnedAction,
                severity: PolicySeverity::High,
                description: join_three(
                    "external action '",
                    &actions[i].action_slug,
                    "' should be pinned to a full 40-character commit SHA",
                ),
                context: actions[i].original_line.clone(),
            };
            violations.push(found);
            assert(views(violations@) == views(before).push(found@));
            assert(unpinned_findings(all.take(i + 1)) == unpinned_findings(
                all.take(i as int),
            ).push(found@));
        }
        i = i + 1;
    }
    assert(all.take(i as int) == all);
    let ghost first = violations@;
    let mut permissions = scan_permission_violations(&file.path, &file.content);
    let ghost second = permissions@;
    let mut timeouts = scan_timeout_violations(&file.path, &file.content);
    let ghost third = timeouts@;
    violations.append(&mut permissions);
    violations.append(&mut timeouts);
    assert(views(violations@) == views(first) + views(second) + views(third));
    violations
}

/// How many findings there are of each sort.
pub fn summarize(scripts: &Vec<ScriptUsage>, violations: &Vec<PolicyViolation>) -> (result:
    PolicySummary)
    ensures
        result.total_scripts == scripts@.len(),
        result.bash_scripts == count_scripts(views(scripts@), ScriptType::Bash),
        result.python_scripts == count_scripts(views(scripts@), ScriptType::Python),
        result.high_violations == count_severity(views(violations@), PolicySeverity::High),
        result.medium_violations == count_severity(views(violations@), PolicySeverity::Medium),
        result.low_violations == count_severity(views(violations@), PolicySeverity::Low),
{
    let ghost uses = views(scripts@);
    let ghost found = views(violations@);
    let mut bash: usize = 0;
    let mut python: usize = 0;
    let mut i: usize = 0;
    while i < scripts.len()
        invariant
            i <= scripts.len(),
            uses == views(scripts@),
            bash <= i,
            python <= i,
            bash == count_scripts(uses.take(i as int), ScriptType::Bash),
            python == count_scripts(uses.take(i as int), ScriptType::Python),
        decreases scripts.len() - i,
    {
        proof {
            assert(uses.take(i + 1).drop_last() == uses.take(i as int));
            assert(uses.take(i + 1).last() == scripts@[i as int]@);
        }
        match scripts[i].script_type {
            ScriptType::Bash => {
                bash = bash + 1;
            },
            ScriptType::Python => {
                python = python + 1;
            },
        }
        i = i + 1;
    }
    assert(uses.take(i as int) == uses);
    let mut high: usize = 0;
    let mut medium: usize = 0;
    let mut low: usize = 0;
    let mut k: usize = 0;
    while k < violations.len()
        invariant
            k <= violations.len(),
            found == views(violations@),
            high <= k,
            medium <= k,
            low <= k,
            high == count_severity(found.take(k as int), PolicySeverity::High),
            medium == count_severity(found.take(k as int), PolicySeverity::Medium),
            low == count_severity(found.take(k as int), PolicySeverity::Low),
        decreases violations.len() - k,
    {
        proof {
            assert(found.take(k + 1).drop_last() == found.take(k as int));
            assert(found.take(k + 1).last() == violations@[k as int]@);
        }
        match violations[k].severity {
            PolicySeverity::High => {
                high = high + 1;
            },
            PolicySeverity::Medium => {
                medium = medium + 1;
            },
            PolicySeverity::Low => {
                low = low + 1;
            },
        }
        k = k + 1;
    }
    assert(found.take(k as int) == found);
    PolicySummary {
        total_scripts: scripts.len(),
        bash_scripts: bash,
        python_scripts: python,
        high_violations: high,
        medium_violations: medium,
        low_violations: low,
    }
}

impl PolicyScanner {
    /// A scanner.
    pub fn new() -> (result: Self)
        ensures
            result == PolicyScanner,
    {
        PolicyScanner
    }

    /// Scans the workflow files, for scripts and for policy findings as the options
    /// say. Without files there is nothing to report.
    pub fn scan(&self, options: &PolicyOptions, files: &Vec<WorkflowFile>) -> (result: PolicyReport)
        ensures
            result.workflow_files == files@.len(),
            views(result.script_usages@) == if options.check_scripts {
                all_usages(views(files@))
            } else {
                Seq::empty()
            },
            views(result.policy_violations@) == if options.check_policies {
                all_findings(views(files@))
            } else {
                Seq::empty()
            },
            result.summary.total_scripts == result.script_usages@.len(),
            result.summary.bash_scripts == count_scripts(
                views(result.script_usages@),
                ScriptType::Bash,
            ),
            result.summary.python_scripts == count_scripts(
                views(result.script_usages@),
                ScriptType::Python,
            ),
            result.summary.high_violations == count_severity(
                views(result.policy_violations@),
                PolicySeverity::High,
            ),
            result.summary.medium_violations == count_severity(
                views(result.policy_violations@),
                PolicySeverity::Medium,
            ),
            result.summary.low_violations == count_severity(
                views(result.policy_violations@),
                PolicySeverity::Low,
            ),
    {
        let ghost all = views(files@);
        let mut script_usages: Vec<ScriptUsage> = Vec::new();
        let mut policy_violations: Vec<PolicyViolation> = Vec::new();
        let mut i: usize = 0;
        assert(views(script_usages@) == Seq::<ScriptUsageView>::empty());
        assert(views(policy_violations@) == Seq::<ViolationView>::empty());
        while i < files.len()
            invariant
                i <= files.len(),
                all == views(files@),
                views(script_usages@) == if options.check_scripts {
                    all_usages(all.take(i as int))
                } else {
                    Seq::empty()
                },
                views(policy_violations@) == if options.check_policies {
                    all_findings(all.take(i as int))
                } else {
                    Seq::empty()
                },
            decreases files.len() - i,
        {
            proof {
                assert(all.take(i + 1).drop_last() == all.take(i as int));
                assert(all.take(i + 1).last() == files@[i as int]@);
            }
            if options.check_scripts {
                let ghost before = script_usages@;
                let mut more = scan_workflow_scripts(&files[i]);
                let ghost found = more@;
                script_usages.append(&mut more);
                assert(views(script_usages@) == views(before) + views(found));
            }
            if options.check_policies {
                let ghost before = policy_violations@;
                let mut more = scan_policy_violations(&files[i]);
                let ghost found = more@;
                policy_violations.append(&mut more);
                assert(views(policy_violations@) == views(before) + views(found));
            }
            i = i + 1;
        }
        assert(all.take(i as int) == all);
        let summary = summarize(&script_usages, &policy_violations);
        PolicyReport { workflow_files: files.len(), script_usages, policy_violations, summary }
    }
}

// ---------------------------------------------------------------------------
// Laws
// ---------------------------------------------------------------------------
/// Every script is counted once, and every finding is counted once.
pub proof fn law_summary_counts_everything(
    usages: Seq<ScriptUsageView>,
    findings: Seq<ViolationView>,
)
    ensures
        count_scripts(usages, ScriptType::Bash) + count_scripts(usages, ScriptType::Python)
            == usages.len(),
        count_severity(findings, PolicySeverity::High) + count_severity(
            findings,
            PolicySeverity::Medium,
        ) + count_severity(findings, PolicySeverity::Low) == findings.len(),
    decreases usages.len() + findings.len(),
{
    if usages.len() > 0 {
        law_summary_counts_everything(usages.drop_last(), findings);
    } else if findings.len() > 0 {
        law_summary_counts_everything(usages, findings.drop_last());
    }
}

/// A file whose actions are all pinned is not reported for an action, and one with
/// an action that is not pinned is reported.
pub proof fn law_pinned_files_are_not_reported(actions: Seq<ActionView>)
    ensures
        (unpinned_findings(actions).len() == 0) == (forall|i: int|
            0 <= i < actions.len() ==> (#[trigger] actions[i]).is_pinned()),
    decreases actions.len(),
{
    reveal(Seq::filter);
    if actions.len() > 0 {
        law_pinned_files_are_not_reported(actions.drop_last());
        assert(actions[actions.len() - 1] == actions.last());
        if forall|i: int| 0 <= i < actions.len() ==> (#[trigger] actions[i]).is_pinned() {
            assert forall|i: int| 0 <= i < actions.drop_last().len() implies (
            #[trigger] actions.drop_last()[i]).is_pinned() by {
                assert(actions[i].is_pinned());
            }
        }
        if unpinned_findings(actions).len() == 0 {
            assert forall|i: int| 0 <= i < actions.len() implies (
            #[trigger] actions[i]).is_pinned() by {
                if i < actions.len() - 1 {
                    assert(actions.drop_last()[i].is_pinned());
                }
            }
        }
    }
}

} // verus!
