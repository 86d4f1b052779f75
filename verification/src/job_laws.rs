//! Which jobs are reported for want of a timeout, and how the findings of files come together.

use vstd::prelude::*;

use crate::model::{
    ActionView, PolicySeverity, PolicyViolationType, ScriptType, ScriptUsageView, ViolationView,
};
use crate::pattern::{in_class, job_field, job_line, or_empty, run_end, top_level_key, Class};
use crate::policy::{
    all_findings, all_usages, count_scripts, count_severity, ended_jobs, findings_of, job_findings,
    jobs_read, permission_findings, timeout_findings, unpinned_findings, JobView, JobsView,
};
use crate::policy_laws::{is_comment, is_key_text, is_name, is_name_char};
use crate::scan_laws::{begins_with, is_commit, is_gap, lemma_starts};
use crate::scripts::usages_on;
use crate::text::{is_space, lines, starts_with};
use crate::workflow::{actions_of, WorkflowFileView};
use crate::workflow_laws::{lemma_run_end, lemma_run_end_is};

verus! {

// ---------------------------------------------------------------------------
// Lines of jobs
// ---------------------------------------------------------------------------
/// The line that opens a job: two blanks, its name, a colon, and perhaps a comment.
pub open spec fn job_text(name: Seq<char>, gap: Seq<char>, comment: Seq<char>) -> Seq<char> {
    "  "@ + name + seq![':'] + gap + comment
}

/// The parts of the line that opens a job can be told apart.
pub open spec fn are_job_parts(name: Seq<char>, gap: Seq<char>, comment: Seq<char>) -> bool {
    &&& is_name(name) && is_gap(gap) && is_comment(comment)
    &&& !comment.contains('\n')
}

/// The line is a field at some indentation.
pub open spec fn is_field(line: Seq<char>, field: Seq<char>) -> bool {
    exists|n: int|
        0 < n && n + field.len() < line.len() && is_gap(#[trigger] line.take(n)) && line.subrange(
            n,
            n + field.len() + 1,
        ) == field.push(':')
}

/// The line starts neither a key at the margin nor a job.
pub open spec fn is_below_job(line: Seq<char>) -> bool {
    &&& is_indented(line)
    &&& line.len() > 2 && line[0] == ' ' && line[1] == ' ' ==> !is_name_char(line[2])
}

/// The line starts no key at the margin.
pub open spec fn is_indented(line: Seq<char>) -> bool {
    line.len() > 0 ==> !is_name_char(line[0]) || line[0] == '-' || '0' <= line[0] && line[0] <= '9'
}

/// The line opens a job.
pub open spec fn is_job_line(line: Seq<char>) -> bool {
    exists|name: Seq<char>, gap: Seq<char>, comment: Seq<char>|
        are_job_parts(name, gap, comment) && line == #[trigger] job_text(name, gap, comment)
}

/// The line is a key at the margin other than `jobs`.
pub open spec fn is_other_key(line: Seq<char>) -> bool {
    &&& !begins_with(line, "jobs:"@)
    &&& exists|name: Seq<char>, rest: Seq<char>|
        #[trigger] is_key_text(line, Seq::empty(), name, rest)
}

proof fn lemma_job_line(name: Seq<char>, gap: Seq<char>, comment: Seq<char>)
    requires
        are_job_parts(name, gap, comment),
    ensures
        ({
            let line = job_text(name, gap, comment);
            &&& job_line(line) is Some
            &&& or_empty(job_line(line)->0[0]) == name
            &&& top_level_key(line) is None
            &&& !starts_with(line, "jobs:"@)
        }),
{
    reveal_strlit("  ");
    reveal_strlit("jobs:");
    let s = job_text(name, gap, comment);
    let b: int = 2 + name.len() as int;
    let c = b + 1 + gap.len();
    assert(s[0] == "  "@[0]);
    assert(s[1] == "  "@[1]);
    assert forall|i: int| 2 <= i < b implies in_class(Class::Name, #[trigger] s[i]) by {
        assert(s[i] == name[i - 2]);
        assert(is_name_char(name[i - 2]));
    }
    assert(s[b as int] == ':');
    lemma_run_end_is(s, 2, b as int, Class::Name);
    assert forall|i: int| b + 1 <= i < c implies in_class(Class::Space, #[trigger] s[i]) by {
        assert(s[i] == gap[i - b - 1]);
    }
    if c < s.len() {
        assert(s[c as int] == comment[0]);
    }
    lemma_run_end_is(s, b + 1, c as int, Class::Space);
    assert forall|i: int| c <= i < s.len() implies #[trigger] s[i] != '\n' by {
        assert(s[i] == comment[i - c]);
        assert(comment.contains(comment[i - c]));
    }
    assert(s.subrange(2, b as int) == name);
    if starts_with(s, "jobs:"@) {
        assert(s.subrange(0, 5)[0] == s[0]);
        assert("jobs:"@[0] == 'j');
    }
}

proof fn lemma_below(line: Seq<char>)
    requires
        is_indented(line),
    ensures
        top_level_key(line) is None,
        !starts_with(line, "jobs:"@),
        is_below_job(line) ==> job_line(line) is None,
{
    reveal_strlit("jobs:");
    if starts_with(line, "jobs:"@) {
        assert(line.subrange(0, 5)[0] == line[0]);
        assert("jobs:"@[0] == 'j');
    }
}

proof fn lemma_other_key(line: Seq<char>)
    requires
        is_other_key(line),
    ensures
        top_level_key(line) is Some,
        !starts_with(line, "jobs:"@),
{
    lemma_starts(line, "jobs:"@);
    let (name, rest) = choose|name: Seq<char>, rest: Seq<char>|
        #[trigger] is_key_text(line, Seq::empty(), name, rest);
    let b = name.len() as int;
    assert(line == Seq::<char>::empty() + name + rest);
    assert(line[0] == name[0]);
    assert(is_name_char(name[0]));
    assert forall|i: int| 1 <= i < b implies in_class(Class::Name, #[trigger] line[i]) by {
        assert(line[i] == name[i]);
        assert(is_name_char(name[i]));
    }
    assert(line[b] == rest[0]);
    lemma_run_end_is(line, 1, b, Class::Name);
    lemma_run_end_is(line, b, b, Class::Space);
}

proof fn lemma_field(line: Seq<char>, field: Seq<char>)
    requires
        is_name(field),
    ensures
        is_field(line, field) == (job_field(line) matches Some(parts) && or_empty(parts[0])
            == field),
{
    if is_field(line, field) {
        let n = choose|n: int|
            0 < n && n + field.len() < line.len() && is_gap(#[trigger] line.take(n))
                && line.subrange(n, n + field.len() + 1) == field.push(':');
        let part = line.subrange(n, n + field.len() + 1);
        assert forall|i: int| 0 <= i < n implies in_class(Class::Space, #[trigger] line[i]) by {
            assert(line.take(n)[i] == line[i]);
        }
        assert(part[0] == line[n]);
        assert(field.push(':')[0] == field[0]);
        assert(is_name_char(field[0]));
        lemma_run_end_is(line, 0, n, Class::Space);
        let b = n + field.len();
        assert forall|i: int| n <= i < b implies in_class(Class::Name, #[trigger] line[i]) by {
            assert(part[i - n] == line[i]);
            assert(field.push(':')[i - n] == field[i - n]);
            assert(is_name_char(field[i - n]));
        }
        assert(part[field.len() as int] == line[b]);
        assert(field.push(':')[field.len() as int] == ':');
        lemma_run_end_is(line, n, b, Class::Name);
        assert(line.subrange(n, b) == field) by {
            assert forall|i: int| 0 <= i < field.len() implies line.subrange(n, b)[i]
                == field[i] by {
                assert(part[i] == line[n + i]);
                assert(field.push(':')[i] == field[i]);
            }
        }
    }
    if job_field(line) matches Some(parts) && or_empty(parts[0]) == field {
        let n = run_end(line, 0, Class::Space);
        let b = run_end(line, n, Class::Name);
        lemma_run_end(line, 0, Class::Space);
        lemma_run_end(line, n, Class::Name);
        assert(line.subrange(n, b) == field);
        assert(line.subrange(n, n + field.len() + 1) == field.push(':'));
        assert forall|i: int| 0 <= i < n implies is_space(#[trigger] line.take(n)[i]) by {
            assert(in_class(Class::Space, line[i]));
        }
        assert(is_gap(line.take(n)));
    }
}

// ---------------------------------------------------------------------------
// Timeouts
// ---------------------------------------------------------------------------
/// Some line behind the one and in front of the other is that field.
pub open spec fn has_field(all: Seq<Seq<char>>, i: int, e: int, field: Seq<char>) -> bool {
    exists|m: int| i < m < e && is_field(#[trigger] all[m], field)
}

/// A job below `jobs` is reported, at the line that opens it, exactly when something runs in it
/// and no line of it sets `timeout-minutes`.
pub proof fn law_job_without_timeout_is_reported(
    path: Seq<char>,
    all: Seq<Seq<char>>,
    h: int,
    i: int,
    e: int,
    name: Seq<char>,
    gap: Seq<char>,
    comment: Seq<char>,
)
    requires
        0 <= h < i < e <= all.len(),
        begins_with(all[h], "jobs:"@),
        forall|m: int| h < m < i ==> is_indented(#[trigger] all[m]),
        are_job_parts(name, gap, comment),
        all[i] == job_text(name, gap, comment),
        forall|m: int| i < m < e ==> is_below_job(#[trigger] all[m]),
        e < all.len() ==> is_job_line(all[e]) || is_other_key(all[e]),
    ensures
        if (has_field(all, i, e, "runs-on"@) || has_field(all, i, e, "steps"@)) && !has_field(
            all,
            i,
            e,
            "timeout-minutes"@,
        ) {
            timeout_findings(path, all).contains(
                ViolationView {
                    file: path,
                    line_number: (i + 1) as nat,
                    violation_type: PolicyViolationType::MissingTimeoutMinutes,
                    severity: PolicySeverity::Medium,
                    description: "job '"@ + name + "' should declare timeout-minutes"@,
                    context: all[i],
                },
            )
        } else {
            forall|k: int|
                0 <= k < timeout_findings(path, all).len() ==> (#[trigger] timeout_findings(
                    path,
                    all,
                )[k]).line_number != i + 1
        },
{
    lemma_in_jobs(all, h, i);
    lemma_job_line(name, gap, comment);
    lemma_job_body(all, i, e, name);
    lemma_ended_before(path, all, e);
    let job = body_job(all, i, e, name);
    let open = job_findings(path, Some(job));
    let now = timeout_findings(path, all);
    if e == all.len() {
        assert(all.take(e) == all);
        let ended = ended_jobs(path, all);
        assert(now == ended + open);
        if open.len() > 0 {
            assert(now[ended.len() as int] == open[0]);
        } else {
            assert forall|k: int| 0 <= k < now.len() implies (#[trigger] now[k]).line_number != i
                + 1 by {
                assert(now[k] == ended[k]);
            }
        }
    } else {
        lemma_after(path, all, i, e, all.len() as int, name);
        assert(all.take(all.len() as int) == all);
        let ended = ended_jobs(path, all);
        let rest = job_findings(path, jobs_read(all).job);
        assert(now == ended + rest);
        if open.len() > 0 {
            let k = choose|k: int| 0 <= k < ended.len() && ended[k] == open[0];
            assert(now[k] == open[0]);
        } else {
            assert forall|k: int| 0 <= k < now.len() implies (#[trigger] now[k]).line_number != i
                + 1 by {
                if k < ended.len() {
                    assert(now[k] == ended[k]);
                } else {
                    assert(now[k] == rest[k - ended.len()]);
                }
            }
        }
    }
}

spec fn body_job(all: Seq<Seq<char>>, i: int, e: int, name: Seq<char>) -> JobView {
    JobView {
        name,
        line_number: (i + 1) as nat,
        context: all[i],
        has_timeout: has_field(all, i, e, "timeout-minutes"@),
        has_runnable_content: has_field(all, i, e, "runs-on"@) || has_field(all, i, e, "steps"@),
    }
}

proof fn lemma_in_jobs(all: Seq<Seq<char>>, h: int, m: int)
    requires
        0 <= h < m <= all.len(),
        begins_with(all[h], "jobs:"@),
        forall|x: int| h < x < m ==> is_indented(#[trigger] all[x]),
    ensures
        jobs_read(all.take(m)).in_jobs,
    decreases m,
{
    let now = all.take(m);
    assert(now.drop_last() == all.take(m - 1));
    assert(now.last() == all[m - 1]);
    lemma_starts(all[m - 1], "jobs:"@);
    if m - 1 > h {
        lemma_in_jobs(all, h, m - 1);
        lemma_below(all[m - 1]);
    }
}

proof fn lemma_names()
    ensures
        is_name("timeout-minutes"@),
        is_name("runs-on"@),
        is_name("steps"@),
        "timeout-minutes"@ != "runs-on"@,
        "timeout-minutes"@ != "steps"@,
{
    reveal_strlit("timeout-minutes");
    reveal_strlit("runs-on");
    reveal_strlit("steps");
    assert("timeout-minutes"@.len() == 15);
    assert("runs-on"@.len() == 7);
    assert("steps"@.len() == 5);
}

proof fn lemma_job_body(all: Seq<Seq<char>>, i: int, m: int, name: Seq<char>)
    requires
        0 <= i < m <= all.len(),
        jobs_read(all.take(i)).in_jobs,
        job_line(all[i]) is Some,
        or_empty(job_line(all[i])->0[0]) == name,
        top_level_key(all[i]) is None,
        !starts_with(all[i], "jobs:"@),
        forall|x: int| i < x < m ==> is_below_job(#[trigger] all[x]),
    ensures
        jobs_read(all.take(m)) == (JobsView {
            in_jobs: true,
            job: Some(body_job(all, i, m, name)),
        }),
    decreases m,
{
    let now = all.take(m);
    assert(now.drop_last() == all.take(m - 1));
    assert(now.last() == all[m - 1]);
    if m - 1 > i {
        let line = all[m - 1];
        lemma_job_body(all, i, m - 1, name);
        lemma_below(line);
        lemma_names();
        lemma_field(line, "timeout-minutes"@);
        lemma_field(line, "runs-on"@);
        lemma_field(line, "steps"@);
        lemma_has_field(all, i, m, "timeout-minutes"@);
        lemma_has_field(all, i, m, "runs-on"@);
        lemma_has_field(all, i, m, "steps"@);
    }
}

proof fn lemma_has_field(all: Seq<Seq<char>>, i: int, m: int, field: Seq<char>)
    requires
        0 <= i < m - 1 < all.len(),
    ensures
        has_field(all, i, m, field) == (has_field(all, i, m - 1, field) || is_field(
            all[m - 1],
            field,
        )),
{
    if has_field(all, i, m - 1, field) {
        let x = choose|x: int| i < x < m - 1 && is_field(#[trigger] all[x], field);
        assert(is_field(all[x], field));
    }
}

proof fn lemma_ended_before(path: Seq<char>, all: Seq<Seq<char>>, n: int)
    requires
        0 <= n <= all.len(),
    ensures
        jobs_read(all.take(n)).job matches Some(job) ==> job.line_number <= n,
        forall|k: int|
            0 <= k < ended_jobs(path, all.take(n)).len() ==> is_before(
                #[trigger] ended_jobs(path, all.take(n))[k],
                jobs_read(all.take(n)).job,
                n,
            ),
    decreases n,
{
    if n > 0 {
        lemma_ended_before(path, all, n - 1);
        assert(all.take(n).drop_last() == all.take(n - 1));
        let before = ended_jobs(path, all.take(n - 1));
        let now = ended_jobs(path, all.take(n));
        assert forall|k: int| 0 <= k < now.len() implies is_before(
            #[trigger] now[k],
            jobs_read(all.take(n)).job,
            n,
        ) by {
            if k < before.len() {
                assert(now[k] == before[k]);
            }
        }
    }
}

spec fn is_before(found: ViolationView, job: Option<JobView>, n: int) -> bool {
    &&& found.line_number <= n
    &&& job matches Some(job) ==> found.line_number < job.line_number
}

proof fn lemma_after(
    path: Seq<char>,
    all: Seq<Seq<char>>,
    i: int,
    e: int,
    n: int,
    name: Seq<char>,
)
    requires
        0 <= i < e < n <= all.len(),
        jobs_read(all.take(e)) == (JobsView {
            in_jobs: true,
            job: Some(body_job(all, i, e, name)),
        }),
        is_job_line(all[e]) || is_other_key(all[e]),
    ensures
        jobs_read(all.take(n)).job matches Some(job) ==> job.line_number > i + 1,
        ({
            let open = job_findings(path, Some(body_job(all, i, e, name)));
            if open.len() > 0 {
                ended_jobs(path, all.take(n)).contains(open[0])
            } else {
                forall|k: int|
                    0 <= k < ended_jobs(path, all.take(n)).len() ==> (#[trigger] ended_jobs(
                        path,
                        all.take(n),
                    )[k]).line_number != i + 1
            }
        }),
    decreases n,
{
    let open = job_findings(path, Some(body_job(all, i, e, name)));
    let before = ended_jobs(path, all.take(n - 1));
    let now = ended_jobs(path, all.take(n));
    assert(all.take(n).drop_last() == all.take(n - 1));
    assert(all.take(n).last() == all[n - 1]);
    if n - 1 == e {
        if is_job_line(all[e]) {
            let (other, gap, comment) = choose|other: Seq<char>, gap: Seq<char>, comment: Seq<char>|
                are_job_parts(other, gap, comment) && all[e] == #[trigger] job_text(
                    other,
                    gap,
                    comment,
                );
            lemma_job_line(other, gap, comment);
        } else {
            lemma_other_key(all[e]);
        }
        lemma_ended_before(path, all, e);
        assert(now == before + open);
        if open.len() > 0 {
            assert(now[before.len() as int] == open[0]);
        } else {
            assert forall|k: int| 0 <= k < now.len() implies (#[trigger] now[k]).line_number != i
                + 1 by {
                assert(now[k] == before[k]);
            }
        }
    } else {
        lemma_after(path, all, i, e, n - 1, name);
        if open.len() > 0 {
            let k = choose|k: int| 0 <= k < before.len() && before[k] == open[0];
            assert(now[k] == open[0]);
        } else {
            assert forall|k: int| 0 <= k < now.len() implies (#[trigger] now[k]).line_number != i
                + 1 by {
                if k < before.len() {
                    assert(now[k] == before[k]);
                }
            }
        }
    }
}

/// Without a line that starts with `jobs:` no job is reported.
pub proof fn law_no_jobs_no_timeouts(path: Seq<char>, all: Seq<Seq<char>>)
    requires
        forall|m: int| 0 <= m < all.len() ==> !begins_with(#[trigger] all[m], "jobs:"@),
    ensures
        timeout_findings(path, all).len() == 0,
{
    lemma_no_jobs(path, all);
}

proof fn lemma_no_jobs(path: Seq<char>, all: Seq<Seq<char>>)
    requires
        forall|m: int| 0 <= m < all.len() ==> !begins_with(#[trigger] all[m], "jobs:"@),
    ensures
        ended_jobs(path, all).len() == 0,
        jobs_read(all) == (JobsView { in_jobs: false, job: None }),
    decreases all.len(),
{
    if all.len() > 0 {
        let front = all.drop_last();
        assert forall|m: int| 0 <= m < front.len() implies !begins_with(
            #[trigger] front[m],
            "jobs:"@,
        ) by {
            assert(front[m] == all[m]);
        }
        lemma_no_jobs(path, front);
        assert(!begins_with(all[all.len() - 1], "jobs:"@));
        lemma_starts(all.last(), "jobs:"@);
    }
}

// ---------------------------------------------------------------------------
// Files
// ---------------------------------------------------------------------------
/// Every action of a file that is not at a commit is reported as high, and no other.
pub proof fn law_loose_actions_are_reported(actions: Seq<ActionView>)
    ensures
        forall|i: int|
            0 <= i < actions.len() && !is_commit((#[trigger] actions[i]).version)
                ==> unpinned_findings(actions).contains(loose(actions[i])),
        forall|k: int|
            0 <= k < unpinned_findings(actions).len() ==> is_of_loose(
                actions,
                #[trigger] unpinned_findings(actions)[k],
            ),
{
    let kept = actions.filter(|action: ActionView| !action.is_pinned());
    let found = unpinned_findings(actions);
    lemma_kept(actions);
    assert forall|i: int|
        0 <= i < actions.len() && !is_commit(
            (#[trigger] actions[i]).version,
        ) implies found.contains(loose(actions[i])) by {
        assert(kept.contains(actions[i]));
        let k = choose|k: int| 0 <= k < kept.len() && kept[k] == actions[i];
        assert(found[k] == loose(actions[i]));
    }
    assert forall|k: int| 0 <= k < found.len() implies is_of_loose(
        actions,
        #[trigger] found[k],
    ) by {
        assert(kept.contains(kept[k]));
        let i = choose|i: int| 0 <= i < actions.len() && actions[i] == kept[k];
        assert(found[k] == loose(actions[i]));
    }
}

/// The finding for an action that is not at a commit.
pub open spec fn loose(action: ActionView) -> ViolationView {
    ViolationView {
        file: action.file,
        line_number: action.line_number,
        violation_type: PolicyViolationType::UnpinnedAction,
        severity: PolicySeverity::High,
        description: "external action '"@ + action.action_slug
            + "' should be pinned to a full 40-character commit SHA"@,
        context: action.original_line,
    }
}

/// The finding is one for an action that is not at a commit.
pub open spec fn is_of_loose(actions: Seq<ActionView>, found: ViolationView) -> bool {
    exists|i: int|
        0 <= i < actions.len() && !is_commit((#[trigger] actions[i]).version) && found == loose(
            actions[i],
        )
}

proof fn lemma_kept(actions: Seq<ActionView>)
    ensures
        ({
            let kept = actions.filter(|action: ActionView| !action.is_pinned());
            &&& forall|i: int|
                0 <= i < actions.len() && !is_commit((#[trigger] actions[i]).version)
                    ==> kept.contains(actions[i])
            &&& forall|k: int|
                0 <= k < kept.len() ==> actions.contains(#[trigger] kept[k]) && !is_commit(
                    kept[k].version,
                )
        }),
    decreases actions.len(),
{
    reveal(Seq::filter);
    if actions.len() > 0 {
        let front = actions.drop_last();
        lemma_kept(front);
        let loose = |action: ActionView| !action.is_pinned();
        let before = front.filter(loose);
        let now = actions.filter(loose);
        crate::scan_laws::lemma_commit(actions.last().version);
        assert forall|i: int|
            0 <= i < actions.len() && !is_commit(
                (#[trigger] actions[i]).version,
            ) implies now.contains(actions[i]) by {
            if i < front.len() {
                assert(front[i] == actions[i]);
                let c = choose|c: int| 0 <= c < before.len() && before[c] == actions[i];
                assert(now[c] == actions[i]);
            } else {
                assert(now[before.len() as int] == actions[i]);
            }
        }
        assert forall|c: int| 0 <= c < now.len() implies actions.contains(#[trigger] now[c])
            && !is_commit(now[c].version) by {
            if c < before.len() {
                assert(now[c] == before[c]);
                let k = choose|k: int| 0 <= k < front.len() && front[k] == before[c];
                assert(actions[k] == now[c]);
            } else {
                assert(actions[actions.len() - 1] == now[c]);
            }
        }
    }
}

/// The findings of all files are those on actions, permissions and jobs of each file, and
/// nothing else; the same holds of the scripts.
pub proof fn law_every_file_is_checked(files: Seq<WorkflowFileView>)
    ensures
        forall|f: int, found: ViolationView|
            0 <= f < files.len() && #[trigger] is_of_file(files[f], found) ==> all_findings(
                files,
            ).contains(found),
        forall|k: int|
            0 <= k < all_findings(files).len() ==> is_of_some_file(
                files,
                #[trigger] all_findings(files)[k],
            ),
    decreases files.len(),
{
    if files.len() > 0 {
        let front = files.drop_last();
        law_every_file_is_checked(front);
        let before = all_findings(front);
        let last = findings_of(files.last());
        let all = all_findings(files);
        assert(all == before + last);
        assert forall|f: int, found: ViolationView|
            0 <= f < files.len() && #[trigger] is_of_file(files[f], found) implies all.contains(
            found,
        ) by {
            if f < front.len() {
                assert(front[f] == files[f]);
                assert(is_of_file(front[f], found));
                let k = choose|k: int| 0 <= k < before.len() && before[k] == found;
                assert(all[k] == found);
            } else {
                lemma_of_file(files[f], found);
                let k = choose|k: int| 0 <= k < last.len() && last[k] == found;
                assert(all[before.len() + k] == found);
            }
        }
        assert forall|k: int| 0 <= k < all.len() implies is_of_some_file(
            files,
            #[trigger] all[k],
        ) by {
            if k < before.len() {
                assert(all[k] == before[k]);
                let f = choose|f: int|
                    0 <= f < front.len() && #[trigger] is_of_file(front[f], before[k]);
                assert(is_of_file(files[f], all[k]));
            } else {
                assert(all[k] == last[k - before.len()]);
                assert(last.contains(all[k]));
                lemma_of_file(files.last(), all[k]);
                assert(is_of_file(files[files.len() - 1], all[k]));
            }
        }
    }
}

/// The finding is one on the actions, the permissions or the jobs of the file.
pub open spec fn is_of_file(file: WorkflowFileView, found: ViolationView) -> bool {
    ||| unpinned_findings(actions_of(file)).contains(found)
    ||| permission_findings(file.path, lines(file.content)).contains(found)
    ||| timeout_findings(file.path, lines(file.content)).contains(found)
}

/// The finding is one of some file.
pub open spec fn is_of_some_file(files: Seq<WorkflowFileView>, found: ViolationView) -> bool {
    exists|f: int| 0 <= f < files.len() && #[trigger] is_of_file(files[f], found)
}

proof fn lemma_of_file(file: WorkflowFileView, found: ViolationView)
    ensures
        is_of_file(file, found) == findings_of(file).contains(found),
{
    let a = unpinned_findings(actions_of(file));
    let b = permission_findings(file.path, lines(file.content));
    let c = timeout_findings(file.path, lines(file.content));
    let all = findings_of(file);
    assert(all == a + b + c);
    if a.contains(found) {
        let k = choose|k: int| 0 <= k < a.len() && a[k] == found;
        assert(all[k] == found);
    }
    if b.contains(found) {
        let k = choose|k: int| 0 <= k < b.len() && b[k] == found;
        assert(all[a.len() + k] == found);
    }
    if c.contains(found) {
        let k = choose|k: int| 0 <= k < c.len() && c[k] == found;
        assert(all[a.len() + b.len() + k] == found);
    }
    if all.contains(found) {
        let k = choose|k: int| 0 <= k < all.len() && all[k] == found;
        if k < a.len() {
            assert(a[k] == found);
        } else if k < a.len() + b.len() {
            assert(b[k - a.len()] == found);
        } else {
            assert(c[k - a.len() - b.len()] == found);
        }
    }
}

/// The scripts of every file are among those of all files, and there are no others.
pub proof fn law_every_script_is_told(files: Seq<WorkflowFileView>)
    ensures
        forall|f: int, usage: ScriptUsageView|
            0 <= f < files.len() && #[trigger] usages_on(
                files[f].path,
                lines(files[f].content),
            ).contains(usage) ==> all_usages(files).contains(usage),
        forall|k: int|
            0 <= k < all_usages(files).len() ==> is_usage_of_some_file(
                files,
                #[trigger] all_usages(files)[k],
            ),
    decreases files.len(),
{
    if files.len() > 0 {
        let front = files.drop_last();
        law_every_script_is_told(front);
        let before = all_usages(front);
        let last = usages_on(files.last().path, lines(files.last().content));
        let all = all_usages(files);
        assert(all == before + last);
        assert forall|f: int, usage: ScriptUsageView|
            0 <= f < files.len() && #[trigger] usages_on(
                files[f].path,
                lines(files[f].content),
            ).contains(usage) implies all.contains(usage) by {
            if f < front.len() {
                assert(front[f] == files[f]);
                assert(usages_on(front[f].path, lines(front[f].content)).contains(usage));
                let k = choose|k: int| 0 <= k < before.len() && before[k] == usage;
                assert(all[k] == usage);
            } else {
                let k = choose|k: int| 0 <= k < last.len() && last[k] == usage;
                assert(all[before.len() + k] == usage);
            }
        }
        assert forall|k: int| 0 <= k < all.len() implies is_usage_of_some_file(
            files,
            #[trigger] all[k],
        ) by {
            if k < before.len() {
                assert(all[k] == before[k]);
                let f = choose|f: int|
                    0 <= f < front.len() && #[trigger] usages_on(
                        front[f].path,
                        lines(front[f].content),
                    ).contains(before[k]);
                assert(usages_on(files[f].path, lines(files[f].content)).contains(all[k]));
            } else {
                assert(all[k] == last[k - before.len()]);
                let f = files.len() - 1;
                assert(usages_on(files[f].path, lines(files[f].content)).contains(all[k]));
            }
        }
    }
}

/// The script is one of some file.
pub open spec fn is_usage_of_some_file(
    files: Seq<WorkflowFileView>,
    usage: ScriptUsageView,
) -> bool {
    exists|f: int|
        0 <= f < files.len() && #[trigger] usages_on(
            files[f].path,
            lines(files[f].content),
        ).contains(usage)
}

/// One more finding counts for its own severity and for no other, one more script for its own
/// type.
pub proof fn law_each_counts_once(
    findings: Seq<ViolationView>,
    found: ViolationView,
    severity: PolicySeverity,
    usages: Seq<ScriptUsageView>,
    usage: ScriptUsageView,
    script_type: ScriptType,
)
    ensures
        count_severity(Seq::empty(), severity) == 0,
        count_severity(findings.push(found), severity) - count_severity(findings, severity) == (
        if found.severity == severity {
            1int
        } else {
            0
        }),
        count_scripts(Seq::empty(), script_type) == 0,
        count_scripts(usages.push(usage), script_type) - count_scripts(usages, script_type) == (
        if usage.script_type == script_type {
            1int
        } else {
            0
        }),
{
    assert(findings.push(found).drop_last() == findings);
    assert(usages.push(usage).drop_last() == usages);
}

} // verus!
