//! Reading actions out of workflow files, and rewriting the lines they stand on.

use vstd::prelude::*;

use crate::model::{ActionView, FileUpdate, FileUpdateView, PinChange, PinChangeView, WorkflowAction};
use crate::pattern::{group_text, groups, groups_view, or_empty, uses_line, USES_LINE};
use crate::text::{
    begins, body_of, concat, contains_text, copy_option, cut_last, decimal, decimal_text, end_of,
    holds, lemma_concat_push, line_body, line_end, lines, lines_of, option_view, pieces, raw_lines,
    raw_pieces, same, split, split_last, starts_with, views,
};

verus! {

/// A workflow file that was read.
#[derive(Debug, Clone, PartialEq, Eq)]
pub struct WorkflowFile {
    pub path: String,
    pub content: String,
}

/// What a `WorkflowFile` stands for.
pub struct WorkflowFileView {
    pub path: Seq<char>,
    pub content: Seq<char>,
}

impl View for WorkflowFile {
    type V = WorkflowFileView;

    open spec fn view(&self) -> WorkflowFileView {
        WorkflowFileView { path: self.path@, content: self.content@ }
    }
}

/// What a reference to an action is made of.
pub struct TargetView {
    pub action_slug: Seq<char>,
    pub owner: Seq<char>,
    pub repository: Seq<char>,
    pub version: Seq<char>,
}

/// The reference is computed when the workflow runs, or names a local directory or
/// a container image.
pub open spec fn is_foreign(raw: Seq<char>) -> bool {
    ||| contains_text(raw, "${{"@)
    ||| starts_with(raw, "./"@)
    ||| starts_with(raw, "../"@)
    ||| starts_with(raw, "/"@)
    ||| starts_with(raw, "docker://"@)
}

/// The action that a reference of the form `owner/repository/path@version` names.
pub open spec fn action_target(raw: Seq<char>) -> Option<TargetView> {
    match split_last(raw, '@') {
        Some((slug, version)) => {
            let parts = split(slug, '/');
            if is_foreign(raw) || parts.len() < 2 {
                None
            } else {
                Some(
                    TargetView {
                        action_slug: slug,
                        owner: parts[0],
                        repository: parts[1],
                        version,
                    },
                )
            }
        },
        None => None,
    }
}

/// The action that a line uses.
pub open spec fn action_on_line(file: Seq<char>, line: Seq<char>, number: nat) -> Option<
    ActionView,
> {
    match uses_line(line) {
        Some(parts) => match action_target(or_empty(parts[2])) {
            Some(target) => Some(
                ActionView {
                    file,
                    line_number: number,
                    indentation: or_empty(parts[0]),
                    list_prefix: or_empty(parts[1]),
                    action_slug: target.action_slug,
                    owner: target.owner,
                    repository: target.repository,
                    version: target.version,
                    inline_comment: parts[3],
                    original_line: line,
                },
            ),
            None => None,
        },
        None => None,
    }
}

/// The actions that the lines use, from the first line to the last.
pub open spec fn actions_on(file: Seq<char>, all: Seq<Seq<char>>) -> Seq<ActionView>
    decreases all.len(),
{
    if all.len() == 0 {
        Seq::empty()
    } else {
        let before = actions_on(file, all.drop_last());
        match action_on_line(file, all.last(), all.len()) {
            Some(action) => before.push(action),
            None => before,
        }
    }
}

/// The actions that a workflow file uses.
pub open spec fn actions_of(file: WorkflowFileView) -> Seq<ActionView> {
    actions_on(file.path, lines(file.content))
}

/// The text that the last change for a line puts there.
pub open spec fn replacement(changes: Seq<PinChangeView>, number: nat) -> Option<Seq<char>>
    decreases changes.len(),
{
    if changes.len() == 0 {
        None
    } else if changes.last().line_number == number {
        Some(changes.last().rewritten_line)
    } else {
        replacement(changes.drop_last(), number)
    }
}

/// A line as it stands after the changes.
pub open spec fn changed_line(
    changes: Seq<PinChangeView>,
    number: nat,
    body: Seq<char>,
) -> Seq<char> {
    match replacement(changes, number) {
        Some(text) => text,
        None => body,
    }
}

/// The lines after the changes, each with the line ending that it had.
pub open spec fn changed_lines(raw: Seq<Seq<char>>, changes: Seq<PinChangeView>) -> Seq<Seq<char>> {
    Seq::new(
        raw.len(),
        |i: int| changed_line(changes, (i + 1) as nat, line_body(raw[i])) + line_end(raw[i]),
    )
}

/// The content after the changes.
pub open spec fn changed_content(content: Seq<char>, changes: Seq<PinChangeView>) -> Seq<char> {
    concat(changed_lines(raw_lines(content), changes))
}

/// The greatest line number among the changes.
pub open spec fn last_line(changes: Seq<PinChangeView>) -> nat
    decreases changes.len(),
{
    if changes.len() == 0 {
        0
    } else {
        let before = last_line(changes.drop_last());
        if before < changes.last().line_number {
            changes.last().line_number
        } else {
            before
        }
    }
}

/// What is said of a change that names a line which the content does not have.
pub open spec fn outside_message(number: nat) -> Seq<char> {
    "cannot rewrite content: line "@ + decimal(number) + " is outside the file"@
}

/// What `apply_changes_to_content` returns.
pub open spec fn applied(content: Seq<char>, changes: Seq<PinChangeView>) -> Result<
    Seq<char>,
    Seq<char>,
> {
    if last_line(changes) > raw_lines(content).len() {
        Err(outside_message(last_line(changes)))
    } else {
        Ok(changed_content(content, changes))
    }
}

/// The changes that belong to a file.
pub open spec fn changes_for(path: Seq<char>, changes: Seq<PinChangeView>) -> Seq<PinChangeView> {
    changes.filter(|change: PinChangeView| change.file == path)
}

/// What a result of a text or a message stands for.
pub open spec fn text_result(result: Result<String, String>) -> Result<Seq<char>, Seq<char>> {
    match result {
        Ok(text) => Ok(text@),
        Err(message) => Err(message@),
    }
}

/// The content with each change's line rewritten. The last change for a line
/// counts; every other line, and every line ending, stays as it is. Where a change
/// names a line behind the end, the result is a message that names the last such
/// line.
pub fn apply_changes_to_content(content: &str, changes: &[&PinChange]) -> (result: Result<
    String,
    String,
>)
    requires
        forall|i: int| 0 <= i < changes@.len() ==> (#[trigger] changes@[i]).line_number >= 1,
    ensures
        text_result(result) == applied(content@, views(changes@)),
{
    let raw = raw_pieces(content);
    let ghost all = views(changes@);
    let mut greatest: usize = 0;
    let mut i: usize = 0;
    while i < changes.len()
        invariant
            i <= changes@.len(),
            all == views(changes@),
            greatest == last_line(all.take(i as int)),
        decreases changes@.len() - i,
    {
        proof {
            assert(all.take(i + 1).drop_last() == all.take(i as int));
            assert(all.take(i + 1).last() == changes@[i as int]@);
        }
        if greatest < changes[i].line_number {
            greatest = changes[i].line_number;
        }
        i = i + 1;
    }
    assert(all.take(i as int) == all);
    if greatest > raw.len() {
        let mut message = "cannot rewrite content: line ".to_owned();
        message.append(&decimal_text(greatest as u64));
        message.append(" is outside the file");
        return Err(message);
    }
    let ghost rewritten = changed_lines(raw_lines(content@), all);
    let mut result = String::new();
    let mut n: usize = 0;
    while n < raw.len()
        invariant
            n <= raw.len(),
            views(raw@) == raw_lines(content@),
            all == views(changes@),
            rewritten == changed_lines(raw_lines(content@), all),
            result@ == concat(rewritten.take(n as int)),
        decreases raw.len() - n,
    {
        assert(views(raw@)[n as int] == raw@[n as int]@);
        let body = replacement_of(changes, n + 1);
        let ghost before = result@;
        match body {
            Some(text) => result.append(&text),
            None => result.append(&body_of(&raw[n])),
        }
        result.append(&end_of(&raw[n]));
        proof {
            assert(rewritten.take(n + 1) == rewritten.take(n as int).push(rewritten[n as int]));
            lemma_concat_push(rewritten.take(n as int), rewritten[n as int]);
            assert(result@ == before + rewritten[n as int]);
        }
        n = n + 1;
    }
    assert(rewritten.take(n as int) == rewritten);
    Ok(result)
}

/// The text that the last change for a line puts there.
fn replacement_of(changes: &[&PinChange], number: usize) -> (result: Option<String>)
    ensures
        option_view(result) == replacement(views(changes@), number as nat),
{
    let ghost all = views(changes@);
    let mut i: usize = changes.len();
    assert(all.take(i as int) == all);
    while i > 0
        invariant
            i <= changes@.len(),
            all == views(changes@),
            replacement(all, number as nat) == replacement(all.take(i as int), number as nat),
        decreases i,
    {
        proof {
            assert(all.take(i as int).drop_last() == all.take(i - 1));
            assert(all.take(i as int).last() == changes@[i - 1]@);
        }
        if changes[i - 1].line_number == number {
            return Some(changes[i - 1].rewritten_line.clone());
        }
        i = i - 1;
    }
    None
}

/// The action that a reference names.
fn parse_action_target(raw: &str) -> (result: Option<(String, String, String, String)>)
    ensures
        match result {
            Some((action_slug, owner, repository, version)) => action_target(raw@) == Some(
                TargetView {
                    action_slug: action_slug@,
                    owner: owner@,
                    repository: repository@,
                    version: version@,
                },
            ),
            None => action_target(raw@) is None,
        },
{
    if holds(raw, "${{") || begins(raw, "./") || begins(raw, "../") || begins(raw, "/") || begins(
        raw,
        "docker://",
    ) {
        return None;
    }
    match cut_last(raw, '@') {
        Some((action_slug, version)) => {
            let parts = pieces(&action_slug, '/');
            if parts.len() < 2 {
                None
            } else {
                assert(views(parts@)[0] == parts@[0]@ && views(parts@)[1] == parts@[1]@);
                Some((action_slug, parts[0].clone(), parts[1].clone(), version))
            }
        },
        None => None,
    }
}

/// The action that a line uses.
fn read_action(file: &str, line: &str, number: usize) -> (result: Option<WorkflowAction>)
    ensures
        option_view(result) == action_on_line(file@, line@, number as nat),
{
    match groups(USES_LINE, line) {
        Some(parts) => {
            assert(groups_view(Some(parts))->0.len() == 4);
            assert(forall|i: int|
                0 <= i < 4 ==> groups_view(Some(parts))->0[i] == option_view(
                    #[trigger] parts@[i],
                ));
            match parse_action_target(&group_text(&parts[2])) {
                Some((action_slug, owner, repository, version)) => Some(
                    WorkflowAction {
                        file: file.to_owned(),
                        line_number: number,
                        indentation: group_text(&parts[0]),
                        list_prefix: group_text(&parts[1]),
                        action_slug,
                        owner,
                        repository,
                        version,
                        inline_comment: copy_option(&parts[3]),
                        original_line: line.to_owned(),
                    },
                ),
                None => None,
            }
        },
        None => None,
    }
}

/// The actions that a workflow file uses, from the first line to the last. Local
/// actions, container images and computed references are left out.
pub fn scan_workflow(file: &WorkflowFile) -> (result: Vec<WorkflowAction>)
    ensures
        views(result@) == actions_of(file@),
{
    let all = lines_of(&file.content);
    let mut result: Vec<WorkflowAction> = Vec::new();
    let mut i: usize = 0;
    while i < all.len()
        invariant
            i <= all.len(),
            views(all@) == lines(file.content@),
            views(result@) == actions_on(file.path@, views(all@).take(i as int)),
        decreases all.len() - i,
    {
        let ghost before = result@;
        proof {
            let now = views(all@).take(i + 1);
            assert(now.drop_last() == views(all@).take(i as int));
            assert(now.last() == all@[i as int]@);
        }
        match read_action(&file.path, &all[i], i + 1) {
            Some(action) => {
                result.push(action);
                assert(views(result@) == views(before).push(action@));
            },
            None => {},
        }
        i = i + 1;
    }
    assert(views(all@).take(i as int) == views(all@));
    result
}

/// What a file holds after its changes, where it has any.
pub open spec fn file_update(file: WorkflowFileView, changes: Seq<PinChangeView>) -> Option<
    FileUpdateView,
> {
    let own = changes_for(file.path, changes);
    if own.len() > 0 {
        Some(
            FileUpdateView { file: file.path, updated_content: changed_content(file.content, own) },
        )
    } else {
        None
    }
}

/// What the files hold after the changes; a file without changes is left out.
pub open spec fn file_updates(files: Seq<WorkflowFileView>, changes: Seq<PinChangeView>) -> Seq<
    FileUpdateView,
>
    decreases files.len(),
{
    if files.len() == 0 {
        Seq::empty()
    } else {
        let before = file_updates(files.drop_last(), changes);
        match file_update(files.last(), changes) {
            Some(update) => before.push(update),
            None => before,
        }
    }
}

/// The first file with a change that names a line behind its end.
pub open spec fn first_failure(files: Seq<WorkflowFileView>, changes: Seq<PinChangeView>) -> Option<
    Seq<char>,
>
    decreases files.len(),
{
    if files.len() == 0 {
        None
    } else {
        match first_failure(files.drop_last(), changes) {
            Some(message) => Some(message),
            None => {
                let own = changes_for(files.last().path, changes);
                if last_line(own) > raw_lines(files.last().content).len() {
                    Some(outside_message(last_line(own)))
                } else {
                    None
                }
            },
        }
    }
}

/// How many files stand in front of the first one with a change that names a line
/// behind its end.
pub open spec fn files_before_failure(
    files: Seq<WorkflowFileView>,
    changes: Seq<PinChangeView>,
) -> int
    decreases files.len(),
{
    if files.len() == 0 {
        0
    } else if first_failure(files.drop_last(), changes) is Some {
        files_before_failure(files.drop_last(), changes)
    } else if first_failure(files, changes) is Some {
        files.len() - 1
    } else {
        files.len() as int
    }
}

/// Where changes could not all be applied: what is said of the first one that names a
/// line behind the end of its file, and what the files in front of that file hold by
/// then. That file and those behind it stay as they are.
#[derive(Debug, Clone, PartialEq, Eq)]
pub struct ApplyFailure {
    pub message: String,
    pub written: Vec<FileUpdate>,
}

/// Applies the changes file by file, in the order of the files, which is that of their
/// paths where they were discovered: what the files hold after them, or what is said of the
/// first change that names a line behind the end of its file, with what the files in front
/// of that one hold.
pub fn apply_changes(files: &Vec<WorkflowFile>, changes: &Vec<PinChange>) -> (result: Result<
    Vec<FileUpdate>,
    ApplyFailure,
>)
    requires
        forall|i: int| 0 <= i < changes@.len() ==> (#[trigger] changes@[i]).line_number >= 1,
    ensures
        match result {
            Ok(updates) => first_failure(views(files@), views(changes@)) is None && views(updates@)
                == file_updates(views(files@), views(changes@)),
            Err(failure) => {
                let before = files_before_failure(views(files@), views(changes@));
                &&& first_failure(views(files@), views(changes@)) == Some(failure.message@)
                &&& 0 <= before < files@.len()
                &&& views(failure.written@) == file_updates(
                    views(files@).take(before),
                    views(changes@),
                )
            },
        },
{
    let mut result: Vec<FileUpdate> = Vec::new();
    let mut i: usize = 0;
    while i < files.len()
        invariant
            i <= files.len(),
            forall|i: int| 0 <= i < changes@.len() ==> (#[trigger] changes@[i]).line_number >= 1,
            first_failure(views(files@).take(i as int), views(changes@)) is None,
            views(result@) == file_updates(views(files@).take(i as int), views(changes@)),
        decreases files.len() - i,
    {
        let own = select_changes(&files[i].path, changes);
        proof {
            let now = views(files@).take(i + 1);
            assert(now.drop_last() == views(files@).take(i as int));
            assert(now.last() == files@[i as int]@);
        }
        let ghost before = result@;
        if own.len() > 0 {
            match apply_changes_to_content(&files[i].content, own.as_slice()) {
                Ok(content) => {
                    let update = FileUpdate {
                        file: files[i].path.clone(),
                        updated_content: content,
                    };
                    result.push(update);
                    assert(views(result@) == views(before).push(update@));
                },
                Err(message) => {
                    proof {
                        lemma_first_failure_stays(views(files@), views(changes@), i + 1);
                    }
                    return Err(ApplyFailure { message, written: result });
                },
            }
        }
        i = i + 1;
    }
    assert(views(files@).take(i as int) == views(files@));
    Ok(result)
}

/// A failure among the first files is the first failure.
proof fn lemma_first_failure_stays(
    files: Seq<WorkflowFileView>,
    changes: Seq<PinChangeView>,
    n: int,
)
    requires
        0 <= n <= files.len(),
        first_failure(files.take(n), changes) is Some,
    ensures
        first_failure(files, changes) == first_failure(files.take(n), changes),
        files_before_failure(files, changes) == files_before_failure(files.take(n), changes),
    decreases files.len() - n,
{
    if n < files.len() {
        assert(files.drop_last().take(n) == files.take(n));
        lemma_first_failure_stays(files.drop_last(), changes, n);
    } else {
        assert(files.take(n) == files);
    }
}

/// The changes that belong to a file.
fn select_changes<'a>(path: &str, changes: &'a Vec<PinChange>) -> (result: Vec<&'a PinChange>)
    requires
        forall|i: int| 0 <= i < changes@.len() ==> (#[trigger] changes@[i]).line_number >= 1,
    ensures
        views(result@) == changes_for(path@, views(changes@)),
        forall|i: int| 0 <= i < result@.len() ==> (#[trigger] result@[i]).line_number >= 1,
{
    let mut result: Vec<&'a PinChange> = Vec::new();
    let mut i: usize = 0;
    let ghost keep = |change: PinChangeView| change.file == path@;
    assert(views(changes@).take(0).filter(keep) == Seq::<PinChangeView>::empty());
    while i < changes.len()
        invariant
            i <= changes.len(),
            forall|i: int| 0 <= i < changes@.len() ==> (#[trigger] changes@[i]).line_number >= 1,
            keep == (|change: PinChangeView| change.file == path@),
            views(result@) == views(changes@).take(i as int).filter(keep),
            forall|i: int| 0 <= i < result@.len() ==> (#[trigger] result@[i]).line_number >= 1,
        decreases changes.len() - i,
    {
        let ghost before = result@;
        proof {
            let now = views(changes@).take(i + 1);
            assert(now.drop_last() == views(changes@).take(i as int));
            assert(now.last() == changes@[i as int]@);
            reveal(Seq::filter);
        }
        if same(&changes[i].file, path) {
            result.push(&changes[i]);
            assert(views(result@) == views(before).push(changes@[i as int]@));
        }
        i = i + 1;
    }
    assert(views(changes@).take(i as int) == views(changes@));
    result
}

} // verus!
