//! What comments say of versions, which actions are moved, and which lines and files change.

use vstd::prelude::*;

use crate::github::LatestView;
use crate::model::{is_version_hint, touched_files, ActionView, FileUpdateView, PinChangeView};
use crate::pinning::unpinned;
use crate::scan_laws::{is_commit, is_gap, lemma_commit};
use crate::text::{is_space, raw_lines, trim};
use crate::text_laws::{law_cut_at_the_first_mark, law_white_space_is_trimmed};
use crate::update::{
    changes_among, count_pinned, entries_for, needs_update, update_change, update_changes,
    UpdateMode,
};
use crate::workflow::{
    applied, changed_content, changes_for, file_updates, files_before_failure, first_failure,
    last_line, replacement, WorkflowFileView,
};

verus! {

// ---------------------------------------------------------------------------
// Comments
// ---------------------------------------------------------------------------
/// The text looks like a version: a `v` or a digit in front, or the name of a branch or a
/// channel, and no white space in it.
pub open spec fn looks_like_a_version(text: Seq<char>) -> bool {
    &&& text.len() > 0
    &&& forall|i: int| 0 <= i < text.len() ==> !is_space(#[trigger] text[i])
    &&& {
        ||| text[0] == 'v'
        ||| '0' <= text[0] && text[0] <= '9'
        ||| text == "main"@
        ||| text == "master"@
        ||| text == "stable"@
        ||| text == "beta"@
        ||| text == "nightly"@
    }
}

/// A comment: a first part and, behind a bar, a second one, with blanks around them.
pub open spec fn comment_text(
    a: Seq<char>,
    first: Seq<char>,
    b: Seq<char>,
    second: Option<(Seq<char>, Seq<char>, Seq<char>)>,
) -> Seq<char> {
    match second {
        Some((c, text, d)) => a + first + b + seq!['|'] + c + text + d,
        None => a + first + b,
    }
}

/// The parts of a comment can be told apart.
pub open spec fn are_comment_parts(
    a: Seq<char>,
    first: Seq<char>,
    b: Seq<char>,
    second: Option<(Seq<char>, Seq<char>, Seq<char>)>,
) -> bool {
    &&& is_gap(a) && is_gap(b)
    &&& first.len() > 0 && !is_space(first[0]) && !is_space(first.last())
    &&& !first.contains('|')
    &&& second matches Some((c, text, d)) ==> is_gap(c) && is_gap(d) && (text.len() > 0
        ==> !is_space(text[0]) && !is_space(text.last()))
}

proof fn lemma_hint(text: Seq<char>)
    requires
        text.len() > 0 ==> !is_space(text[0]) && !is_space(text.last()),
    ensures
        trim(text) == text,
        is_version_hint(text) == looks_like_a_version(text),
{
    crate::text::lemma_trim_same(text);
}

proof fn lemma_gap_has_no_bar(gap: Seq<char>)
    requires
        is_gap(gap),
    ensures
        !gap.contains('|'),
{
    if gap.contains('|') {
        let i = choose|i: int| 0 <= i < gap.len() && gap[i] == '|';
        assert(is_space(gap[i]));
    }
}

/// At a commit, a comment that starts with something like a version tells the version of the
/// action, and what stands behind the bar is the rest of the comment. In every other case the
/// version is the one in the reference, and the whole comment is kept.
pub proof fn law_comment_tells_the_version(
    action: ActionView,
    a: Seq<char>,
    first: Seq<char>,
    b: Seq<char>,
    second: Option<(Seq<char>, Seq<char>, Seq<char>)>,
)
    requires
        are_comment_parts(a, first, b, second),
        action.inline_comment == Some(comment_text(a, first, b, second)),
    ensures
        is_commit(action.version) && looks_like_a_version(first) ==> {
            &&& action.logical_version() == first
            &&& action.extra_comment() == match second {
                Some((_, text, _)) => if text.len() > 0 {
                    Some(text)
                } else {
                    None
                },
                None => None,
            }
        },
        !(is_commit(action.version) && looks_like_a_version(first)) ==> {
            &&& action.logical_version() == action.version
            &&& action.extra_comment() == Some(trim(comment_text(a, first, b, second)))
        },
{
    let whole = comment_text(a, first, b, second);
    lemma_commit(action.version);
    lemma_hint(first);
    lemma_gap_has_no_bar(b);
    match second {
        None => {
            law_white_space_is_trimmed(a, first, b);
            assert(trim(whole) == first);
            law_cut_at_the_first_mark(first, Seq::empty(), '|');
            assert(trim(Seq::<char>::empty()) == Seq::<char>::empty()) by {
                crate::text::lemma_trim_same(Seq::empty());
            }
        },
        Some((c, text, d)) => {
            let rest = if text.len() > 0 {
                c + text
            } else {
                Seq::empty()
            };
            let kept = first + b + seq!['|'] + rest;
            assert(trim(whole) == kept) by {
                if text.len() > 0 {
                    law_white_space_is_trimmed(a, kept, d);
                    assert(kept[0] == first[0]);
                    assert(kept.last() == text.last());
                    assert(whole == a + kept + d);
                } else {
                    assert(is_gap(c + d)) by {
                        assert forall|i: int| 0 <= i < (c + d).len() implies is_space(
                            #[trigger] (c + d)[i],
                        ) by {
                            if i < c.len() {
                                assert((c + d)[i] == c[i]);
                            } else {
                                assert((c + d)[i] == d[i - c.len()]);
                            }
                        }
                    }
                    law_white_space_is_trimmed(a, kept, c + d);
                    assert(kept[0] == first[0]);
                    assert(kept.last() == '|');
                    assert(whole == a + kept + (c + d));
                }
            }
            let front = first + b;
            assert(!front.contains('|')) by {
                if front.contains('|') {
                    let i = choose|i: int| 0 <= i < front.len() && front[i] == '|';
                    if i < first.len() {
                        assert(first.contains(first[i]));
                    } else {
                        assert(b.contains(b[i - first.len()]));
                    }
                }
            }
            assert(kept == front + seq!['|'] + rest);
            law_cut_at_the_first_mark(front, rest, '|');
            law_white_space_is_trimmed(Seq::empty(), first, b);
            assert(Seq::<char>::empty() + first + b == front);
            law_white_space_is_trimmed(c, text, Seq::empty());
            assert(c + text + Seq::<char>::empty() == c + text);
            crate::text::lemma_trim_same(Seq::empty());
        },
    }
}

/// Without a comment the version is the one in the reference, and nothing else is kept.
pub proof fn law_no_comment_tells_nothing(action: ActionView)
    requires
        action.inline_comment is None,
    ensures
        action.logical_version() == action.version,
        action.extra_comment() is None,
{
}

/// The comment of a pinned line is the version, and behind a bar what else was in the comment.
pub proof fn law_pinned_comment_keeps_the_rest(action: ActionView, label: Seq<char>)
    ensures
        action.extra_comment() is None || action.extra_comment() == Some(label)
            ==> action.pinned_comment(label) == label,
        action.extra_comment() is Some && action.extra_comment() != Some(label)
            ==> action.pinned_comment(label) == label + " | "@ + action.extra_comment()->0,
        forall|sha: Seq<char>| #[trigger]
            action.rendered_line(sha, label) == action.indentation + action.list_prefix + "uses: "@
                + action.action_slug + "@"@ + sha + "  # "@ + action.pinned_comment(label),
{
}

// ---------------------------------------------------------------------------
// Updates
// ---------------------------------------------------------------------------
/// The action is at the latest commit and says so.
pub open spec fn is_current(action: ActionView, latest: LatestView) -> bool {
    is_commit(action.version) && action.version == latest.sha && action.logical_version()
        == latest.version
}

/// The change moves the action to the latest commit.
pub open spec fn moves(change: PinChangeView, action: ActionView, latest: LatestView) -> bool {
    &&& change.file == action.file
    &&& change.line_number == action.line_number
    &&& change.action_slug == action.action_slug
    &&& change.from_version == action.logical_version()
    &&& change.to_sha == latest.sha
    &&& change.original_line == action.original_line
    &&& change.rewritten_line == action.indentation + action.list_prefix + "uses: "@
        + action.action_slug + "@"@ + latest.sha + "  # "@ + action.pinned_comment(latest.version)
}

/// Some change moves the action.
pub open spec fn is_moved(
    changes: Seq<PinChangeView>,
    action: ActionView,
    latest: LatestView,
) -> bool {
    exists|c: int| 0 <= c < changes.len() && moves(#[trigger] changes[c], action, latest)
}

/// The change moves an action that is not current.
pub open spec fn is_move_of_one(
    change: PinChangeView,
    actions: Seq<ActionView>,
    latest: Seq<LatestView>,
) -> bool {
    exists|k: int|
        0 <= k < actions.len() && !is_current(#[trigger] actions[k], latest[k]) && moves(
            change,
            actions[k],
            latest[k],
        )
}

/// Every action that is not current is moved, and no other, whether or not files are written;
/// where only the state is asked for, none is.
pub proof fn law_every_stale_action_is_moved(
    mode: UpdateMode,
    actions: Seq<ActionView>,
    latest: Seq<LatestView>,
)
    ensures
        mode == UpdateMode::Status ==> update_changes(mode, actions, latest).len() == 0,
        mode != UpdateMode::Status ==> forall|k: int|
            0 <= k < actions.len() && !is_current(actions[k], latest[k]) ==> is_moved(
                update_changes(mode, actions, latest),
                #[trigger] actions[k],
                latest[k],
            ),
        forall|c: int|
            0 <= c < update_changes(mode, actions, latest).len() ==> is_move_of_one(
                #[trigger] update_changes(mode, actions, latest)[c],
                actions,
                latest,
            ),
{
    if mode != UpdateMode::Status {
        lemma_moved(actions, latest, actions.len() as int);
    }
}

proof fn lemma_current(action: ActionView, latest: LatestView)
    ensures
        needs_update(action, latest) == !is_current(action, latest),
        moves(update_change(action, latest), action, latest),
{
    lemma_commit(action.version);
}

proof fn lemma_moved(actions: Seq<ActionView>, latest: Seq<LatestView>, n: int)
    requires
        0 <= n <= actions.len(),
    ensures
        forall|k: int|
            0 <= k < n && !is_current(actions[k], latest[k]) ==> is_moved(
                changes_among(actions, latest, n),
                #[trigger] actions[k],
                latest[k],
            ),
        forall|c: int|
            0 <= c < changes_among(actions, latest, n).len() ==> is_move_of_one(
                #[trigger] changes_among(actions, latest, n)[c],
                actions,
                latest,
            ),
    decreases n,
{
    if n > 0 {
        lemma_moved(actions, latest, n - 1);
        lemma_current(actions[n - 1], latest[n - 1]);
        let before = changes_among(actions, latest, n - 1);
        let now = changes_among(actions, latest, n);
        assert forall|k: int|
            0 <= k < n && !is_current(actions[k], latest[k]) implies is_moved(
            now,
            #[trigger] actions[k],
            latest[k],
        ) by {
            if k < n - 1 {
                assert(is_moved(before, actions[k], latest[k]));
                let c = choose|c: int|
                    0 <= c < before.len() && moves(#[trigger] before[c], actions[k], latest[k]);
                assert(now[c] == before[c]);
            } else {
                assert(moves(now[before.len() as int], actions[k], latest[k]));
            }
        }
        assert forall|c: int| 0 <= c < now.len() implies is_move_of_one(
            #[trigger] now[c],
            actions,
            latest,
        ) by {
            if c < before.len() {
                assert(now[c] == before[c]);
            } else {
                assert(!is_current(actions[n - 1], latest[n - 1]));
            }
        }
    }
}

/// Every action has its entry, which tells its place, its version and the latest one.
pub proof fn law_every_action_has_its_entry(
    actions: Seq<ActionView>,
    latest: Seq<LatestView>,
    i: int,
)
    requires
        0 <= i < actions.len(),
    ensures
        entries_for(actions, latest).len() == actions.len(),
        ({
            let entry = entries_for(actions, latest)[i];
            let action = actions[i];
            &&& entry.file == action.file
            &&& entry.line_number == action.line_number
            &&& entry.action_slug == action.action_slug
            &&& entry.pinned == is_commit(action.version)
            &&& entry.current_version == action.logical_version()
            &&& entry.current_sha == if is_commit(action.version) {
                Some(action.version)
            } else {
                None
            }
            &&& entry.latest_version == latest[i].version
            &&& entry.latest_sha == latest[i].sha
            &&& entry.update_needed == !is_current(action, latest[i])
        }),
{
    lemma_current(actions[i], latest[i]);
    lemma_commit(actions[i].version);
}

/// The pinned actions are counted: together with the others they are all actions.
pub proof fn law_pinned_actions_are_counted(actions: Seq<ActionView>)
    ensures
        count_pinned(actions) == actions.filter(|action: ActionView| is_commit(action.version)).len(),
        count_pinned(actions) + unpinned(actions).len() == actions.len(),
    decreases actions.len(),
{
    reveal(Seq::filter);
    if actions.len() > 0 {
        law_pinned_actions_are_counted(actions.drop_last());
        lemma_commit(actions.last().version);
    }
}

// ---------------------------------------------------------------------------
// Lines and files
// ---------------------------------------------------------------------------
/// The last change that names a line gives its new text; a line that none names keeps its own.
pub proof fn law_last_change_of_a_line_counts(changes: Seq<PinChangeView>, number: nat)
    ensures
        forall|i: int|
            0 <= i < changes.len() && (#[trigger] changes[i]).line_number == number && (forall|
                j: int,
            |
                i < j < changes.len() ==> (#[trigger] changes[j]).line_number != number)
                ==> replacement(changes, number) == Some(changes[i].rewritten_line),
        (forall|i: int| 0 <= i < changes.len() ==> (#[trigger] changes[i]).line_number != number)
            ==> replacement(changes, number) is None,
    decreases changes.len(),
{
    if changes.len() > 0 {
        let front = changes.drop_last();
        law_last_change_of_a_line_counts(front, number);
        assert(changes[changes.len() - 1] == changes.last());
        assert forall|i: int|
            0 <= i < changes.len() && (#[trigger] changes[i]).line_number == number && (forall|
                j: int,
            |
                i < j < changes.len() ==> (
                #[trigger] changes[j]).line_number != number) implies replacement(changes, number)
            == Some(changes[i].rewritten_line) by {
            if i < front.len() {
                assert(changes[changes.len() - 1].line_number != number);
                assert(front[i] == changes[i]);
                assert forall|j: int| i < j < front.len() implies (
                #[trigger] front[j]).line_number != number by {
                    assert(front[j] == changes[j]);
                }
            }
        }
        if forall|i: int| 0 <= i < changes.len() ==> (#[trigger] changes[i]).line_number != number {
            assert(changes[changes.len() - 1].line_number != number);
            assert forall|i: int| 0 <= i < front.len() implies (#[trigger] front[i]).line_number
                != number by {
                assert(front[i] == changes[i]);
            }
        }
    }
}

/// Some change names a line that the content does not have.
pub open spec fn some_line_is_missing(content: Seq<char>, changes: Seq<PinChangeView>) -> bool {
    exists|i: int|
        0 <= i < changes.len() && (#[trigger] changes[i]).line_number > raw_lines(content).len()
}

proof fn lemma_last_line(changes: Seq<PinChangeView>)
    ensures
        forall|i: int|
            0 <= i < changes.len() ==> (#[trigger] changes[i]).line_number <= last_line(changes),
        changes.len() > 0 ==> exists|i: int|
            0 <= i < changes.len() && (#[trigger] changes[i]).line_number == last_line(changes),
        changes.len() == 0 ==> last_line(changes) == 0,
    decreases changes.len(),
{
    if changes.len() > 0 {
        let front = changes.drop_last();
        lemma_last_line(front);
        assert forall|i: int| 0 <= i < changes.len() implies (#[trigger] changes[i]).line_number
            <= last_line(changes) by {
            if i < front.len() {
                assert(front[i] == changes[i]);
            }
        }
        if last_line(front) < changes.last().line_number || front.len() == 0 {
            assert(changes[changes.len() - 1].line_number == last_line(changes));
        } else {
            let i = choose|i: int|
                0 <= i < front.len() && (#[trigger] front[i]).line_number == last_line(front);
            assert(changes[i].line_number == last_line(changes));
        }
    }
}

/// Changes fail exactly when one of them names a line that the content does not have; the
/// greatest such line is told.
pub proof fn law_changes_stay_in_the_content(content: Seq<char>, changes: Seq<PinChangeView>)
    ensures
        applied(content, changes) is Err == some_line_is_missing(content, changes),
        applied(content, changes) is Ok ==> applied(content, changes) == Ok::<
            Seq<char>,
            Seq<char>,
        >(changed_content(content, changes)),
        forall|i: int|
            0 <= i < changes.len() && some_line_is_missing(content, changes) && (forall|j: int|
                0 <= j < changes.len() ==> (#[trigger] changes[j]).line_number
                    <= changes[i].line_number) ==> applied(content, changes) == Err::<
                Seq<char>,
                Seq<char>,
            >(
                "cannot rewrite content: line "@ + crate::text::decimal(
                    (#[trigger] changes[i]).line_number,
                ) + " is outside the file"@,
            ),
{
    lemma_last_line(changes);
    lemma_missing(content, changes);
    assert forall|i: int|
        0 <= i < changes.len() && some_line_is_missing(content, changes) && (forall|j: int|
            0 <= j < changes.len() ==> (#[trigger] changes[j]).line_number
                <= changes[i].line_number) implies last_line(changes) == (
    #[trigger] changes[i]).line_number by {
        let m = choose|m: int|
            0 <= m < changes.len() && (#[trigger] changes[m]).line_number == last_line(changes);
        assert(changes[m].line_number <= changes[i].line_number);
    }
}

proof fn lemma_missing(content: Seq<char>, changes: Seq<PinChangeView>)
    ensures
        (last_line(changes) > raw_lines(content).len()) == some_line_is_missing(content, changes),
{
    lemma_last_line(changes);
    if last_line(changes) > raw_lines(content).len() {
        let i = choose|i: int|
            0 <= i < changes.len() && (#[trigger] changes[i]).line_number == last_line(changes);
        assert(changes[i].line_number > raw_lines(content).len());
    }
}

/// Some change of the file names a line that it does not have.
pub open spec fn is_broken(file: WorkflowFileView, changes: Seq<PinChangeView>) -> bool {
    exists|i: int|
        0 <= i < changes.len() && (#[trigger] changes[i]).file == file.path
            && changes[i].line_number > raw_lines(file.content).len()
}

/// Some change names the file.
pub open spec fn is_touched(path: Seq<char>, changes: Seq<PinChangeView>) -> bool {
    exists|i: int| 0 <= i < changes.len() && (#[trigger] changes[i]).file == path
}

proof fn lemma_own(path: Seq<char>, changes: Seq<PinChangeView>)
    ensures
        forall|i: int|
            0 <= i < changes.len() && (#[trigger] changes[i]).file == path ==> changes_for(
                path,
                changes,
            ).contains(changes[i]),
        forall|k: int|
            0 <= k < changes_for(path, changes).len() ==> changes.contains(
                #[trigger] changes_for(path, changes)[k],
            ) && changes_for(path, changes)[k].file == path,
    decreases changes.len(),
{
    reveal(Seq::filter);
    if changes.len() > 0 {
        let front = changes.drop_last();
        lemma_own(path, front);
        let before = changes_for(path, front);
        let now = changes_for(path, changes);
        assert forall|i: int|
            0 <= i < changes.len() && (#[trigger] changes[i]).file == path implies now.contains(
            changes[i],
        ) by {
            if i < front.len() {
                assert(front[i] == changes[i]);
                let k = choose|k: int| 0 <= k < before.len() && before[k] == changes[i];
                assert(now[k] == changes[i]);
            } else {
                assert(now[before.len() as int] == changes[i]);
            }
        }
        assert forall|k: int| 0 <= k < now.len() implies changes.contains(#[trigger] now[k])
            && now[k].file == path by {
            if k < before.len() {
                assert(now[k] == before[k]);
                let i = choose|i: int| 0 <= i < front.len() && front[i] == before[k];
                assert(changes[i] == now[k]);
            } else {
                assert(changes[changes.len() - 1] == now[k]);
            }
        }
    }
}

proof fn lemma_broken(file: WorkflowFileView, changes: Seq<PinChangeView>)
    ensures
        is_broken(file, changes) == (last_line(changes_for(file.path, changes)) > raw_lines(
            file.content,
        ).len()),
        is_touched(file.path, changes) == (changes_for(file.path, changes).len() > 0),
{
    let own = changes_for(file.path, changes);
    lemma_own(file.path, changes);
    lemma_missing(file.content, own);
    if is_broken(file, changes) {
        let i = choose|i: int|
            0 <= i < changes.len() && (#[trigger] changes[i]).file == file.path
                && changes[i].line_number > raw_lines(file.content).len();
        let k = choose|k: int| 0 <= k < own.len() && own[k] == changes[i];
        assert(own[k].line_number > raw_lines(file.content).len());
    }
    if some_line_is_missing(file.content, own) {
        let k = choose|k: int|
            0 <= k < own.len() && (#[trigger] own[k]).line_number > raw_lines(file.content).len();
        let i = choose|i: int| 0 <= i < changes.len() && changes[i] == own[k];
        assert(changes[i].file == file.path);
    }
    if is_touched(file.path, changes) {
        let i = choose|i: int| 0 <= i < changes.len() && (#[trigger] changes[i]).file == file.path;
        assert(own.contains(changes[i]));
    }
    if own.len() > 0 {
        let i = choose|i: int| 0 <= i < changes.len() && changes[i] == own[0];
        assert(changes[i].file == file.path);
    }
}

/// Writing fails exactly when a change names a line that its file does not have, and stops at
/// the first such file.
pub proof fn law_first_broken_file_stops(files: Seq<WorkflowFileView>, changes: Seq<PinChangeView>)
    ensures
        (first_failure(files, changes) is None) == (forall|f: int|
            0 <= f < files.len() ==> !is_broken(#[trigger] files[f], changes)),
        forall|f: int|
            0 <= f < files.len() && is_broken(#[trigger] files[f], changes) && (forall|g: int|
                0 <= g < f ==> !is_broken(#[trigger] files[g], changes)) ==> files_before_failure(
                files,
                changes,
            ) == f,
    decreases files.len(),
{
    if files.len() > 0 {
        let front = files.drop_last();
        law_first_broken_file_stops(front, changes);
        lemma_broken(files.last(), changes);
        assert(files[files.len() - 1] == files.last());
        if first_failure(files, changes) is None {
            assert forall|f: int| 0 <= f < files.len() implies !is_broken(
                #[trigger] files[f],
                changes,
            ) by {
                if f < front.len() {
                    assert(!is_broken(front[f], changes));
                }
            }
        } else {
            if first_failure(front, changes) is None {
                assert(is_broken(files[files.len() - 1], changes));
            } else {
                let f = choose|f: int| 0 <= f < front.len() && is_broken(#[trigger] front[f], changes);
                assert(is_broken(files[f], changes));
            }
        }
        assert forall|f: int|
            0 <= f < files.len() && is_broken(#[trigger] files[f], changes) && (forall|g: int|
                0 <= g < f ==> !is_broken(#[trigger] files[g], changes)) implies files_before_failure(
            files,
            changes,
        ) == f by {
            if f < front.len() {
                assert(front[f] == files[f]);
                assert(is_broken(front[f], changes));
                assert forall|g: int| 0 <= g < f implies !is_broken(#[trigger] front[g], changes) by {
                    assert(front[g] == files[g]);
                }
            } else {
                assert forall|g: int| 0 <= g < front.len() implies !is_broken(
                    #[trigger] front[g],
                    changes,
                ) by {
                    assert(front[g] == files[g]);
                }
            }
        }
    }
}

/// Every file that a change names is written, with all its changes; no other file is.
pub proof fn law_touched_files_are_written(
    files: Seq<WorkflowFileView>,
    changes: Seq<PinChangeView>,
)
    ensures
        forall|f: int|
            0 <= f < files.len() && is_touched(files[f].path, changes) ==> file_updates(
                files,
                changes,
            ).contains(written(#[trigger] files[f], changes)),
        forall|u: int|
            0 <= u < file_updates(files, changes).len() ==> is_written_for_one(
                files,
                changes,
                #[trigger] file_updates(files, changes)[u],
            ),
    decreases files.len(),
{
    if files.len() > 0 {
        let front = files.drop_last();
        law_touched_files_are_written(front, changes);
        lemma_broken(files.last(), changes);
        let before = file_updates(front, changes);
        let now = file_updates(files, changes);
        assert forall|f: int| 0 <= f < files.len() && is_touched(files[f].path, changes) implies now.contains(
            written(#[trigger] files[f], changes),
        ) by {
            if f < front.len() {
                assert(front[f] == files[f]);
                let k = choose|k: int| 0 <= k < before.len() && before[k] == written(
                    files[f],
                    changes,
                );
                assert(now[k] == before[k]);
            } else {
                assert(now[before.len() as int] == written(files[f], changes));
            }
        }
        assert forall|u: int| 0 <= u < now.len() implies is_written_for_one(
            files,
            changes,
            #[trigger] now[u],
        ) by {
            if u < before.len() {
                assert(now[u] == before[u]);
                let f = choose|f: int|
                    0 <= f < front.len() && is_touched((#[trigger] front[f]).path, changes)
                        && before[u] == written(front[f], changes);
                assert(files[f] == front[f]);
            } else {
                assert(is_touched(files[files.len() - 1].path, changes));
            }
        }
    }
}

/// The file with its changes.
pub open spec fn written(file: WorkflowFileView, changes: Seq<PinChangeView>) -> FileUpdateView {
    FileUpdateView {
        file: file.path,
        updated_content: changed_content(file.content, changes_for(file.path, changes)),
    }
}

/// The update is of a file that a change names.
pub open spec fn is_written_for_one(
    files: Seq<WorkflowFileView>,
    changes: Seq<PinChangeView>,
    update: FileUpdateView,
) -> bool {
    exists|f: int|
        0 <= f < files.len() && is_touched((#[trigger] files[f]).path, changes) && update
            == written(files[f], changes)
}

/// The changes of a file are those that name it, in their order: another change at the end
/// goes to the file it names.
pub proof fn law_changes_go_to_their_file(
    path: Seq<char>,
    changes: Seq<PinChangeView>,
    change: PinChangeView,
)
    ensures
        changes_for(path, Seq::empty()) == Seq::<PinChangeView>::empty(),
        changes_for(path, changes.push(change)) == if change.file == path {
            changes_for(path, changes).push(change)
        } else {
            changes_for(path, changes)
        },
        touched_files(changes).contains(path) == is_touched(path, changes),
{
    reveal(Seq::filter);
    assert(changes.push(change).drop_last() == changes);
    let paths = changes.map_values(|change: PinChangeView| change.file);
    if is_touched(path, changes) {
        let i = choose|i: int| 0 <= i < changes.len() && (#[trigger] changes[i]).file == path;
        assert(paths[i] == path);
        assert(paths.contains(path));
    }
    if paths.contains(path) {
        let i = choose|i: int| 0 <= i < paths.len() && paths[i] == path;
        assert(changes[i].file == path);
    }
}

} // verus!
