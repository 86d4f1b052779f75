//! What pinning and updating promise of whole files: afterwards every action is
//! pinned.

use vstd::prelude::*;

use crate::api::{Document, ProgressView};
use crate::github::LatestView;
use crate::model::{is_full_sha, is_version_hint, ActionView, PinChangeView};
use crate::pattern::{in_class, or_empty, uses_line, Class};
use crate::pinning::{
    all_actions, commits_of, lemma_action_lines, pin_change, pin_changes, unpinned,
};
use crate::text::{is_hex, is_space, lines, raw_lines, trim};
use crate::update::{needs_update, update_change};
use crate::workflow::{
    action_on_line, actions_of, actions_on, changed_content, changed_line, changes_for,
    first_failure, last_line, replacement, WorkflowFileView,
};
use crate::workflow_laws::{
    changes_fit, fits_on_a_line, law_only_named_lines_change, law_pinned_line_is_read_back,
    law_pinned_line_keeps_its_version, lemma_comment_is_one_line, lemma_extra_comment,
    lemma_lines_hold_no_line_feed, lemma_sum_keeps_out, lemma_target_parts, lemma_uses_line,
};

verus! {

/// A pinned line fits on a line.
pub(crate) proof fn lemma_pinned_line_fits(
    file: Seq<char>,
    line: Seq<char>,
    number: nat,
    sha: Seq<char>,
    label: Seq<char>,
)
    requires
        action_on_line(file, line, number) is Some,
        !line.contains('\n'),
        is_full_sha(sha),
        !label.contains('\n'),
        label.len() > 0 ==> label.last() != '\r',
    ensures
        fits_on_a_line(action_on_line(file, line, number)->0.rendered_line(sha, label)),
{
    let action = action_on_line(file, line, number)->0;
    let parts = uses_line(line)->0;
    let raw = or_empty(parts[2]);
    lemma_uses_line(line);
    lemma_target_parts(raw);
    lemma_comment_is_one_line(action, label);
    let comment = action.pinned_comment(label);
    reveal_strlit("uses: ");
    reveal_strlit("@");
    reveal_strlit("  # ");
    reveal_strlit(" | ");
    lemma_parts_of_line(line);
    if action.list_prefix.contains('\n') {
        let i = choose|i: int| 0 <= i < action.list_prefix.len() && action.list_prefix[i] == '\n';
        assert(or_empty(parts[1])[i] == '\n');
    }
    if action.action_slug.contains('\n') {
        let i = choose|i: int| 0 <= i < action.action_slug.len() && action.action_slug[i] == '\n';
        assert(raw[i] == '\n');
        assert(in_class(Class::Reference, raw[i]));
    }
    if sha.contains('\n') {
        let i = choose|i: int| 0 <= i < sha.len() && sha[i] == '\n';
        assert(is_hex(sha[i]));
    }
    let a = action.indentation;
    let b = a + action.list_prefix;
    let c = b + "uses: "@;
    let d = c + action.action_slug;
    let e = d + "@"@;
    let f = e + sha;
    let g = f + "  # "@;
    lemma_sum_keeps_out(a, action.list_prefix, '\n');
    assert(!"uses: "@.contains('\n'));
    lemma_sum_keeps_out(b, "uses: "@, '\n');
    lemma_sum_keeps_out(c, action.action_slug, '\n');
    assert(!"@"@.contains('\n'));
    lemma_sum_keeps_out(d, "@"@, '\n');
    lemma_sum_keeps_out(e, sha, '\n');
    assert(!"  # "@.contains('\n'));
    lemma_sum_keeps_out(f, "  # "@, '\n');
    lemma_sum_keeps_out(g, comment, '\n');
    let whole = g + comment;
    assert(whole == action.rendered_line(sha, label));
    if comment.len() == 0 {
        assert(whole == g);
        assert(g.last() == ' ');
    } else {
        assert(whole.last() == comment.last());
        match action.extra_comment() {
            Some(extra) => {
                lemma_extra_comment(action);
                if extra != label {
                    assert(comment.last() == extra.last());
                }
            },
            None => {},
        }
    }
}

/// The parts of a line hold no character that the line does not hold.
proof fn lemma_parts_of_line(line: Seq<char>)
    requires
        uses_line(line) is Some,
        !line.contains('\n'),
    ensures
        !or_empty(uses_line(line)->0[0]).contains('\n'),
        !or_empty(uses_line(line)->0[1]).contains('\n'),
{
    let indent = or_empty(uses_line(line)->0[0]);
    let list = or_empty(uses_line(line)->0[1]);
    let n = crate::pattern::run_end(line, 0, Class::Space);
    crate::workflow_laws::lemma_run_end(line, 0, Class::Space);
    if indent.contains('\n') {
        let i = choose|i: int| 0 <= i < indent.len() && indent[i] == '\n';
        assert(line[i] == '\n');
    }
    if list.contains('\n') {
        let i = choose|i: int| 0 <= i < list.len() && list[i] == '\n';
        crate::workflow_laws::lemma_run_end(line, n + 1, Class::Space);
        assert(line[n + i] == '\n');
    }
}

/// The reference of an action holds no white space.
proof fn lemma_version_is_a_word(file: Seq<char>, line: Seq<char>, number: nat)
    requires
        action_on_line(file, line, number) is Some,
    ensures
        forall|i: int|
            0 <= i < action_on_line(file, line, number)->0.version.len() ==> !is_space(
                #[trigger] action_on_line(file, line, number)->0.version[i],
            ),
{
    let action = action_on_line(file, line, number)->0;
    let raw = or_empty(uses_line(line)->0[2]);
    lemma_uses_line(line);
    lemma_target_parts(raw);
    assert forall|i: int| 0 <= i < action.version.len() implies !is_space(
        #[trigger] action.version[i],
    ) by {
        assert(raw.contains(action.version[i]));
        let k = choose|k: int| 0 <= k < raw.len() && raw[k] == action.version[i];
        assert(in_class(Class::Reference, raw[k]));
    }
}

/// A line is changed for its action's sake and pins it, or stays as it is and its
/// action is pinned already.
spec fn pins_line(file: WorkflowFileView, changes: Seq<PinChangeView>, i: int) -> bool {
    let number = (i + 1) as nat;
    match (action_on_line(file.path, lines(file.content)[i], number), replacement(changes, number)) {
        (Some(action), Some(text)) => fits_on_a_line(text) && action_on_line(
            file.path,
            text,
            number,
        ) is Some && action_on_line(file.path, text, number)->0.is_pinned(),
        (Some(action), None) => action.is_pinned(),
        (None, text) => text is None,
    }
}

proof fn lemma_actions_pinned(path: Seq<char>, old: Seq<Seq<char>>, now: Seq<Seq<char>>)
    requires
        old.len() == now.len(),
        forall|i: int|
            0 <= i < old.len() ==> match (
                action_on_line(path, #[trigger] old[i], (i + 1) as nat),
                action_on_line(path, now[i], (i + 1) as nat),
            ) {
                (Some(_), Some(action)) => action.is_pinned(),
                (None, None) => true,
                _ => false,
            },
    ensures
        actions_on(path, now).len() == actions_on(path, old).len(),
        forall|i: int|
            0 <= i < actions_on(path, now).len() ==> (#[trigger] actions_on(
                path,
                now,
            )[i]).is_pinned(),
    decreases old.len(),
{
    if old.len() > 0 {
        let n = old.len() - 1;
        assert(old[n] == old.last() && now[n] == now.last());
        assert forall|i: int| 0 <= i < n implies match (
            action_on_line(path, #[trigger] old.drop_last()[i], (i + 1) as nat),
            action_on_line(path, now.drop_last()[i], (i + 1) as nat),
        ) {
            (Some(_), Some(action)) => action.is_pinned(),
            (None, None) => true,
            _ => false,
        } by {
            assert(old[i] == old.drop_last()[i]);
        }
        lemma_actions_pinned(path, old.drop_last(), now.drop_last());
        assert(action_on_line(path, old[n], old.len()) is Some == action_on_line(
            path,
            now[n],
            now.len(),
        ) is Some);
    }
}

proof fn lemma_pinned_file(file: WorkflowFileView, changes: Seq<PinChangeView>)
    requires
        changes_fit(changes),
        forall|i: int|
            0 <= i < lines(file.content).len() ==> #[trigger] pins_line(file, changes, i),
    ensures
        ({
            let after = WorkflowFileView {
                path: file.path,
                content: changed_content(file.content, changes),
            };
            &&& actions_of(after).len() == actions_of(file).len()
            &&& forall|i: int|
                0 <= i < actions_of(after).len() ==> (#[trigger] actions_of(after)[i]).is_pinned()
        }),
{
    law_only_named_lines_change(file.content, changes);
    let old = lines(file.content);
    let now = lines(changed_content(file.content, changes));
    assert forall|i: int| 0 <= i < old.len() implies match (
        action_on_line(file.path, #[trigger] old[i], (i + 1) as nat),
        action_on_line(file.path, now[i], (i + 1) as nat),
    ) {
        (Some(_), Some(action)) => action.is_pinned(),
        (None, None) => true,
        _ => false,
    } by {
        assert(pins_line(file, changes, i));
        assert(now[i] == changed_line(changes, (i + 1) as nat, old[i]));
    }
    lemma_actions_pinned(file.path, old, now);
}

// ---------------------------------------------------------------------------
// The changes of one file
// ---------------------------------------------------------------------------
/// Each change pins the action on its line, under a label that fits there, and each
/// action that is not pinned has a change.
spec fn pins_first_lines(
    path: Seq<char>,
    all: Seq<Seq<char>>,
    changes: Seq<PinChangeView>,
    n: int,
) -> bool {
    &&& forall|number: nat|
        1 <= number <= n ==> match (
            action_on_line(path, all[number - 1], number),
            #[trigger] replacement(changes, number),
        ) {
            (Some(action), Some(text)) => exists|sha: Seq<char>, label: Seq<char>|
                good_label(sha, label) && text == #[trigger] action.rendered_line(sha, label),
            (Some(action), None) => action.is_pinned(),
            (None, text) => text is None,
        }
    &&& forall|number: nat| number > n ==> #[trigger] replacement(changes, number) is None
    &&& forall|i: int|
        0 <= i < changes.len() ==> 1 <= (#[trigger] changes[i]).line_number <= n && changes[i].file
            == path
    &&& changes_fit(changes)
}

/// A commit and a label that can stand on a line.
pub open spec fn good_label(sha: Seq<char>, label: Seq<char>) -> bool {
    &&& is_full_sha(sha)
    &&& !label.contains('\n')
    &&& label.len() > 0 ==> label.last() != '\r'
}

/// One line more.
proof fn lemma_one_line_more(
    path: Seq<char>,
    all: Seq<Seq<char>>,
    changes: Seq<PinChangeView>,
    n: int,
    change: Option<PinChangeView>,
)
    requires
        0 <= n < all.len(),
        !all[n].contains('\n'),
        pins_first_lines(path, all, changes, n),
        match action_on_line(path, all[n], (n + 1) as nat) {
            Some(action) => match change {
                Some(change) => {
                    &&& change.file == path
                    &&& change.line_number == n + 1
                    &&& exists|sha: Seq<char>, label: Seq<char>|
                        good_label(sha, label) && change.rewritten_line
                            == #[trigger] action.rendered_line(sha, label)
                },
                None => action.is_pinned(),
            },
            None => change is None,
        },
    ensures
        pins_first_lines(
            path,
            all,
            match change {
                Some(change) => changes.push(change),
                None => changes,
            },
            n + 1,
        ),
{
    match change {
        Some(change) => {
            let now = changes.push(change);
            assert(now.drop_last() == changes);
            let action = action_on_line(path, all[n], (n + 1) as nat)->0;
            let (sha, label) = choose|sha: Seq<char>, label: Seq<char>|
                good_label(sha, label) && change.rewritten_line == #[trigger] action.rendered_line(
                    sha,
                    label,
                );
            lemma_pinned_line_fits(path, all[n], (n + 1) as nat, sha, label);
            assert forall|i: int| 0 <= i < now.len() implies fits_on_a_line(
                #[trigger] now[i].rewritten_line,
            ) by {
                if i < changes.len() {
                    assert(now[i] == changes[i]);
                }
            }
            assert forall|i: int| 0 <= i < now.len() implies 1 <= (
            #[trigger] now[i]).line_number <= n + 1 && now[i].file == path by {
                if i < changes.len() {
                    assert(now[i] == changes[i]);
                }
            }
            assert forall|number: nat| 1 <= number <= n + 1 implies match (
                action_on_line(path, all[number - 1], number),
                #[trigger] replacement(now, number),
            ) {
                (Some(action), Some(text)) => exists|sha: Seq<char>, label: Seq<char>|
                    good_label(sha, label) && text == #[trigger] action.rendered_line(sha, label),
                (Some(action), None) => action.is_pinned(),
                (None, text) => text is None,
            } by {
                if number <= n {
                    assert(replacement(now, number) == replacement(changes, number));
                }
            }
            assert forall|number: nat| number > n + 1 implies #[trigger] replacement(
                now,
                number,
            ) is None by {
                assert(replacement(changes, number) is None);
            }
        },
        None => {
            assert(replacement(changes, (n + 1) as nat) is None);
        },
    }
}

/// The changes that pin the actions of a file pin its lines.
proof fn lemma_pin_changes(path: Seq<char>, all: Seq<Seq<char>>, shas: Seq<Seq<char>>, n: int)
    requires
        0 <= n <= all.len(),
        forall|i: int| 0 <= i < all.len() ==> !(#[trigger] all[i]).contains('\n'),
        shas.len() >= unpinned(actions_on(path, all.take(n))).len(),
        forall|i: int| 0 <= i < shas.len() ==> is_full_sha(#[trigger] shas[i]),
    ensures
        pins_first_lines(path, all, pin_changes(actions_on(path, all.take(n)), shas), n),
    decreases n,
{
    reveal(Seq::filter);
    let actions = actions_on(path, all.take(n));
    if n == 0 {
        assert(pin_changes(actions, shas) == Seq::<PinChangeView>::empty());
    } else {
        assert(all.take(n).drop_last() == all.take(n - 1));
        assert(all.take(n).last() == all[n - 1]);
        let before = actions_on(path, all.take(n - 1));
        crate::pinning::lemma_unpinned_from(actions);
        assert(unpinned(before).len() <= unpinned(actions).len()) by {
            if action_on_line(path, all[n - 1], n as nat) is Some {
                assert(actions.drop_last() == before);
            }
        }
        lemma_pin_changes(path, all, shas, n - 1);
        let old = pin_changes(before, shas);
        let now = pin_changes(actions, shas);
        match action_on_line(path, all[n - 1], n as nat) {
            Some(action) => {
                assert(actions.drop_last() == before);
                if action.is_pinned() {
                    assert(unpinned(actions) == unpinned(before));
                    assert(now == old);
                    lemma_one_line_more(path, all, old, n - 1, None);
                } else {
                    let k = unpinned(before).len() as int;
                    assert(unpinned(actions) == unpinned(before).push(action));
                    let change = pin_change(action, shas[k]);
                    assert(now == old.push(change));
                    lemma_version_is_a_word(path, all[n - 1], n as nat);
                    if action.version.contains('\n') {
                        let i = choose|i: int|
                            0 <= i < action.version.len() && action.version[i] == '\n';
                        assert(is_space(action.version[i]));
                    }
                    assert(good_label(shas[k], action.version));
                    assert(change.rewritten_line == action.rendered_line(shas[k], action.version));
                    lemma_one_line_more(path, all, old, n - 1, Some(change));
                }
            },
            None => {
                lemma_one_line_more(path, all, old, n - 1, None);
            },
        }
    }
}

/// Pinning a file leaves no action unpinned, and loses none.
proof fn lemma_file_is_pinned(file: WorkflowFileView, changes: Seq<PinChangeView>)
    requires
        pins_first_lines(
            file.path,
            lines(file.content),
            changes,
            lines(file.content).len() as int,
        ),
    ensures
        ({
            let after = WorkflowFileView {
                path: file.path,
                content: changed_content(file.content, changes),
            };
            &&& actions_of(after).len() == actions_of(file).len()
            &&& forall|i: int|
                0 <= i < actions_of(after).len() ==> (#[trigger] actions_of(after)[i]).is_pinned()
        }),
        last_line(changes) <= raw_lines(file.content).len(),
{
    let all = lines(file.content);
    lemma_lines_hold_no_line_feed(file.content);
    assert forall|i: int| 0 <= i < all.len() implies #[trigger] pins_line(file, changes, i) by {
        let number = (i + 1) as nat;
        assert(all[number - 1] == all[i]);
        let text = replacement(changes, number);
        match action_on_line(file.path, all[i], number) {
            Some(action) => {
                if text is Some {
                    let (sha, label) = choose|sha: Seq<char>, label: Seq<char>|
                        good_label(sha, label) && text->0 == #[trigger] action.rendered_line(
                            sha,
                            label,
                        );
                    law_pinned_line_is_read_back(file.path, all[i], number, sha, label);
                    lemma_pinned_line_fits(file.path, all[i], number, sha, label);
                }
            },
            None => {},
        }
    }
    lemma_pinned_file(file, changes);
    lemma_last_line(changes, all.len());
}

pub(crate) proof fn lemma_last_line(changes: Seq<PinChangeView>, bound: nat)
    requires
        forall|i: int| 0 <= i < changes.len() ==> (#[trigger] changes[i]).line_number <= bound,
    ensures
        last_line(changes) <= bound,
    decreases changes.len(),
{
    if changes.len() > 0 {
        assert(changes[changes.len() - 1].line_number <= bound);
        lemma_last_line(changes.drop_last(), bound);
    }
}

// ---------------------------------------------------------------------------
// All files
// ---------------------------------------------------------------------------
/// No two files have the same path.
pub open spec fn paths_differ(files: Seq<WorkflowFileView>) -> bool {
    forall|i: int, j: int|
        0 <= i < j < files.len() ==> (#[trigger] files[i]).path != (#[trigger] files[j]).path
}

pub(crate) proof fn lemma_changes_for_own(changes: Seq<PinChangeView>, path: Seq<char>)
    requires
        forall|i: int| 0 <= i < changes.len() ==> (#[trigger] changes[i]).file == path,
    ensures
        changes_for(path, changes) == changes,
    decreases changes.len(),
{
    reveal(Seq::filter);
    if changes.len() > 0 {
        assert(changes[changes.len() - 1].file == path);
        lemma_changes_for_own(changes.drop_last(), path);
        assert(changes.drop_last().push(changes.last()) == changes);
    }
}

pub(crate) proof fn lemma_changes_for_others(changes: Seq<PinChangeView>, path: Seq<char>)
    requires
        forall|i: int| 0 <= i < changes.len() ==> (#[trigger] changes[i]).file != path,
    ensures
        changes_for(path, changes) == Seq::<PinChangeView>::empty(),
    decreases changes.len(),
{
    reveal(Seq::filter);
    if changes.len() > 0 {
        assert(changes[changes.len() - 1].file != path);
        lemma_changes_for_others(changes.drop_last(), path);
    }
}

proof fn lemma_unpinned_sum(a: Seq<ActionView>, b: Seq<ActionView>)
    ensures
        unpinned(a + b) == unpinned(a) + unpinned(b),
{
    Seq::filter_distributes_over_add(a, b, |action: ActionView| !action.is_pinned());
}

/// The files of the changes are among the files.
proof fn lemma_pin_change_files(files: Seq<WorkflowFileView>, shas: Seq<Seq<char>>)
    requires
        shas.len() >= unpinned(all_actions(files)).len(),
    ensures
        forall|k: int|
            0 <= k < pin_changes(all_actions(files), shas).len() ==> exists|i: int|
                0 <= i < files.len() && (#[trigger] pin_changes(all_actions(files), shas)[k]).file
                    == (#[trigger] files[i]).path,
{
    let actions = all_actions(files);
    crate::pinning::lemma_unpinned_from(actions);
    lemma_action_files(files);
    let changes = pin_changes(actions, shas);
    assert forall|k: int| 0 <= k < changes.len() implies exists|i: int|
        0 <= i < files.len() && (#[trigger] changes[k]).file == (#[trigger] files[i]).path by {
        let action = unpinned(actions)[k];
        assert(actions.contains(action));
        let m = choose|m: int| 0 <= m < actions.len() && actions[m] == action;
        assert(actions[m].file == action.file);
    }
}

proof fn lemma_action_files(files: Seq<WorkflowFileView>)
    ensures
        forall|k: int|
            0 <= k < all_actions(files).len() ==> exists|i: int|
                0 <= i < files.len() && (#[trigger] all_actions(files)[k]).file
                    == (#[trigger] files[i]).path,
    decreases files.len(),
{
    if files.len() > 0 {
        let before = files.drop_last();
        lemma_action_files(before);
        lemma_action_lines(files.last().path, lines(files.last().content));
        let n = all_actions(before).len();
        assert forall|k: int| 0 <= k < all_actions(files).len() implies exists|i: int|
            0 <= i < files.len() && (#[trigger] all_actions(files)[k]).file
                == (#[trigger] files[i]).path by {
            if k < n {
                assert(all_actions(files)[k] == all_actions(before)[k]);
                let i = choose|i: int|
                    0 <= i < before.len() && all_actions(before)[k].file
                        == (#[trigger] before[i]).path;
                assert(files[i] == before[i]);
            } else {
                assert(all_actions(files)[k] == actions_of(files.last())[k - n]);
                assert(files[files.len() - 1] == files.last());
            }
        }
    }
}

/// The changes of one file are those that pin its actions.
proof fn lemma_changes_of_file(files: Seq<WorkflowFileView>, shas: Seq<Seq<char>>, i: int)
    requires
        paths_differ(files),
        0 <= i < files.len(),
        shas.len() == unpinned(all_actions(files)).len(),
        forall|k: int| 0 <= k < shas.len() ==> is_full_sha(#[trigger] shas[k]),
    ensures
        pins_first_lines(
            files[i].path,
            lines(files[i].content),
            changes_for(files[i].path, pin_changes(all_actions(files), shas)),
            lines(files[i].content).len() as int,
        ),
    decreases files.len(),
{
    let before = files.drop_last();
    let last = files.last();
    let actions = all_actions(files);
    let m = unpinned(all_actions(before)).len() as int;
    lemma_unpinned_sum(all_actions(before), actions_of(last));
    let first = shas.take(m);
    let rest = shas.skip(m);
    let a = pin_changes(all_actions(before), first);
    let b = pin_changes(actions_of(last), rest);
    assert(pin_changes(actions, shas) == a + b) by {
        assert forall|k: int| 0 <= k < (a + b).len() implies pin_changes(actions, shas)[k] == (a
            + b)[k] by {
            if k < m {
                assert(unpinned(actions)[k] == unpinned(all_actions(before))[k]);
            } else {
                assert(unpinned(actions)[k] == unpinned(actions_of(last))[k - m]);
                assert(rest[k - m] == shas[k]);
            }
        }
    }
    let path = files[i].path;
    Seq::filter_distributes_over_add(a, b, |change: PinChangeView| change.file == path);
    lemma_lines_hold_no_line_feed(last.content);
    let all = lines(last.content);
    assert(all.take(all.len() as int) == all);
    assert forall|k: int| 0 <= k < rest.len() implies is_full_sha(#[trigger] rest[k]) by {
        assert(is_full_sha(shas[m + k]));
    }
    assert forall|k: int| 0 <= k < first.len() implies is_full_sha(#[trigger] first[k]) by {
        assert(is_full_sha(shas[k]));
    }
    lemma_pin_changes(last.path, all, rest, all.len() as int);
    assert(files[files.len() - 1] == last);
    if i == files.len() - 1 {
        lemma_pin_change_files(before, first);
        assert forall|k: int| 0 <= k < a.len() implies (#[trigger] a[k]).file != path by {
            let j = choose|j: int|
                0 <= j < before.len() && a[k].file == (#[trigger] before[j]).path;
            assert(files[j] == before[j]);
        }
        lemma_changes_for_others(a, path);
        lemma_changes_for_own(b, path);
        assert(changes_for(path, a + b) == b);
    } else {
        assert(before[i] == files[i]);
        assert forall|j: int, k: int| 0 <= j < k < before.len() implies (
        #[trigger] before[j]).path != (#[trigger] before[k]).path by {
            assert(files[j] == before[j] && files[k] == before[k]);
        }
        lemma_changes_of_file(before, first, i);
        assert forall|k: int| 0 <= k < b.len() implies (#[trigger] b[k]).file != path by {
            assert(b[k].file == last.path);
            assert(files[i].path != files[files.len() - 1].path);
        }
        lemma_changes_for_others(b, path);
        assert(changes_for(path, a + b) == changes_for(path, a));
    }
}

/// Pinning pins everything: when the commits are full SHAs, every action of every
/// file is pinned afterwards, and no action is lost. It never fails either: every
/// change names a line that its file has.
pub proof fn law_pinning_pins_every_action(files: Seq<WorkflowFileView>, shas: Seq<Seq<char>>)
    requires
        paths_differ(files),
        shas.len() == unpinned(all_actions(files)).len(),
        forall|k: int| 0 <= k < shas.len() ==> is_full_sha(#[trigger] shas[k]),
    ensures
        first_failure(files, pin_changes(all_actions(files), shas)) is None,
        forall|i: int|
            0 <= i < files.len() ==> is_pinned_by(
                #[trigger] files[i],
                pin_changes(all_actions(files), shas),
            ),
{
    let changes = pin_changes(all_actions(files), shas);
    assert forall|i: int| 0 <= i < files.len() implies is_pinned_by(
        #[trigger] files[i],
        changes,
    ) && last_line(changes_for(files[i].path, changes)) <= raw_lines(files[i].content).len() by {
        lemma_changes_of_file(files, shas, i);
        lemma_file_is_pinned(files[i], changes_for(files[i].path, changes));
    }
    lemma_no_failure(files, changes);
}

pub(crate) proof fn lemma_no_failure(files: Seq<WorkflowFileView>, changes: Seq<PinChangeView>)
    requires
        forall|i: int|
            0 <= i < files.len() ==> last_line(
                changes_for((#[trigger] files[i]).path, changes),
            ) <= raw_lines(files[i].content).len(),
    ensures
        first_failure(files, changes) is None,
    decreases files.len(),
{
    if files.len() > 0 {
        assert(files[files.len() - 1] == files.last());
        assert forall|i: int| 0 <= i < files.drop_last().len() implies last_line(
            changes_for((#[trigger] files.drop_last()[i]).path, changes),
        ) <= raw_lines(files.drop_last()[i].content).len() by {
            assert(files[i] == files.drop_last()[i]);
        }
        lemma_no_failure(files.drop_last(), changes);
    }
}

/// A file after the changes.
pub open spec fn file_after(file: WorkflowFileView, changes: Seq<PinChangeView>) ->
    WorkflowFileView {
    WorkflowFileView {
        path: file.path,
        content: changed_content(file.content, changes_for(file.path, changes)),
    }
}

/// The files after the changes.
pub open spec fn files_after(files: Seq<WorkflowFileView>, changes: Seq<PinChangeView>) -> Seq<
    WorkflowFileView,
> {
    files.map_values(|file: WorkflowFileView| file_after(file, changes))
}

/// After the changes the file has as many actions as before, and all are pinned.
pub open spec fn is_pinned_by(file: WorkflowFileView, changes: Seq<PinChangeView>) -> bool {
    let after = file_after(file, changes);
    &&& actions_of(after).len() == actions_of(file).len()
    &&& forall|i: int|
        0 <= i < actions_of(after).len() ==> (#[trigger] actions_of(after)[i]).is_pinned()
}

proof fn lemma_nothing_unpinned(files: Seq<WorkflowFileView>)
    requires
        forall|i: int, k: int|
            0 <= i < files.len() && 0 <= k < actions_of(files[i]).len() ==> (
            #[trigger] actions_of(files[i])[k]).is_pinned(),
    ensures
        unpinned(all_actions(files)) == Seq::<ActionView>::empty(),
    decreases files.len(),
{
    reveal(Seq::filter);
    if files.len() > 0 {
        let before = files.drop_last();
        assert forall|i: int, k: int|
            0 <= i < before.len() && 0 <= k < actions_of(before[i]).len() implies (
        #[trigger] actions_of(before[i])[k]).is_pinned() by {
            assert(before[i] == files[i]);
        }
        lemma_nothing_unpinned(before);
        lemma_unpinned_sum(all_actions(before), actions_of(files.last()));
        let last = actions_of(files.last());
        assert(files[files.len() - 1] == files.last());
        crate::pinning::lemma_unpinned_from(last);
        if unpinned(last).len() > 0 {
            assert(last.contains(unpinned(last)[0]));
            let k = choose|k: int| 0 <= k < last.len() && last[k] == unpinned(last)[0];
            assert(actions_of(files[files.len() - 1])[k].is_pinned());
        }
        assert(unpinned(all_actions(files)) == Seq::<ActionView>::empty());
    }
}

/// Pinning a second time asks GitHub for nothing and changes nothing.
pub proof fn law_pinning_again_changes_nothing(
    files: Seq<WorkflowFileView>,
    shas: Seq<Seq<char>>,
    docs: Seq<Document>,
)
    requires
        paths_differ(files),
        shas.len() == unpinned(all_actions(files)).len(),
        forall|k: int| 0 <= k < shas.len() ==> is_full_sha(#[trigger] shas[k]),
    ensures
        ({
            let after = files_after(files, pin_changes(all_actions(files), shas));
            let again = all_actions(after);
            &&& commits_of(unpinned(again), docs) == ProgressView::<Seq<Seq<char>>>::Done(
                Seq::empty(),
                0,
            )
            &&& pin_changes(again, Seq::empty()) == Seq::<PinChangeView>::empty()
        }),
{
    let changes = pin_changes(all_actions(files), shas);
    let after = files_after(files, changes);
    law_pinning_pins_every_action(files, shas);
    assert forall|i: int, k: int|
        0 <= i < after.len() && 0 <= k < actions_of(after[i]).len() implies (
    #[trigger] actions_of(after[i])[k]).is_pinned() by {
        assert(is_pinned_by(files[i], changes));
        assert(after[i] == file_after(files[i], changes));
    }
    lemma_nothing_unpinned(after);
    assert(pin_changes(all_actions(after), Seq::empty()) == Seq::<PinChangeView>::empty());
}

/// A line that was moved to the latest version needs no update any more, where the
/// version looks like one and holds no `|`.
pub proof fn law_updated_line_is_current(
    file: Seq<char>,
    line: Seq<char>,
    number: nat,
    latest: LatestView,
)
    requires
        action_on_line(file, line, number) is Some,
        is_full_sha(latest.sha),
        is_version_hint(latest.version),
        trim(latest.version) == latest.version,
        !latest.version.contains('|'),
    ensures
        ({
            let action = action_on_line(file, line, number)->0;
            let after = action_on_line(
                file,
                update_change(action, latest).rewritten_line,
                number,
            );
            after is Some && !needs_update(after->0, latest)
        }),
{
    law_pinned_line_keeps_its_version(file, line, number, latest.sha, latest.version);
    if latest.version.contains('\n') {
        let i = choose|i: int| 0 <= i < latest.version.len() && latest.version[i] == '\n';
        assert(is_space(latest.version[i]));
    }
    law_pinned_line_is_read_back(file, line, number, latest.sha, latest.version);
}

} // verus!
