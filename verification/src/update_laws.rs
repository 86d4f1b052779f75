//! What updating promises of whole files: afterwards every action is at the latest
//! version.

use vstd::prelude::*;

use crate::github::LatestView;
use crate::model::{is_full_sha, is_version_hint, ActionView, PinChangeView};
use crate::pinning::{all_actions, lemma_action_lines};
use crate::pinning_laws::{
    file_after, files_after, law_updated_line_is_current, lemma_changes_for_others,
    lemma_changes_for_own, lemma_last_line, lemma_no_failure, lemma_pinned_line_fits, paths_differ,
};
use crate::text::{is_space, lines, raw_lines, trim};
use crate::update::{changes_among, needs_update, update_change, update_changes, UpdateMode};
use crate::workflow::{
    action_on_line, actions_of, actions_on, changed_content, changed_line, changes_for,
    first_failure, last_line, replacement, WorkflowFileView,
};
use crate::workflow_laws::{
    changes_fit, fits_on_a_line, law_only_named_lines_change, lemma_lines_hold_no_line_feed,
};

verus! {

/// A version that a line can be moved to and read back from: a full SHA, and a name that
/// looks like a version and holds no `|`.
pub open spec fn is_plain(latest: LatestView) -> bool {
    &&& is_full_sha(latest.sha)
    &&& is_version_hint(latest.version)
    &&& trim(latest.version) == latest.version
    &&& !latest.version.contains('|')
}

// ---------------------------------------------------------------------------
// The changes of one file
// ---------------------------------------------------------------------------
/// The changes of the first actions do not depend on those behind them.
proof fn lemma_changes_of_first(
    a: Seq<ActionView>,
    b: Seq<ActionView>,
    l: Seq<LatestView>,
    m: Seq<LatestView>,
    n: int,
)
    requires
        n <= a.len(),
        n <= b.len(),
        forall|i: int| 0 <= i < n ==> #[trigger] a[i] == b[i],
        forall|i: int| 0 <= i < n ==> #[trigger] l[i] == m[i],
    ensures
        changes_among(a, l, n) == changes_among(b, m, n),
    decreases n,
{
    if n > 0 {
        lemma_changes_of_first(a, b, l, m, n - 1);
        assert(a[n - 1] == b[n - 1]);
        assert(l[n - 1] == m[n - 1]);
    }
}

/// The changes of two lists of actions, one behind the other.
proof fn lemma_changes_of_sum(
    a: Seq<ActionView>,
    b: Seq<ActionView>,
    l: Seq<LatestView>,
    n: int,
)
    requires
        0 <= n <= b.len(),
        a.len() + b.len() <= l.len(),
    ensures
        changes_among(a + b, l, a.len() + n) == changes_among(a, l, a.len() as int)
            + changes_among(b, l.skip(a.len() as int), n),
    decreases n,
{
    let m = a.len() as int;
    if n == 0 {
        lemma_changes_of_first(a + b, a, l, l, m);
        assert(changes_among(a, l, m) + Seq::<PinChangeView>::empty() == changes_among(a, l, m));
    } else {
        lemma_changes_of_sum(a, b, l, n - 1);
        assert((a + b)[m + n - 1] == b[n - 1]);
        assert(l.skip(m)[n - 1] == l[m + n - 1]);
        let first = changes_among(a, l, m);
        let before = changes_among(b, l.skip(m), n - 1);
        assert(changes_among(a + b, l, m + (n - 1)) == first + before);
        if needs_update(b[n - 1], l[m + n - 1]) {
            let change = update_change(b[n - 1], l[m + n - 1]);
            assert((first + before).push(change) == first + before.push(change));
        }
    }
}

/// What the changes make of a line: its action moves to the latest version if it needs
/// to, and else the line stays.
spec fn moves_line(
    path: Seq<char>,
    all: Seq<Seq<char>>,
    latest: Seq<LatestView>,
    changes: Seq<PinChangeView>,
    i: int,
) -> bool {
    let number = (i + 1) as nat;
    let newest = latest[actions_on(path, all.take(i)).len() as int];
    match action_on_line(path, all[i], number) {
        Some(action) => replacement(changes, number) == if needs_update(action, newest) {
            Some(action.rendered_line(newest.sha, newest.version))
        } else {
            None
        },
        None => replacement(changes, number) is None,
    }
}

/// The changes move the actions on the first lines, and touch no others.
spec fn moves_first_lines(
    path: Seq<char>,
    all: Seq<Seq<char>>,
    latest: Seq<LatestView>,
    changes: Seq<PinChangeView>,
    n: int,
) -> bool {
    &&& forall|i: int| 0 <= i < n ==> #[trigger] moves_line(path, all, latest, changes, i)
    &&& forall|number: nat| number > n ==> #[trigger] replacement(changes, number) is None
    &&& forall|i: int|
        0 <= i < changes.len() ==> 1 <= (#[trigger] changes[i]).line_number <= n && changes[i].file
            == path
    &&& changes_fit(changes)
}

proof fn lemma_moves_first_lines(
    path: Seq<char>,
    all: Seq<Seq<char>>,
    latest: Seq<LatestView>,
    n: int,
)
    requires
        0 <= n <= all.len(),
        forall|i: int| 0 <= i < all.len() ==> !(#[trigger] all[i]).contains('\n'),
        actions_on(path, all.take(n)).len() <= latest.len(),
        forall|i: int| 0 <= i < latest.len() ==> is_plain(#[trigger] latest[i]),
    ensures
        ({
            let actions = actions_on(path, all.take(n));
            moves_first_lines(
                path,
                all,
                latest,
                changes_among(actions, latest, actions.len() as int),
                n,
            )
        }),
    decreases n,
{
    let actions = actions_on(path, all.take(n));
    if n > 0 {
        assert(all.take(n).drop_last() == all.take(n - 1));
        assert(all.take(n).last() == all[n - 1]);
        let before = actions_on(path, all.take(n - 1));
        let k = before.len() as int;
        lemma_moves_first_lines(path, all, latest, n - 1);
        let old = changes_among(before, latest, k);
        let now = changes_among(actions, latest, actions.len() as int);
        assert(replacement(old, n as nat) is None);
        match action_on_line(path, all[n - 1], n as nat) {
            None => {
                assert(now == old);
                assert(moves_line(path, all, latest, now, n - 1));
            },
            Some(action) => {
                assert(actions == before.push(action));
                lemma_changes_of_first(actions, before, latest, latest, k);
                if needs_update(action, latest[k]) {
                    let change = update_change(action, latest[k]);
                    assert(now == old.push(change));
                    assert(now.drop_last() == old);
                    let label = latest[k].version;
                    assert(is_plain(latest[k]));
                    if label.contains('\n') {
                        let i = choose|i: int| 0 <= i < label.len() && label[i] == '\n';
                        assert(is_space(label[i]));
                    }
                    assert(!is_space(label[label.len() - 1]));
                    lemma_pinned_line_fits(path, all[n - 1], n as nat, latest[k].sha, label);
                    assert forall|i: int| 0 <= i < now.len() implies fits_on_a_line(
                        #[trigger] now[i].rewritten_line,
                    ) && 1 <= now[i].line_number <= n && now[i].file == path by {
                        if i < old.len() {
                            assert(now[i] == old[i]);
                        }
                    }
                    assert forall|i: int| 0 <= i < n implies #[trigger] moves_line(
                        path,
                        all,
                        latest,
                        now,
                        i,
                    ) by {
                        if i < n - 1 {
                            assert(moves_line(path, all, latest, old, i));
                            assert(replacement(now, (i + 1) as nat) == replacement(
                                old,
                                (i + 1) as nat,
                            ));
                        }
                    }
                    assert forall|number: nat| number > n implies #[trigger] replacement(
                        now,
                        number,
                    ) is None by {
                        assert(replacement(old, number) is None);
                    }
                } else {
                    assert(now == old);
                    assert(moves_line(path, all, latest, now, n - 1));
                }
            },
        }
    } else {
        assert(all.take(0).len() == 0);
    }
}

/// The actions on the lines are at the latest versions.
spec fn all_current(actions: Seq<ActionView>, latest: Seq<LatestView>) -> bool {
    forall|k: int| 0 <= k < actions.len() ==> !needs_update(#[trigger] actions[k], latest[k])
}

proof fn lemma_lines_are_current(
    path: Seq<char>,
    old: Seq<Seq<char>>,
    now: Seq<Seq<char>>,
    latest: Seq<LatestView>,
    n: int,
)
    requires
        old.len() == now.len(),
        0 <= n <= old.len(),
        forall|i: int|
            0 <= i < old.len() ==> match (
                action_on_line(path, #[trigger] old[i], (i + 1) as nat),
                action_on_line(path, now[i], (i + 1) as nat),
            ) {
                (Some(_), Some(action)) => !needs_update(
                    action,
                    latest[actions_on(path, old.take(i)).len() as int],
                ),
                (None, None) => true,
                _ => false,
            },
    ensures
        actions_on(path, now.take(n)).len() == actions_on(path, old.take(n)).len(),
        all_current(actions_on(path, now.take(n)), latest),
    decreases n,
{
    if n > 0 {
        lemma_lines_are_current(path, old, now, latest, n - 1);
        assert(old.take(n).drop_last() == old.take(n - 1));
        assert(now.take(n).drop_last() == now.take(n - 1));
        assert(old.take(n).last() == old[n - 1]);
        assert(now.take(n).last() == now[n - 1]);
    } else {
        assert(old.take(0).len() == 0 && now.take(0).len() == 0);
    }
}

/// After its changes a file has as many actions as before, all at the latest versions.
proof fn lemma_file_is_current(
    file: WorkflowFileView,
    latest: Seq<LatestView>,
    changes: Seq<PinChangeView>,
)
    requires
        actions_of(file).len() <= latest.len(),
        forall|i: int| 0 <= i < latest.len() ==> is_plain(#[trigger] latest[i]),
        changes_for(file.path, changes) == changes_among(
            actions_of(file),
            latest,
            actions_of(file).len() as int,
        ),
    ensures
        actions_of(file_after(file, changes)).len() == actions_of(file).len(),
        all_current(actions_of(file_after(file, changes)), latest),
        last_line(changes_for(file.path, changes)) <= raw_lines(file.content).len(),
{
    let own = changes_for(file.path, changes);
    let old = lines(file.content);
    let now = lines(changed_content(file.content, own));
    let n = old.len() as int;
    assert(old.take(n) == old);
    lemma_lines_hold_no_line_feed(file.content);
    lemma_moves_first_lines(file.path, old, latest, n);
    law_only_named_lines_change(file.content, own);
    assert forall|i: int| 0 <= i < old.len() implies match (
        action_on_line(file.path, #[trigger] old[i], (i + 1) as nat),
        action_on_line(file.path, now[i], (i + 1) as nat),
    ) {
        (Some(_), Some(action)) => !needs_update(
            action,
            latest[actions_on(file.path, old.take(i)).len() as int],
        ),
        (None, None) => true,
        _ => false,
    } by {
        assert(moves_line(file.path, old, latest, own, i));
        assert(now[i] == changed_line(own, (i + 1) as nat, old[i]));
        let k = actions_on(file.path, old.take(i)).len() as int;
        if action_on_line(file.path, old[i], (i + 1) as nat) is Some {
            lemma_place_of_action(file.path, old, i);
            assert(is_plain(latest[k]));
            law_updated_line_is_current(file.path, old[i], (i + 1) as nat, latest[k]);
        }
    }
    lemma_lines_are_current(file.path, old, now, latest, n);
    assert(now.take(n) == now);
    lemma_last_line(own, old.len());
}

/// The action on a line is among the actions of its file.
proof fn lemma_place_of_action(path: Seq<char>, all: Seq<Seq<char>>, i: int)
    requires
        0 <= i < all.len(),
        action_on_line(path, all[i], (i + 1) as nat) is Some,
    ensures
        actions_on(path, all.take(i)).len() < actions_on(path, all).len(),
    decreases all.len(),
{
    if i == all.len() - 1 {
        assert(all.take(i) == all.drop_last());
    } else {
        assert(all.drop_last().take(i) == all.take(i));
        lemma_place_of_action(path, all.drop_last(), i);
    }
}

// ---------------------------------------------------------------------------
// All files
// ---------------------------------------------------------------------------
/// The changes name only the files.
proof fn lemma_changes_name_files(
    files: Seq<WorkflowFileView>,
    latest: Seq<LatestView>,
    path: Seq<char>,
)
    requires
        all_actions(files).len() <= latest.len(),
        forall|i: int| 0 <= i < files.len() ==> (#[trigger] files[i]).path != path,
    ensures
        changes_for(
            path,
            changes_among(all_actions(files), latest, all_actions(files).len() as int),
        ) == Seq::<PinChangeView>::empty(),
    decreases files.len(),
{
    reveal(Seq::filter);
    if files.len() > 0 {
        let before = files.drop_last();
        let last = files.last();
        assert(files[files.len() - 1] == last);
        assert forall|i: int| 0 <= i < before.len() implies (#[trigger] before[i]).path
            != path by {
            assert(files[i] == before[i]);
        }
        lemma_changes_name_files(before, latest, path);
        let m = all_actions(before).len() as int;
        let n = actions_of(last).len() as int;
        lemma_changes_of_sum(all_actions(before), actions_of(last), latest, n);
        let a = changes_among(all_actions(before), latest, m);
        let b = changes_among(actions_of(last), latest.skip(m), n);
        Seq::filter_distributes_over_add(a, b, |change: PinChangeView| change.file == path);
        lemma_changes_of_one_file(last, latest.skip(m), n);
        lemma_changes_for_others(b, path);
        assert(changes_for(path, a) + changes_for(path, b) == Seq::<PinChangeView>::empty());
    }
}

/// The changes of a file name that file.
proof fn lemma_changes_of_one_file(file: WorkflowFileView, latest: Seq<LatestView>, n: int)
    requires
        0 <= n <= actions_of(file).len(),
    ensures
        forall|i: int|
            0 <= i < changes_among(actions_of(file), latest, n).len() ==> (
            #[trigger] changes_among(actions_of(file), latest, n)[i]).file == file.path,
    decreases n,
{
    if n > 0 {
        lemma_changes_of_one_file(file, latest, n - 1);
        lemma_action_lines(file.path, lines(file.content));
        assert(actions_of(file)[n - 1].file == file.path);
        let before = changes_among(actions_of(file), latest, n - 1);
        let now = changes_among(actions_of(file), latest, n);
        assert forall|i: int| 0 <= i < now.len() implies (#[trigger] now[i]).file
            == file.path by {
            if i < before.len() {
                assert(now[i] == before[i]);
            }
        }
    }
}

/// How many actions stand in the files before one.
spec fn actions_before(files: Seq<WorkflowFileView>, i: int) -> int {
    all_actions(files.take(i)).len() as int
}

/// The changes of one file are those that move its actions.
proof fn lemma_changes_of_file(files: Seq<WorkflowFileView>, latest: Seq<LatestView>, i: int)
    requires
        paths_differ(files),
        0 <= i < files.len(),
        all_actions(files).len() <= latest.len(),
    ensures
        actions_before(files, i) + actions_of(files[i]).len() <= all_actions(files).len(),
        changes_for(
            files[i].path,
            changes_among(all_actions(files), latest, all_actions(files).len() as int),
        ) == changes_among(
            actions_of(files[i]),
            latest.skip(actions_before(files, i)),
            actions_of(files[i]).len() as int,
        ),
    decreases files.len(),
{
    let before = files.drop_last();
    let last = files.last();
    let path = files[i].path;
    let m = all_actions(before).len() as int;
    let n = actions_of(last).len() as int;
    lemma_changes_of_sum(all_actions(before), actions_of(last), latest, n);
    let a = changes_among(all_actions(before), latest, m);
    let b = changes_among(actions_of(last), latest.skip(m), n);
    Seq::filter_distributes_over_add(a, b, |change: PinChangeView| change.file == path);
    lemma_changes_of_one_file(last, latest.skip(m), n);
    assert(files[files.len() - 1] == last);
    if i == files.len() - 1 {
        assert(files.take(i) == before);
        assert forall|k: int| 0 <= k < before.len() implies (#[trigger] before[k]).path
            != path by {
            assert(files[k] == before[k]);
        }
        lemma_changes_name_files(before, latest, path);
        lemma_changes_for_own(b, path);
        assert(Seq::<PinChangeView>::empty() + b == b);
    } else {
        assert(before[i] == files[i]);
        assert(before.take(i) == files.take(i));
        assert forall|j: int, k: int| 0 <= j < k < before.len() implies (
        #[trigger] before[j]).path != (#[trigger] before[k]).path by {
            assert(files[j] == before[j] && files[k] == before[k]);
        }
        lemma_changes_of_file(before, latest, i);
        assert forall|k: int| 0 <= k < b.len() implies (#[trigger] b[k]).file != path by {
            assert(b[k].file == last.path);
            assert(files[i].path != files[files.len() - 1].path);
        }
        lemma_changes_for_others(b, path);
        assert(changes_for(path, a) + Seq::<PinChangeView>::empty() == changes_for(path, a));
    }
}

proof fn lemma_files_are_current(
    files: Seq<WorkflowFileView>,
    latest: Seq<LatestView>,
    changes: Seq<PinChangeView>,
)
    requires
        all_actions(files).len() <= latest.len(),
        forall|i: int|
            0 <= i < files.len() ==> actions_of(
                file_after(#[trigger] files[i], changes),
            ).len() == actions_of(files[i]).len() && all_current(
                actions_of(file_after(files[i], changes)),
                latest.skip(actions_before(files, i)),
            ),
    ensures
        all_actions(files_after(files, changes)).len() == all_actions(files).len(),
        all_current(all_actions(files_after(files, changes)), latest),
    decreases files.len(),
{
    let after = files_after(files, changes);
    if files.len() > 0 {
        let before = files.drop_last();
        let last = files.len() - 1;
        assert(after.drop_last() == files_after(before, changes));
        assert(after.last() == file_after(files[last], changes));
        assert(files.take(last) == before);
        assert forall|i: int| 0 <= i < before.len() implies actions_of(
            file_after(#[trigger] before[i], changes),
        ).len() == actions_of(before[i]).len() && all_current(
            actions_of(file_after(before[i], changes)),
            latest.skip(actions_before(before, i)),
        ) by {
            assert(before[i] == files[i]);
            assert(before.take(i) == files.take(i));
        }
        lemma_files_are_current(before, latest, changes);
        let m = all_actions(before).len() as int;
        let own = actions_of(file_after(files[last], changes));
        assert(all_current(own, latest.skip(m)));
        let all = all_actions(after);
        assert forall|k: int| 0 <= k < all.len() implies !needs_update(
            #[trigger] all[k],
            latest[k],
        ) by {
            if k < m {
                assert(all[k] == all_actions(after.drop_last())[k]);
            } else {
                assert(all[k] == own[k - m]);
                assert(latest.skip(m)[k - m] == latest[k]);
            }
        }
    }
}

/// Where nothing needs an update, nothing changes.
proof fn lemma_no_changes(actions: Seq<ActionView>, latest: Seq<LatestView>, n: int)
    requires
        all_current(actions, latest),
        n <= actions.len(),
    ensures
        changes_among(actions, latest, n) == Seq::<PinChangeView>::empty(),
    decreases n,
{
    if n > 0 {
        lemma_no_changes(actions, latest, n - 1);
        assert(!needs_update(actions[n - 1], latest[n - 1]));
    }
}

/// Updating moves everything to the latest versions: afterwards there are as many actions
/// as before, none needs an update, and a second update changes nothing. It never fails
/// either: every change names a line that its file has. The versions are full SHAs and
/// names that look like versions and hold no `|`; other names cannot be told apart from
/// remarks in a comment.
pub proof fn law_updating_makes_everything_current(
    files: Seq<WorkflowFileView>,
    latest: Seq<LatestView>,
    mode: UpdateMode,
)
    requires
        paths_differ(files),
        mode != UpdateMode::Status,
        latest.len() == all_actions(files).len(),
        forall|k: int| 0 <= k < latest.len() ==> is_plain(#[trigger] latest[k]),
    ensures
        ({
            let changes = update_changes(mode, all_actions(files), latest);
            let after = all_actions(files_after(files, changes));
            &&& first_failure(files, changes) is None
            &&& after.len() == all_actions(files).len()
            &&& forall|k: int|
                0 <= k < after.len() ==> !needs_update(#[trigger] after[k], latest[k])
            &&& update_changes(mode, after, latest) == Seq::<PinChangeView>::empty()
        }),
{
    let changes = update_changes(mode, all_actions(files), latest);
    assert forall|i: int| 0 <= i < files.len() implies actions_of(
        file_after(#[trigger] files[i], changes),
    ).len() == actions_of(files[i]).len() && all_current(
        actions_of(file_after(files[i], changes)),
        latest.skip(actions_before(files, i)),
    ) && last_line(changes_for(files[i].path, changes)) <= raw_lines(files[i].content).len() by {
        lemma_changes_of_file(files, latest, i);
        let own = latest.skip(actions_before(files, i));
        assert forall|k: int| 0 <= k < own.len() implies is_plain(#[trigger] own[k]) by {
            assert(is_plain(latest[actions_before(files, i) + k]));
        }
        lemma_file_is_current(files[i], own, changes);
    }
    lemma_no_failure(files, changes);
    lemma_files_are_current(files, latest, changes);
    let after = all_actions(files_after(files, changes));
    lemma_no_changes(after, latest, after.len() as int);
}

} // verus!
