//! Which references of workflow files are found, and what pinning makes of them.

use vstd::prelude::*;

use crate::model::{is_full_sha, ActionView, PinChangeView};
use crate::pattern::{in_class, one_line_from, or_empty, uses_line, Class};
use crate::pinning::{all_actions, pin_change, pin_changes, unpinned};
use crate::text::{
    contains_text, is_space, lemma_find_is, lines, occurs_at, split, split_last, starts_with,
};
use crate::workflow::{
    action_on_line, action_target, actions_of, actions_on, TargetView, WorkflowFileView,
};
use crate::workflow_laws::{lemma_find_last_is, lemma_run_end_is};

verus! {

// ---------------------------------------------------------------------------
// References
// ---------------------------------------------------------------------------
/// The text begins with the other.
pub open spec fn begins_with(text: Seq<char>, front: Seq<char>) -> bool {
    text.len() >= front.len() && text.take(front.len() as int) == front
}

/// The text holds the other.
pub open spec fn holds(text: Seq<char>, part: Seq<char>) -> bool {
    exists|at: int|
        0 <= at && at + part.len() <= text.len() && #[trigger] text.subrange(
            at,
            at + part.len(),
        ) == part
}

/// The reference is computed, a path or a container image.
pub open spec fn is_no_action(raw: Seq<char>) -> bool {
    ||| holds(raw, "${{"@)
    ||| begins_with(raw, "./"@)
    ||| begins_with(raw, "../"@)
    ||| begins_with(raw, "/"@)
    ||| begins_with(raw, "docker://"@)
}

/// The reference to an action: its owner, its repository, a path in it and its version.
pub open spec fn reference(
    owner: Seq<char>,
    repository: Seq<char>,
    path: Seq<char>,
    version: Seq<char>,
) -> Seq<char> {
    owner + seq!['/'] + repository + path + seq!['@'] + version
}

/// The parts of a reference can be told apart in it.
pub open spec fn are_parts(
    owner: Seq<char>,
    repository: Seq<char>,
    path: Seq<char>,
    version: Seq<char>,
) -> bool {
    &&& !owner.contains('/')
    &&& !repository.contains('/')
    &&& path.len() > 0 ==> path[0] == '/'
    &&& !version.contains('@')
}

/// Every reference `owner/repository[/path]@version` names that action, unless it is
/// computed, a path or a container image.
pub proof fn law_reference_names_an_action(
    owner: Seq<char>,
    repository: Seq<char>,
    path: Seq<char>,
    version: Seq<char>,
)
    requires
        are_parts(owner, repository, path, version),
        !is_no_action(reference(owner, repository, path, version)),
    ensures
        action_target(reference(owner, repository, path, version)) == Some(
            TargetView {
                action_slug: owner + seq!['/'] + repository + path,
                owner,
                repository,
                version,
            },
        ),
{
    let raw = reference(owner, repository, path, version);
    let slug = owner + seq!['/'] + repository + path;
    let rest = repository + path;
    assert(raw == slug + seq!['@'] + version);
    assert(raw[slug.len() as int] == '@');
    assert forall|i: int| slug.len() < i < raw.len() implies #[trigger] raw[i] != '@' by {
        assert(raw[i] == version[i - slug.len() - 1]);
    }
    lemma_find_last_is(raw, '@', raw.len() as int, slug.len() as int);
    assert(raw.take(slug.len() as int) == slug);
    assert(raw.skip(slug.len() as int + 1) == version);
    assert(split_last(raw, '@') == Some((slug, version)));
    assert(slug == owner + seq!['/'] + rest);
    assert(slug[owner.len() as int] == '/');
    assert forall|i: int| 0 <= i < owner.len() implies #[trigger] slug[i] != '/' by {
        assert(slug[i] == owner[i]);
    }
    lemma_find_is(slug, '/', 0, owner.len() as int);
    assert(slug.take(owner.len() as int) == owner);
    assert(slug.skip(owner.len() as int + 1) == rest);
    assert(split(slug, '/') == seq![owner] + split(rest, '/'));
    assert forall|i: int| 0 <= i < repository.len() implies #[trigger] rest[i] != '/' by {
        assert(rest[i] == repository[i]);
    }
    if path.len() > 0 {
        assert(rest[repository.len() as int] == path[0]);
    }
    lemma_find_is(rest, '/', 0, repository.len() as int);
    assert(rest.take(repository.len() as int) == repository);
    assert(split(rest, '/')[0] == repository);
    lemma_prefixes(raw);
}

proof fn lemma_prefixes(raw: Seq<char>)
    ensures
        crate::workflow::is_foreign(raw) == is_no_action(raw),
{
    reveal_strlit("${{");
    reveal_strlit("./");
    reveal_strlit("../");
    reveal_strlit("/");
    reveal_strlit("docker://");
    assert(starts_with(raw, "./"@) == begins_with(raw, "./"@)) by {
        lemma_starts(raw, "./"@);
    }
    assert(starts_with(raw, "../"@) == begins_with(raw, "../"@)) by {
        lemma_starts(raw, "../"@);
    }
    assert(starts_with(raw, "/"@) == begins_with(raw, "/"@)) by {
        lemma_starts(raw, "/"@);
    }
    assert(starts_with(raw, "docker://"@) == begins_with(raw, "docker://"@)) by {
        lemma_starts(raw, "docker://"@);
    }
    if holds(raw, "${{"@) {
        let at = choose|at: int|
            0 <= at && at + "${{"@.len() <= raw.len() && #[trigger] raw.subrange(
                at,
                at + "${{"@.len(),
            ) == "${{"@;
        assert(occurs_at(raw, "${{"@, at));
    }
    if contains_text(raw, "${{"@) {
        let at = choose|at: int| #[trigger] occurs_at(raw, "${{"@, at);
        assert(raw.subrange(at, at + "${{"@.len()) == "${{"@);
    }
}

pub(crate) proof fn lemma_starts(text: Seq<char>, front: Seq<char>)
    ensures
        starts_with(text, front) == begins_with(text, front),
{
    if text.len() >= front.len() {
        assert(text.take(front.len() as int) == text.subrange(0, front.len() as int));
    }
}

/// What is computed, a path or a container image names no action; neither does what has no
/// version or no repository.
pub proof fn law_other_references_name_none(raw: Seq<char>)
    requires
        is_no_action(raw) || !raw.contains('@') || !raw.contains('/'),
    ensures
        action_target(raw) is None,
{
    lemma_prefixes(raw);
    crate::workflow_laws::lemma_find_last(raw, '@', raw.len() as int);
    let at = crate::text::find_last_before(raw, '@', raw.len() as int);
    if at >= 0 {
        assert(raw.contains(raw[at]));
        let slug = raw.take(at);
        if !raw.contains('/') {
            assert forall|i: int| 0 <= i < slug.len() implies #[trigger] slug[i] != '/' by {
                assert(raw.contains(raw[i]));
            }
            lemma_find_is(slug, '/', 0, slug.len() as int);
            assert(split(slug, '/') == seq![slug]);
        }
    }
}

// ---------------------------------------------------------------------------
// Lines
// ---------------------------------------------------------------------------
/// Nothing but white space, or nothing at all.
pub open spec fn is_gap(text: Seq<char>) -> bool {
    forall|i: int| 0 <= i < text.len() ==> is_space(#[trigger] text[i])
}

/// A line that uses an action: its indentation, the mark of a list with the blanks behind
/// it, the blanks behind the key, the reference, more blanks, and a comment with the blanks
/// in front of it.
pub open spec fn uses_text(
    indent: Seq<char>,
    mark: Seq<char>,
    gap: Seq<char>,
    raw: Seq<char>,
    pad: Seq<char>,
    comment: Option<(Seq<char>, Seq<char>)>,
) -> Seq<char> {
    indent + mark + "uses:"@ + gap + raw + pad + (match comment {
        Some((space, text)) => seq!['#'] + space + text,
        None => Seq::empty(),
    })
}

/// The parts of a line that uses an action can be told apart in it.
pub open spec fn are_line_parts(
    indent: Seq<char>,
    mark: Seq<char>,
    gap: Seq<char>,
    raw: Seq<char>,
    pad: Seq<char>,
    comment: Option<(Seq<char>, Seq<char>)>,
) -> bool {
    &&& is_gap(indent) && is_gap(gap) && is_gap(pad)
    &&& mark.len() > 0 ==> mark[0] == '-' && is_gap(mark.skip(1))
    &&& raw.len() > 0
    &&& forall|i: int| 0 <= i < raw.len() ==> #[trigger] raw[i] != '#' && !is_space(raw[i])
    &&& comment matches Some((space, text)) ==> is_gap(space) && (text.len() > 0 ==> !is_space(
        text[0],
    )) && !text.contains('\n')
}

/// A line that uses an action is taken apart into its indentation, its mark, its reference
/// and its comment.
pub proof fn law_line_is_taken_apart(
    indent: Seq<char>,
    mark: Seq<char>,
    gap: Seq<char>,
    raw: Seq<char>,
    pad: Seq<char>,
    comment: Option<(Seq<char>, Seq<char>)>,
)
    requires
        are_line_parts(indent, mark, gap, raw, pad, comment),
    ensures
        ({
            let found = uses_line(uses_text(indent, mark, gap, raw, pad, comment));
            &&& found is Some
            &&& or_empty(found->0[0]) == indent
            &&& or_empty(found->0[1]) == mark
            &&& found->0[2] == Some(raw)
            &&& found->0[3] == match comment {
                Some((_, text)) => Some(text),
                None => None,
            }
        }),
{
    reveal_strlit("uses:");
    let tail = match comment {
        Some((space, text)) => seq!['#'] + space + text,
        None => Seq::empty(),
    };
    let s = uses_text(indent, mark, gap, raw, pad, comment);
    let a = indent.len() as int;
    let b = a + mark.len();
    let c = b + 5;
    let d = c + gap.len();
    let e = d + raw.len();
    let f = e + pad.len();
    assert(s.len() == f + tail.len());
    assert forall|i: int| 0 <= i < a implies in_class(Class::Space, #[trigger] s[i]) by {
        assert(s[i] == indent[i]);
    }
    assert(s[b] == 'u') by {
        assert(s[b] == "uses:"@[0]);
    }
    assert(s.subrange(b, b + 5) == "uses:"@);
    assert(occurs_at(s, "uses:"@, b));
    if mark.len() > 0 {
        assert(s[a] == mark[0]);
        assert forall|i: int| a + 1 <= i < b implies in_class(Class::Space, #[trigger] s[i]) by {
            assert(s[i] == mark.skip(1)[i - a - 1]);
        }
        lemma_run_end_is(s, 0, a, Class::Space);
        lemma_run_end_is(s, a + 1, b, Class::Space);
        assert(s.subrange(a, b) == mark);
    } else {
        lemma_run_end_is(s, 0, a, Class::Space);
    }
    assert forall|i: int| c <= i < d implies in_class(Class::Space, #[trigger] s[i]) by {
        assert(s[i] == gap[i - c]);
    }
    assert(s[d] == raw[0]);
    lemma_run_end_is(s, c, d, Class::Space);
    assert forall|i: int| d <= i < e implies in_class(Class::Reference, #[trigger] s[i]) by {
        assert(s[i] == raw[i - d]);
    }
    assert forall|i: int| e <= i < f implies in_class(Class::Space, #[trigger] s[i]) by {
        assert(s[i] == pad[i - e]);
    }
    if f < s.len() {
        assert(s[f] == tail[0]);
    }
    lemma_run_end_is(s, d, e, Class::Reference);
    lemma_run_end_is(s, e, f, Class::Space);
    assert(s.take(a) == indent);
    assert(s.subrange(d, e) == raw);
    match comment {
        Some((space, text)) => {
            let g = f + 1 + space.len();
            assert forall|i: int| f + 1 <= i < g implies in_class(
                Class::Space,
                #[trigger] s[i],
            ) by {
                assert(s[i] == tail[i - f]);
                assert(tail[i - f] == space[i - f - 1]);
            }
            if text.len() > 0 {
                assert(s[g] == tail[g - f]);
                assert(tail[g - f] == text[0]);
            }
            lemma_run_end_is(s, f + 1, g, Class::Space);
            assert(s.skip(g) == text);
            assert forall|i: int| g <= i < s.len() implies #[trigger] s[i] != '\n' by {
                assert(s[i] == text[i - g]);
            }
            assert(one_line_from(s, g));
        },
        None => {},
    }
}

/// Every line that uses an action is found in a file, with its number and all its parts.
pub proof fn law_every_action_is_found(
    file: WorkflowFileView,
    i: int,
    owner: Seq<char>,
    repository: Seq<char>,
    path: Seq<char>,
    version: Seq<char>,
    indent: Seq<char>,
    mark: Seq<char>,
    gap: Seq<char>,
    pad: Seq<char>,
    comment: Option<(Seq<char>, Seq<char>)>,
)
    requires
        0 <= i < lines(file.content).len(),
        are_parts(owner, repository, path, version),
        !is_no_action(reference(owner, repository, path, version)),
        are_line_parts(
            indent,
            mark,
            gap,
            reference(owner, repository, path, version),
            pad,
            comment,
        ),
        lines(file.content)[i] == uses_text(
            indent,
            mark,
            gap,
            reference(owner, repository, path, version),
            pad,
            comment,
        ),
    ensures
        actions_of(file).contains(
            ActionView {
                file: file.path,
                line_number: (i + 1) as nat,
                indentation: indent,
                list_prefix: mark,
                action_slug: owner + seq!['/'] + repository + path,
                owner,
                repository,
                version,
                inline_comment: match comment {
                    Some((_, text)) => Some(text),
                    None => None,
                },
                original_line: lines(file.content)[i],
            },
        ),
{
    let raw = reference(owner, repository, path, version);
    law_reference_names_an_action(owner, repository, path, version);
    law_line_is_taken_apart(indent, mark, gap, raw, pad, comment);
    lemma_found(file.path, lines(file.content), i);
}

proof fn lemma_found(path: Seq<char>, all: Seq<Seq<char>>, i: int)
    requires
        0 <= i < all.len(),
        action_on_line(path, all[i], (i + 1) as nat) is Some,
    ensures
        actions_on(path, all).contains(action_on_line(path, all[i], (i + 1) as nat)->0),
    decreases all.len(),
{
    let found = action_on_line(path, all[i], (i + 1) as nat)->0;
    let front = all.drop_last();
    let before = actions_on(path, front);
    let now = actions_on(path, all);
    if i == all.len() - 1 {
        assert(now == before.push(found));
        assert(now[before.len() as int] == found);
    } else {
        assert(front[i] == all[i]);
        lemma_found(path, front, i);
        let k = choose|k: int| 0 <= k < before.len() && before[k] == found;
        assert(now[k] == found);
    }
}

/// What is found in a file stands on a line of it: its number, its text and its parts are
/// those of the line, and the lines come in order.
pub proof fn law_what_is_found_is_there(file: WorkflowFileView)
    ensures
        forall|k: int|
            0 <= k < actions_of(file).len() ==> {
                let action = #[trigger] actions_of(file)[k];
                &&& action.file == file.path
                &&& 1 <= action.line_number <= lines(file.content).len()
                &&& action.original_line == lines(file.content)[action.line_number - 1]
                &&& uses_line(action.original_line) matches Some(parts) && parts[2] == Some(
                    action.action_slug + seq!['@'] + action.version,
                )
            },
        forall|k: int, l: int|
            0 <= k < l < actions_of(file).len() ==> (#[trigger] actions_of(file)[k]).line_number < (
            #[trigger] actions_of(file)[l]).line_number,
{
    lemma_there(file.path, lines(file.content));
}

proof fn lemma_there(path: Seq<char>, all: Seq<Seq<char>>)
    ensures
        forall|k: int|
            0 <= k < actions_on(path, all).len() ==> {
                let action = #[trigger] actions_on(path, all)[k];
                &&& action.file == path
                &&& 1 <= action.line_number <= all.len()
                &&& action.original_line == all[action.line_number - 1]
                &&& uses_line(action.original_line) matches Some(parts) && parts[2] == Some(
                    action.action_slug + seq!['@'] + action.version,
                )
            },
        forall|k: int, l: int|
            0 <= k < l < actions_on(path, all).len() ==> (
            #[trigger] actions_on(path, all)[k]).line_number < (#[trigger] actions_on(
                path,
                all,
            )[l]).line_number,
    decreases all.len(),
{
    if all.len() > 0 {
        let front = all.drop_last();
        lemma_there(path, front);
        match action_on_line(path, all.last(), all.len()) {
            Some(action) => {
                let parts = uses_line(all.last())->0;
                let raw = or_empty(parts[2]);
                crate::workflow_laws::lemma_find_last(raw, '@', raw.len() as int);
                let at = crate::text::find_last_before(raw, '@', raw.len() as int);
                assert(raw == raw.take(at) + seq!['@'] + raw.skip(at + 1));
            },
            None => {},
        }
    }
}

// ---------------------------------------------------------------------------
// Pinning
// ---------------------------------------------------------------------------
/// The actions of every file are among those of all files, and there are no others.
pub proof fn law_every_file_is_scanned(files: Seq<WorkflowFileView>)
    ensures
        forall|f: int, action: ActionView|
            0 <= f < files.len() && (#[trigger] actions_of(files[f]).contains(action))
                ==> all_actions(files).contains(action),
        forall|k: int|
            0 <= k < all_actions(files).len() ==> is_in_a_file(
                files,
                #[trigger] all_actions(files)[k],
            ),
    decreases files.len(),
{
    if files.len() > 0 {
        let front = files.drop_last();
        let before = all_actions(front);
        let last = actions_of(files.last());
        let all = all_actions(files);
        law_every_file_is_scanned(front);
        assert forall|f: int, action: ActionView|
            0 <= f < files.len() && (#[trigger] actions_of(files[f]).contains(action)) implies all.contains(
            action,
        ) by {
            if f < front.len() {
                assert(front[f] == files[f]);
                assert(actions_of(front[f]).contains(action));
                let k = choose|k: int| 0 <= k < before.len() && before[k] == action;
                assert(all[k] == action);
            } else {
                let k = choose|k: int| 0 <= k < last.len() && last[k] == action;
                assert(all[before.len() + k] == action);
            }
        }
        assert forall|k: int| 0 <= k < all.len() implies is_in_a_file(
            files,
            #[trigger] all[k],
        ) by {
            if k < before.len() {
                assert(all[k] == before[k]);
                let f = choose|f: int|
                    0 <= f < front.len() && #[trigger] actions_of(front[f]).contains(before[k]);
                assert(actions_of(files[f]).contains(all[k]));
            } else {
                assert(all[k] == last[k - before.len()]);
                assert(actions_of(files[files.len() - 1]).contains(all[k]));
            }
        }
    }
}

/// The action is one of a file.
pub open spec fn is_in_a_file(files: Seq<WorkflowFileView>, action: ActionView) -> bool {
    exists|f: int| 0 <= f < files.len() && #[trigger] actions_of(files[f]).contains(action)
}

/// The version is a commit: forty hexadecimal digits.
pub open spec fn is_commit(version: Seq<char>) -> bool {
    version.len() == 40 && forall|i: int|
        0 <= i < 40 ==> {
            ||| '0' <= #[trigger] version[i] && version[i] <= '9'
            ||| 'a' <= version[i] && version[i] <= 'f'
            ||| 'A' <= version[i] && version[i] <= 'F'
        }
}

/// Every action that is not at a commit is pinned: there is a change for its line with the
/// commit that was found for it, and its version becomes the comment. One that is at a
/// commit stays.
pub proof fn law_every_loose_action_is_pinned(actions: Seq<ActionView>, shas: Seq<Seq<char>>)
    ensures
        forall|k: int|
            0 <= k < actions.len() && !is_commit(actions[k].version) ==> is_pinned_among(
                pin_changes(actions, shas),
                #[trigger] actions[k],
                shas,
            ),
        forall|c: int|
            0 <= c < pin_changes(actions, shas).len() ==> is_pin_of_one(
                actions,
                #[trigger] pin_changes(actions, shas)[c],
                shas[c],
            ),
{
    lemma_loose(actions);
    let loose = unpinned(actions);
    let changes = pin_changes(actions, shas);
    assert forall|k: int|
        0 <= k < actions.len() && !is_commit(actions[k].version) implies is_pinned_among(
        changes,
        #[trigger] actions[k],
        shas,
    ) by {
        lemma_commit(actions[k].version);
        assert(loose.contains(actions[k]));
        let c = choose|c: int| 0 <= c < loose.len() && loose[c] == actions[k];
        assert(changes[c] == pin_change(actions[k], shas[c]));
        lemma_pins(actions[k], shas[c]);
    }
    assert forall|c: int| 0 <= c < changes.len() implies is_pin_of_one(
        actions,
        #[trigger] changes[c],
        shas[c],
    ) by {
        assert(loose.contains(loose[c]));
        let k = choose|k: int| 0 <= k < actions.len() && actions[k] == loose[c];
        lemma_commit(actions[k].version);
        lemma_pins(actions[k], shas[c]);
    }
}

/// The change pins the action to the commit.
pub open spec fn pins(change: PinChangeView, action: ActionView, sha: Seq<char>) -> bool {
    &&& change.file == action.file
    &&& change.line_number == action.line_number
    &&& change.action_slug == action.action_slug
    &&& change.from_version == action.version
    &&& change.to_sha == sha
    &&& change.original_line == action.original_line
    &&& begins_with(
        change.rewritten_line,
        action.indentation + action.list_prefix + "uses: "@ + action.action_slug + "@"@ + sha
            + "  # "@ + action.version,
    )
}

/// Some change pins the action, to the commit at its place.
pub open spec fn is_pinned_among(
    changes: Seq<PinChangeView>,
    action: ActionView,
    shas: Seq<Seq<char>>,
) -> bool {
    exists|c: int| 0 <= c < changes.len() && pins(#[trigger] changes[c], action, shas[c])
}

/// The change pins an action that is not at a commit.
pub open spec fn is_pin_of_one(
    actions: Seq<ActionView>,
    change: PinChangeView,
    sha: Seq<char>,
) -> bool {
    exists|k: int|
        0 <= k < actions.len() && !is_commit(actions[k].version) && pins(
            change,
            #[trigger] actions[k],
            sha,
        )
}

pub(crate) proof fn lemma_commit(version: Seq<char>)
    ensures
        is_full_sha(version) == is_commit(version),
{
    if is_full_sha(version) {
        assert forall|i: int| 0 <= i < 40 implies {
            ||| '0' <= #[trigger] version[i] && version[i] <= '9'
            ||| 'a' <= version[i] && version[i] <= 'f'
            ||| 'A' <= version[i] && version[i] <= 'F'
        } by {
            assert(crate::text::is_hex(version[i]));
        }
    }
}

proof fn lemma_pins(action: ActionView, sha: Seq<char>)
    ensures
        pins(pin_change(action, sha), action, sha),
{
    let front = action.indentation + action.list_prefix + "uses: "@ + action.action_slug + "@"@
        + sha + "  # "@ + action.version;
    let line = action.rendered_line(sha, action.version);
    let head = action.indentation + action.list_prefix + "uses: "@ + action.action_slug + "@"@ + sha
        + "  # "@;
    let comment = action.pinned_comment(action.version);
    assert(line == head + comment);
    assert(front == head + action.version);
    assert(comment.take(action.version.len() as int) == action.version);
    assert(line.take(front.len() as int) == front);
}

proof fn lemma_loose(actions: Seq<ActionView>)
    ensures
        forall|k: int|
            0 <= k < actions.len() && !is_full_sha((#[trigger] actions[k]).version) ==> unpinned(
                actions,
            ).contains(actions[k]),
        forall|c: int|
            0 <= c < unpinned(actions).len() ==> actions.contains(#[trigger] unpinned(actions)[c])
                && !is_full_sha(unpinned(actions)[c].version),
    decreases actions.len(),
{
    reveal(Seq::filter);
    if actions.len() > 0 {
        let front = actions.drop_last();
        lemma_loose(front);
        let before = unpinned(front);
        let now = unpinned(actions);
        assert forall|k: int|
            0 <= k < actions.len() && !is_full_sha((
            #[trigger] actions[k]).version) implies now.contains(actions[k]) by {
            if k < front.len() {
                assert(front[k] == actions[k]);
                let c = choose|c: int| 0 <= c < before.len() && before[c] == actions[k];
                assert(now[c] == actions[k]);
            } else {
                assert(now[before.len() as int] == actions[k]);
            }
        }
        assert forall|c: int| 0 <= c < now.len() implies actions.contains(#[trigger] now[c])
            && !is_full_sha(now[c].version) by {
            if c < before.len() {
                assert(now[c] == before[c]);
                let k = choose|k: int| 0 <= k < front.len() && front[k] == before[c];
                assert(actions[k] == now[c]);
            } else {
                assert(actions[actions.len() - 1] == now[c]);
            }
        }
    }
}

} // verus!
