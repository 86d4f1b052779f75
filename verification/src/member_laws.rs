//! Which manifests belong to a workspace.

use vstd::prelude::*;

use crate::cargo::manifest_beside;
use crate::glob::{is_covered, matches_path, matches_segments, matches_text, segments};
use crate::manifest::{texts_among, texts_at, KeyPath, NodeView, Nodes};
use crate::paths::{components, counted, lies_in, path_below};
use crate::text::{replace_char, split, split_last};
use crate::text_laws::{law_cut_at_the_last_mark, law_pieces_are_joined, law_pieces_of_both_sides};
use crate::versioning::{directory_below, is_member, members_of};

verus! {

// ---------------------------------------------------------------------------
// Directories
// ---------------------------------------------------------------------------
/// A relative path of plain names: none of them is empty or a dot, and no backslash occurs.
pub open spec fn is_plain_path(path: Seq<char>) -> bool {
    &&& !path.contains('\\')
    &&& forall|i: int|
        0 <= i < split(path, '/').len() ==> is_plain_name(#[trigger] split(path, '/')[i])
}

/// A name that stands for a directory of its own.
pub open spec fn is_plain_name(name: Seq<char>) -> bool {
    name.len() > 0 && name != "."@
}

proof fn lemma_counted(a: Seq<Seq<char>>, b: Seq<Seq<char>>)
    requires
        forall|i: int| 0 <= i < b.len() ==> is_plain_name(#[trigger] b[i]),
    ensures
        counted(a + b) == counted(a) + b,
    decreases b.len(),
{
    if b.len() > 0 {
        let all = a + b;
        let front = b.drop_last();
        assert(all.drop_last() == a + front);
        assert(all.last() == b.last());
        assert(is_plain_name(b[b.len() - 1]));
        assert forall|i: int| 0 <= i < front.len() implies is_plain_name(#[trigger] front[i]) by {
            assert(front[i] == b[i]);
        }
        lemma_counted(a, front);
        assert(counted(all) == (counted(a) + front).push(b.last()));
        assert((counted(a) + front).push(b.last()) == counted(a) + b);
    } else {
        assert(a + b == a);
        assert(counted(a) + b == counted(a));
    }
}

/// What stands behind the root and a slash lies below the root, at that path.
pub proof fn law_path_behind_the_root(root: Seq<char>, path: Seq<char>)
    requires
        root.len() > 0,
        is_plain_path(path),
    ensures
        lies_in(root, root + seq!['/'] + path),
        path_below(root, root + seq!['/'] + path) == path,
        replace_char(path, '\\', '/') == path,
{
    lemma_behind_the_root(root, path);
    assert forall|i: int| 0 <= i < path.len() implies #[trigger] replace_char(path, '\\', '/')[i]
        == path[i] by {
        assert(path.contains(path[i]));
    }
    assert(replace_char(path, '\\', '/') == path);
}

proof fn lemma_behind_the_root(root: Seq<char>, path: Seq<char>)
    requires
        root.len() > 0,
        forall|i: int|
            0 <= i < split(path, '/').len() ==> is_plain_name(#[trigger] split(path, '/')[i]),
    ensures
        lies_in(root, root + seq!['/'] + path),
        path_below(root, root + seq!['/'] + path) == path,
{
    let whole = root + seq!['/'] + path;
    law_pieces_of_both_sides(root, path, '/');
    lemma_counted(split(root, '/'), split(path, '/'));
    let above = components(root);
    let all = components(whole);
    assert(all == above + split(path, '/'));
    assert(all.take(above.len() as int) == above);
    assert(all.skip(above.len() as int) == split(path, '/'));
    assert(whole[0] == root[0]);
    law_pieces_are_joined(path, '/');
    reveal_strlit("/");
    assert("/"@ == seq!['/']);
}

/// The path of a manifest in a directory below the root.
pub open spec fn manifest_in(root: Seq<char>, directory: Seq<char>, name: Seq<char>) -> Seq<char> {
    root + seq!['/'] + directory + seq!['/'] + name
}

proof fn lemma_directory(root: Seq<char>, directory: Seq<char>, name: Seq<char>)
    requires
        root.len() > 0,
        is_plain_path(directory),
        !name.contains('/'),
    ensures
        directory_below(root, manifest_in(root, directory, name)) == Some(directory),
{
    law_cut_at_the_last_mark(root + seq!['/'] + directory, name, '/');
    law_path_behind_the_root(root, directory);
}

/// Every character is itself, but for a backslash, which counts as a slash.
pub open spec fn with_slashes(path: Seq<char>) -> Seq<char> {
    Seq::new(
        path.len(),
        |i: int|
            if path[i] == '\\' {
                '/'
            } else {
                path[i]
            },
    )
}

/// In the path of a directory below the root a backslash counts as a slash.
pub proof fn law_backslash_counts_as_slash(
    root: Seq<char>,
    directory: Seq<char>,
    name: Seq<char>,
)
    requires
        root.len() > 0,
        forall|i: int|
            0 <= i < split(directory, '/').len() ==> is_plain_name(
                #[trigger] split(directory, '/')[i],
            ),
        !name.contains('/'),
    ensures
        directory_below(root, manifest_in(root, directory, name)) == Some(with_slashes(directory)),
        directory.len() > 0 ==> crate::paths::repository_path(
            root,
            root + seq!['/'] + directory,
        ) == Ok::<Seq<char>, Seq<char>>(with_slashes(directory)),
{
    law_cut_at_the_last_mark(root + seq!['/'] + directory, name, '/');
    lemma_behind_the_root(root, directory);
    assert(replace_char(directory, '\\', '/') == with_slashes(directory));
}

/// The manifest beside a file is in the same directory.
pub proof fn law_manifest_is_in_the_same_directory(directory: Seq<char>, name: Seq<char>)
    requires
        !name.contains('/'),
    ensures
        manifest_beside(directory + seq!['/'] + name) == directory + "/Cargo.toml"@,
        manifest_beside(name) == "Cargo.toml"@,
{
    law_cut_at_the_last_mark(directory, name, '/');
    reveal_strlit("/");
    reveal_strlit("Cargo.toml");
    reveal_strlit("/Cargo.toml");
    assert("/"@ + "Cargo.toml"@ == "/Cargo.toml"@);
    assert(directory + "/"@ + "Cargo.toml"@ == directory + ("/"@ + "Cargo.toml"@));
}

// ---------------------------------------------------------------------------
// Members
// ---------------------------------------------------------------------------
/// Some text of the array at the path, wherever it stands, matches the directory.
pub open spec fn some_entry_matches(nodes: Nodes, path: KeyPath, directory: Seq<char>) -> bool {
    &&& nodes.contains_key(path)
    &&& nodes[path] matches NodeView::Array(items)
    &&& exists|i: int|
        0 <= i < items.len() && (#[trigger] items[i]) is Some && matches_path(
            items[i]->0,
            directory,
        )
}

/// Some text of the array at the path, wherever it stands, covers the directory.
pub open spec fn some_entry_covers(nodes: Nodes, path: KeyPath, directory: Seq<char>) -> bool {
    &&& nodes.contains_key(path)
    &&& nodes[path] matches NodeView::Array(items)
    &&& exists|i: int|
        0 <= i < items.len() && (#[trigger] items[i]) is Some && is_covered(items[i]->0, directory)
}

proof fn lemma_texts(items: Seq<Option<Seq<char>>>)
    ensures
        forall|i: int|
            0 <= i < items.len() && (#[trigger] items[i]) is Some ==> texts_among(items).contains(
                items[i]->0,
            ),
        forall|k: int|
            0 <= k < texts_among(items).len() ==> items.contains(
                Some(#[trigger] texts_among(items)[k]),
            ),
    decreases items.len(),
{
    if items.len() > 0 {
        let front = items.drop_last();
        lemma_texts(front);
        let before = texts_among(front);
        let now = texts_among(items);
        assert forall|i: int|
            0 <= i < items.len() && (#[trigger] items[i]) is Some implies now.contains(
            items[i]->0,
        ) by {
            if i < front.len() {
                assert(front[i] == items[i]);
                let k = choose|k: int| 0 <= k < before.len() && before[k] == items[i]->0;
                assert(now[k] == items[i]->0);
            } else {
                assert(now[before.len() as int] == items[i]->0);
            }
        }
        assert forall|k: int| 0 <= k < now.len() implies items.contains(
            Some(#[trigger] now[k]),
        ) by {
            if k < before.len() {
                assert(now[k] == before[k]);
                let i = choose|i: int| 0 <= i < front.len() && front[i] == Some(before[k]);
                assert(items[i] == Some(now[k]));
            } else {
                assert(items[items.len() - 1] == Some(now[k]));
            }
        }
    }
}

proof fn lemma_entries(nodes: Nodes, path: KeyPath, directory: Seq<char>)
    ensures
        some_entry_matches(nodes, path, directory) == crate::versioning::any_matches(
            texts_at(nodes, path),
            directory,
        ),
        some_entry_covers(nodes, path, directory) == crate::versioning::any_covers(
            texts_at(nodes, path),
            directory,
        ),
{
    let texts = texts_at(nodes, path);
    if nodes.contains_key(path) && nodes[path] is Array {
        let items = nodes[path]->Array_0;
        lemma_texts(items);
        if some_entry_matches(nodes, path, directory) {
            let i = choose|i: int|
                0 <= i < items.len() && (#[trigger] items[i]) is Some && matches_path(
                    items[i]->0,
                    directory,
                );
            let k = choose|k: int| 0 <= k < texts.len() && texts[k] == items[i]->0;
            assert(matches_path(texts[k], directory));
        }
        if crate::versioning::any_matches(texts, directory) {
            let k = choose|k: int|
                0 <= k < texts.len() && matches_path(#[trigger] texts[k], directory);
            let i = choose|i: int| 0 <= i < items.len() && items[i] == Some(texts[k]);
            assert(items[i] is Some && matches_path(items[i]->0, directory));
        }
        if some_entry_covers(nodes, path, directory) {
            let i = choose|i: int|
                0 <= i < items.len() && (#[trigger] items[i]) is Some && is_covered(
                    items[i]->0,
                    directory,
                );
            let k = choose|k: int| 0 <= k < texts.len() && texts[k] == items[i]->0;
            assert(is_covered(texts[k], directory));
        }
        if crate::versioning::any_covers(texts, directory) {
            let k = choose|k: int|
                0 <= k < texts.len() && is_covered(#[trigger] texts[k], directory);
            let i = choose|i: int| 0 <= i < items.len() && items[i] == Some(texts[k]);
            assert(items[i] is Some && is_covered(items[i]->0, directory));
        }
    }
}

/// A manifest below the root is a member exactly when some entry of `workspace.members`,
/// wherever it stands in the list, matches its directory, and no entry of `workspace.exclude`
/// covers it.
pub proof fn law_members_are_chosen_by_directory(
    nodes: Nodes,
    root: Seq<char>,
    root_manifest: Seq<char>,
    files: Seq<Seq<char>>,
    directory: Seq<char>,
    name: Seq<char>,
)
    requires
        root.len() > 0,
        is_plain_path(directory),
        !name.contains('/'),
        files.contains(manifest_in(root, directory, name)),
        manifest_in(root, directory, name) != root_manifest,
    ensures
        members_of(nodes, root, root_manifest, files).contains(manifest_in(root, directory, name))
            == (some_entry_matches(nodes, seq!["workspace"@, "members"@], directory)
            && !some_entry_covers(nodes, seq!["workspace"@, "exclude"@], directory)),
{
    let path = manifest_in(root, directory, name);
    lemma_directory(root, directory, name);
    lemma_entries(nodes, seq!["workspace"@, "members"@], directory);
    lemma_entries(nodes, seq!["workspace"@, "exclude"@], directory);
    lemma_members(nodes, root, root_manifest, files, path);
}

/// The root manifest comes first, every other member is one of the files and lies below the
/// root.
pub proof fn law_members_are_files(
    nodes: Nodes,
    root: Seq<char>,
    root_manifest: Seq<char>,
    files: Seq<Seq<char>>,
    path: Seq<char>,
)
    ensures
        members_of(nodes, root, root_manifest, files).len() > 0,
        members_of(nodes, root, root_manifest, files)[0] == root_manifest,
        members_of(nodes, root, root_manifest, files).contains(path) && path != root_manifest
            ==> files.contains(path) && path.contains('/') && lies_in(
            root,
            (split_last(path, '/')->0).0,
        ),
        files.no_duplicates() ==> members_of(
            nodes,
            root,
            root_manifest,
            files,
        ).no_duplicates(),
{
    let chosen = |path: Seq<char>| is_member(nodes, root, root_manifest, path);
    let kept = files.filter(chosen);
    let all = members_of(nodes, root, root_manifest, files);
    lemma_members(nodes, root, root_manifest, files, path);
    lemma_members(nodes, root, root_manifest, files, root_manifest);
    if all.contains(path) && path != root_manifest {
        assert(split_last(path, '/') is Some);
        crate::workflow_laws::lemma_find_last(path, '/', path.len() as int);
        let at = crate::text::find_last_before(path, '/', path.len() as int);
        assert(path[at] == '/');
    }
    if files.no_duplicates() {
        lemma_filter_keeps_apart(files, chosen);
        assert forall|i: int, j: int| 0 <= i < j < all.len() implies all[i] != all[j] by {
            assert(all[j] == kept[j - 1]);
            files.lemma_filter_contains_rev(chosen, kept[j - 1]);
            if i > 0 {
                assert(all[i] == kept[i - 1]);
            }
        }
    }
}

proof fn lemma_filter_keeps_apart(all: Seq<Seq<char>>, chosen: spec_fn(Seq<char>) -> bool)
    requires
        all.no_duplicates(),
    ensures
        all.filter(chosen).no_duplicates(),
        forall|k: int|
            0 <= k < all.filter(chosen).len() ==> all.contains(#[trigger] all.filter(chosen)[k])
                && chosen(all.filter(chosen)[k]),
    decreases all.len(),
{
    reveal(Seq::filter);
    if all.len() > 0 {
        let front = all.drop_last();
        lemma_filter_keeps_apart(front, chosen);
        let before = front.filter(chosen);
        let now = all.filter(chosen);
        assert forall|k: int| 0 <= k < now.len() implies all.contains(#[trigger] now[k]) && chosen(
            now[k],
        ) by {
            if k < before.len() {
                assert(now[k] == before[k]);
                let i = choose|i: int| 0 <= i < front.len() && front[i] == before[k];
                assert(all[i] == now[k]);
            } else {
                assert(all[all.len() - 1] == now[k]);
            }
        }
        assert forall|i: int, j: int| 0 <= i < j < now.len() implies now[i] != now[j] by {
            assert(now[i] == before[i]);
            if j == before.len() {
                let m = choose|m: int| 0 <= m < front.len() && front[m] == before[i];
                assert(all[m] == now[i]);
                assert(all[all.len() - 1] == now[j]);
            } else {
                assert(now[j] == before[j]);
            }
        }
    }
}

proof fn lemma_members(
    nodes: Nodes,
    root: Seq<char>,
    root_manifest: Seq<char>,
    files: Seq<Seq<char>>,
    path: Seq<char>,
)
    ensures
        members_of(nodes, root, root_manifest, files).contains(path) == (path == root_manifest
            || files.contains(path) && is_member(nodes, root, root_manifest, path)),
{
    let chosen = |path: Seq<char>| is_member(nodes, root, root_manifest, path);
    let kept = files.filter(chosen);
    let all = members_of(nodes, root, root_manifest, files);
    assert(all == seq![root_manifest] + kept);
    assert(all[0] == root_manifest);
    lemma_kept(files, chosen, path);
    if kept.contains(path) {
        let k = choose|k: int| 0 <= k < kept.len() && kept[k] == path;
        assert(all[k + 1] == path);
    }
    if all.contains(path) && path != root_manifest {
        let k = choose|k: int| 0 <= k < all.len() && all[k] == path;
        assert(kept[k - 1] == path);
    }
}

pub(crate) proof fn lemma_kept(
    all: Seq<Seq<char>>,
    chosen: spec_fn(Seq<char>) -> bool,
    item: Seq<char>,
)
    ensures
        all.filter(chosen).contains(item) == (all.contains(item) && chosen(item)),
    decreases all.len(),
{
    reveal(Seq::filter);
    if all.len() > 0 {
        let front = all.drop_last();
        lemma_kept(front, chosen, item);
        let before = front.filter(chosen);
        let now = all.filter(chosen);
        if now.contains(item) {
            let k = choose|k: int| 0 <= k < now.len() && now[k] == item;
            if k < before.len() {
                assert(before[k] == item);
                let i = choose|i: int| 0 <= i < front.len() && front[i] == item;
                assert(all[i] == item);
            } else {
                assert(all[all.len() - 1] == item);
            }
        }
        if all.contains(item) && chosen(item) {
            let i = choose|i: int| 0 <= i < all.len() && all[i] == item;
            if i < front.len() {
                assert(front[i] == item);
                let k = choose|k: int| 0 <= k < before.len() && before[k] == item;
                assert(now[k] == item);
            } else {
                assert(now[before.len() as int] == item);
            }
        }
    }
}

// ---------------------------------------------------------------------------
// Patterns
// ---------------------------------------------------------------------------
/// The pieces of a plain path are its names.
pub proof fn law_segments_are_the_names(path: Seq<char>)
    ensures
        forall|i: int| 0 <= i < segments(path).len() ==> (#[trigger] segments(path)[i]).len() > 0,
        (forall|i: int| 0 <= i < split(path, '/').len() ==> (#[trigger] split(path, '/')[i]).len()
            > 0) ==> segments(path) == split(path, '/'),
{
    lemma_nonempty(split(path, '/'));
}

proof fn lemma_nonempty(all: Seq<Seq<char>>)
    ensures
        ({
            let kept = all.filter(|segment: Seq<char>| segment.len() > 0);
            &&& forall|i: int| 0 <= i < kept.len() ==> (#[trigger] kept[i]).len() > 0
            &&& (forall|i: int| 0 <= i < all.len() ==> (#[trigger] all[i]).len() > 0) ==> kept
                == all
        }),
    decreases all.len(),
{
    reveal(Seq::filter);
    if all.len() > 0 {
        let front = all.drop_last();
        lemma_nonempty(front);
        if forall|i: int| 0 <= i < all.len() ==> (#[trigger] all[i]).len() > 0 {
            assert forall|i: int| 0 <= i < front.len() implies (#[trigger] front[i]).len() > 0 by {
                assert(front[i] == all[i]);
            }
            assert(all[all.len() - 1].len() > 0);
            assert(front.push(all.last()) == all);
        }
    }
}

/// A star stands for any text, also for none: a pattern with one matches what begins with its
/// front and ends with its back.
pub proof fn law_star_stands_for_any_text(front: Seq<char>, back: Seq<char>, text: Seq<char>)
    requires
        !front.contains('*') && !front.contains('?'),
        !back.contains('*') && !back.contains('?'),
    ensures
        matches_text(front + seq!['*'] + back, text) == (text.len() >= front.len() + back.len()
            && text.take(front.len() as int) == front && text.skip(text.len() - back.len())
            == back),
    decreases front.len(),
{
    let pattern = front + seq!['*'] + back;
    if front.len() == 0 {
        assert(pattern == seq!['*'] + back);
        lemma_star(back, text);
        assert(text.take(0) == front);
    } else {
        assert(pattern[0] == front[0]);
        assert(front.contains(front[0]));
        let rest = front.skip(1);
        assert(pattern.skip(1) == rest + seq!['*'] + back);
        assert(!rest.contains('*') && !rest.contains('?')) by {
            if rest.contains('*') {
                let i = choose|i: int| 0 <= i < rest.len() && rest[i] == '*';
                assert(front[i + 1] == '*');
            }
            if rest.contains('?') {
                let i = choose|i: int| 0 <= i < rest.len() && rest[i] == '?';
                assert(front[i + 1] == '?');
            }
        }
        if text.len() > 0 {
            let tail = text.skip(1);
            law_star_stands_for_any_text(rest, back, tail);
            let n = front.len() as int;
            if text.len() >= front.len() + back.len() {
                assert(tail.skip(tail.len() - back.len()) == text.skip(text.len() - back.len()));
                if text.take(n) == front {
                    assert(text[0] == text.take(n)[0]);
                    assert(tail.take(n - 1) == rest) by {
                        assert forall|i: int| 0 <= i < n - 1 implies tail.take(n - 1)[i]
                            == rest[i] by {
                            assert(text.take(n)[i + 1] == front[i + 1]);
                        }
                    }
                }
                if text[0] == front[0] && tail.take(n - 1) == rest {
                    assert forall|i: int| 0 <= i < n implies text.take(n)[i] == front[i] by {
                        if i > 0 {
                            assert(tail.take(n - 1)[i - 1] == rest[i - 1]);
                        }
                    }
                    assert(text.take(n) == front);
                }
            }
        }
    }
}

proof fn lemma_star(back: Seq<char>, text: Seq<char>)
    requires
        !back.contains('*') && !back.contains('?'),
    ensures
        matches_text(seq!['*'] + back, text) == (text.len() >= back.len() && text.skip(
            text.len() - back.len(),
        ) == back),
    decreases text.len(),
{
    let pattern = seq!['*'] + back;
    assert(pattern[0] == '*');
    assert(pattern.skip(1) == back);
    crate::glob::law_plain_text_matches_itself_only(back, text);
    if text.len() > 0 {
        let tail = text.skip(1);
        lemma_star(back, tail);
        if tail.len() >= back.len() {
            assert(tail.skip(tail.len() - back.len()) == text.skip(text.len() - back.len()));
        }
    }
    if text.len() >= back.len() && text.len() == back.len() {
        assert(text.skip(0) == text);
    }
}

/// A question mark stands for one character, and two patterns side by side match what they
/// match one after the other where the first has no star.
pub proof fn law_question_mark_stands_for_one(rest: Seq<char>, text: Seq<char>)
    ensures
        matches_text(seq!['?'] + rest, text) == (text.len() > 0 && matches_text(
            rest,
            text.skip(1),
        )),
{
    let pattern = seq!['?'] + rest;
    assert(pattern[0] == '?');
    assert(pattern.skip(1) == rest);
}

/// Without `**` a pattern matches the paths of as many names, each of which its own piece
/// matches.
pub proof fn law_names_are_matched_one_by_one(pattern: Seq<Seq<char>>, path: Seq<Seq<char>>)
    requires
        forall|i: int| 0 <= i < pattern.len() ==> #[trigger] pattern[i] != "**"@,
    ensures
        matches_segments(pattern, path) == (pattern.len() == path.len() && forall|i: int|
            0 <= i < pattern.len() ==> matches_text(#[trigger] pattern[i], path[i])),
    decreases pattern.len(),
{
    if pattern.len() > 0 && path.len() > 0 {
        let p = pattern.skip(1);
        let q = path.skip(1);
        assert(pattern[0] != "**"@);
        assert forall|i: int| 0 <= i < p.len() implies #[trigger] p[i] != "**"@ by {
            assert(p[i] == pattern[i + 1]);
        }
        law_names_are_matched_one_by_one(p, q);
        if matches_segments(pattern, path) {
            assert forall|i: int| 0 <= i < pattern.len() implies matches_text(
                #[trigger] pattern[i],
                path[i],
            ) by {
                if i > 0 {
                    assert(pattern[i] == p[i - 1]);
                    assert(path[i] == q[i - 1]);
                }
            }
        }
        if pattern.len() == path.len() && forall|i: int|
            0 <= i < pattern.len() ==> matches_text(#[trigger] pattern[i], path[i]) {
            assert(matches_text(pattern[0], path[0]));
            assert forall|i: int| 0 <= i < p.len() implies matches_text(
                #[trigger] p[i],
                q[i],
            ) by {
                assert(p[i] == pattern[i + 1]);
                assert(q[i] == path[i + 1]);
            }
        }
    }
}

/// What `**` and a pattern behind it match ends with what the pattern matches.
pub proof fn law_double_star_needs_the_rest(pattern: Seq<Seq<char>>, path: Seq<Seq<char>>)
    ensures
        matches_segments(seq!["**"@] + pattern, path) == (exists|k: int|
            0 <= k <= path.len() && matches_segments(pattern, #[trigger] path.skip(k))),
    decreases path.len(),
{
    let all = seq!["**"@] + pattern;
    assert(all[0] == "**"@);
    assert(all.skip(1) == pattern);
    assert(path.skip(0) == path);
    if path.len() > 0 {
        let rest = path.skip(1);
        law_double_star_needs_the_rest(pattern, rest);
        if exists|k: int|
            0 <= k <= rest.len() && matches_segments(pattern, #[trigger] rest.skip(k)) {
            let k = choose|k: int|
                0 <= k <= rest.len() && matches_segments(pattern, #[trigger] rest.skip(k));
            assert(path.skip(k + 1) == rest.skip(k));
        }
        if exists|k: int|
            0 <= k <= path.len() && matches_segments(pattern, #[trigger] path.skip(k)) {
            let k = choose|k: int|
                0 <= k <= path.len() && matches_segments(pattern, #[trigger] path.skip(k));
            if k > 0 {
                assert(rest.skip(k - 1) == path.skip(k));
            }
        }
    }
}

/// A directory is covered by an entry that is the directory or lies above it, and by no other.
pub proof fn law_directories_above_cover(directory: Seq<char>, path: Seq<char>)
    ensures
        is_covered(directory, path) == (exists|below: Seq<Seq<char>>| #[trigger]
            (segments(directory) + below) == segments(path)),
{
    let a = segments(directory);
    let b = segments(path);
    if is_covered(directory, path) {
        assert(a + b.skip(a.len() as int) == b);
    }
    if exists|below: Seq<Seq<char>>| #[trigger] (a + below) == b {
        let below = choose|below: Seq<Seq<char>>| #[trigger] (a + below) == b;
        assert(b.take(a.len() as int) == a);
    }
}

} // verus!
