//! Paths as texts with slashes between their parts.

use vstd::prelude::*;

use crate::text::{
    characters, cut_last, join, joined, pieces, replace_char, same, split, split_last, views,
};

verus! {

/// The pieces of a path that count: empty pieces do not, and a dot only in front.
pub open spec fn counted(all: Seq<Seq<char>>) -> Seq<Seq<char>>
    decreases all.len(),
{
    if all.len() == 0 {
        Seq::empty()
    } else {
        let before = counted(all.drop_last());
        if all.last().len() > 0 && (all.last() != "."@ || all.len() == 1) {
            before.push(all.last())
        } else {
            before
        }
    }
}

/// The parts of a path.
pub open spec fn components(path: Seq<char>) -> Seq<Seq<char>> {
    counted(split(path, '/'))
}

/// The path begins at the root.
pub open spec fn is_absolute(path: Seq<char>) -> bool {
    path.len() > 0 && path[0] == '/'
}

/// The parts of `path` begin with those of `root`.
pub open spec fn lies_in(root: Seq<char>, path: Seq<char>) -> bool {
    &&& is_absolute(root) == is_absolute(path)
    &&& components(root).len() <= components(path).len()
    &&& components(path).take(components(root).len() as int) == components(root)
}

/// The path from `root` on.
pub open spec fn path_below(root: Seq<char>, path: Seq<char>) -> Seq<char> {
    join(components(path).skip(components(root).len() as int), "/"@)
}

/// The last part of a path.
pub open spec fn file_name(path: Seq<char>) -> Seq<char> {
    match split_last(path, '/') {
        Some((_, name)) => name,
        None => path,
    }
}

/// What stands behind the last dot of a file's name, unless the name begins with
/// it.
pub open spec fn extension(path: Seq<char>) -> Option<Seq<char>> {
    match split_last(file_name(path), '.') {
        Some((stem, ending)) => if stem.len() > 0 {
            Some(ending)
        } else {
            None
        },
        None => None,
    }
}

/// The one character comes before the other in the order of paths: a slash before
/// all others.
pub open spec fn char_before(a: char, b: char) -> bool {
    b != '/' && (a == '/' || a < b)
}

/// The one path comes before the other: part by part, a part before its
/// continuations.
pub open spec fn comes_before(a: Seq<char>, b: Seq<char>) -> bool
    decreases a.len(),
{
    if b.len() == 0 {
        false
    } else if a.len() == 0 {
        true
    } else if a[0] != b[0] {
        char_before(a[0], b[0])
    } else {
        comes_before(a.skip(1), b.skip(1))
    }
}

/// No path comes before one that stands in front of it.
pub open spec fn is_sorted(paths: Seq<Seq<char>>) -> bool {
    forall|i: int, j: int|
        0 <= i < j < paths.len() ==> !comes_before(#[trigger] paths[j], #[trigger] paths[i])
}

/// The order of paths leads from one to the next.
pub proof fn lemma_order_is_transitive(a: Seq<char>, b: Seq<char>, c: Seq<char>)
    requires
        comes_before(a, b),
        comes_before(b, c),
    ensures
        comes_before(a, c),
    decreases a.len(),
{
    if a.len() > 0 && b.len() > 0 && c.len() > 0 && a[0] == b[0] && b[0] == c[0] {
        lemma_order_is_transitive(a.skip(1), b.skip(1), c.skip(1));
    }
}

/// No path comes before itself.
pub proof fn lemma_order_is_strict(a: Seq<char>)
    ensures
        !comes_before(a, a),
    decreases a.len(),
{
    if a.len() > 0 {
        lemma_order_is_strict(a.skip(1));
    }
}

/// Whether the one path comes before the other.
pub fn before(left: &str, right: &str) -> (result: bool)
    ensures
        result == comes_before(left@, right@),
{
    let a = characters(left);
    let b = characters(right);
    let mut i: usize = 0;
    assert(a@.skip(0) == a@ && b@.skip(0) == b@);
    while i < a.len() && i < b.len() && a[i] == b[i]
        invariant
            i <= a.len(),
            i <= b.len(),
            comes_before(a@, b@) == comes_before(a@.skip(i as int), b@.skip(i as int)),
        decreases a.len() - i,
    {
        assert(a@.skip(i as int).skip(1) == a@.skip(i + 1));
        assert(b@.skip(i as int).skip(1) == b@.skip(i + 1));
        i = i + 1;
    }
    if i >= b.len() {
        return false;
    }
    if i >= a.len() {
        return true;
    }
    assert(comes_before(a@, b@) == char_before(a@[i as int], b@[i as int]));
    b[i] != '/' && (a[i] == '/' || a[i] < b[i])
}

/// Puts a path where it belongs among sorted ones.
pub(crate) fn insert_sorted(paths: &mut Vec<String>, path: String)
    requires
        is_sorted(views(old(paths)@)),
    ensures
        is_sorted(views(final(paths)@)),
        views(final(paths)@).to_multiset() == views(old(paths)@).to_multiset().insert(path@),
{
    let ghost all = views(paths@);
    let mut at: usize = 0;
    while at < paths.len() && !before(&path, &paths[at])
        invariant
            at <= paths.len(),
            all == views(paths@),
            forall|k: int| 0 <= k < at ==> !comes_before(path@, #[trigger] all[k]),
        decreases paths.len() - at,
    {
        assert(all[at as int] == paths@[at as int]@);
        at = at + 1;
    }
    assert(at < paths.len() ==> all[at as int] == paths@[at as int]@);
    let ghost added = path@;
    paths.insert(at, path);
    proof {
        let now = views(paths@);
        assert(now == all.insert(at as int, added));
        assert forall|i: int, j: int| 0 <= i < j < now.len() implies !comes_before(
            #[trigger] now[j],
            #[trigger] now[i],
        ) by {
            if j == at {
                assert(now[i] == all[i]);
            } else if i == at {
                assert(now[j] == all[j - 1]);
                if comes_before(all[j - 1], added) {
                    lemma_order_is_transitive(all[j - 1], added, all[at as int]);
                    if j - 1 == at {
                        lemma_order_is_strict(all[at as int]);
                    }
                }
            } else {
                let i0 = if i < at {
                    i
                } else {
                    i - 1
                };
                let j0 = if j < at {
                    j
                } else {
                    j - 1
                };
                assert(now[i] == all[i0] && now[j] == all[j0]);
            }
        }
        now.to_multiset_ensures();
        assert(now.remove(at as int) == all);
        assert(now.contains(now[at as int]));
        assert(now.to_multiset() == all.to_multiset().insert(added));
    }
}

/// The file is a workflow, by its extension.
pub open spec fn is_workflow(path: Seq<char>) -> bool {
    extension(path) == Some("yml"@) || extension(path) == Some("yaml"@)
}

/// Whether the file is a workflow: its extension is `yml` or `yaml`.
pub fn is_workflow_file(path: &str) -> (result: bool)
    ensures
        result == is_workflow(path@),
{
    let name = match cut_last(path, '/') {
        Some((_, name)) => name,
        None => path.to_owned(),
    };
    match cut_last(&name, '.') {
        Some((stem, ending)) => {
            proof {
                reveal_strlit("");
                if stem@.len() == 0 {
                    assert(stem@ == ""@);
                }
            }
            !same(&stem, "") && (same(&ending, "yml") || same(&ending, "yaml"))
        },
        None => false,
    }
}

/// The workflow files among the files below a directory, in the order of paths.
pub fn discover_workflow_files(files: &Vec<String>) -> (result: Vec<String>)
    ensures
        is_sorted(views(result@)),
        views(result@).to_multiset() == views(files@).filter(
            |path: Seq<char>| is_workflow(path),
        ).to_multiset(),
{
    let ghost all = views(files@);
    let ghost keep = |path: Seq<char>| is_workflow(path);
    let mut result: Vec<String> = Vec::new();
    let mut i: usize = 0;
    proof {
        reveal(Seq::filter);
        assert(views(result@) == all.take(0).filter(keep));
    }
    while i < files.len()
        invariant
            i <= files.len(),
            all == views(files@),
            keep == (|path: Seq<char>| is_workflow(path)),
            is_sorted(views(result@)),
            views(result@).to_multiset() == all.take(i as int).filter(keep).to_multiset(),
        decreases files.len() - i,
    {
        proof {
            reveal(Seq::filter);
            assert(all.take(i + 1).drop_last() == all.take(i as int));
            assert(all.take(i + 1).last() == files@[i as int]@);
            all.take(i as int).filter(keep).to_multiset_ensures();
        }
        if is_workflow_file(&files[i]) {
            insert_sorted(&mut result, files[i].clone());
        }
        i = i + 1;
    }
    assert(all.take(i as int) == all);
    result
}

/// The parts of a path.
pub fn parts_of(path: &str) -> (result: Vec<String>)
    ensures
        views(result@) == components(path@),
{
    let all = pieces(path, '/');
    let ghost seen = views(all@);
    let mut result: Vec<String> = Vec::new();
    let mut i: usize = 0;
    assert(views(result@) == counted(seen.take(0)));
    while i < all.len()
        invariant
            i <= all.len(),
            seen == views(all@),
            views(result@) == counted(seen.take(i as int)),
        decreases all.len() - i,
    {
        let ghost so_far = result@;
        proof {
            reveal_strlit("");
            assert(seen.take(i + 1).drop_last() == seen.take(i as int));
            assert(seen.take(i + 1).last() == all@[i as int]@);
            if all@[i as int]@.len() == 0 {
                assert(all@[i as int]@ == ""@);
            }
        }
        if !same(&all[i], "") && (!same(&all[i], ".") || i == 0) {
            result.push(all[i].clone());
            assert(views(result@) == views(so_far).push(all@[i as int]@));
        }
        i = i + 1;
    }
    assert(seen.take(i as int) == seen);
    result
}

/// Whether the path begins at the root.
pub fn absolute(path: &str) -> (result: bool)
    ensures
        result == is_absolute(path@),
{
    let chars = characters(path);
    chars.len() > 0 && chars[0] == '/'
}

/// The path from `root` on, where it lies there.
pub fn strip_root(root: &str, path: &str) -> (result: Option<String>)
    ensures
        match result {
            Some(rest) => lies_in(root@, path@) && rest@ == path_below(root@, path@),
            None => !lies_in(root@, path@),
        },
{
    let base = parts_of(root);
    let all = parts_of(path);
    if absolute(root) != absolute(path) || base.len() > all.len() {
        return None;
    }
    let ghost have = views(all@);
    let ghost want = views(base@);
    let mut i: usize = 0;
    while i < base.len()
        invariant
            i <= base.len() <= all.len(),
            have == views(all@),
            have == components(path@),
            want == views(base@),
            want == components(root@),
            forall|k: int| 0 <= k < i ==> have[k] == #[trigger] want[k],
        decreases base.len() - i,
    {
        assert(have[i as int] == all@[i as int]@ && want[i as int] == base@[i as int]@);
        if !same(&base[i], &all[i]) {
            proof {
                if lies_in(root@, path@) {
                    assert(have.take(want.len() as int)[i as int] == have[i as int]);
                }
            }
            return None;
        }
        i = i + 1;
    }
    assert(have.take(want.len() as int) == want);
    let mut rest: Vec<String> = Vec::new();
    while i < all.len()
        invariant
            base.len() <= i <= all.len(),
            have == views(all@),
            want == views(base@),
            views(rest@) == have.subrange(want.len() as int, i as int),
        decreases all.len() - i,
    {
        let ghost so_far = rest@;
        rest.push(all[i].clone());
        assert(views(rest@) == views(so_far).push(all@[i as int]@));
        i = i + 1;
    }
    assert(views(rest@) == have.skip(want.len() as int));
    Some(joined(&rest, "/"))
}

/// The text with backslashes made slashes.
pub(crate) fn with_slashes(text: &str) -> (result: String)
    ensures
        result@ == replace_char(text@, '\\', '/'),
{
    let chars = characters(text);
    let mut result = String::new();
    let mut i: usize = 0;
    while i < chars.len()
        invariant
            i <= chars.len(),
            result@ == replace_char(chars@.take(i as int), '\\', '/'),
        decreases chars.len() - i,
    {
        assert(chars@.take(i + 1) == chars@.take(i as int).push(chars@[i as int]));
        if chars[i] == '\\' {
            result.push('/');
        } else {
            result.push(chars[i]);
        }
        assert(result@ == replace_char(chars@.take(i + 1), '\\', '/'));
        i = i + 1;
    }
    assert(chars@.take(i as int) == chars@);
    result
}

/// What is said of a file that does not lie in the repository.
pub open spec fn outside_repository() -> Seq<char> {
    "failed to derive repository-relative path: prefix not found"@
}

/// What is said where a file is the repository itself.
pub open spec fn empty_path() -> Seq<char> {
    "repository-relative path is empty"@
}

/// The path of a file in its repository, with slashes, or why it has none.
pub open spec fn repository_path(root: Seq<char>, file: Seq<char>) -> Result<Seq<char>, Seq<char>> {
    let path = replace_char(path_below(root, file), '\\', '/');
    if !lies_in(root, file) {
        Err(outside_repository())
    } else if path.len() == 0 {
        Err(empty_path())
    } else {
        Ok(path)
    }
}

/// The path of a file in its repository, with slashes.
pub fn relative_repository_path(repo_root: &str, file: &str) -> (result: Result<String, String>)
    ensures
        crate::workflow::text_result(result) == repository_path(repo_root@, file@),
{
    match strip_root(repo_root, file) {
        Some(rest) => {
            let path = with_slashes(&rest);
            proof {
                reveal_strlit("");
                if path@.len() == 0 {
                    assert(path@ == ""@);
                }
            }
            if same(&path, "") {
                Err("repository-relative path is empty".to_owned())
            } else {
                Ok(path)
            }
        },
        None => Err("failed to derive repository-relative path: prefix not found".to_owned()),
    }
}

} // verus!
