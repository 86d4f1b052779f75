//! Patterns for the members of a workspace.

use vstd::prelude::*;

use crate::text::{characters, pieces, same, split, views};

verus! {

/// The pattern matches the text: `*` stands for any characters, `?` for one.
pub open spec fn matches_text(pattern: Seq<char>, text: Seq<char>) -> bool
    decreases pattern.len() + text.len(),
{
    if pattern.len() == 0 {
        text.len() == 0
    } else if pattern[0] == '*' {
        matches_text(pattern.skip(1), text) || (text.len() > 0 && matches_text(
            pattern,
            text.skip(1),
        ))
    } else {
        text.len() > 0 && (pattern[0] == '?' || pattern[0] == text[0]) && matches_text(
            pattern.skip(1),
            text.skip(1),
        )
    }
}

/// The pattern matches the segments: `**` stands for any segments, another segment
/// of the pattern for one.
pub open spec fn matches_segments(pattern: Seq<Seq<char>>, path: Seq<Seq<char>>) -> bool
    decreases pattern.len() + path.len(),
{
    if pattern.len() == 0 {
        path.len() == 0
    } else if pattern[0] == "**"@ {
        matches_segments(pattern.skip(1), path) || (path.len() > 0 && matches_segments(
            pattern,
            path.skip(1),
        ))
    } else {
        path.len() > 0 && matches_text(pattern[0], path[0]) && matches_segments(
            pattern.skip(1),
            path.skip(1),
        )
    }
}

/// The segments of a path between its slashes that are not empty.
pub open spec fn segments(path: Seq<char>) -> Seq<Seq<char>> {
    split(path, '/').filter(|segment: Seq<char>| segment.len() > 0)
}

/// The pattern matches the path.
pub open spec fn matches_path(pattern: Seq<char>, path: Seq<char>) -> bool {
    matches_segments(segments(pattern), segments(path))
}

/// The path lies in the directory.
pub open spec fn is_covered(directory: Seq<char>, path: Seq<char>) -> bool {
    &&& segments(directory).len() <= segments(path).len()
    &&& segments(path).take(segments(directory).len() as int) == segments(directory)
}

fn match_chars(pattern: &Vec<char>, from: usize, text: &Vec<char>, at: usize) -> (result: bool)
    requires
        from <= pattern.len(),
        at <= text.len(),
    ensures
        result == matches_text(pattern@.skip(from as int), text@.skip(at as int)),
    decreases pattern.len() - from + text.len() - at,
{
    let ghost p = pattern@.skip(from as int);
    let ghost t = text@.skip(at as int);
    if from == pattern.len() {
        return at == text.len();
    }
    assert(p[0] == pattern@[from as int]);
    assert(p.skip(1) == pattern@.skip(from + 1));
    if at < text.len() {
        assert(t[0] == text@[at as int]);
        assert(t.skip(1) == text@.skip(at + 1));
    }
    if pattern[from] == '*' {
        return match_chars(pattern, from + 1, text, at) || (at < text.len() && match_chars(
            pattern,
            from,
            text,
            at + 1,
        ));
    }
    at < text.len() && (pattern[from] == '?' || pattern[from] == text[at]) && match_chars(
        pattern,
        from + 1,
        text,
        at + 1,
    )
}

fn matches_segment(pattern: &str, text: &str) -> (result: bool)
    ensures
        result == matches_text(pattern@, text@),
{
    let p = characters(pattern);
    let t = characters(text);
    assert(p@.skip(0) == p@ && t@.skip(0) == t@);
    match_chars(&p, 0, &t, 0)
}

fn match_segments(pattern: &Vec<String>, from: usize, path: &Vec<String>, at: usize) -> (result:
    bool)
    requires
        from <= pattern.len(),
        at <= path.len(),
    ensures
        result == matches_segments(
            views(pattern@).skip(from as int),
            views(path@).skip(at as int),
        ),
    decreases pattern.len() - from + path.len() - at,
{
    let ghost p = views(pattern@).skip(from as int);
    let ghost t = views(path@).skip(at as int);
    if from == pattern.len() {
        return at == path.len();
    }
    assert(p[0] == pattern@[from as int]@);
    assert(p.skip(1) == views(pattern@).skip(from + 1));
    if at < path.len() {
        assert(t[0] == path@[at as int]@);
        assert(t.skip(1) == views(path@).skip(at + 1));
    }
    if same(&pattern[from], "**") {
        return match_segments(pattern, from + 1, path, at) || (at < path.len() && match_segments(
            pattern,
            from,
            path,
            at + 1,
        ));
    }
    at < path.len() && matches_segment(&pattern[from], &path[at]) && match_segments(pattern, from + 1, path, at + 1)
}

/// The segments of a path that are not empty.
fn segments_of(path: &str) -> (result: Vec<String>)
    ensures
        views(result@) == segments(path@),
{
    let all = pieces(path, '/');
    let ghost seen = views(all@);
    let ghost keep = |segment: Seq<char>| segment.len() > 0;
    let mut result: Vec<String> = Vec::new();
    let mut i: usize = 0;
    proof {
        reveal(Seq::filter);
        reveal_strlit("");
        assert(views(result@) == seen.take(0).filter(keep));
    }
    while i < all.len()
        invariant
            i <= all.len(),
            seen == views(all@),
            keep == (|segment: Seq<char>| segment.len() > 0),
            ""@.len() == 0,
            views(result@) == seen.take(i as int).filter(keep),
        decreases all.len() - i,
    {
        let ghost before = result@;
        proof {
            reveal(Seq::filter);
            assert(seen.take(i + 1).drop_last() == seen.take(i as int));
            assert(seen.take(i + 1).last() == all@[i as int]@);
            if all@[i as int]@.len() == 0 {
                assert(all@[i as int]@ == ""@);
            }
        }
        if !same(&all[i], "") {
            result.push(all[i].clone());
            assert(views(result@) == views(before).push(all@[i as int]@));
        }
        i = i + 1;
    }
    assert(seen.take(i as int) == seen);
    result
}

/// Whether a pattern matches a path with slashes. `*` and `?` stay within a segment
/// of the path, `**` may span several.
pub fn matches_member_pattern(pattern: &str, path: &str) -> (result: bool)
    ensures
        result == matches_path(pattern@, path@),
{
    let p = segments_of(pattern);
    let t = segments_of(path);
    assert(views(p@).skip(0) == views(p@) && views(t@).skip(0) == views(t@));
    match_segments(&p, 0, &t, 0)
}

/// Whether a path with slashes lies in a directory.
pub fn covers(directory: &str, path: &str) -> (result: bool)
    ensures
        result == is_covered(directory@, path@),
{
    let d = segments_of(directory);
    let t = segments_of(path);
    let ghost want = views(d@);
    let ghost have = views(t@);
    if d.len() > t.len() {
        return false;
    }
    let mut i: usize = 0;
    while i < d.len()
        invariant
            i <= d.len() <= t.len(),
            want == views(d@),
            have == views(t@),
            want == segments(directory@),
            have == segments(path@),
            forall|k: int| 0 <= k < i ==> have[k] == #[trigger] want[k],
        decreases d.len() - i,
    {
        assert(want[i as int] == d@[i as int]@ && have[i as int] == t@[i as int]@);
        if !same(&d[i], &t[i]) {
            assert(have.take(want.len() as int)[i as int] == have[i as int]);
            return false;
        }
        i = i + 1;
    }
    assert(have.take(want.len() as int) == want);
    true
}

// ---------------------------------------------------------------------------
// Laws
// ---------------------------------------------------------------------------
/// A pattern without `**` matches only paths with as many segments as it has: `*`
/// and `?` do not reach over a slash.
pub proof fn law_wildcards_stay_in_their_segment(pattern: Seq<Seq<char>>, path: Seq<Seq<char>>)
    requires
        forall|i: int| 0 <= i < pattern.len() ==> #[trigger] pattern[i] != "**"@,
        matches_segments(pattern, path),
    ensures
        pattern.len() == path.len(),
        forall|i: int| 0 <= i < pattern.len() ==> matches_text(#[trigger] pattern[i], path[i]),
    decreases pattern.len(),
{
    if pattern.len() > 0 {
        assert(pattern[0] != "**"@);
        let p = pattern.skip(1);
        let t = path.skip(1);
        assert forall|i: int| 0 <= i < p.len() implies #[trigger] p[i] != "**"@ by {
            assert(pattern[i + 1] != "**"@);
        }
        law_wildcards_stay_in_their_segment(p, t);
        assert forall|i: int| 0 <= i < pattern.len() implies matches_text(
            #[trigger] pattern[i],
            path[i],
        ) by {
            if i > 0 {
                assert(matches_text(p[i - 1], t[i - 1]));
            }
        }
    }
}

/// A text without wildcards matches itself and nothing else.
pub proof fn law_plain_text_matches_itself_only(pattern: Seq<char>, text: Seq<char>)
    requires
        !pattern.contains('*'),
        !pattern.contains('?'),
    ensures
        matches_text(pattern, text) == (pattern == text),
    decreases pattern.len(),
{
    if pattern.len() > 0 {
        assert(pattern[0] != '*' && pattern[0] != '?');
        let p = pattern.skip(1);
        if p.contains('*') {
            let i = choose|i: int| 0 <= i < p.len() && p[i] == '*';
            assert(pattern[i + 1] == '*');
        }
        if p.contains('?') {
            let i = choose|i: int| 0 <= i < p.len() && p[i] == '?';
            assert(pattern[i + 1] == '?');
        }
        if text.len() > 0 {
            law_plain_text_matches_itself_only(p, text.skip(1));
            if pattern[0] == text[0] && p == text.skip(1) {
                assert(pattern == text) by {
                    assert forall|i: int| 0 <= i < pattern.len() implies pattern[i] == text[i] by {
                        if i > 0 {
                            assert(p[i - 1] == text.skip(1)[i - 1]);
                        }
                    }
                    assert(p.len() == text.skip(1).len());
                }
            }
        }
    } else if text.len() == 0 {
        assert(pattern == text);
    }
}

/// `**` stands for any number of segments, none among them: what matches behind it
/// still matches when segments are put in front.
pub proof fn law_double_star_spans_segments(
    pattern: Seq<Seq<char>>,
    front: Seq<Seq<char>>,
    path: Seq<Seq<char>>,
)
    requires
        matches_segments(pattern, path),
    ensures
        matches_segments(seq!["**"@] + pattern, front + path),
    decreases front.len(),
{
    let whole = seq!["**"@] + pattern;
    assert(whole.skip(1) == pattern);
    if front.len() == 0 {
        assert(front + path == path);
    } else {
        law_double_star_spans_segments(pattern, front.skip(1), path);
        assert((front + path).skip(1) == front.skip(1) + path);
    }
}

} // verus!
