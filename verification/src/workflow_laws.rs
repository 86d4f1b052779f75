//! What pinning and updating promise of workflow files as a whole.

use vstd::prelude::*;

use crate::model::{comment_parts, is_full_sha, is_version_hint, ActionView, PinChangeView};
use crate::pattern::{in_class, is_at, or_empty, run_end, uses_line, Class};
use crate::text::{
    concat, contains_text, find, is_hex, is_space, lemma_concat_first, lemma_find_from,
    lemma_find_is, lemma_trim_end, lemma_trim_same, lemma_trim_start, line_body, line_end, lines,
    occurs_at, raw_lines, split, starts_with, trim, trim_end, trim_start,
};
use crate::workflow::{
    action_on_line, action_target, changed_content, changed_line, changed_lines, is_foreign,
    replacement, TargetView,
};

verus! {

// ---------------------------------------------------------------------------
// Runs of characters
// ---------------------------------------------------------------------------
pub(crate) proof fn lemma_run_end(s: Seq<char>, from: int, class: Class)
    requires
        0 <= from <= s.len(),
    ensures
        from <= run_end(s, from, class) <= s.len(),
        forall|i: int| from <= i < run_end(s, from, class) ==> in_class(class, #[trigger] s[i]),
        run_end(s, from, class) < s.len() ==> !in_class(class, s[run_end(s, from, class)]),
    decreases s.len() - from,
{
    if from < s.len() && in_class(class, s[from]) {
        lemma_run_end(s, from + 1, class);
    }
}

pub(crate) proof fn lemma_run_end_is(s: Seq<char>, from: int, to: int, class: Class)
    requires
        0 <= from <= to <= s.len(),
        forall|i: int| from <= i < to ==> in_class(class, #[trigger] s[i]),
        to < s.len() ==> !in_class(class, s[to]),
    ensures
        run_end(s, from, class) == to,
    decreases to - from,
{
    if from < to {
        assert(in_class(class, s[from]));
        lemma_run_end_is(s, from + 1, to, class);
    }
}

// ---------------------------------------------------------------------------
// Characters that a text does not hold
// ---------------------------------------------------------------------------
proof fn lemma_trim_keeps_out(s: Seq<char>, c: char)
    requires
        !s.contains(c),
    ensures
        !trim(s).contains(c),
{
    lemma_trim_start(s);
    let t = trim_start(s);
    lemma_trim_end(t);
    if trim(s).contains(c) {
        let i = choose|i: int| 0 <= i < trim(s).len() && trim(s)[i] == c;
        assert(t[i] == c);
        assert(s[s.len() - t.len() + i] == c);
    }
}

proof fn lemma_parts_keep_out(s: Seq<char>, c: char)
    requires
        !s.contains(c),
    ensures
        !comment_parts(s).0.contains(c),
        !comment_parts(s).1.contains(c),
{
    lemma_find_from(s, '|', 0);
    let at = find(s, '|');
    if at < s.len() {
        if s.take(at).contains(c) {
            let i = choose|i: int| 0 <= i < s.take(at).len() && s.take(at)[i] == c;
            assert(s[i] == c);
        }
        let rest = s.skip(at + 1);
        if rest.contains(c) {
            let i = choose|i: int| 0 <= i < rest.len() && rest[i] == c;
            assert(s[at + 1 + i] == c);
        }
    }
}

pub(crate) proof fn lemma_sum_keeps_out(a: Seq<char>, b: Seq<char>, c: char)
    requires
        !a.contains(c),
        !b.contains(c),
    ensures
        !(a + b).contains(c),
{
    let s = a + b;
    if s.contains(c) {
        let i = choose|i: int| 0 <= i < s.len() && s[i] == c;
        if i < a.len() {
            assert(a[i] == c);
        } else {
            assert(b[i - a.len()] == c);
        }
    }
}

/// The comment of a pinned line stays on one line.
pub(crate) proof fn lemma_comment_is_one_line(action: ActionView, label: Seq<char>)
    requires
        !label.contains('\n'),
        action.inline_comment matches Some(comment) ==> !comment.contains('\n'),
    ensures
        !action.pinned_comment(label).contains('\n'),
{
    match action.inline_comment {
        Some(comment) => {
            lemma_trim_keeps_out(comment, '\n');
            let whole = trim(comment);
            lemma_parts_keep_out(whole, '\n');
            lemma_trim_keeps_out(comment_parts(whole).1, '\n');
            match action.extra_comment() {
                Some(extra) => {
                    reveal_strlit(" | ");
                    assert(!" | "@.contains('\n'));
                    lemma_sum_keeps_out(label, " | "@, '\n');
                    lemma_sum_keeps_out(label + " | "@, extra, '\n');
                },
                None => {},
            }
        },
        None => {},
    }
}

// ---------------------------------------------------------------------------
// References
// ---------------------------------------------------------------------------
proof fn lemma_prefix_without_at(slug: Seq<char>, rest: Seq<char>, raw: Seq<char>, p: Seq<char>)
    requires
        starts_with(slug + seq!['@'] + rest, p),
        !p.contains('@'),
        slug.len() <= raw.len(),
        slug == raw.take(slug.len() as int),
    ensures
        starts_with(raw, p),
{
    let s = slug + seq!['@'] + rest;
    if p.len() > slug.len() {
        assert(s[slug.len() as int] == '@');
        assert(s.subrange(0, p.len() as int)[slug.len() as int] == '@');
        assert(p.contains('@'));
    }
    assert(raw.subrange(0, p.len() as int) == s.subrange(0, p.len() as int)) by {
        assert forall|i: int| 0 <= i < p.len() implies raw[i] == s[i] by {
            assert(raw.take(slug.len() as int)[i] == raw[i]);
        }
    }
}

/// The parts of a reference that names an action.
pub(crate) proof fn lemma_target_parts(raw: Seq<char>)
    requires
        action_target(raw) is Some,
    ensures
        ({
            let target = action_target(raw)->0;
            &&& 0 < target.action_slug.len() <= raw.len()
            &&& target.action_slug == raw.take(target.action_slug.len() as int)
            &&& split(target.action_slug, '/').len() >= 2
            &&& target.owner == split(target.action_slug, '/')[0]
            &&& target.repository == split(target.action_slug, '/')[1]
            &&& forall|i: int|
                0 <= i < target.version.len() ==> raw.contains(#[trigger] target.version[i])
        }),
{
    let target = action_target(raw)->0;
    lemma_find_last(raw, '@', raw.len() as int);
    let slug = target.action_slug;
    let at = crate::text::find_last_before(raw, '@', raw.len() as int);
    assert(slug == raw.take(at));
    if slug.len() == 0 {
        assert(split(slug, '/') == seq![slug]);
    }
    assert forall|i: int| 0 <= i < target.version.len() implies raw.contains(
        #[trigger] target.version[i],
    ) by {
        assert(target.version == raw.skip(at + 1));
        assert(raw[at + 1 + i] == target.version[i]);
    }
}

pub(crate) proof fn lemma_find_last(s: Seq<char>, c: char, to: int)
    requires
        0 <= to <= s.len(),
    ensures
        -1 <= crate::text::find_last_before(s, c, to) < to || to == 0 && crate::text::find_last_before(
            s,
            c,
            to,
        ) == -1,
        forall|i: int|
            crate::text::find_last_before(s, c, to) < i < to ==> #[trigger] s[i] != c,
        crate::text::find_last_before(s, c, to) >= 0 ==> s[crate::text::find_last_before(
            s,
            c,
            to,
        )] == c,
    decreases to,
{
    if 0 < to && s[to - 1] != c {
        lemma_find_last(s, c, to - 1);
    }
}

pub(crate) proof fn lemma_find_last_is(s: Seq<char>, c: char, to: int, at: int)
    requires
        0 <= at < to <= s.len(),
        s[at] == c,
        forall|i: int| at < i < to ==> #[trigger] s[i] != c,
    ensures
        crate::text::find_last_before(s, c, to) == at,
    decreases to,
{
    if to - 1 > at {
        assert(s[to - 1] != c);
        lemma_find_last_is(s, c, to - 1, at);
    }
}

/// A reference to the same action at a commit names the same action.
proof fn lemma_target_at_sha(raw: Seq<char>, sha: Seq<char>)
    requires
        action_target(raw) is Some,
        is_full_sha(sha),
    ensures
        ({
            let target = action_target(raw)->0;
            action_target(target.action_slug + seq!['@'] + sha) == Some(
                TargetView { version: sha, ..target },
            )
        }),
{
    let target = action_target(raw)->0;
    let slug = target.action_slug;
    let pinned = slug + seq!['@'] + sha;
    lemma_target_parts(raw);
    assert(pinned[slug.len() as int] == '@');
    assert forall|i: int| slug.len() < i < pinned.len() implies #[trigger] pinned[i] != '@' by {
        assert(pinned[i] == sha[i - slug.len() - 1]);
        assert(is_hex(sha[i - slug.len() - 1]));
    }
    lemma_find_last_is(pinned, '@', pinned.len() as int, slug.len() as int);
    assert(pinned.take(slug.len() as int) == slug);
    assert(pinned.skip(slug.len() as int + 1) == sha);
    reveal_strlit("${{");
    reveal_strlit("./");
    reveal_strlit("../");
    reveal_strlit("/");
    reveal_strlit("docker://");
    if starts_with(pinned, "./"@) {
        lemma_prefix_without_at(slug, sha, raw, "./"@);
    }
    if starts_with(pinned, "../"@) {
        lemma_prefix_without_at(slug, sha, raw, "../"@);
    }
    if starts_with(pinned, "/"@) {
        lemma_prefix_without_at(slug, sha, raw, "/"@);
    }
    if starts_with(pinned, "docker://"@) {
        lemma_prefix_without_at(slug, sha, raw, "docker://"@);
    }
    if contains_text(pinned, "${{"@) {
        let at = choose|at: int| #[trigger] occurs_at(pinned, "${{"@, at);
        let part = pinned.subrange(at, at + 3);
        assert(part[0] == pinned[at] && part[1] == pinned[at + 1] && part[2] == pinned[at + 2]);
        assert("${{"@[0] == '$' && "${{"@[1] == '{' && "${{"@[2] == '{');
        lemma_not_in_tail(slug, sha, at, '$');
        lemma_not_in_tail(slug, sha, at + 1, '{');
        lemma_not_in_tail(slug, sha, at + 2, '{');
        assert(raw.subrange(at, at + 3) == part) by {
            assert forall|i: int| at <= i < at + 3 implies raw[i] == pinned[i] by {
                assert(raw.take(slug.len() as int)[i] == raw[i]);
            }
        }
        assert(occurs_at(raw, "${{"@, at));
    }
}

/// Behind the slug of a pinned reference stand only an `@` and hexadecimal digits.
proof fn lemma_not_in_tail(slug: Seq<char>, sha: Seq<char>, i: int, c: char)
    requires
        is_full_sha(sha),
        0 <= i < (slug + seq!['@'] + sha).len(),
        (slug + seq!['@'] + sha)[i] == c,
        c != '@',
        !is_hex(c),
    ensures
        i < slug.len(),
{
    let pinned = slug + seq!['@'] + sha;
    if i > slug.len() {
        assert(pinned[i] == sha[i - slug.len() - 1]);
        assert(is_hex(sha[i - slug.len() - 1]));
    }
}

// ---------------------------------------------------------------------------
// Lines
// ---------------------------------------------------------------------------
/// What the parts of a line that uses an action are made of.
pub(crate) proof fn lemma_uses_line(line: Seq<char>)
    requires
        uses_line(line) is Some,
    ensures
        ({
            let parts = uses_line(line)->0;
            let indent = or_empty(parts[0]);
            let list = or_empty(parts[1]);
            let reference = or_empty(parts[2]);
            &&& forall|i: int| 0 <= i < indent.len() ==> is_space(#[trigger] indent[i])
            &&& list.len() > 0 ==> list[0] == '-'
            &&& forall|i: int| 1 <= i < list.len() ==> is_space(#[trigger] list[i])
            &&& reference.len() > 0
            &&& forall|i: int|
                0 <= i < reference.len() ==> in_class(Class::Reference, #[trigger] reference[i])
            &&& parts[3] matches Some(comment) ==> !comment.contains('\n')
        }),
{
    let parts = uses_line(line)->0;
    let indent = run_end(line, 0, Class::Space);
    lemma_run_end(line, 0, Class::Space);
    let marked = is_at(line, indent, '-');
    let key = if marked {
        run_end(line, indent + 1, Class::Space)
    } else {
        indent
    };
    if marked {
        lemma_run_end(line, indent + 1, Class::Space);
        let list = line.subrange(indent, key);
        assert(list[0] == line[indent]);
        assert forall|i: int| 1 <= i < list.len() implies is_space(#[trigger] list[i]) by {
            assert(in_class(Class::Space, line[indent + i]));
        }
    }
    reveal_strlit("uses:");
    assert forall|i: int| 0 <= i < indent implies is_space(#[trigger] line.take(indent)[i]) by {
        assert(in_class(Class::Space, line[i]));
    }
    let from = run_end(line, key + 5, Class::Space);
    lemma_run_end(line, key + 5, Class::Space);
    let to = run_end(line, from, Class::Reference);
    lemma_run_end(line, from, Class::Reference);
    let reference = line.subrange(from, to);
    assert forall|i: int| 0 <= i < reference.len() implies in_class(
        Class::Reference,
        #[trigger] reference[i],
    ) by {
        assert(in_class(Class::Reference, line[from + i]));
    }
    lemma_run_end(line, to, Class::Space);
    let rest = run_end(line, to, Class::Space);
    if rest != line.len() {
        lemma_run_end(line, rest + 1, Class::Space);
        let comment = run_end(line, rest + 1, Class::Space);
        let text = line.skip(comment);
        if text.contains('\n') {
            let i = choose|i: int| 0 <= i < text.len() && text[i] == '\n';
            assert(line[comment + i] == '\n');
        }
    }
}

/// The parts of a pinned line, one behind the other.
spec fn pinned_text(
    indent: Seq<char>,
    list: Seq<char>,
    reference: Seq<char>,
    comment: Seq<char>,
) -> Seq<char> {
    indent + list + "uses: "@ + reference + "  # "@ + comment
}

/// A pinned line is read as it was written.
proof fn lemma_pinned_text_is_read(
    indent: Seq<char>,
    list: Seq<char>,
    reference: Seq<char>,
    comment: Seq<char>,
)
    requires
        forall|i: int| 0 <= i < indent.len() ==> is_space(#[trigger] indent[i]),
        list.len() > 0 ==> list[0] == '-',
        forall|i: int| 1 <= i < list.len() ==> is_space(#[trigger] list[i]),
        reference.len() > 0,
        forall|i: int|
            0 <= i < reference.len() ==> in_class(Class::Reference, #[trigger] reference[i]),
        !comment.contains('\n'),
    ensures
        uses_line(pinned_text(indent, list, reference, comment)) == Some(
            seq![
                Some(indent),
                if list.len() > 0 {
                    Some(list)
                } else {
                    None
                },
                Some(reference),
                Some(trim_start(comment)),
            ],
        ),
{
    reveal_strlit("uses: ");
    reveal_strlit("uses:");
    reveal_strlit("  # ");
    let s = pinned_text(indent, list, reference, comment);
    let k0 = indent.len() as int;
    let k1 = k0 + list.len();
    let k2 = k1 + 6;
    let k3 = k2 + reference.len();
    let k4 = k3 + 4;
    assert(s.len() == k4 + comment.len());
    assert(s.subrange(k1, k2) == "uses: "@);
    assert(s.subrange(k1, k1 + 5) == "uses:"@);
    assert(s[k1] == 'u' && s[k1 + 5] == ' ');
    assert(s.subrange(k3, k4) == "  # "@);
    assert(s[k3] == ' ' && s[k3 + 1] == ' ' && s[k3 + 2] == '#' && s[k3 + 3] == ' ');
    assert forall|i: int| 0 <= i < k0 implies in_class(Class::Space, #[trigger] s[i]) by {
        assert(s[i] == indent[i]);
    }
    if list.len() > 0 {
        assert(s[k0] == list[0]);
    }
    lemma_run_end_is(s, 0, k0, Class::Space);
    if list.len() > 0 {
        assert forall|i: int| k0 + 1 <= i < k1 implies in_class(Class::Space, #[trigger] s[i]) by {
            assert(s[i] == list[i - k0]);
        }
        lemma_run_end_is(s, k0 + 1, k1, Class::Space);
    }
    assert(is_at(s, k0, '-') == (list.len() > 0));
    assert(s[k2] == reference[0]);
    lemma_run_end_is(s, k1 + 5, k2, Class::Space);
    assert forall|i: int| k2 <= i < k3 implies in_class(Class::Reference, #[trigger] s[i]) by {
        assert(s[i] == reference[i - k2]);
    }
    lemma_run_end_is(s, k2, k3, Class::Reference);
    lemma_run_end_is(s, k3, k3 + 2, Class::Space);
    lemma_trim_start(comment);
    let lead = comment.len() - trim_start(comment).len();
    assert forall|i: int| k3 + 3 <= i < k4 + lead implies in_class(
        Class::Space,
        #[trigger] s[i],
    ) by {
        if i >= k4 {
            assert(s[i] == comment[i - k4]);
        }
    }
    if k4 + lead < s.len() {
        assert(s[k4 + lead] == comment[lead]);
        assert(trim_start(comment)[0] == comment[lead]);
    }
    lemma_run_end_is(s, k3 + 3, k4 + lead, Class::Space);
    assert(s.skip(k4 + lead) == trim_start(comment));
    assert forall|i: int| k4 + lead <= i < s.len() implies #[trigger] s[i] != '\n' by {
        assert(s[i] == comment[i - k4]);
    }
    assert(s.take(k0) == indent);
    assert(s.subrange(k0, k1) == list);
    assert(s.subrange(k2, k3) == reference);
}

/// A pinned line names the same action at the same place: read again, it has the
/// indentation, the list marker, the action and the repository that it had, its
/// version is the commit, and its comment is what was written there. This is what
/// keeps a rewritten workflow working, and what makes pinning it again change
/// nothing.
pub proof fn law_pinned_line_is_read_back(
    file: Seq<char>,
    line: Seq<char>,
    number: nat,
    sha: Seq<char>,
    label: Seq<char>,
)
    requires
        action_on_line(file, line, number) is Some,
        is_full_sha(sha),
        !label.contains('\n'),
    ensures
        ({
            let before = action_on_line(file, line, number)->0;
            let pinned = before.rendered_line(sha, label);
            let after = action_on_line(file, pinned, number);
            &&& after == Some(
                ActionView {
                    version: sha,
                    inline_comment: Some(trim_start(before.pinned_comment(label))),
                    original_line: pinned,
                    ..before
                },
            )
            &&& after->0.is_pinned()
        }),
{
    let before = action_on_line(file, line, number)->0;
    let parts = uses_line(line)->0;
    let raw = or_empty(parts[2]);
    lemma_uses_line(line);
    lemma_target_parts(raw);
    lemma_target_at_sha(raw, sha);
    lemma_comment_is_one_line(before, label);
    let comment = before.pinned_comment(label);
    let reference = before.action_slug + seq!['@'] + sha;
    reveal_strlit("@");
    assert("@"@ == seq!['@']);
    let pinned = before.rendered_line(sha, label);
    assert(pinned == pinned_text(before.indentation, before.list_prefix, reference, comment));
    assert forall|i: int| 0 <= i < reference.len() implies in_class(
        Class::Reference,
        #[trigger] reference[i],
    ) by {
        let n = before.action_slug.len();
        if i < n {
            assert(reference[i] == raw.take(n as int)[i]);
            assert(in_class(Class::Reference, raw[i]));
        } else if i > n {
            assert(reference[i] == sha[i - n - 1]);
            assert(is_hex(sha[i - n - 1]));
        }
    }
    lemma_pinned_text_is_read(before.indentation, before.list_prefix, reference, comment);
    if before.list_prefix.len() == 0 {
        assert(before.list_prefix == Seq::<char>::empty());
    }
}

/// The version that an action was pinned under is kept: read again, the line is at
/// that version, where the label looks like a version and holds no `|`.
pub proof fn law_pinned_line_keeps_its_version(
    file: Seq<char>,
    line: Seq<char>,
    number: nat,
    sha: Seq<char>,
    label: Seq<char>,
)
    requires
        action_on_line(file, line, number) is Some,
        is_full_sha(sha),
        is_version_hint(label),
        trim(label) == label,
        !label.contains('|'),
    ensures
        ({
            let before = action_on_line(file, line, number)->0;
            let after = action_on_line(file, before.rendered_line(sha, label), number);
            after is Some && after->0.logical_version() == label
        }),
{
    let before = action_on_line(file, line, number)->0;
    if label.contains('\n') {
        let i = choose|i: int| 0 <= i < label.len() && label[i] == '\n';
        assert(is_space(label[i]));
    }
    law_pinned_line_is_read_back(file, line, number, sha, label);
    let after = action_on_line(file, before.rendered_line(sha, label), number)->0;
    let comment = before.pinned_comment(label);
    assert(!is_space(label[0]) && !is_space(label.last()));
    assert(comment[0] == label[0]);
    assert(trim_start(comment) == comment);
    match before.extra_comment() {
        Some(extra) => {
            if extra != label {
                reveal_strlit(" | ");
                lemma_extra_comment(before);
                assert(comment.last() == extra.last());
                lemma_trim_same(comment);
                assert(trim(comment) == comment);
                let at = label.len() as int + 1;
                assert(comment[at] == '|');
                assert forall|i: int| 0 <= i < at implies comment[i] != '|' by {
                    if i < label.len() {
                        assert(comment[i] == label[i]);
                    }
                }
                lemma_find_is(comment, '|', 0, at);
                let part = comment.take(at);
                assert(part == label.push(' '));
                assert(part.drop_last() == label);
                assert(trim_start(part) == part);
                assert(trim_end(part) == trim_end(label));
                assert(trim(part) == label);
            } else {
                lemma_whole_comment(label);
            }
        },
        None => {
            lemma_whole_comment(label);
        },
    }
}

/// A comment that is nothing but a version is read as that version.
proof fn lemma_whole_comment(label: Seq<char>)
    requires
        !label.contains('|'),
        trim(label) == label,
    ensures
        comment_parts(trim(label)).0 == label,
{
    lemma_find_is(label, '|', 0, label.len() as int);
}

/// What a comment says besides a version has no white space around it.
pub(crate) proof fn lemma_extra_comment(action: ActionView)
    requires
        action.extra_comment() is Some,
    ensures
        action.extra_comment()->0.len() > 0,
        !is_space(action.extra_comment()->0.last()),
{
    let comment = action.inline_comment->0;
    let whole = trim(comment);
    lemma_trim_end(trim_start(comment));
    lemma_trim_end(trim_start(comment_parts(whole).1));
}

// ---------------------------------------------------------------------------
// Files
// ---------------------------------------------------------------------------
/// A line, and its line ending unless it is the last.
spec fn is_piece(raw: Seq<char>, last: bool) -> bool {
    &&& raw.len() > 0
    &&& forall|i: int| 0 <= i < raw.len() - 1 ==> #[trigger] raw[i] != '\n'
    &&& !last ==> raw.last() == '\n'
}

spec fn are_pieces(raw: Seq<Seq<char>>) -> bool {
    forall|i: int| 0 <= i < raw.len() ==> is_piece(#[trigger] raw[i], i == raw.len() - 1)
}

proof fn lemma_raw_lines_are_pieces(s: Seq<char>)
    ensures
        are_pieces(raw_lines(s)),
        concat(raw_lines(s)) == s,
    decreases s.len(),
{
    lemma_find_from(s, '\n', 0);
    let at = find(s, '\n');
    let raw = raw_lines(s);
    if at < s.len() {
        let rest = raw_lines(s.skip(at + 1));
        lemma_raw_lines_are_pieces(s.skip(at + 1));
        assert(raw.drop_first() == rest);
        lemma_concat_first(raw);
        assert(s.take(at + 1) + s.skip(at + 1) == s);
        assert forall|i: int| 0 <= i < raw.len() implies is_piece(
            #[trigger] raw[i],
            i == raw.len() - 1,
        ) by {
            if i > 0 {
                assert(raw[i] == rest[i - 1]);
                assert(is_piece(rest[i - 1], i - 1 == rest.len() - 1));
            }
        }
    } else if s.len() > 0 {
        lemma_concat_first(raw);
        assert(raw.drop_first() == Seq::<Seq<char>>::empty());
        assert(concat(raw) == s);
    } else {
        assert(concat(raw) == s);
    }
}

proof fn lemma_pieces_are_raw_lines(raw: Seq<Seq<char>>)
    requires
        are_pieces(raw),
    ensures
        raw_lines(concat(raw)) == raw,
    decreases raw.len(),
{
    if raw.len() == 0 {
        lemma_find_from(Seq::<char>::empty(), '\n', 0);
    } else {
        let first = raw[0];
        let rest = raw.drop_first();
        lemma_concat_first(raw);
        let s = concat(raw);
        assert(is_piece(raw[0], 0 == raw.len() - 1));
        assert forall|i: int| 0 <= i < rest.len() implies is_piece(
            #[trigger] rest[i],
            i == rest.len() - 1,
        ) by {
            assert(is_piece(raw[i + 1], i + 1 == raw.len() - 1));
        }
        lemma_pieces_are_raw_lines(rest);
        let n = first.len() as int;
        if first.last() == '\n' {
            assert forall|i: int| 0 <= i < n - 1 implies s[i] != '\n' by {
                assert(s[i] == first[i]);
            }
            assert(s[n - 1] == first[n - 1]);
            lemma_find_is(s, '\n', 0, n - 1);
            assert(s.take(n) == first);
            assert(s.skip(n) == concat(rest));
            assert(raw_lines(s) == seq![first] + raw_lines(concat(rest)));
            assert(raw == seq![first] + rest);
        } else {
            assert(rest == Seq::<Seq<char>>::empty());
            assert(s == first);
            assert forall|i: int| 0 <= i < n implies s[i] != '\n' by {
                if i == n - 1 {
                    assert(first.last() == first[n - 1]);
                }
            }
            lemma_find_is(s, '\n', 0, n);
            assert(raw_lines(s) == seq![s]);
            assert(raw == seq![first]);
        }
    }
}

/// A text that can stand on a line of its own.
pub open spec fn fits_on_a_line(text: Seq<char>) -> bool {
    text.len() > 0 && !text.contains('\n') && text.last() != '\r'
}

proof fn lemma_line_parts(raw: Seq<char>, last: bool)
    requires
        is_piece(raw, last),
    ensures
        line_body(raw) + line_end(raw) == raw,
        !line_body(raw).contains('\n'),
        raw.last() == '\n' ==> line_end(raw) == seq!['\n'] || line_end(raw) == seq!['\r', '\n'],
        raw.last() != '\n' ==> line_end(raw) == Seq::<char>::empty(),
{
    let body = line_body(raw);
    assert(body == raw.take(body.len() as int));
    assert(raw.take(body.len() as int) + raw.skip(body.len() as int) == raw);
    if body.contains('\n') {
        let i = choose|i: int| 0 <= i < body.len() && body[i] == '\n';
        assert(raw[i] == '\n');
    }
    if raw.last() == '\n' {
        let cut = raw.drop_last();
        if cut.len() > 0 && cut.last() == '\r' {
            assert(line_end(raw) == seq!['\r', '\n']);
        } else {
            assert(line_end(raw) == seq!['\n']);
        }
    } else {
        assert(line_end(raw) == Seq::<char>::empty());
    }
}

proof fn lemma_new_line(raw: Seq<char>, last: bool, text: Seq<char>)
    requires
        is_piece(raw, last),
        fits_on_a_line(text),
    ensures
        is_piece(text + line_end(raw), last),
        line_body(text + line_end(raw)) == text,
        line_end(text + line_end(raw)) == line_end(raw),
{
    lemma_line_parts(raw, last);
    let end = line_end(raw);
    let now = text + end;
    assert forall|i: int| 0 <= i < now.len() - 1 implies #[trigger] now[i] != '\n' by {
        if i < text.len() {
            assert(now[i] == text[i]);
        }
    }
    if raw.last() == '\n' {
        if end == seq!['\n'] {
            assert(now.drop_last() == text);
        } else {
            assert(now.drop_last() == text.push('\r'));
            assert(now.drop_last().drop_last() == text);
        }
        assert(line_body(now) == text);
    } else {
        assert(now == text);
        if text.last() == '\n' {
            assert(text[text.len() - 1] == '\n');
        }
    }
    assert(now.skip(text.len() as int) == end);
}

/// No line of a text holds a line feed.
pub(crate) proof fn lemma_lines_hold_no_line_feed(s: Seq<char>)
    ensures
        forall|i: int| 0 <= i < lines(s).len() ==> !(#[trigger] lines(s)[i]).contains('\n'),
{
    lemma_raw_lines_are_pieces(s);
    assert forall|i: int| 0 <= i < lines(s).len() implies !(#[trigger] lines(s)[i]).contains(
        '\n',
    ) by {
        assert(is_piece(raw_lines(s)[i], i == raw_lines(s).len() - 1));
        lemma_line_parts(raw_lines(s)[i], i == raw_lines(s).len() - 1);
    }
}

/// Every change puts a text on its line that fits there.
pub open spec fn changes_fit(changes: Seq<PinChangeView>) -> bool {
    forall|i: int| 0 <= i < changes.len() ==> fits_on_a_line(#[trigger] changes[i].rewritten_line)
}

proof fn lemma_replacement_fits(changes: Seq<PinChangeView>, number: nat)
    requires
        changes_fit(changes),
    ensures
        replacement(changes, number) matches Some(text) ==> fits_on_a_line(text),
    decreases changes.len(),
{
    if changes.len() > 0 {
        assert(fits_on_a_line(changes[changes.len() - 1].rewritten_line));
        if changes.last().line_number != number {
            assert forall|i: int| 0 <= i < changes.drop_last().len() implies fits_on_a_line(
                #[trigger] changes.drop_last()[i].rewritten_line,
            ) by {
                assert(fits_on_a_line(changes[i].rewritten_line));
            }
            lemma_replacement_fits(changes.drop_last(), number);
        }
    }
}

/// Rewriting is line by line: after the changes the content has as many lines as
/// before, each line that a change names holds the text of its last change, and
/// every other line is as it was. The line endings are as they were, too.
pub proof fn law_only_named_lines_change(content: Seq<char>, changes: Seq<PinChangeView>)
    requires
        changes_fit(changes),
    ensures
        lines(changed_content(content, changes)) == Seq::new(
            lines(content).len(),
            |i: int| changed_line(changes, (i + 1) as nat, lines(content)[i]),
        ),
        raw_lines(changed_content(content, changes)).len() == raw_lines(content).len(),
        forall|i: int|
            0 <= i < raw_lines(content).len() ==> line_end(
                #[trigger] raw_lines(changed_content(content, changes))[i],
            ) == line_end(raw_lines(content)[i]),
{
    let raw = raw_lines(content);
    let now = changed_lines(raw, changes);
    lemma_raw_lines_are_pieces(content);
    assert forall|i: int| 0 <= i < now.len() implies {
        &&& is_piece(#[trigger] now[i], i == now.len() - 1)
        &&& line_body(now[i]) == changed_line(changes, (i + 1) as nat, line_body(raw[i]))
        &&& line_end(now[i]) == line_end(raw[i])
    } by {
        assert(is_piece(raw[i], i == raw.len() - 1));
        lemma_line_parts(raw[i], i == raw.len() - 1);
        lemma_replacement_fits(changes, (i + 1) as nat);
        match replacement(changes, (i + 1) as nat) {
            Some(text) => {
                lemma_new_line(raw[i], i == raw.len() - 1, text);
            },
            None => {
                assert(now[i] == raw[i]);
            },
        }
    }
    lemma_pieces_are_raw_lines(now);
    assert(raw_lines(changed_content(content, changes)) == now);
    assert forall|i: int| 0 <= i < lines(content).len() implies lines(
        changed_content(content, changes),
    )[i] == changed_line(changes, (i + 1) as nat, lines(content)[i]) by {
        assert(is_piece(now[i], i == now.len() - 1));
    }
    assert forall|i: int| 0 <= i < raw.len() implies line_end(
        #[trigger] raw_lines(changed_content(content, changes))[i],
    ) == line_end(raw[i]) by {
        assert(is_piece(now[i], i == now.len() - 1));
    }
}

/// Without changes the content stays as it is, to the last character.
pub proof fn law_no_changes_leave_the_content(content: Seq<char>)
    ensures
        changed_content(content, Seq::empty()) == content,
{
    let raw = raw_lines(content);
    lemma_raw_lines_are_pieces(content);
    let now = changed_lines(raw, Seq::empty());
    assert forall|i: int| 0 <= i < raw.len() implies now[i] == raw[i] by {
        assert(is_piece(raw[i], i == raw.len() - 1));
        lemma_line_parts(raw[i], i == raw.len() - 1);
    }
    assert(now == raw);
}

/// Local actions, container images and references that are computed when the workflow
/// runs are skipped.
pub proof fn law_foreign_references_are_skipped(file: Seq<char>, line: Seq<char>, number: nat)
    requires
        uses_line(line) matches Some(parts) && is_foreign(or_empty(parts[2])),
    ensures
        action_on_line(file, line, number) is None,
{
}

} // verus!
