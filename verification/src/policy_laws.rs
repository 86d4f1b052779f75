//! Which lines of a workflow file are reported, and which are not.

use vstd::prelude::*;

use crate::model::{PolicySeverity, PolicyViolationType, ViolationView};
use crate::pattern::{in_class, or_empty, permission_entry, permissions_line, run_end, Class};
use crate::policy::{
    closes_block, entry_findings, given_findings, indentation, open_permissions,
    permission_findings, shorthand_findings,
};
use crate::scan_laws::{begins_with, holds, is_gap};
use crate::text::{contains_text, is_space, lines, occurs_at, trim};
use crate::workflow_laws::{lemma_run_end, lemma_run_end_is};

verus! {

// ---------------------------------------------------------------------------
// Lines
// ---------------------------------------------------------------------------
/// A letter, a digit, an underscore or a hyphen.
pub open spec fn is_name_char(c: char) -> bool {
    ||| 'a' <= c && c <= 'z'
    ||| 'A' <= c && c <= 'Z'
    ||| '0' <= c && c <= '9'
    ||| c == '_'
    ||| c == '-'
}

/// One or more letters, digits, underscores and hyphens.
pub open spec fn is_name(text: Seq<char>) -> bool {
    text.len() > 0 && forall|i: int| 0 <= i < text.len() ==> is_name_char(#[trigger] text[i])
}

/// Nothing, or a comment.
pub open spec fn is_comment(text: Seq<char>) -> bool {
    text.len() > 0 ==> text[0] == '#'
}

/// A `permissions` key: what stands in front of it, its value with the blanks around it, and
/// a comment.
pub open spec fn permissions_text(
    pad: Seq<char>,
    gap: Seq<char>,
    value: Seq<char>,
    trail: Seq<char>,
    comment: Seq<char>,
) -> Seq<char> {
    pad + "permissions:"@ + gap + value + trail + comment
}

/// The parts of a `permissions` key can be told apart.
pub open spec fn are_permissions_parts(
    pad: Seq<char>,
    gap: Seq<char>,
    value: Seq<char>,
    trail: Seq<char>,
    comment: Seq<char>,
) -> bool {
    &&& is_gap(pad) && is_gap(gap) && is_gap(trail) && is_comment(comment)
    &&& value.len() > 0 ==> !is_space(value[0]) && !is_space(value.last())
    &&& value.len() == 0 ==> trail.len() == 0
    &&& !value.contains('#')
}

/// An entry: what stands in front of it, its scope, the blanks behind the colon, its value
/// and the rest of the line.
pub open spec fn entry_text(
    lead: Seq<char>,
    scope: Seq<char>,
    gap: Seq<char>,
    value: Seq<char>,
    rest: Seq<char>,
) -> Seq<char> {
    lead + scope + seq![':'] + gap + value + rest
}

/// The parts of an entry can be told apart.
pub open spec fn are_entry_parts(
    lead: Seq<char>,
    scope: Seq<char>,
    gap: Seq<char>,
    value: Seq<char>,
    rest: Seq<char>,
) -> bool {
    &&& is_gap(lead) && is_gap(gap)
    &&& is_name(scope) && is_name(value)
    &&& rest.len() > 0 ==> !is_name_char(rest[0])
}

/// The line starts with more blanks than the column counts, or is empty, a comment or an item
/// of a list.
pub open spec fn is_inside(line: Seq<char>, column: nat) -> bool {
    ||| line.len() > column && forall|i: int| 0 <= i <= column ==> #[trigger] line[i] == ' '
    ||| is_gap(line)
    ||| exists|n: int|
        0 <= n < line.len() && is_gap(#[trigger] line.take(n)) && (line[n] == '#' || line[n]
            == '-')
}

/// The line is a key at or left of the column.
pub open spec fn is_key_at(line: Seq<char>, column: nat) -> bool {
    exists|pad: Seq<char>, name: Seq<char>, rest: Seq<char>|
        is_key_text(line, pad, name, rest) && pad.len() <= column
}

/// The line is a key behind blanks.
pub open spec fn is_key_text(
    line: Seq<char>,
    pad: Seq<char>,
    name: Seq<char>,
    rest: Seq<char>,
) -> bool {
    &&& #[trigger] (pad + name + rest) == line
    &&& forall|i: int| 0 <= i < pad.len() ==> #[trigger] pad[i] == ' '
    &&& is_name(name) && name[0] != '-' && !('0' <= name[0] && name[0] <= '9')
    &&& rest.len() > 0 && rest[0] == ':'
}

proof fn lemma_name_class(c: char)
    ensures
        in_class(Class::Name, c) == is_name_char(c),
{
}

proof fn lemma_permissions_read(
    pad: Seq<char>,
    gap: Seq<char>,
    value: Seq<char>,
    trail: Seq<char>,
    comment: Seq<char>,
)
    requires
        are_permissions_parts(pad, gap, value, trail, comment),
    ensures
        ({
            let found = permissions_line(permissions_text(pad, gap, value, trail, comment));
            &&& found is Some
            &&& or_empty(found->0[0]) == pad
            &&& trim(or_empty(found->0[1])) == value
        }),
{
    reveal_strlit("permissions:");
    let s = permissions_text(pad, gap, value, trail, comment);
    let a = pad.len() as int;
    let b = a + 12;
    let c = b + gap.len();
    let d = c + value.len();
    let e = d + trail.len();
    assert(s.len() == e + comment.len());
    assert forall|i: int| 0 <= i < a implies in_class(Class::Space, #[trigger] s[i]) by {
        assert(s[i] == pad[i]);
    }
    assert(s[a] == "permissions:"@[0]);
    lemma_run_end_is(s, 0, a, Class::Space);
    assert(s.subrange(a, a + 12) == "permissions:"@);
    assert forall|i: int| b <= i < c implies in_class(Class::Space, #[trigger] s[i]) by {
        assert(s[i] == gap[i - b]);
    }
    if value.len() > 0 {
        assert(s[c] == value[0]);
    } else if e < s.len() {
        assert(s[e] == comment[0]);
    }
    lemma_run_end_is(s, b, c, Class::Space);
    assert forall|i: int| c <= i < e implies in_class(Class::NotHash, #[trigger] s[i]) by {
        if i < d {
            assert(s[i] == value[i - c]);
            assert(value.contains(value[i - c]));
        } else {
            assert(s[i] == trail[i - d]);
            assert(is_space(trail[i - d]));
        }
    }
    if e < s.len() {
        assert(s[e] == comment[0]);
    }
    lemma_run_end_is(s, c, e, Class::NotHash);
    assert(s.take(a) == pad);
    let text = s.subrange(c, e);
    assert(text == value + trail);
    lemma_trim_end(value, trail);
    if value.len() > 0 {
        assert(text[0] == value[0]);
    } else {
        assert(text == Seq::<char>::empty());
    }
}

proof fn lemma_trim_end(value: Seq<char>, trail: Seq<char>)
    requires
        is_gap(trail),
        value.len() > 0 ==> !is_space(value.last()),
    ensures
        crate::text::trim_end(value + trail) == value,
    decreases trail.len(),
{
    let text = value + trail;
    if trail.len() == 0 {
        assert(text == value);
    } else {
        assert(text.last() == trail.last());
        assert(is_space(trail[trail.len() - 1]));
        assert(text.drop_last() == value + trail.drop_last());
        lemma_trim_end(value, trail.drop_last());
    }
}

proof fn lemma_entry_read(
    lead: Seq<char>,
    scope: Seq<char>,
    gap: Seq<char>,
    value: Seq<char>,
    rest: Seq<char>,
)
    requires
        are_entry_parts(lead, scope, gap, value, rest),
    ensures
        ({
            let found = permission_entry(entry_text(lead, scope, gap, value, rest));
            &&& found is Some
            &&& or_empty(found->0[0]) == scope
            &&& or_empty(found->0[1]) == value
        }),
{
    let s = entry_text(lead, scope, gap, value, rest);
    let a = lead.len() as int;
    let b = a + scope.len();
    let c = b + 1 + gap.len();
    let d = c + value.len();
    assert forall|i: int| 0 <= i < a implies in_class(Class::Space, #[trigger] s[i]) by {
        assert(s[i] == lead[i]);
    }
    assert(s[a] == scope[0]);
    assert(is_name_char(scope[0]));
    lemma_run_end_is(s, 0, a, Class::Space);
    assert forall|i: int| a <= i < b implies in_class(Class::Name, #[trigger] s[i]) by {
        assert(s[i] == scope[i - a]);
        assert(is_name_char(scope[i - a]));
    }
    assert(s[b] == ':');
    lemma_run_end_is(s, a, b, Class::Name);
    assert forall|i: int| b + 1 <= i < c implies in_class(Class::Space, #[trigger] s[i]) by {
        assert(s[i] == gap[i - b - 1]);
    }
    assert(s[c] == value[0]);
    assert(is_name_char(value[0]));
    lemma_run_end_is(s, b + 1, c, Class::Space);
    assert forall|i: int| c <= i < d implies in_class(Class::Name, #[trigger] s[i]) by {
        assert(s[i] == value[i - c]);
        assert(is_name_char(value[i - c]));
    }
    if d < s.len() {
        assert(s[d] == rest[0]);
    }
    lemma_run_end_is(s, c, d, Class::Name);
    assert(s.subrange(a, b) == scope);
    assert(s.subrange(c, d) == value);
}

proof fn lemma_indentation(line: Seq<char>, n: nat)
    requires
        n <= line.len(),
        forall|i: int| 0 <= i < n ==> #[trigger] line[i] == ' ',
    ensures
        indentation(line) >= n,
        n < line.len() && line[n as int] != ' ' ==> indentation(line) == n,
        n == line.len() ==> indentation(line) == n,
    decreases n,
{
    if n > 0 {
        assert(line[0] == ' ');
        let rest = line.skip(1);
        assert forall|i: int| 0 <= i < n - 1 implies #[trigger] rest[i] == ' ' by {
            assert(rest[i] == line[i + 1]);
        }
        lemma_indentation(rest, (n - 1) as nat);
        if n < line.len() {
            assert(rest[n - 1] == line[n as int]);
        }
    }
}

proof fn lemma_inside(line: Seq<char>, column: nat)
    requires
        is_inside(line, column),
    ensures
        !closes_block(line, column),
{
    if line.len() > column && forall|i: int| 0 <= i <= column ==> #[trigger] line[i] == ' ' {
        lemma_indentation(line, (column + 1) as nat);
    } else if is_gap(line) {
        assert(crate::text::is_blank(line));
    } else {
        let n = choose|n: int|
            0 <= n < line.len() && is_gap(#[trigger] line.take(n)) && (line[n] == '#' || line[n]
                == '-');
        assert forall|i: int| 0 <= i < n implies in_class(Class::Space, #[trigger] line[i]) by {
            assert(line.take(n)[i] == line[i]);
        }
        lemma_run_end_is(line, 0, n, Class::Space);
    }
}

proof fn lemma_key_closes(line: Seq<char>, column: nat)
    requires
        is_key_at(line, column),
    ensures
        closes_block(line, column),
{
    let (pad, name, rest) = choose|pad: Seq<char>, name: Seq<char>, rest: Seq<char>|
        is_key_text(line, pad, name, rest) && pad.len() <= column;
    let a = pad.len() as int;
    let b = a + name.len();
    assert(line == pad + name + rest);
    assert forall|i: int| 0 <= i < a implies #[trigger] line[i] == ' ' by {
        assert(line[i] == pad[i]);
    }
    assert(line[a] == name[0]);
    assert(is_name_char(name[0]));
    lemma_indentation(line, a as nat);
    assert(!is_space(line[a]));
    lemma_run_end_is(line, 0, a, Class::Space);
    assert forall|i: int| a + 1 <= i < b implies in_class(Class::Name, #[trigger] line[i]) by {
        assert(line[i] == name[i - a]);
        assert(is_name_char(name[i - a]));
    }
    assert(line[b] == rest[0]);
    lemma_run_end_is(line, a + 1, b, Class::Name);
    lemma_run_end_is(line, b, b, Class::Space);
}

proof fn lemma_no_permissions(line: Seq<char>)
    requires
        !holds(line, "permissions:"@),
    ensures
        permissions_line(line) is None,
{
    reveal_strlit("permissions:");
    let at = run_end(line, 0, Class::Space);
    if occurs_at(line, "permissions:"@, at) {
        assert(line.subrange(at, at + "permissions:"@.len()) == "permissions:"@);
    }
}

// ---------------------------------------------------------------------------
// Permissions
// ---------------------------------------------------------------------------
/// The finding for a line that gives too much.
pub open spec fn excess(
    path: Seq<char>,
    number: int,
    severity: PolicySeverity,
    description: Seq<char>,
    line: Seq<char>,
) -> ViolationView {
    ViolationView {
        file: path,
        line_number: number as nat,
        violation_type: PolicyViolationType::ExcessivePermissions,
        severity,
        description,
        context: line,
    }
}

/// Behind a `permissions` key without a value, at any indentation, every scope with `write` is
/// reported, up to the next key that is not indented further: `id-token` as low, every other
/// scope as medium.
pub proof fn law_write_entry_is_reported(
    path: Seq<char>,
    all: Seq<Seq<char>>,
    i: int,
    j: int,
    pad: Seq<char>,
    gap: Seq<char>,
    comment: Seq<char>,
    lead: Seq<char>,
    scope: Seq<char>,
    space: Seq<char>,
    rest: Seq<char>,
)
    requires
        0 <= i < j < all.len(),
        are_permissions_parts(pad, gap, Seq::empty(), Seq::empty(), comment),
        all[i] == permissions_text(pad, gap, Seq::empty(), Seq::empty(), comment),
        forall|m: int| i < m <= j ==> is_inside(#[trigger] all[m], pad.len()),
        forall|m: int| i < m < j ==> !holds(#[trigger] all[m], "permissions:"@),
        are_entry_parts(lead, scope, space, "write"@, rest),
        all[j] == entry_text(lead, scope, space, "write"@, rest),
    ensures
        permission_findings(path, all).contains(
            excess(
                path,
                j + 1,
                if scope == "id-token"@ {
                    PolicySeverity::Low
                } else {
                    PolicySeverity::Medium
                },
                "permission '"@ + scope + ": write' should be minimized or justified"@,
                all[j],
            ),
        ),
{
    lemma_permissions_read(pad, gap, Seq::empty(), Seq::empty(), comment);
    lemma_block_stays(all, i, j, pad.len());
    lemma_entry_read(lead, scope, space, "write"@, rest);
    lemma_inside(all[j], pad.len());
    let found = entry_findings(path, all[j], (j + 1) as nat, open_permissions(all.take(j)));
    assert(found.contains(found[0]));
    lemma_given(path, all, j, found[0]);
    lemma_all_permissions(path, all, found[0]);
}

proof fn lemma_block_stays(all: Seq<Seq<char>>, i: int, j: int, column: nat)
    requires
        0 <= i < j <= all.len(),
        permissions_line(all[i]) is Some,
        or_empty(permissions_line(all[i])->0[0]).len() == column,
        trim(or_empty(permissions_line(all[i])->0[1])).len() == 0,
        forall|m: int| i < m < j ==> is_inside(#[trigger] all[m], column),
        forall|m: int| i < m < j ==> !holds(#[trigger] all[m], "permissions:"@),
    ensures
        open_permissions(all.take(j)) == Some(column),
    decreases j,
{
    let now = all.take(j);
    assert(now.drop_last() == all.take(j - 1));
    assert(now.last() == all[j - 1]);
    if j - 1 > i {
        lemma_block_stays(all, i, j - 1, column);
        lemma_inside(all[j - 1], column);
        lemma_no_permissions(all[j - 1]);
    }
}

proof fn lemma_given(path: Seq<char>, all: Seq<Seq<char>>, j: int, found: ViolationView)
    requires
        0 <= j < all.len(),
        entry_findings(
            path,
            all[j],
            (j + 1) as nat,
            open_permissions(all.take(j)),
        ).contains(found) || shorthand_findings(path, all[j], (j + 1) as nat).contains(found),
    ensures
        given_findings(path, all).contains(found),
    decreases all.len(),
{
    let front = all.drop_last();
    let before = given_findings(path, front);
    let entries = entry_findings(path, all.last(), all.len(), open_permissions(front));
    let shorthand = shorthand_findings(path, all.last(), all.len());
    let now = given_findings(path, all);
    assert(now == before + entries + shorthand);
    if j == all.len() - 1 {
        assert(all.take(j) == front);
        if entries.contains(found) {
            let k = choose|k: int| 0 <= k < entries.len() && entries[k] == found;
            assert(now[before.len() + k] == found);
        } else {
            let k = choose|k: int| 0 <= k < shorthand.len() && shorthand[k] == found;
            assert(now[before.len() + entries.len() + k] == found);
        }
    } else {
        assert(front[j] == all[j]);
        assert(front.take(j) == all.take(j));
        lemma_given(path, front, j, found);
        let k = choose|k: int| 0 <= k < before.len() && before[k] == found;
        assert(now[k] == found);
    }
}

proof fn lemma_all_permissions(path: Seq<char>, all: Seq<Seq<char>>, found: ViolationView)
    requires
        given_findings(path, all).contains(found),
    ensures
        permission_findings(path, all).contains(found),
{
    let given = given_findings(path, all);
    let k = choose|k: int| 0 <= k < given.len() && given[k] == found;
    assert(permission_findings(path, all)[k] == found);
}

/// A `permissions` key with the value `write-all` is reported as high, with another value in
/// which `write` occurs as medium.
pub proof fn law_write_shorthand_is_reported(
    path: Seq<char>,
    all: Seq<Seq<char>>,
    i: int,
    pad: Seq<char>,
    gap: Seq<char>,
    value: Seq<char>,
    trail: Seq<char>,
    comment: Seq<char>,
)
    requires
        0 <= i < all.len(),
        are_permissions_parts(pad, gap, value, trail, comment),
        all[i] == permissions_text(pad, gap, value, trail, comment),
    ensures
        value == "write-all"@ ==> permission_findings(path, all).contains(
            excess(
                path,
                i + 1,
                PolicySeverity::High,
                "permissions should not use write-all"@,
                all[i],
            ),
        ),
        value != "write-all"@ && holds(value, "write"@) ==> permission_findings(
            path,
            all,
        ).contains(
            excess(
                path,
                i + 1,
                PolicySeverity::Medium,
                "permission shorthand '"@ + value + "' should be reviewed"@,
                all[i],
            ),
        ),
{
    lemma_permissions_read(pad, gap, value, trail, comment);
    lemma_holds(value, "write"@);
    let found = shorthand_findings(path, all[i], (i + 1) as nat);
    if value == "write-all"@ || holds(value, "write"@) {
        assert(found.contains(found[0]));
        lemma_given(path, all, i, found[0]);
        lemma_all_permissions(path, all, found[0]);
    }
}

pub(crate) proof fn lemma_holds(text: Seq<char>, part: Seq<char>)
    ensures
        holds(text, part) == contains_text(text, part),
{
    if holds(text, part) {
        let at = choose|at: int|
            0 <= at && at + part.len() <= text.len() && #[trigger] text.subrange(
                at,
                at + part.len(),
            ) == part;
        assert(occurs_at(text, part, at));
    }
    if contains_text(text, part) {
        let at = choose|at: int| #[trigger] occurs_at(text, part, at);
        assert(text.subrange(at, at + part.len()) == part);
    }
}

/// What is reported for permissions stands on its line: `write` occurs in it, a `permissions`
/// key stands on it or in front of it, and the scope of an entry and its severity are those of
/// the line.
pub proof fn law_permissions_are_reported_for_a_reason(path: Seq<char>, all: Seq<Seq<char>>)
    ensures
        forall|k: int|
            0 <= k < given_findings(path, all).len() ==> is_excess_of(
                path,
                all,
                #[trigger] given_findings(path, all)[k],
            ),
    decreases all.len(),
{
    reveal_strlit("write");
    reveal_strlit("write-all");
    if all.len() > 0 {
        let front = all.drop_last();
        law_permissions_are_reported_for_a_reason(path, front);
        let before = given_findings(path, front);
        let entries = entry_findings(path, all.last(), all.len(), open_permissions(front));
        let shorthand = shorthand_findings(path, all.last(), all.len());
        let now = given_findings(path, all);
        let line = all.last();
        assert(all[all.len() - 1] == line);
        lemma_open_has_a_key(front);
        assert forall|k: int| 0 <= k < now.len() implies is_excess_of(
            path,
            all,
            #[trigger] now[k],
        ) by {
            if k < before.len() {
                assert(now[k] == before[k]);
                let found = before[k];
                assert(is_excess_of(path, front, found));
                assert(front[found.line_number - 1] == all[found.line_number - 1]);
                let m = choose|m: int|
                    0 <= m < found.line_number && holds(#[trigger] front[m], "permissions:"@);
                assert(holds(all[m], "permissions:"@));
            } else if k < before.len() + entries.len() {
                assert(now[k] == entries[k - before.len()]);
                let m = choose|m: int|
                    0 <= m < front.len() && holds(#[trigger] front[m], "permissions:"@);
                assert(holds(all[m], "permissions:"@));
                lemma_entry_holds(line);
            } else {
                assert(now[k] == shorthand[k - before.len() - entries.len()]);
                lemma_shorthand_holds(line);
                assert(holds(all[all.len() - 1], "permissions:"@));
            }
        }
    }
}

/// The finding is of a line in which `write` occurs, on or behind a `permissions` key.
pub open spec fn is_excess_of(
    path: Seq<char>,
    all: Seq<Seq<char>>,
    found: ViolationView,
) -> bool {
    &&& found.file == path
    &&& found.violation_type == PolicyViolationType::ExcessivePermissions
    &&& 1 <= found.line_number <= all.len()
    &&& found.context == all[found.line_number - 1]
    &&& holds(found.context, "write"@)
    &&& exists|m: int| 0 <= m < found.line_number && holds(#[trigger] all[m], "permissions:"@)
    &&& found.severity == PolicySeverity::High ==> holds(found.context, "write-all"@)
    &&& found.severity == PolicySeverity::Low ==> holds(found.context, "id-token:"@)
}

proof fn lemma_open_has_a_key(all: Seq<Seq<char>>)
    ensures
        open_permissions(all) is Some ==> exists|m: int|
            0 <= m < all.len() && holds(#[trigger] all[m], "permissions:"@),
    decreases all.len(),
{
    if all.len() > 0 {
        let front = all.drop_last();
        lemma_open_has_a_key(front);
        if permissions_line(all.last()) is Some {
            if !holds(all.last(), "permissions:"@) {
                lemma_no_permissions(all.last());
            }
            assert(holds(all[all.len() - 1], "permissions:"@));
        } else if open_permissions(all) is Some {
            let m = choose|m: int|
                0 <= m < front.len() && holds(#[trigger] front[m], "permissions:"@);
            assert(all[m] == front[m]);
        }
    }
}

proof fn lemma_entry_holds(line: Seq<char>)
    ensures
        permission_entry(line) matches Some(parts) ==> {
            &&& or_empty(parts[1]) == "write"@ ==> holds(line, "write"@)
            &&& or_empty(parts[0]) == "id-token"@ ==> holds(line, "id-token:"@)
        },
{
    reveal_strlit("write");
    reveal_strlit("id-token");
    reveal_strlit("id-token:");
    let a = run_end(line, 0, Class::Space);
    let b = run_end(line, a, Class::Name);
    let c = run_end(line, b + 1, Class::Space);
    let d = run_end(line, c, Class::Name);
    lemma_run_end(line, 0, Class::Space);
    lemma_run_end(line, a, Class::Name);
    if permission_entry(line) is Some {
        lemma_run_end(line, b + 1, Class::Space);
        lemma_run_end(line, c, Class::Name);
        let parts = permission_entry(line)->0;
        if or_empty(parts[1]) == "write"@ {
            assert(line.subrange(c, d).len() == 5);
            assert(line.subrange(c, c + "write"@.len()) == "write"@);
        }
        if or_empty(parts[0]) == "id-token"@ {
            assert(line.subrange(a, b).len() == 8);
            assert(line.subrange(a, a + 9) == line.subrange(a, b).push(line[b]));
            assert("id-token"@.push(':') == "id-token:"@);
            assert(line.subrange(a, a + "id-token:"@.len()) == "id-token:"@);
        }
    }
}

proof fn lemma_shorthand_holds(line: Seq<char>)
    ensures
        permissions_line(line) matches Some(parts) ==> {
            &&& holds(line, "permissions:"@)
            &&& contains_text(trim(or_empty(parts[1])), "write"@) ==> holds(line, "write"@)
            &&& trim(or_empty(parts[1])) == "write-all"@ ==> holds(line, "write-all"@) && holds(
                line,
                "write"@,
            )
        },
{
    reveal_strlit("permissions:");
    reveal_strlit("write");
    reveal_strlit("write-all");
    let a = run_end(line, 0, Class::Space);
    let b = run_end(line, a + 12, Class::Space);
    let c = run_end(line, b, Class::NotHash);
    if permissions_line(line) is Some {
        assert(line.subrange(a, a + "permissions:"@.len()) == "permissions:"@);
        lemma_run_end(line, a + 12, Class::Space);
        lemma_run_end(line, b, Class::NotHash);
        let text = line.subrange(b, c);
        let value = trim(text);
        lemma_trim_is_part(text);
        let n = choose|n: int|
            0 <= n && n + value.len() <= text.len() && #[trigger] text.subrange(
                n,
                n + value.len(),
            ) == value;
        assert(line.subrange(b + n, b + n + value.len()) == value);
        if contains_text(value, "write"@) {
            let at = choose|at: int| #[trigger] occurs_at(value, "write"@, at);
            assert(line.subrange(b + n + at, b + n + at + "write"@.len()) == "write"@);
        }
        if value == "write-all"@ {
            assert(line.subrange(b + n, b + n + "write-all"@.len()) == "write-all"@);
            assert(line.subrange(b + n, b + n + "write"@.len()) == "write"@) by {
                assert("write-all"@.subrange(0, 5) == "write"@);
                assert(value.subrange(0, 5) == line.subrange(b + n, b + n + 5));
            }
        }
    }
}

pub(crate) proof fn lemma_trim_is_part(text: Seq<char>)
    ensures
        holds(text, trim(text)),
{
    let front = crate::text::trim_start(text);
    lemma_trim_start_is_end(text);
    let value = trim(text);
    lemma_trim_end_is_front(front);
    let n = text.len() - front.len();
    assert(text.subrange(n, n + value.len()) == value);
}

proof fn lemma_trim_start_is_end(text: Seq<char>)
    ensures
        crate::text::trim_start(text).len() <= text.len(),
        text.skip(text.len() - crate::text::trim_start(text).len()) == crate::text::trim_start(
            text,
        ),
    decreases text.len(),
{
    if text.len() > 0 && is_space(text[0]) {
        let rest = text.drop_first();
        lemma_trim_start_is_end(rest);
        let kept = crate::text::trim_start(text);
        assert(text.skip(text.len() - kept.len()) == rest.skip(rest.len() - kept.len()));
    } else {
        assert(text.skip(0) == text);
    }
}

proof fn lemma_trim_end_is_front(text: Seq<char>)
    ensures
        crate::text::trim_end(text).len() <= text.len(),
        text.take(crate::text::trim_end(text).len() as int) == crate::text::trim_end(text),
    decreases text.len(),
{
    if text.len() > 0 && is_space(text.last()) {
        let rest = text.drop_last();
        lemma_trim_end_is_front(rest);
        let kept = crate::text::trim_end(text);
        assert(text.take(kept.len() as int) == rest.take(kept.len() as int));
    } else {
        assert(text.take(text.len() as int) == text);
    }
}

/// Behind a key that ends the block, a line without a `permissions` key is not reported until
/// the next such key.
pub proof fn law_entries_behind_the_block_are_not_reported(
    path: Seq<char>,
    all: Seq<Seq<char>>,
    i: int,
    c: int,
    j: int,
    pad: Seq<char>,
    gap: Seq<char>,
    comment: Seq<char>,
)
    requires
        0 <= i < c < j < all.len(),
        are_permissions_parts(pad, gap, Seq::empty(), Seq::empty(), comment),
        all[i] == permissions_text(pad, gap, Seq::empty(), Seq::empty(), comment),
        is_key_at(all[c], pad.len()),
        forall|m: int| i < m <= j ==> !holds(#[trigger] all[m], "permissions:"@),
    ensures
        forall|k: int|
            0 <= k < given_findings(path, all).len() ==> (#[trigger] given_findings(
                path,
                all,
            )[k]).line_number != j + 1,
{
    lemma_permissions_read(pad, gap, Seq::empty(), Seq::empty(), comment);
    lemma_block_at_most(all, i, c, pad.len());
    assert(all.take(c + 1).drop_last() == all.take(c));
    assert(all.take(c + 1).last() == all[c]);
    lemma_key_closes(all[c], pad.len());
    lemma_no_permissions(all[c]);
    lemma_no_block(all, c + 1, j);
    lemma_no_permissions(all[j]);
    lemma_line_findings(path, all, j);
}

proof fn lemma_block_at_most(all: Seq<Seq<char>>, i: int, j: int, column: nat)
    requires
        0 <= i < j <= all.len(),
        permissions_line(all[i]) is Some,
        or_empty(permissions_line(all[i])->0[0]).len() == column,
        trim(or_empty(permissions_line(all[i])->0[1])).len() == 0,
        forall|m: int| i < m < j ==> !holds(#[trigger] all[m], "permissions:"@),
    ensures
        open_permissions(all.take(j)) == Some(column) || open_permissions(all.take(j)) is None,
    decreases j,
{
    let now = all.take(j);
    assert(now.drop_last() == all.take(j - 1));
    assert(now.last() == all[j - 1]);
    if j - 1 > i {
        lemma_block_at_most(all, i, j - 1, column);
        lemma_no_permissions(all[j - 1]);
    }
}

proof fn lemma_no_block(all: Seq<Seq<char>>, c: int, j: int)
    requires
        0 <= c <= j <= all.len(),
        open_permissions(all.take(c)) is None,
        forall|m: int| c <= m < j ==> !holds(#[trigger] all[m], "permissions:"@),
    ensures
        open_permissions(all.take(j)) is None,
    decreases j,
{
    if j > c {
        lemma_no_block(all, c, j - 1);
        assert(all.take(j).drop_last() == all.take(j - 1));
        assert(all.take(j).last() == all[j - 1]);
        lemma_no_permissions(all[j - 1]);
    }
}

proof fn lemma_line_findings(path: Seq<char>, all: Seq<Seq<char>>, j: int)
    requires
        0 <= j < all.len(),
        open_permissions(all.take(j)) is None,
        permissions_line(all[j]) is None,
    ensures
        forall|k: int|
            0 <= k < given_findings(path, all).len() ==> (#[trigger] given_findings(
                path,
                all,
            )[k]).line_number != j + 1,
    decreases all.len(),
{
    let front = all.drop_last();
    let before = given_findings(path, front);
    let now = given_findings(path, all);
    law_permissions_are_reported_for_a_reason(path, front);
    if j == all.len() - 1 {
        assert(all.take(j) == front);
        assert(now == before);
        assert forall|k: int| 0 <= k < now.len() implies (#[trigger] now[k]).line_number != j + 1 by {
            assert(is_excess_of(path, front, before[k]));
        }
    } else {
        assert(front[j] == all[j]);
        assert(front.take(j) == all.take(j));
        lemma_line_findings(path, front, j);
        assert forall|k: int| 0 <= k < now.len() implies (#[trigger] now[k]).line_number != j + 1 by {
            if k < before.len() {
                assert(now[k] == before[k]);
            }
        }
    }
}

/// A workflow is reported for want of permissions, once and at its first line, exactly when
/// none of its lines starts with `permissions:`. All other findings are those of its lines.
pub proof fn law_missing_permissions_are_reported(path: Seq<char>, all: Seq<Seq<char>>)
    ensures
        ({
            let missing = ViolationView {
                file: path,
                line_number: 1,
                violation_type: PolicyViolationType::MissingPermissions,
                severity: PolicySeverity::Medium,
                description: "workflow should declare explicit top-level permissions"@,
                context: Seq::empty(),
            };
            if exists|i: int| 0 <= i < all.len() && begins_with(#[trigger] all[i], "permissions:"@) {
                permission_findings(path, all) == given_findings(path, all)
            } else {
                permission_findings(path, all) == given_findings(path, all).push(missing)
            }
        }),
{
    assert forall|i: int| 0 <= i < all.len() implies crate::policy::declares_permissions(
        #[trigger] all[i],
    ) == begins_with(all[i], "permissions:"@) by {
        lemma_declares(all[i]);
    }
    if exists|i: int| 0 <= i < all.len() && begins_with(#[trigger] all[i], "permissions:"@) {
        let i = choose|i: int|
            0 <= i < all.len() && begins_with(#[trigger] all[i], "permissions:"@);
        assert(crate::policy::declares_permissions(all[i]));
    }
}

proof fn lemma_declares(line: Seq<char>)
    ensures
        crate::policy::declares_permissions(line) == begins_with(line, "permissions:"@),
{
    reveal_strlit("permissions:");
    if begins_with(line, "permissions:"@) {
        assert(line.take(12)[0] == "permissions:"@[0]);
        assert(line[0] == 'p');
        lemma_run_end_is(line, 0, 0, Class::Space);
        assert(line.subrange(0, 12) == line.take(12));
        assert(occurs_at(line, "permissions:"@, 0));
        assert(line.take(0).len() == 0);
    }
    if crate::policy::declares_permissions(line) {
        lemma_run_end(line, 0, Class::Space);
        assert(run_end(line, 0, Class::Space) == 0);
        assert(line.take(12) == line.subrange(0, 12));
    }
}

} // verus!
