//! What commits mean for a release: their kinds, the bump and the notes.

use vstd::prelude::*;

use crate::conventional::{
    all_classified, bullets, bump_for, bumped, can_bump, footer_is_read, has_breaking_footer,
    has_kind, notes_for, short_sha, BumpLevel, CommitKind, ConventionalView,
};
use crate::github::CommitView;
use crate::pattern::{footer_at, footer_ends_at, one_line_from, subject, Class};
use crate::text::{is_digit, is_letter, lines, trim};
use crate::version::VersionView;
use crate::workflow_laws::lemma_run_end_is;

verus! {

// ---------------------------------------------------------------------------
// Subjects and footers
// ---------------------------------------------------------------------------
/// The type of a subject: a letter, then letters, digits and hyphens.
pub open spec fn is_type(name: Seq<char>) -> bool {
    &&& name.len() > 0
    &&& is_letter(name[0])
    &&& forall|i: int|
        0 <= i < name.len() ==> is_letter(#[trigger] name[i]) || is_digit(name[i]) || name[i] == '-'
}

/// Nothing, or a text in parentheses that is not empty and holds none that closes.
pub open spec fn is_scope(scope: Seq<char>) -> bool {
    scope.len() == 0 || (scope.len() > 2 && scope[0] == '(' && scope.last() == ')' && forall|i: int|
        0 < i < scope.len() - 1 ==> #[trigger] scope[i] != ')')
}

/// A subject is read as its type and its marker: `type`, `type(scope)` and both with `!`
/// are told apart, whatever the scope and the description are.
pub proof fn law_subject_is_read(
    name: Seq<char>,
    scope: Seq<char>,
    marked: bool,
    description: Seq<char>,
)
    requires
        is_type(name),
        is_scope(scope),
        description.len() > 0,
        !description.contains('\n'),
    ensures
        subject(
            name + scope + (if marked {
                seq!['!', ':', ' ']
            } else {
                seq![':', ' ']
            }) + description,
        ) == Some((name, marked)),
{
    let mark = if marked {
        seq!['!', ':', ' ']
    } else {
        seq![':', ' ']
    };
    let s = name + scope + mark + description;
    let open = name.len() as int;
    let behind = open + scope.len();
    assert(s[0] == name[0]);
    assert forall|i: int| 1 <= i < open implies crate::pattern::in_class(
        Class::Type,
        #[trigger] s[i],
    ) by {
        assert(s[i] == name[i]);
    }
    assert(s[behind] == mark[0]);
    if scope.len() == 0 {
        assert(s[open] == mark[0]);
    } else {
        assert(s[open] == scope[0]);
        assert forall|i: int| open + 1 <= i < behind - 1 implies crate::pattern::in_class(
            Class::NotParenthesis,
            #[trigger] s[i],
        ) by {
            assert(s[i] == scope[i - open]);
        }
        assert(s[behind - 1] == scope.last());
        lemma_run_end_is(s, open + 1, behind - 1, Class::NotParenthesis);
    }
    lemma_run_end_is(s, 1, open, Class::Type);
    let colon = behind + mark.len() - 2;
    assert(s[colon] == ':');
    assert(s[colon + 1] == ' ');
    assert forall|i: int| colon + 1 <= i < s.len() implies #[trigger] s[i] != '\n' by {
        if i > colon + 1 {
            assert(s[i] == description[i - colon - 2]);
        }
    }
    assert(one_line_from(s, colon + 1));
    assert(s.take(open) == name);
}

/// A line of the message begins with the words that announce a breaking change: the
/// message ends behind them, or a colon or a blank follows.
pub open spec fn has_footer_line(message: Seq<char>) -> bool {
    exists|at: int|
        {
            &&& 0 <= at
            &&& at + 15 <= message.len()
            &&& at == 0 || message[at - 1] == '\n'
            &&& (#[trigger] message.subrange(at, at + 15)) == "BREAKING CHANGE"@
                || message.subrange(at, at + 15) == "BREAKING-CHANGE"@
            &&& at + 15 == message.len() || message[at + 15] == ':' || message[at + 15] == ' '
        }
}

/// A line of the message begins with the words that announce a breaking change.
pub open spec fn may_have_footer_line(message: Seq<char>) -> bool {
    exists|at: int|
        {
            &&& 0 <= at
            &&& at + 15 <= message.len()
            &&& at == 0 || message[at - 1] == '\n'
            &&& (#[trigger] message.subrange(at, at + 15)) == "BREAKING CHANGE"@
                || message.subrange(at, at + 15) == "BREAKING-CHANGE"@
        }
}

proof fn lemma_footers(message: Seq<char>)
    requires
        footer_is_read(message),
    ensures
        has_footer_line(message) ==> has_breaking_footer(message),
        has_breaking_footer(message) ==> may_have_footer_line(message),
{
    reveal_strlit("BREAKING CHANGE");
    reveal_strlit("BREAKING-CHANGE");
    if has_footer_line(message) {
        let at = choose|at: int|
            {
                &&& 0 <= at
                &&& at + 15 <= message.len()
                &&& at == 0 || message[at - 1] == '\n'
                &&& (#[trigger] message.subrange(at, at + 15)) == "BREAKING CHANGE"@
                    || message.subrange(at, at + 15) == "BREAKING-CHANGE"@
                &&& at + 15 == message.len() || message[at + 15] == ':' || message[at + 15] == ' '
            };
        assert(footer_at(message, at));
        assert(footer_ends_at(message, at));
    }
    if has_breaking_footer(message) {
        let at = choose|at: int| crate::pattern::footer_may_end_at(message, at);
        assert(footer_at(message, at));
        assert(message.subrange(at, at + 15).len() == 15);
    }
}

// ---------------------------------------------------------------------------
// Kinds
// ---------------------------------------------------------------------------
/// The commit announces a breaking change: its subject is marked, or a line of its message
/// begins with the words for it. The type does not matter.
pub open spec fn announces_break(commit: CommitView) -> bool {
    (subject(title_of(commit)) matches Some(parts) && parts.1) || has_breaking_footer(
        commit.message,
    )
}

/// The first line of the message, without the blanks around it.
pub open spec fn title_of(commit: CommitView) -> Seq<char> {
    if lines(commit.message).len() > 0 {
        trim(lines(commit.message)[0])
    } else {
        Seq::empty()
    }
}

/// The commit has a conventional subject of the type.
pub open spec fn has_type(commit: CommitView, name: Seq<char>) -> bool {
    subject(title_of(commit)) matches Some(parts) && parts.0 == name
}

/// What was found of a commit: a breaking change wherever one is announced, whatever the
/// type is, else what its type says.
pub open spec fn is_class_of(found: ConventionalView, commit: CommitView) -> bool {
    &&& found.sha == commit.sha
    &&& found.subject == title_of(commit)
    &&& (found.kind == CommitKind::Breaking) == announces_break(commit)
    &&& (found.kind == CommitKind::Feature) == (!announces_break(commit) && has_type(
        commit,
        "feat"@,
    ))
    &&& (found.kind == CommitKind::Fix) == (!announces_break(commit) && has_type(commit, "fix"@))
}

/// The commit is among those that were classified.
pub open spec fn is_told(all: Seq<ConventionalView>, commit: CommitView) -> bool {
    exists|k: int| 0 <= k < all.len() && is_class_of(#[trigger] all[k], commit)
}

/// What was found comes from a commit that is no merge.
pub open spec fn has_source(commits: Seq<CommitView>, found: ConventionalView) -> bool {
    exists|i: int|
        0 <= i < commits.len() && !commits[i].is_merge && is_class_of(
            found,
            #[trigger] commits[i],
        )
}

/// Every commit that is no merge is classified, and no other is.
pub proof fn law_commits_are_classified(commits: Seq<CommitView>)
    ensures
        forall|i: int|
            0 <= i < commits.len() && !commits[i].is_merge ==> is_told(
                all_classified(commits),
                #[trigger] commits[i],
            ),
        forall|k: int|
            0 <= k < all_classified(commits).len() ==> has_source(
                commits,
                #[trigger] all_classified(commits)[k],
            ),
        all_classified(commits).len() == commits.filter(
            |commit: CommitView| !commit.is_merge,
        ).len(),
    decreases commits.len(),
{
    reveal(Seq::filter);
    let all = all_classified(commits);
    if commits.len() > 0 {
        let front = commits.drop_last();
        let before = all_classified(front);
        law_commits_are_classified(front);
        if !commits.last().is_merge {
            let found = crate::conventional::classified(commits.last());
            assert(all == before.push(found));
            lemma_class_of(commits.last());
            lemma_one_more(front, commits.last(), before, found);
            assert(front.push(commits.last()) == commits);
        } else {
            assert(all == before);
            assert forall|i: int| 0 <= i < commits.len() && !commits[i].is_merge implies is_told(
                all,
                #[trigger] commits[i],
            ) by {
                assert(front[i] == commits[i]);
            }
            assert forall|k: int| 0 <= k < all.len() implies has_source(
                commits,
                #[trigger] all[k],
            ) by {
                lemma_source_stays(front, commits.last(), all[k]);
                assert(front.push(commits.last()) == commits);
            }
        }
    }
}

proof fn lemma_class_of(commit: CommitView)
    ensures
        is_class_of(crate::conventional::classified(commit), commit),
{
    reveal_strlit("feat");
    reveal_strlit("fix");
    assert("feat"@.len() != "fix"@.len());
}

proof fn lemma_source_stays(front: Seq<CommitView>, last: CommitView, found: ConventionalView)
    requires
        has_source(front, found),
    ensures
        has_source(front.push(last), found),
{
    let i = choose|i: int|
        0 <= i < front.len() && !front[i].is_merge && is_class_of(found, #[trigger] front[i]);
    assert(front.push(last)[i] == front[i]);
}

proof fn lemma_one_more(
    front: Seq<CommitView>,
    last: CommitView,
    before: Seq<ConventionalView>,
    found: ConventionalView,
)
    requires
        is_class_of(found, last),
        !last.is_merge,
        forall|i: int|
            0 <= i < front.len() && !front[i].is_merge ==> is_told(before, #[trigger] front[i]),
        forall|k: int| 0 <= k < before.len() ==> has_source(front, #[trigger] before[k]),
    ensures
        forall|i: int|
            0 <= i < front.push(last).len() && !front.push(last)[i].is_merge ==> is_told(
                before.push(found),
                #[trigger] front.push(last)[i],
            ),
        forall|k: int|
            0 <= k < before.push(found).len() ==> has_source(
                front.push(last),
                #[trigger] before.push(found)[k],
            ),
{
    let commits = front.push(last);
    let all = before.push(found);
    assert forall|i: int| 0 <= i < commits.len() && !commits[i].is_merge implies is_told(
        all,
        #[trigger] commits[i],
    ) by {
        if i < front.len() {
            assert(front[i] == commits[i]);
            let k = choose|k: int|
                0 <= k < before.len() && is_class_of(#[trigger] before[k], front[i]);
            assert(all[k] == before[k]);
        } else {
            assert(all[before.len() as int] == found);
        }
    }
    assert forall|k: int| 0 <= k < all.len() implies has_source(commits, #[trigger] all[k]) by {
        if k < before.len() {
            lemma_source_stays(front, last, before[k]);
        } else {
            assert(commits[front.len() as int] == last);
        }
    }
}

/// Some commit that is no merge announces a breaking change.
pub open spec fn any_breaks(commits: Seq<CommitView>) -> bool {
    exists|i: int|
        0 <= i < commits.len() && !commits[i].is_merge && announces_break(#[trigger] commits[i])
}

/// Some commit that is no merge announces no breaking change and is of the type.
pub open spec fn any_of_type(commits: Seq<CommitView>, name: Seq<char>) -> bool {
    exists|i: int|
        0 <= i < commits.len() && !commits[i].is_merge && !announces_break(commits[i]) && has_type(
            #[trigger] commits[i],
            name,
        )
}

/// The bump that the commits ask for: the major number for a breaking change, else the
/// minor one for a feature, else the patch for a fix, and else nothing.
pub proof fn law_bump_follows_the_commits(commits: Seq<CommitView>)
    ensures
        (bump_for(all_classified(commits)) == Some(BumpLevel::Major)) == any_breaks(commits),
        (bump_for(all_classified(commits)) == Some(BumpLevel::Minor)) == (!any_breaks(commits)
            && any_of_type(commits, "feat"@)),
        (bump_for(all_classified(commits)) == Some(BumpLevel::Patch)) == (!any_breaks(commits)
            && !any_of_type(commits, "feat"@) && any_of_type(commits, "fix"@)),
        (bump_for(all_classified(commits)) is None) == (!any_breaks(commits) && !any_of_type(
            commits,
            "feat"@,
        ) && !any_of_type(commits, "fix"@)),
{
    law_commits_are_classified(commits);
    let all = all_classified(commits);
    lemma_kind_comes_from(commits, CommitKind::Breaking);
    lemma_kind_comes_from(commits, CommitKind::Feature);
    lemma_kind_comes_from(commits, CommitKind::Fix);
}

proof fn lemma_kind_comes_from(commits: Seq<CommitView>, kind: CommitKind)
    ensures
        kind == CommitKind::Breaking ==> has_kind(all_classified(commits), kind) == any_breaks(
            commits,
        ),
        kind == CommitKind::Feature ==> has_kind(all_classified(commits), kind) == any_of_type(
            commits,
            "feat"@,
        ),
        kind == CommitKind::Fix ==> has_kind(all_classified(commits), kind) == any_of_type(
            commits,
            "fix"@,
        ),
{
    law_commits_are_classified(commits);
    let all = all_classified(commits);
    if has_kind(all, kind) {
        let k = choose|k: int| 0 <= k < all.len() && (#[trigger] all[k]).kind == kind;
        assert(has_source(commits, all[k]));
        let i = choose|i: int|
            0 <= i < commits.len() && !commits[i].is_merge && is_class_of(
                all[k],
                #[trigger] commits[i],
            );
        assert(is_class_of(all[k], commits[i]));
    }
    if kind == CommitKind::Breaking && any_breaks(commits) {
        let i = choose|i: int|
            0 <= i < commits.len() && !commits[i].is_merge && announces_break(
                #[trigger] commits[i],
            );
        lemma_told_kind(all, commits[i]);
    }
    if kind == CommitKind::Feature && any_of_type(commits, "feat"@) {
        let i = choose|i: int|
            0 <= i < commits.len() && !commits[i].is_merge && !announces_break(commits[i])
                && has_type(#[trigger] commits[i], "feat"@);
        lemma_told_kind(all, commits[i]);
    }
    if kind == CommitKind::Fix && any_of_type(commits, "fix"@) {
        let i = choose|i: int|
            0 <= i < commits.len() && !commits[i].is_merge && !announces_break(commits[i])
                && has_type(#[trigger] commits[i], "fix"@);
        lemma_told_kind(all, commits[i]);
    }
}

proof fn lemma_told_kind(all: Seq<ConventionalView>, commit: CommitView)
    requires
        is_told(all, commit),
    ensures
        announces_break(commit) ==> has_kind(all, CommitKind::Breaking),
        !announces_break(commit) && has_type(commit, "feat"@) ==> has_kind(
            all,
            CommitKind::Feature,
        ),
        !announces_break(commit) && has_type(commit, "fix"@) ==> has_kind(all, CommitKind::Fix),
{
    let k = choose|k: int| 0 <= k < all.len() && is_class_of(#[trigger] all[k], commit);
    assert(is_class_of(all[k], commit));
}

/// A footer asks for a new major version, whatever the type of the subject is; without a
/// footer and without a marker nothing does.
pub proof fn law_footer_asks_for_a_major_version(commits: Seq<CommitView>, i: int)
    requires
        0 <= i < commits.len(),
        !commits[i].is_merge,
        footer_is_read(commits[i].message),
    ensures
        has_footer_line(commits[i].message) ==> announces_break(commits[i]) && bump_for(
            all_classified(commits),
        ) == Some(BumpLevel::Major),
        !may_have_footer_line(commits[i].message) && !(subject(title_of(commits[i])) matches Some(
            parts,
        ) && parts.1) ==> !announces_break(commits[i]),
{
    lemma_footers(commits[i].message);
    law_bump_follows_the_commits(commits);
}

// ---------------------------------------------------------------------------
// The next version
// ---------------------------------------------------------------------------
/// The next version has one number more at its level, the same ones in front and zeros
/// behind.
pub proof fn law_next_version(current: VersionView, level: BumpLevel)
    requires
        can_bump(current, level),
    ensures
        level == BumpLevel::Major ==> bumped(current, level).major == current.major + 1 && bumped(
            current,
            level,
        ).minor == 0 && bumped(current, level).patch == 0,
        level == BumpLevel::Minor ==> bumped(current, level).major == current.major && bumped(
            current,
            level,
        ).minor == current.minor + 1 && bumped(current, level).patch == 0,
        level == BumpLevel::Patch ==> bumped(current, level).major == current.major && bumped(
            current,
            level,
        ).minor == current.minor && bumped(current, level).patch == current.patch + 1,
        bumped(current, level).pre == Seq::<char>::empty(),
        bumped(current, level).build == Seq::<char>::empty(),
{
}

/// A version cannot go up only where the number is the greatest there is.
pub proof fn law_versions_can_go_up(current: VersionView)
    ensures
        can_bump(current, BumpLevel::Major) == (current.major != u64::MAX),
        can_bump(current, BumpLevel::Minor) == (current.minor != u64::MAX),
        can_bump(current, BumpLevel::Patch) == (current.patch != u64::MAX),
{
}

// ---------------------------------------------------------------------------
// Notes
// ---------------------------------------------------------------------------
/// The heading of a kind.
pub open spec fn heading_of(kind: CommitKind) -> Seq<char> {
    match kind {
        CommitKind::Breaking => "\n### Breaking Changes\n\n"@,
        CommitKind::Feature => "\n### Features\n\n"@,
        CommitKind::Fix => "\n### Bug Fixes\n\n"@,
        CommitKind::Other => "\n### Other Changes\n\n"@,
    }
}

/// The line of a commit: its subject and the first seven characters of its SHA.
pub open spec fn line_of(commit: ConventionalView) -> Seq<char> {
    "- "@ + commit.subject + " ("@ + (if commit.sha.len() > 7 {
        commit.sha.take(7)
    } else {
        commit.sha
    }) + ")\n"@
}

/// The lines of the commits of a kind, in their order.
pub open spec fn lines_of_kind(commits: Seq<ConventionalView>, kind: CommitKind) -> Seq<char>
    decreases commits.len(),
{
    if commits.len() == 0 {
        Seq::empty()
    } else if commits.last().kind == kind {
        lines_of_kind(commits.drop_last(), kind) + line_of(commits.last())
    } else {
        lines_of_kind(commits.drop_last(), kind)
    }
}

/// The heading of a kind with its lines, where there are any.
pub open spec fn part_of(commits: Seq<ConventionalView>, kind: CommitKind) -> Seq<char> {
    if exists|i: int| 0 <= i < commits.len() && (#[trigger] commits[i]).kind == kind {
        heading_of(kind) + lines_of_kind(commits, kind)
    } else {
        Seq::empty()
    }
}

/// The notes name the tag, then the commits below the headings of their kinds, the breaking
/// changes first, then features, fixes and the rest. A heading without commits is left out,
/// and a truncated list is owned up to.
pub proof fn law_notes_are_in_order(
    tag: Seq<char>,
    commits: Seq<ConventionalView>,
    truncated: bool,
)
    ensures
        notes_for(tag, commits, truncated) == "## "@ + tag + "\n"@ + part_of(
            commits,
            CommitKind::Breaking,
        ) + part_of(commits, CommitKind::Feature) + part_of(commits, CommitKind::Fix) + part_of(
            commits,
            CommitKind::Other,
        ) + (if truncated {
            "\n_The commit list was truncated; these notes may be incomplete._\n"@
        } else {
            Seq::empty()
        }),
{
    lemma_titles();
    lemma_section("Breaking Changes"@, commits, CommitKind::Breaking);
    lemma_section("Features"@, commits, CommitKind::Feature);
    lemma_section("Bug Fixes"@, commits, CommitKind::Fix);
    lemma_section("Other Changes"@, commits, CommitKind::Other);
}

proof fn lemma_section(title: Seq<char>, commits: Seq<ConventionalView>, kind: CommitKind)
    requires
        "\n### "@ + title + "\n\n"@ == heading_of(kind),
    ensures
        crate::conventional::section(title, commits, kind) == part_of(commits, kind),
{
    lemma_part(commits, kind);
}

/// The notes name every commit, with its subject and the start of its SHA.
pub proof fn law_notes_name_every_commit(
    tag: Seq<char>,
    commits: Seq<ConventionalView>,
    truncated: bool,
    i: int,
)
    requires
        0 <= i < commits.len(),
    ensures
        holds_line(notes_for(tag, commits, truncated), line_of(commits[i])),
{
    law_notes_are_in_order(tag, commits, truncated);
    let front = "## "@ + tag + "\n"@;
    let a = part_of(commits, CommitKind::Breaking);
    let b = part_of(commits, CommitKind::Feature);
    let c = part_of(commits, CommitKind::Fix);
    let d = part_of(commits, CommitKind::Other);
    let end = if truncated {
        "\n_The commit list was truncated; these notes may be incomplete._\n"@
    } else {
        Seq::empty()
    };
    let line = line_of(commits[i]);
    lemma_line_is_in_its_part(commits, i);
    lemma_held_among(front, a, b, c, d, end, line);
}

proof fn lemma_line_is_in_its_part(commits: Seq<ConventionalView>, i: int)
    requires
        0 <= i < commits.len(),
    ensures
        holds_line(part_of(commits, commits[i].kind), line_of(commits[i])),
{
    let kind = commits[i].kind;
    let lines = lines_of_kind(commits, kind);
    lemma_line_is_named(commits, i);
    lemma_held_in(heading_of(kind), lines, Seq::empty(), line_of(commits[i]));
    assert(heading_of(kind) + lines + Seq::<char>::empty() == part_of(commits, kind));
}

proof fn lemma_held_among(
    front: Seq<char>,
    a: Seq<char>,
    b: Seq<char>,
    c: Seq<char>,
    d: Seq<char>,
    end: Seq<char>,
    line: Seq<char>,
)
    requires
        holds_line(a, line) || holds_line(b, line) || holds_line(c, line) || holds_line(d, line),
    ensures
        holds_line(front + a + b + c + d + end, line),
{
    let notes = front + a + b + c + d + end;
    if holds_line(a, line) {
        lemma_held_in(front, a, b + c + d + end, line);
        assert(front + a + (b + c + d + end) == notes);
    } else if holds_line(b, line) {
        lemma_held_in(front + a, b, c + d + end, line);
        assert(front + a + b + (c + d + end) == notes);
    } else if holds_line(c, line) {
        lemma_held_in(front + a + b, c, d + end, line);
        assert(front + a + b + c + (d + end) == notes);
    } else {
        lemma_held_in(front + a + b + c, d, end, line);
    }
}

/// The text holds the line.
pub open spec fn holds_line(text: Seq<char>, line: Seq<char>) -> bool {
    exists|head: Seq<char>, tail: Seq<char>| text == #[trigger] around(head, line, tail)
}

proof fn lemma_held_in(head: Seq<char>, text: Seq<char>, tail: Seq<char>, line: Seq<char>)
    requires
        holds_line(text, line),
    ensures
        holds_line(head + text + tail, line),
{
    let (a, b) = choose|a: Seq<char>, b: Seq<char>| text == #[trigger] around(a, line, b);
    assert(head + text + tail == around(head + a, line, b + tail));
}

/// A piece with what stands around it.
pub open spec fn around(head: Seq<char>, piece: Seq<char>, tail: Seq<char>) -> Seq<char> {
    head + piece + tail
}

proof fn lemma_titles()
    ensures
        "\n### "@ + "Breaking Changes"@ + "\n\n"@ == "\n### Breaking Changes\n\n"@,
        "\n### "@ + "Features"@ + "\n\n"@ == "\n### Features\n\n"@,
        "\n### "@ + "Bug Fixes"@ + "\n\n"@ == "\n### Bug Fixes\n\n"@,
        "\n### "@ + "Other Changes"@ + "\n\n"@ == "\n### Other Changes\n\n"@,
{
    reveal_strlit("\n### ");
    reveal_strlit("\n\n");
    reveal_strlit("Breaking Changes");
    reveal_strlit("Features");
    reveal_strlit("Bug Fixes");
    reveal_strlit("Other Changes");
    reveal_strlit("\n### Breaking Changes\n\n");
    reveal_strlit("\n### Features\n\n");
    reveal_strlit("\n### Bug Fixes\n\n");
    reveal_strlit("\n### Other Changes\n\n");
}

proof fn lemma_part(commits: Seq<ConventionalView>, kind: CommitKind)
    ensures
        bullets(commits, kind) == lines_of_kind(commits, kind),
        (bullets(commits, kind).len() > 0) == (exists|i: int|
            0 <= i < commits.len() && (#[trigger] commits[i]).kind == kind),
    decreases commits.len(),
{
    if commits.len() > 0 {
        let front = commits.drop_last();
        lemma_part(front, kind);
        reveal_strlit("- ");
        assert(short_sha(commits.last().sha).len() <= commits.last().sha.len());
        if commits.last().kind == kind {
            assert(commits[commits.len() - 1].kind == kind);
            assert(line_of(commits.last()).len() >= 2);
        }
        if bullets(front, kind).len() > 0 {
            let i = choose|i: int| 0 <= i < front.len() && (#[trigger] front[i]).kind == kind;
            assert(commits[i].kind == kind);
        }
        if exists|i: int| 0 <= i < commits.len() && (#[trigger] commits[i]).kind == kind {
            let i = choose|i: int| 0 <= i < commits.len() && (#[trigger] commits[i]).kind == kind;
            if i < front.len() {
                assert(front[i].kind == kind);
            }
        }
    }
}

proof fn lemma_line_is_named(commits: Seq<ConventionalView>, i: int)
    requires
        0 <= i < commits.len(),
    ensures
        holds_line(lines_of_kind(commits, commits[i].kind), line_of(commits[i])),
    decreases commits.len(),
{
    let kind = commits[i].kind;
    let front = commits.drop_last();
    let before = lines_of_kind(front, kind);
    if i == commits.len() - 1 {
        assert(lines_of_kind(commits, kind) == around(before, line_of(commits[i]), Seq::empty()));
    } else {
        lemma_line_is_named(front, i);
        assert(front[i] == commits[i]);
        if commits.last().kind == kind {
            lemma_held_in(Seq::empty(), before, line_of(commits.last()), line_of(commits[i]));
            assert(Seq::<char>::empty() + before + line_of(commits.last()) == lines_of_kind(
                commits,
                kind,
            ));
        }
    }
}

} // verus!
