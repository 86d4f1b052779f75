//! Classification of commits by their conventional subject, and the version and the
//! notes that follow from them.
//!
//! A subject is read by the grammar of Conventional Commits,
//! `type(scope)!: description`, on the first line of the message only. A breaking
//! change is announced by a `!` in the subject or by a footer `BREAKING CHANGE` or
//! `BREAKING-CHANGE` at the start of a line.

use vstd::prelude::*;

use crate::github::{CommitInfo, CommitView};
use crate::pattern::{
    footer_ends_at, footer_may_end_at, groups, regex_groups, subject, BREAKING_FOOTER, SUBJECT,
};
use crate::text::{
    characters, join_two, lines, lines_of, same, text_between, trim, trimmed, views,
};
use crate::version::{Version, VersionView};

verus! {

/// How far a version goes up, from the least to the most.
#[derive(Debug, Clone, Copy, PartialEq, Eq, PartialOrd, Ord, Structural)]
pub enum BumpLevel {
    Patch,
    Minor,
    Major,
}

/// What a commit brings.
#[derive(Debug, Clone, Copy, PartialEq, Eq, Structural)]
pub enum CommitKind {
    Breaking,
    Feature,
    Fix,
    Other,
}

/// A commit and what it brings.
#[derive(Debug, Clone, PartialEq, Eq)]
pub struct ConventionalCommit {
    pub sha: String,
    pub kind: CommitKind,
    pub subject: String,
}

/// What a `ConventionalCommit` stands for.
pub struct ConventionalView {
    pub sha: Seq<char>,
    pub kind: CommitKind,
    pub subject: Seq<char>,
}

impl View for ConventionalCommit {
    type V = ConventionalView;

    open spec fn view(&self) -> ConventionalView {
        ConventionalView { sha: self.sha@, kind: self.kind, subject: self.subject@ }
    }
}

/// What a commit brings whose subject has the given type and marker, where it is
/// conventional, and whose message has a breaking-change footer or has none.
pub open spec fn kind_of(conventional: Option<(Seq<char>, bool)>, has_footer: bool) -> CommitKind {
    match conventional {
        Some((_, true)) => CommitKind::Breaking,
        Some((name, false)) => if has_footer {
            CommitKind::Breaking
        } else if name == "feat"@ {
            CommitKind::Feature
        } else if name == "fix"@ {
            CommitKind::Fix
        } else {
            CommitKind::Other
        },
        None => if has_footer {
            CommitKind::Breaking
        } else {
            CommitKind::Other
        },
    }
}

/// The message has a breaking-change footer.
pub open spec fn has_breaking_footer(message: Seq<char>) -> bool {
    regex_groups(BREAKING_FOOTER@, message) is Some
}

/// A footer counts where it ends the message or where an ASCII character follows it that
/// belongs to no word, and none counts that an ASCII letter, digit or underscore follows.
pub open spec fn footer_is_read(message: Seq<char>) -> bool {
    &&& (exists|at: int| footer_ends_at(message, at)) ==> has_breaking_footer(message)
    &&& has_breaking_footer(message) ==> (exists|at: int| footer_may_end_at(message, at))
}

/// What a commit brings.
pub open spec fn message_kind(subject_text: Seq<char>, message: Seq<char>) -> CommitKind {
    kind_of(subject(subject_text), has_breaking_footer(message))
}

/// The first line of a message, without the white space around it.
pub open spec fn subject_of(message: Seq<char>) -> Seq<char> {
    if lines(message).len() > 0 {
        trim(lines(message)[0])
    } else {
        Seq::empty()
    }
}

/// A commit and what it brings.
pub open spec fn classified(commit: CommitView) -> ConventionalView {
    ConventionalView {
        sha: commit.sha,
        kind: message_kind(subject_of(commit.message), commit.message),
        subject: subject_of(commit.message),
    }
}

/// The commits that are no merges, and what they bring.
pub open spec fn all_classified(commits: Seq<CommitView>) -> Seq<ConventionalView> {
    commits.filter(|commit: CommitView| !commit.is_merge).map_values(
        |commit: CommitView| classified(commit),
    )
}

/// Some commit is of the kind.
pub open spec fn has_kind(commits: Seq<ConventionalView>, kind: CommitKind) -> bool {
    exists|i: int| 0 <= i < commits.len() && (#[trigger] commits[i]).kind == kind
}

/// How far the version goes up for what the commits bring.
pub open spec fn bump_for(commits: Seq<ConventionalView>) -> Option<BumpLevel> {
    if has_kind(commits, CommitKind::Breaking) {
        Some(BumpLevel::Major)
    } else if has_kind(commits, CommitKind::Feature) {
        Some(BumpLevel::Minor)
    } else if has_kind(commits, CommitKind::Fix) {
        Some(BumpLevel::Patch)
    } else {
        None
    }
}

/// The number that goes up fits.
pub open spec fn can_bump(current: VersionView, level: BumpLevel) -> bool {
    match level {
        BumpLevel::Major => current.major < u64::MAX,
        BumpLevel::Minor => current.minor < u64::MAX,
        BumpLevel::Patch => current.patch < u64::MAX,
    }
}

/// The next version: one number goes up, those behind it are zero, and there is no
/// pre-release or build metadata.
pub open spec fn bumped(current: VersionView, level: BumpLevel) -> VersionView {
    let (major, minor, patch) = match level {
        BumpLevel::Major => ((current.major + 1) as u64, 0u64, 0u64),
        BumpLevel::Minor => (current.major, (current.minor + 1) as u64, 0u64),
        BumpLevel::Patch => (current.major, current.minor, (current.patch + 1) as u64),
    };
    VersionView { major, minor, patch, pre: Seq::empty(), build: Seq::empty() }
}

/// What a commit brings, from the type and the marker of its subject and from its
/// footers.
pub fn commit_kind(conventional: Option<(String, bool)>, has_footer: bool) -> (result: CommitKind)
    ensures
        result == kind_of(
            match conventional {
                Some((name, marked)) => Some((name@, marked)),
                None => None,
            },
            has_footer,
        ),
{
    match conventional {
        Some((name, marked)) => if marked || has_footer {
            CommitKind::Breaking
        } else if same(&name, "feat") {
            CommitKind::Feature
        } else if same(&name, "fix") {
            CommitKind::Fix
        } else {
            CommitKind::Other
        },
        None => if has_footer {
            CommitKind::Breaking
        } else {
            CommitKind::Other
        },
    }
}

/// What a commit brings. A footer at the start of a line counts where it ends the
/// message or where a space, a colon or the like follows it.
pub fn classify_message(subject_text: &str, message: &str) -> (result: CommitKind)
    ensures
        result == message_kind(subject_text@, message@),
        footer_is_read(message@),
{
    let has_footer = groups(BREAKING_FOOTER, message).is_some();
    let conventional = match groups(SUBJECT, subject_text) {
        Some(parts) => Some((crate::pattern::group_text(&parts[0]), parts[2].is_some())),
        None => None,
    };
    commit_kind(conventional, has_footer)
}

/// The commits that are no merges, each with its subject and what it brings.
pub fn classify_commits(commits: &[CommitInfo]) -> (result: Vec<ConventionalCommit>)
    ensures
        views(result@) == all_classified(views(commits@)),
        forall|i: int|
            0 <= i < commits@.len() && !(#[trigger] commits@[i]).is_merge ==> footer_is_read(
                commits@[i].message@,
            ),
{
    let ghost all = views(commits@);
    let ghost keep = |commit: CommitView| !commit.is_merge;
    let mut result: Vec<ConventionalCommit> = Vec::new();
    let mut i: usize = 0;
    proof {
        reveal(Seq::filter);
        assert(all.take(0).filter(keep) == Seq::<CommitView>::empty());
        assert(views(result@) == all_classified(all.take(0)));
    }
    while i < commits.len()
        invariant
            i <= commits@.len(),
            all == views(commits@),
            keep == (|commit: CommitView| !commit.is_merge),
            views(result@) == all_classified(all.take(i as int)),
            forall|k: int|
                0 <= k < i && !(#[trigger] commits@[k]).is_merge ==> footer_is_read(
                    commits@[k].message@,
                ),
        decreases commits@.len() - i,
    {
        let ghost before = result@;
        proof {
            reveal(Seq::filter);
            let now = all.take(i + 1);
            assert(now.drop_last() == all.take(i as int));
            assert(now.last() == commits@[i as int]@);
        }
        if !commits[i].is_merge {
            let all_lines = lines_of(&commits[i].message);
            let subject_text = if all_lines.len() > 0 {
                assert(views(all_lines@)[0] == all_lines@[0]@);
                trimmed(&all_lines[0])
            } else {
                String::new()
            };
            assert(subject_text@ == subject_of(commits@[i as int].message@));
            let found = ConventionalCommit {
                sha: commits[i].sha.clone(),
                kind: classify_message(&subject_text, &commits[i].message),
                subject: subject_text,
            };
            result.push(found);
            assert(views(result@) == views(before).push(found@));
            assert(all_classified(all.take(i + 1)) == all_classified(all.take(i as int)).push(
                found@,
            ));
        }
        i = i + 1;
    }
    assert(all.take(i as int) == all);
    result
}

/// How far the version has to go up for the commits: the strongest that one of them
/// asks for, and nothing where none asks for a release.
pub fn required_bump(commits: &[ConventionalCommit]) -> (result: Option<BumpLevel>)
    ensures
        result == bump_for(views(commits@)),
{
    let ghost all = views(commits@);
    let mut breaking = false;
    let mut feature = false;
    let mut fix = false;
    let mut i: usize = 0;
    while i < commits.len()
        invariant
            i <= commits@.len(),
            all == views(commits@),
            breaking == has_kind(all.take(i as int), CommitKind::Breaking),
            feature == has_kind(all.take(i as int), CommitKind::Feature),
            fix == has_kind(all.take(i as int), CommitKind::Fix),
        decreases commits@.len() - i,
    {
        proof {
            lemma_has_kind(all, i as int, CommitKind::Breaking);
            lemma_has_kind(all, i as int, CommitKind::Feature);
            lemma_has_kind(all, i as int, CommitKind::Fix);
            assert(all[i as int] == commits@[i as int]@);
        }
        match commits[i].kind {
            CommitKind::Breaking => {
                breaking = true;
            },
            CommitKind::Feature => {
                feature = true;
            },
            CommitKind::Fix => {
                fix = true;
            },
            CommitKind::Other => {},
        }
        i = i + 1;
    }
    assert(all.take(i as int) == all);
    if breaking {
        Some(BumpLevel::Major)
    } else if feature {
        Some(BumpLevel::Minor)
    } else if fix {
        Some(BumpLevel::Patch)
    } else {
        None
    }
}

proof fn lemma_has_kind(commits: Seq<ConventionalView>, i: int, kind: CommitKind)
    requires
        0 <= i < commits.len(),
    ensures
        has_kind(commits.take(i + 1), kind) == (has_kind(commits.take(i), kind) || commits[i].kind
            == kind),
{
    let before = commits.take(i);
    let now = commits.take(i + 1);
    if has_kind(now, kind) && commits[i].kind != kind {
        let k = choose|k: int| 0 <= k < now.len() && (#[trigger] now[k]).kind == kind;
        assert(before[k].kind == kind);
    }
    if has_kind(before, kind) {
        let k = choose|k: int| 0 <= k < before.len() && (#[trigger] before[k]).kind == kind;
        assert(now[k].kind == kind);
    }
    if commits[i].kind == kind {
        assert(now[i].kind == kind);
    }
}

/// The version one level up, without pre-release and build metadata.
pub fn bump_version(current: &Version, level: BumpLevel) -> (result: Version)
    requires
        can_bump(current@, level),
    ensures
        result@ == bumped(current@, level),
{
    let (major, minor, patch) = match level {
        BumpLevel::Major => (current.major + 1, 0u64, 0u64),
        BumpLevel::Minor => (current.major, current.minor + 1, 0u64),
        BumpLevel::Patch => (current.major, current.minor, current.patch + 1),
    };
    let result = Version { major, minor, patch, pre: String::new(), build: String::new() };
    assert(result@ == bumped(current@, level));
    result
}

/// The version one level up, where its numbers fit.
pub fn checked_bump(current: &Version, level: BumpLevel) -> (result: Option<Version>)
    ensures
        match result {
            Some(next) => can_bump(current@, level) && next@ == bumped(current@, level),
            None => !can_bump(current@, level),
        },
{
    let fits = match level {
        BumpLevel::Major => current.major < u64::MAX,
        BumpLevel::Minor => current.minor < u64::MAX,
        BumpLevel::Patch => current.patch < u64::MAX,
    };
    if fits {
        Some(bump_version(current, level))
    } else {
        None
    }
}

// ---------------------------------------------------------------------------
// Release notes
// ---------------------------------------------------------------------------
/// The first seven characters of a SHA.
pub open spec fn short_sha(sha: Seq<char>) -> Seq<char> {
    if sha.len() > 7 {
        sha.take(7)
    } else {
        sha
    }
}

/// The line of a commit.
pub open spec fn bullet(commit: ConventionalView) -> Seq<char> {
    "- "@ + commit.subject + " ("@ + short_sha(commit.sha) + ")\n"@
}

/// The lines of the commits of one kind.
pub open spec fn bullets(commits: Seq<ConventionalView>, kind: CommitKind) -> Seq<char>
    decreases commits.len(),
{
    if commits.len() == 0 {
        Seq::empty()
    } else {
        let before = bullets(commits.drop_last(), kind);
        if commits.last().kind == kind {
            before + bullet(commits.last())
        } else {
            before
        }
    }
}

/// A heading and the lines below it, unless there are none.
pub open spec fn section(
    title: Seq<char>,
    commits: Seq<ConventionalView>,
    kind: CommitKind,
) -> Seq<char> {
    if bullets(commits, kind).len() == 0 {
        Seq::empty()
    } else {
        "\n### "@ + title + "\n\n"@ + bullets(commits, kind)
    }
}

/// The notes of a release.
pub open spec fn notes_for(tag: Seq<char>, commits: Seq<ConventionalView>, truncated: bool) -> Seq<
    char,
> {
    let text = "## "@ + tag + "\n"@ + section(
        "Breaking Changes"@,
        commits,
        CommitKind::Breaking,
    ) + section("Features"@, commits, CommitKind::Feature) + section(
        "Bug Fixes"@,
        commits,
        CommitKind::Fix,
    ) + section("Other Changes"@, commits, CommitKind::Other);
    if truncated {
        text + "\n_The commit list was truncated; these notes may be incomplete._\n"@
    } else {
        text
    }
}

fn write_section(
    notes: &mut String,
    title: &str,
    commits: &Vec<ConventionalCommit>,
    kind: CommitKind,
)
    ensures
        final(notes)@ == old(notes)@ + section(title@, views(commits@), kind),
{
    let ghost all = views(commits@);
    let mut text = String::new();
    let mut empty = true;
    let mut i: usize = 0;
    while i < commits.len()
        invariant
            i <= commits.len(),
            all == views(commits@),
            text@ == bullets(all.take(i as int), kind),
            empty == (text@.len() == 0),
        decreases commits.len() - i,
    {
        proof {
            assert(all.take(i + 1).drop_last() == all.take(i as int));
            assert(all.take(i + 1).last() == commits@[i as int]@);
        }
        if commits[i].kind == kind {
            let ghost before = text@;
            let chars = characters(&commits[i].sha);
            let short = if chars.len() > 7 {
                assert(chars@.subrange(0, 7) == chars@.take(7));
                text_between(&chars, 0, 7)
            } else {
                commits[i].sha.clone()
            };
            let mut line = join_two("- ", &commits[i].subject);
            line.append(" (");
            line.append(&short);
            line.append(")\n");
            text.append(&line);
            empty = false;
            proof {
                reveal_strlit("- ");
                assert(text@ == before + bullet(commits@[i as int]@));
                assert(text@.len() > 0);
            }
        }
        i = i + 1;
    }
    assert(all.take(i as int) == all);
    let ghost before = notes@;
    if !empty {
        notes.append("\n### ");
        notes.append(title);
        notes.append("\n\n");
        notes.append(&text);
    }
    assert(notes@ == before + section(title@, all, kind));
}

/// The notes of a release: the subjects of its commits below a heading for each
/// kind, and a remark where not all of them are known.
pub fn release_notes(tag: &str, commits: &Vec<ConventionalCommit>, truncated: bool) -> (result:
    String)
    ensures
        result@ == notes_for(tag@, views(commits@), truncated),
{
    let mut notes = join_two("## ", tag);
    notes.append("\n");
    write_section(&mut notes, "Breaking Changes", commits, CommitKind::Breaking);
    write_section(&mut notes, "Features", commits, CommitKind::Feature);
    write_section(&mut notes, "Bug Fixes", commits, CommitKind::Fix);
    write_section(&mut notes, "Other Changes", commits, CommitKind::Other);
    if truncated {
        notes.append("\n_The commit list was truncated; these notes may be incomplete._\n");
    }
    notes
}

// ---------------------------------------------------------------------------
// Laws
// ---------------------------------------------------------------------------
/// How strong a bump is.
pub open spec fn strength(level: Option<BumpLevel>) -> int {
    match level {
        None => 0,
        Some(BumpLevel::Patch) => 1,
        Some(BumpLevel::Minor) => 2,
        Some(BumpLevel::Major) => 3,
    }
}

/// The bump that a single commit asks for.
pub open spec fn bump_of(kind: CommitKind) -> Option<BumpLevel> {
    match kind {
        CommitKind::Breaking => Some(BumpLevel::Major),
        CommitKind::Feature => Some(BumpLevel::Minor),
        CommitKind::Fix => Some(BumpLevel::Patch),
        CommitKind::Other => None,
    }
}

/// The required bump is the strongest that a commit asks for: no commit asks for
/// more, and where there is a bump, some commit asks for it.
pub proof fn law_required_bump_is_the_strongest(commits: Seq<ConventionalView>)
    ensures
        forall|i: int|
            0 <= i < commits.len() ==> strength(bump_of((#[trigger] commits[i]).kind)) <= strength(
                bump_for(commits),
            ),
        bump_for(commits) is Some ==> exists|i: int|
            0 <= i < commits.len() && bump_of((#[trigger] commits[i]).kind) == bump_for(commits),
{
    if has_kind(commits, CommitKind::Breaking) {
        let i = choose|i: int|
            0 <= i < commits.len() && (#[trigger] commits[i]).kind == CommitKind::Breaking;
        assert(bump_of(commits[i].kind) == bump_for(commits));
    } else if has_kind(commits, CommitKind::Feature) {
        let i = choose|i: int|
            0 <= i < commits.len() && (#[trigger] commits[i]).kind == CommitKind::Feature;
        assert(bump_of(commits[i].kind) == bump_for(commits));
    } else if has_kind(commits, CommitKind::Fix) {
        let i = choose|i: int|
            0 <= i < commits.len() && (#[trigger] commits[i]).kind == CommitKind::Fix;
        assert(bump_of(commits[i].kind) == bump_for(commits));
    }
}

/// More commits never ask for a weaker bump.
pub proof fn law_more_commits_never_weaken_the_bump(
    commits: Seq<ConventionalView>,
    more: Seq<ConventionalView>,
)
    ensures
        strength(bump_for(commits)) <= strength(bump_for(commits + more)),
{
    let all = commits + more;
    if bump_for(commits) is Some {
        law_required_bump_is_the_strongest(commits);
        law_required_bump_is_the_strongest(all);
        let i = choose|i: int|
            0 <= i < commits.len() && bump_of((#[trigger] commits[i]).kind) == bump_for(commits);
        assert(all[i] == commits[i]);
    }
}

/// A bump leads to a greater version, without pre-release and build metadata.
pub proof fn law_bump_goes_up(current: VersionView, level: BumpLevel)
    requires
        can_bump(current, level),
    ensures
        current.core_less(bumped(current, level)),
        bumped(current, level).pre.len() == 0,
        bumped(current, level).build.len() == 0,
        bumped(current, level).is_valid(),
{
}

/// Merge commits do not count: without them the classification is the same.
pub proof fn law_merges_do_not_count(commits: Seq<CommitView>)
    ensures
        all_classified(commits.filter(|commit: CommitView| !commit.is_merge)) == all_classified(
            commits,
        ),
    decreases commits.len(),
{
    let keep = |commit: CommitView| !commit.is_merge;
    lemma_filter_twice(commits);
    assert(commits.filter(keep).filter(keep) == commits.filter(keep));
}

proof fn lemma_filter_twice(commits: Seq<CommitView>)
    ensures
        ({
            let keep = |commit: CommitView| !commit.is_merge;
            commits.filter(keep).filter(keep) == commits.filter(keep)
        }),
    decreases commits.len(),
{
    reveal(Seq::filter);
    let keep = |commit: CommitView| !commit.is_merge;
    if commits.len() > 0 {
        lemma_filter_twice(commits.drop_last());
        let before = commits.drop_last().filter(keep);
        if keep(commits.last()) {
            assert(before.push(commits.last()).drop_last() == before);
        }
    }
}

} // verus!
