use github_actions_maintainer::conventional::{
    bump_version, checked_bump, classify_commits, release_notes, required_bump, BumpLevel,
    CommitKind,
};
use github_actions_maintainer::github::CommitInfo;
use github_actions_maintainer::version::Version;

fn commit(message: &str) -> CommitInfo {
    CommitInfo {
        sha: String::from("0123456789abcdef"),
        message: message.to_owned(),
        is_merge: false,
    }
}

#[test]
fn classify_commits_maps_conventional_types() {
    let commits = [
        commit("feat: add release command"),
        commit("fix(parser): handle empty scope"),
        commit("docs: update readme"),
        commit("chore: bump dependencies"),
    ];

    let classified = classify_commits(&commits);

    assert_eq!(classified[0].kind, CommitKind::Feature);
    assert_eq!(classified[1].kind, CommitKind::Fix);
    assert_eq!(classified[2].kind, CommitKind::Other);
    assert_eq!(classified[3].kind, CommitKind::Other);
}

#[test]
fn classify_commits_does_not_treat_feature_prefix_as_feat() {
    let classified = classify_commits(&[commit("feature: not conventional feat")]);

    assert_eq!(classified[0].kind, CommitKind::Other);
}

#[test]
fn classify_commits_detects_breaking_bang_marker() {
    let classified = classify_commits(&[
        commit("feat!: drop legacy flags"),
        commit("refactor(core)!: rework internals"),
    ]);

    assert_eq!(classified[0].kind, CommitKind::Breaking);
    assert_eq!(classified[1].kind, CommitKind::Breaking);
}

#[test]
fn classify_commits_detects_breaking_change_footer() {
    let classified = classify_commits(&[
        commit("fix: adjust defaults\n\nBREAKING CHANGE: defaults changed"),
        commit("chore: cleanup\n\nBREAKING-CHANGE: removed helper"),
    ]);

    assert_eq!(classified[0].kind, CommitKind::Breaking);
    assert_eq!(classified[1].kind, CommitKind::Breaking);
}

#[test]
fn classify_commits_ignores_mid_line_breaking_mentions() {
    let classified =
        classify_commits(&[commit("docs: describe the BREAKING CHANGE process in text")]);

    assert_eq!(classified[0].kind, CommitKind::Other);
}

#[test]
fn classify_commits_skips_merge_commits() {
    let merge = CommitInfo {
        sha: String::from("mergesha"),
        message: String::from("Merge pull request #1 from acme/feat"),
        is_merge: true,
    };

    let classified = classify_commits(&[merge, commit("fix: real change")]);

    assert_eq!(classified.len(), 1);
    assert_eq!(classified[0].kind, CommitKind::Fix);
}

#[test]
fn classify_commits_uses_first_line_as_subject() {
    let classified = classify_commits(&[commit("feat: multi line\n\nbody detail")]);

    assert_eq!(classified[0].subject, "feat: multi line");
}

#[test]
fn required_bump_prefers_the_strongest_level() {
    let commits = classify_commits(&[
        commit("fix: patch level"),
        commit("feat: minor level"),
        commit("feat!: major level"),
    ]);

    assert_eq!(required_bump(&commits), Some(BumpLevel::Major));
}

#[test]
fn required_bump_returns_none_for_chore_only_history() {
    let commits = classify_commits(&[commit("chore: tidy"), commit("docs: notes")]);

    assert_eq!(required_bump(&commits), None);
}

#[test]
fn release_commits_ask_for_no_release() {
    let commits = classify_commits(&[commit("chore: release v1.2.3"), commit("chore(release): v2")]);
    assert_eq!(required_bump(&commits), None);
}

#[test]
fn bump_version_increments_and_resets_components() {
    let current = Version::parse("1.2.3").expect("version");

    assert_eq!(
        bump_version(&current, BumpLevel::Major),
        Version::parse("2.0.0").expect("version")
    );
    assert_eq!(
        bump_version(&current, BumpLevel::Minor),
        Version::parse("1.3.0").expect("version")
    );
    assert_eq!(
        bump_version(&current, BumpLevel::Patch),
        Version::parse("1.2.4").expect("version")
    );
}

#[test]
fn bump_version_clears_prerelease_metadata() {
    let current = Version::parse("1.2.3-rc.1+build.5").expect("version");

    assert_eq!(
        bump_version(&current, BumpLevel::Patch),
        Version::parse("1.2.4").expect("version")
    );
}

#[test]
fn versions_are_read_and_written() {
    for text in ["0.0.0", "1.2.3", "10.20.30-rc.1", "1.0.0-alpha-b.2+build.7", "1.0.0+20130313"] {
        assert_eq!(Version::parse(text).expect("version").to_text(), text);
    }
    for text in ["", "1", "1.2", "01.2.3", "1.2.3-", "1.2.3-01", "v1.2.3", "1.2.3 ", "1.2.3+"] {
        assert_eq!(Version::parse(text), None, "{text}");
    }
}

#[test]
fn bumps_that_do_not_fit_are_none() {
    let last = Version::parse("18446744073709551615.1.2").expect("version");
    assert_eq!(checked_bump(&last, BumpLevel::Major), None);
    assert_eq!(
        checked_bump(&last, BumpLevel::Patch).map(|next| next.to_text()).as_deref(),
        Some("18446744073709551615.1.3")
    );
}

#[test]
fn more_commits_never_weaken_the_bump() {
    let few = classify_commits(&[commit("fix: a")]);
    let more = classify_commits(&[commit("fix: a"), commit("docs: b"), commit("feat: c")]);
    assert_eq!(required_bump(&few), Some(BumpLevel::Patch));
    assert_eq!(required_bump(&more), Some(BumpLevel::Minor));
}

#[test]
fn footers_count_only_at_the_start_of_a_line() {
    let classified = classify_commits(&[
        commit("docs: a\n\nsee BREAKING CHANGE: b"),
        commit("docs: a\n\nBREAKING CHANGE"),
        commit("docs: a\n\nBREAKING CHANGES: b"),
    ]);
    assert_eq!(classified[0].kind, CommitKind::Other);
    assert_eq!(classified[1].kind, CommitKind::Breaking);
    assert_eq!(classified[2].kind, CommitKind::Other);
}

#[test]
fn notes_list_the_subjects_by_kind() {
    let commits = classify_commits(&[
        commit("feat: add\n\nmore"),
        commit("fix: mend"),
        commit("docs: tell"),
        commit("feat!: break"),
    ]);
    let notes = release_notes("v1.0.0", &commits, true);
    assert!(notes.starts_with("## v1.0.0\n"));
    let place = |text: &str| notes.find(text).expect("in the notes");
    assert!(place("Breaking Changes") < place("feat!: break"));
    assert!(place("feat!: break") < place("Features"));
    assert!(place("Features") < place("feat: add"));
    assert!(place("feat: add") < place("Bug Fixes"));
    assert!(place("fix: mend") < place("Other Changes"));
    assert!(place("docs: tell") < place("truncated"));
    assert!(!release_notes("v1.0.0", &commits, false).contains("truncated"));
}
