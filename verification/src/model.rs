//! What is found in workflow files and what is to be changed in them.

use vstd::prelude::*;

use crate::text::{
    characters, cut, is_digit, is_hex, is_space, option_view, same, space, split_once, trim,
    trimmed, views,
};

verus! {

/// A step that uses an action, as it stands in a workflow file.
#[derive(Debug, Clone, PartialEq, Eq)]
pub struct WorkflowAction {
    pub file: String,
    pub line_number: usize,
    pub indentation: String,
    pub list_prefix: String,
    pub action_slug: String,
    pub owner: String,
    pub repository: String,
    pub version: String,
    pub inline_comment: Option<String>,
    pub original_line: String,
}

/// What a `WorkflowAction` stands for.
pub struct ActionView {
    pub file: Seq<char>,
    pub line_number: nat,
    pub indentation: Seq<char>,
    pub list_prefix: Seq<char>,
    pub action_slug: Seq<char>,
    pub owner: Seq<char>,
    pub repository: Seq<char>,
    pub version: Seq<char>,
    pub inline_comment: Option<Seq<char>>,
    pub original_line: Seq<char>,
}

impl View for WorkflowAction {
    type V = ActionView;

    open spec fn view(&self) -> ActionView {
        ActionView {
            file: self.file@,
            line_number: self.line_number as nat,
            indentation: self.indentation@,
            list_prefix: self.list_prefix@,
            action_slug: self.action_slug@,
            owner: self.owner@,
            repository: self.repository@,
            version: self.version@,
            inline_comment: option_view(self.inline_comment),
            original_line: self.original_line@,
        }
    }
}

/// Forty hexadecimal digits: the full SHA of a commit.
pub open spec fn is_full_sha(s: Seq<char>) -> bool {
    s.len() == 40 && forall|i: int| 0 <= i < s.len() ==> is_hex(#[trigger] s[i])
}

/// One word that looks like the name of a version: it begins with a `v` or a digit,
/// or is the name of a well-known branch.
pub open spec fn is_version_hint(value: Seq<char>) -> bool {
    let t = trim(value);
    &&& t.len() > 0
    &&& forall|i: int| 0 <= i < t.len() ==> !is_space(#[trigger] t[i])
    &&& t[0] == 'v' || is_digit(t[0]) || t == "main"@ || t == "master"@ || t == "stable"@ || t
        == "beta"@ || t == "nightly"@
}

/// The text before the first `|` and the text behind it.
pub open spec fn comment_parts(comment: Seq<char>) -> (Seq<char>, Seq<char>) {
    match split_once(comment, '|') {
        Some(parts) => parts,
        None => (comment, Seq::empty()),
    }
}

impl ActionView {
    /// The repository that holds the action.
    pub open spec fn repository_slug(self) -> Seq<char> {
        self.owner + "/"@ + self.repository
    }

    /// The reference is the full SHA of a commit.
    pub open spec fn is_pinned(self) -> bool {
        is_full_sha(self.version)
    }

    /// The version that the comment of a pinned action names.
    pub open spec fn version_hint(self) -> Option<Seq<char>> {
        match self.inline_comment {
            Some(comment) => {
                let candidate = trim(comment_parts(trim(comment)).0);
                if self.is_pinned() && is_version_hint(candidate) {
                    Some(candidate)
                } else {
                    None
                }
            },
            None => None,
        }
    }

    /// The version that a reader takes the reference for.
    pub open spec fn logical_version(self) -> Seq<char> {
        match self.version_hint() {
            Some(hint) => hint,
            None => self.version,
        }
    }

    /// What the comment says besides the version of a pinned action.
    pub open spec fn extra_comment(self) -> Option<Seq<char>> {
        match self.inline_comment {
            Some(comment) => {
                let whole = trim(comment);
                let parts = comment_parts(whole);
                let text = if self.is_pinned() && is_version_hint(trim(parts.0)) {
                    trim(parts.1)
                } else {
                    whole
                };
                if text.len() == 0 {
                    None
                } else {
                    Some(text)
                }
            },
            None => None,
        }
    }

    /// The comment of the line when the reference is pinned to `label`.
    pub open spec fn pinned_comment(self, label: Seq<char>) -> Seq<char> {
        match self.extra_comment() {
            Some(extra) => if extra != label {
                label + " | "@ + extra
            } else {
                label
            },
            None => label,
        }
    }

    /// The line when the reference is pinned to `sha`, which `label` names.
    pub open spec fn rendered_line(self, sha: Seq<char>, label: Seq<char>) -> Seq<char> {
        self.indentation + self.list_prefix + "uses: "@ + self.action_slug + "@"@ + sha + "  # "@
            + self.pinned_comment(label)
    }
}

impl WorkflowAction {
    /// The repository that holds the action, as `owner/repository`.
    pub fn repository_slug(&self) -> (result: String)
        ensures
            result@ == self@.repository_slug(),
    {
        let mut result = self.owner.clone();
        result.append("/");
        result.append(&self.repository);
        result
    }

    /// Whether the reference is the full SHA of a commit.
    pub fn is_pinned(&self) -> (result: bool)
        ensures
            result == self@.is_pinned(),
    {
        is_full_length_sha(&self.version)
    }

    /// The version that a reader takes the reference for: what the comment of a
    /// pinned action names, where it names one, and else the reference.
    pub fn logical_version(&self) -> (result: String)
        ensures
            result@ == self@.logical_version(),
    {
        match self.version_hint() {
            Some(hint) => hint,
            None => self.version.clone(),
        }
    }

    /// The line with the reference pinned to `commit_sha`, `version_label` in its
    /// comment, and what the comment said besides a version.
    pub fn rendered_line(&self, commit_sha: &str, version_label: &str) -> (result: String)
        ensures
            result@ == self@.rendered_line(commit_sha@, version_label@),
    {
        let mut result = self.indentation.clone();
        result.append(&self.list_prefix);
        result.append("uses: ");
        result.append(&self.action_slug);
        result.append("@");
        result.append(commit_sha);
        result.append("  # ");
        let mut comment = version_label.to_owned();
        match self.extra_comment() {
            Some(extra) => {
                if !same(&extra, version_label) {
                    comment.append(" | ");
                    comment.append(&extra);
                }
            },
            None => {},
        }
        result.append(&comment);
        result
    }

    fn version_hint(&self) -> (result: Option<String>)
        ensures
            option_view(result) == self@.version_hint(),
    {
        if !self.is_pinned() {
            return None;
        }
        match &self.inline_comment {
            Some(comment) => {
                let whole = trimmed(comment);
                let candidate = match cut(&whole, '|') {
                    Some((before, _)) => trimmed(&before),
                    None => trimmed(&whole),
                };
                if looks_like_version_hint(&candidate) {
                    Some(candidate)
                } else {
                    None
                }
            },
            None => None,
        }
    }

    fn extra_comment(&self) -> (result: Option<String>)
        ensures
            option_view(result) == self@.extra_comment(),
    {
        match &self.inline_comment {
            Some(comment) => {
                let whole = trimmed(comment);
                let (candidate, remainder) = match cut(&whole, '|') {
                    Some(parts) => parts,
                    None => (whole.clone(), String::new()),
                };
                assert(comment_parts(whole@) == (candidate@, remainder@));
                let text = if self.is_pinned() && looks_like_version_hint(&trimmed(&candidate)) {
                    trimmed(&remainder)
                } else {
                    whole
                };
                if same(&text, "") {
                    proof {
                        reveal_strlit("");
                    }
                    None
                } else {
                    proof {
                        reveal_strlit("");
                        assert(text@.len() == 0 ==> text@ == ""@);
                    }
                    Some(text)
                }
            },
            None => None,
        }
    }
}

/// A line that is to be rewritten so that its reference is pinned.
#[derive(Debug, Clone, PartialEq, Eq)]
pub struct PinChange {
    pub file: String,
    pub line_number: usize,
    pub action_slug: String,
    pub from_version: String,
    pub to_sha: String,
    pub original_line: String,
    pub rewritten_line: String,
}

/// What a `PinChange` stands for.
pub struct PinChangeView {
    pub file: Seq<char>,
    pub line_number: nat,
    pub action_slug: Seq<char>,
    pub from_version: Seq<char>,
    pub to_sha: Seq<char>,
    pub original_line: Seq<char>,
    pub rewritten_line: Seq<char>,
}

impl View for PinChange {
    type V = PinChangeView;

    open spec fn view(&self) -> PinChangeView {
        PinChangeView {
            file: self.file@,
            line_number: self.line_number as nat,
            action_slug: self.action_slug@,
            from_version: self.from_version@,
            to_sha: self.to_sha@,
            original_line: self.original_line@,
            rewritten_line: self.rewritten_line@,
        }
    }
}

/// What pinning found and changes.
#[derive(Debug, Clone, PartialEq, Eq)]
pub struct PinReport {
    pub workflow_files: usize,
    pub references_scanned: usize,
    pub already_pinned: usize,
    pub changes: Vec<PinChange>,
}

/// The files that the changes touch.
pub open spec fn touched_files(changes: Seq<PinChangeView>) -> Set<Seq<char>> {
    changes.map_values(|change: PinChangeView| change.file).to_set()
}

impl PinReport {
    /// How many files the changes touch.
    pub fn changed_files(&self) -> (result: usize)
        ensures
            result == touched_files(views(self.changes@)).len(),
    {
        count_files(&self.changes)
    }
}

/// How many files the changes touch.
pub(crate) fn count_files(changes: &Vec<PinChange>) -> (result: usize)
    ensures
        result == touched_files(views(changes@)).len(),
{
    let ghost files = views(changes@).map_values(|change: PinChangeView| change.file);
    let mut count: usize = 0;
    let mut i: usize = 0;
    assert(files.take(0).to_set() =~= Set::<Seq<char>>::empty());
    while i < changes.len()
        invariant
            i <= changes.len(),
            count <= i,
            files == views(changes@).map_values(|change: PinChangeView| change.file),
            files.take(i as int).to_set().finite(),
            count == files.take(i as int).to_set().len(),
        decreases changes.len() - i,
    {
        let mut seen = false;
        let mut j: usize = 0;
        while j < i && !seen
            invariant
                j <= i < changes.len(),
                files == views(changes@).map_values(|change: PinChangeView| change.file),
                seen == (exists|k: int| 0 <= k < j && #[trigger] files[k] == files[i as int]),
            decreases i - j,
        {
            seen = same(&changes[j].file, &changes[i].file);
            assert(files[j as int] == changes@[j as int].file@);
            assert(files[i as int] == changes@[i as int].file@);
            j = j + 1;
        }
        proof {
            let before = files.take(i as int);
            let after = files.take(i + 1);
            assert(after == before.push(files[i as int]));
            assert(after.to_set() =~= before.to_set().insert(files[i as int])) by {
                assert forall|f: Seq<char>| after.to_set().contains(f) implies before.to_set().insert(
                    files[i as int],
                ).contains(f) by {
                    let k = choose|k: int| 0 <= k < after.len() && after[k] == f;
                    if k < i {
                        assert(before[k] == f);
                    }
                }
                assert forall|f: Seq<char>|
                    before.to_set().insert(files[i as int]).contains(f) implies after.to_set().contains(
                f,
                ) by {
                    if f == files[i as int] {
                        assert(after[i as int] == f);
                    } else {
                        let k = choose|k: int| 0 <= k < before.len() && before[k] == f;
                        assert(after[k] == f);
                    }
                }
            }
            if seen {
                let k = choose|k: int| 0 <= k < j && #[trigger] files[k] == files[i as int];
                assert(before[k] == files[i as int]);
                assert(before.to_set().contains(files[i as int]));
            } else {
                if before.to_set().contains(files[i as int]) {
                    let k = choose|k: int| 0 <= k < before.len() && before[k] == files[i as int];
                    assert(files[k] == files[i as int]);
                }
            }
        }
        if !seen {
            count = count + 1;
        }
        i = i + 1;
    }
    assert(files.take(i as int) == files);
    count
}

/// Where a change of a version takes place.
#[derive(Debug, Clone, Copy, PartialEq, Eq, Structural)]
pub enum UpdateChangeKind {
    GitHubAction,
    CargoDependency,
}

impl UpdateChangeKind {
    /// What the kind is called in reports.
    pub open spec fn label_text(self) -> Seq<char> {
        match self {
            UpdateChangeKind::GitHubAction => "GitHub Action"@,
            UpdateChangeKind::CargoDependency => "cargo package"@,
        }
    }

    /// What the kind is called in reports.
    pub fn label(self) -> (result: &'static str)
        ensures
            result@ == self.label_text(),
    {
        match self {
            UpdateChangeKind::GitHubAction => "GitHub Action",
            UpdateChangeKind::CargoDependency => "cargo package",
        }
    }
}

/// A version that goes up, in a workflow or in a manifest.
#[derive(Debug, Clone, PartialEq, Eq)]
pub struct UpdateChange {
    pub kind: UpdateChangeKind,
    pub file: String,
    pub line_number: Option<usize>,
    pub subject: String,
    pub from_version: String,
    pub to_version: String,
}

/// What an `UpdateChange` stands for.
pub struct UpdateChangeView {
    pub kind: UpdateChangeKind,
    pub file: Seq<char>,
    pub line_number: Option<usize>,
    pub subject: Seq<char>,
    pub from_version: Seq<char>,
    pub to_version: Seq<char>,
}

impl View for UpdateChange {
    type V = UpdateChangeView;

    open spec fn view(&self) -> UpdateChangeView {
        UpdateChangeView {
            kind: self.kind,
            file: self.file@,
            line_number: self.line_number,
            subject: self.subject@,
            from_version: self.from_version@,
            to_version: self.to_version@,
        }
    }
}

/// What a file is to hold.
#[derive(Debug, Clone, PartialEq, Eq)]
pub struct FileUpdate {
    pub file: String,
    pub updated_content: String,
}

/// What a `FileUpdate` stands for.
pub struct FileUpdateView {
    pub file: Seq<char>,
    pub updated_content: Seq<char>,
}

impl View for FileUpdate {
    type V = FileUpdateView;

    open spec fn view(&self) -> FileUpdateView {
        FileUpdateView { file: self.file@, updated_content: self.updated_content@ }
    }
}

/// The language of a script.
#[derive(Debug, Clone, Copy, PartialEq, Eq, Structural)]
pub enum ScriptType {
    Bash,
    Python,
}

/// A line of a workflow that runs a script.
#[derive(Debug, Clone, PartialEq, Eq)]
pub struct ScriptUsage {
    pub file: String,
    pub line_number: usize,
    pub script_type: ScriptType,
    pub context: String,
}

/// What a `ScriptUsage` stands for.
pub struct ScriptUsageView {
    pub file: Seq<char>,
    pub line_number: nat,
    pub script_type: ScriptType,
    pub context: Seq<char>,
}

impl View for ScriptUsage {
    type V = ScriptUsageView;

    open spec fn view(&self) -> ScriptUsageView {
        ScriptUsageView {
            file: self.file@,
            line_number: self.line_number as nat,
            script_type: self.script_type,
            context: self.context@,
        }
    }
}

/// How grave a finding is.
#[derive(Debug, Clone, Copy, PartialEq, Eq, Structural)]
pub enum PolicySeverity {
    High,
    Medium,
    Low,
}

/// What a finding is about.
#[derive(Debug, Clone, Copy, PartialEq, Eq, Structural)]
pub enum PolicyViolationType {
    UnpinnedAction,
    ExcessivePermissions,
    MissingPermissions,
    MissingTimeoutMinutes,
}

/// A line of a workflow that the baseline policy objects to.
#[derive(Debug, Clone, PartialEq, Eq)]
pub struct PolicyViolation {
    pub file: String,
    pub line_number: usize,
    pub violation_type: PolicyViolationType,
    pub severity: PolicySeverity,
    pub description: String,
    pub context: String,
}

/// What a `PolicyViolation` stands for.
pub struct ViolationView {
    pub file: Seq<char>,
    pub line_number: nat,
    pub violation_type: PolicyViolationType,
    pub severity: PolicySeverity,
    pub description: Seq<char>,
    pub context: Seq<char>,
}

impl View for PolicyViolation {
    type V = ViolationView;

    open spec fn view(&self) -> ViolationView {
        ViolationView {
            file: self.file@,
            line_number: self.line_number as nat,
            violation_type: self.violation_type,
            severity: self.severity,
            description: self.description@,
            context: self.context@,
        }
    }
}

/// Whether the value is the full SHA of a commit.
pub fn is_full_length_sha(value: &str) -> (result: bool)
    ensures
        result == is_full_sha(value@),
{
    let chars = characters(value);
    if chars.len() != 40 {
        return false;
    }
    let mut i: usize = 0;
    while i < chars.len()
        invariant
            i <= chars.len() == 40,
            chars@ == value@,
            forall|j: int| 0 <= j < i ==> is_hex(#[trigger] chars@[j]),
        decreases chars.len() - i,
    {
        let c = chars[i];
        if !(('0' <= c && c <= '9') || ('a' <= c && c <= 'f') || ('A' <= c && c <= 'F')) {
            assert(!is_hex(value@[i as int]));
            return false;
        }
        i = i + 1;
    }
    true
}

fn looks_like_version_hint(value: &str) -> (result: bool)
    ensures
        result == is_version_hint(value@),
{
    let text = trimmed(value);
    let chars = characters(&text);
    if chars.len() == 0 {
        return false;
    }
    let mut i: usize = 0;
    while i < chars.len()
        invariant
            i <= chars.len(),
            chars@ == trim(value@),
            forall|j: int| 0 <= j < i ==> !is_space(#[trigger] chars@[j]),
        decreases chars.len() - i,
    {
        if space(chars[i]) {
            assert(is_space(trim(value@)[i as int]));
            return false;
        }
        i = i + 1;
    }
    let first = chars[0];
    first == 'v' || ('0' <= first && first <= '9') || same(&text, "main") || same(&text, "master")
        || same(&text, "stable") || same(&text, "beta") || same(&text, "nightly")
}

} // verus!
