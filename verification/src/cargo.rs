//! Moving the dependencies of Cargo manifests to the latest stable versions.

use toml_edit::DocumentMut;
use vstd::prelude::*;

use crate::crates_io::CratesIoClient;
use crate::manifest::{
    extended, holds_text, is_edited, keys_at, law_edits_keep_layout, lemma_histories_add_up,
    lemma_no_more_history, node_at, only_edits_differ, parse_toml, parsed_toml, path_of_one,
    path_of_two, path_views, place_edit, read_keys, read_text, render_toml, replace_text, text_at,
    toml_display, toml_error, toml_history, toml_nodes, with_history, KeyPath, Node, NodeView,
    Nodes, Place, TextEdit,
};
use crate::model::{FileUpdate, FileUpdateView, UpdateChange, UpdateChangeKind, UpdateChangeView};
use crate::paths::{file_name, insert_sorted, is_sorted};
use crate::text::{
    copy_option, cut_last, holds_char, is_blank, join_four, join_three, join_two, lemma_trim_empty,
    lemma_trim_same, option_view, pieces, same, split, split_last, starts_with, trim, trimmed,
    views, without_prefix,
};
use crate::update::UpdateMode;
use crate::version::{
    exceeds, is_version_char, law_version_is_read_back, lemma_version_text, parsed_version,
    semver_exceeds, Version, VersionView,
};

verus! {

/// Where manifests are updated, and in which mode.
#[derive(Debug, Clone, PartialEq, Eq)]
pub struct CargoUpdateOptions {
    pub repo_root: String,
    pub mode: UpdateMode,
}

/// A dependency of a manifest and its latest version.
#[derive(Debug, Clone, PartialEq, Eq)]
pub struct CargoDependencyEntry {
    pub file: String,
    pub dependency_name: String,
    pub current_requirement: Option<String>,
    pub latest_version: Option<String>,
    pub update_needed: bool,
    pub managed: bool,
    pub reason: Option<String>,
}

/// What a `CargoDependencyEntry` stands for.
pub struct EntryView {
    pub file: Seq<char>,
    pub dependency_name: Seq<char>,
    pub current_requirement: Option<Seq<char>>,
    pub latest_version: Option<Seq<char>>,
    pub update_needed: bool,
    pub managed: bool,
    pub reason: Option<Seq<char>>,
}

impl View for CargoDependencyEntry {
    type V = EntryView;

    open spec fn view(&self) -> EntryView {
        EntryView {
            file: self.file@,
            dependency_name: self.dependency_name@,
            current_requirement: option_view(self.current_requirement),
            latest_version: option_view(self.latest_version),
            update_needed: self.update_needed,
            managed: self.managed,
            reason: option_view(self.reason),
        }
    }
}

/// What updating found and changes. `file_updates` is what the changed manifests are
/// to hold.
#[derive(Debug, Clone, PartialEq, Eq, Default)]
pub struct CargoUpdateReport {
    pub manifest_files: usize,
    pub dependencies_scanned: usize,
    pub unmanaged_dependencies: usize,
    pub entries: Vec<CargoDependencyEntry>,
    pub changes: Vec<UpdateChange>,
    pub file_updates: Vec<FileUpdate>,
}

/// Updates manifests.
#[derive(Debug, Clone, PartialEq, Eq)]
pub struct CargoUpdater {
    pub crates_io: CratesIoClient,
}

/// A manifest that was read.
#[derive(Debug, Clone, PartialEq, Eq)]
pub struct ManifestFile {
    pub path: String,
    pub content: String,
}

/// What a `ManifestFile` stands for.
pub struct ManifestFileView {
    pub path: Seq<char>,
    pub content: Seq<char>,
}

impl View for ManifestFile {
    type V = ManifestFileView;

    open spec fn view(&self) -> ManifestFileView {
        ManifestFileView { path: self.path@, content: self.content@ }
    }
}

/// The latest stable version of a crate, as it was looked up.
#[derive(Debug, Clone, PartialEq, Eq)]
pub struct CrateVersion {
    pub name: String,
    pub version: String,
}

/// What a `CrateVersion` stands for.
pub struct CrateVersionView {
    pub name: Seq<char>,
    pub version: Seq<char>,
}

impl View for CrateVersion {
    type V = CrateVersionView;

    open spec fn view(&self) -> CrateVersionView {
        CrateVersionView { name: self.name@, version: self.version@ }
    }
}

/// How far updating has come: the crate whose latest version it needs next, or what
/// it comes to, or why it failed.
#[derive(Debug, Clone, PartialEq, Eq)]
pub enum CargoProgress<T> {
    Ask(String),
    Done(T),
    Failed(String),
}

/// What a `CargoProgress` stands for.
pub enum CargoProgressView<T> {
    Ask(Seq<char>),
    Done(T),
    Failed(Seq<char>),
}

// ---------------------------------------------------------------------------
// Requirements
// ---------------------------------------------------------------------------
/// The text without the marks in front.
pub open spec fn trim_first(s: Seq<char>, c: char) -> Seq<char>
    decreases s.len(),
{
    if s.len() > 0 && s[0] == c {
        trim_first(s.skip(1), c)
    } else {
        s
    }
}

/// The version with the numbers that are left out; without a `v` in front.
pub open spec fn normalized_version(raw: Seq<char>) -> Option<Seq<char>> {
    let text = trim_first(trim(raw), 'v');
    let numbers = split(text, '.').len();
    if text.len() == 0 {
        None
    } else if numbers == 1 {
        Some(text + ".0.0"@)
    } else if numbers == 2 {
        Some(text + ".0"@)
    } else {
        Some(text)
    }
}

/// The requirement is of a form that is not rewritten: several ranges, a wildcard, a
/// comparison, or blanks in it.
pub open spec fn is_unsupported(text: Seq<char>) -> bool {
    ||| text.len() == 0
    ||| text.contains(',')
    ||| text.contains('*')
    ||| text.contains('>')
    ||| text.contains('<')
    ||| text.contains(' ')
}

/// The operator of a requirement, and what follows it.
pub open spec fn operator_and_rest(text: Seq<char>) -> (Seq<char>, Seq<char>) {
    if starts_with(text, "^"@) {
        ("^"@, text.skip(1))
    } else if starts_with(text, "~"@) {
        ("~"@, text.skip(1))
    } else if starts_with(text, "="@) {
        ("="@, text.skip(1))
    } else {
        (""@, text)
    }
}

/// The operator and the version of a requirement, where it is supported.
pub open spec fn requirement_of(raw: Seq<char>) -> Option<(Seq<char>, VersionView)> {
    let text = trim(raw);
    let (operator, rest) = operator_and_rest(text);
    if is_unsupported(text) {
        None
    } else {
        match normalized_version(trim(rest)) {
            Some(version_text) => match parsed_version(version_text) {
                Some(version) => Some((operator, version)),
                None => None,
            },
            None => None,
        }
    }
}

fn normalize_version(raw: &str) -> (result: Option<String>)
    ensures
        option_view(result) == normalized_version(raw@),
{
    let mut text = trimmed(raw);
    let ghost whole = text@;
    proof {
        reveal_strlit("v");
        reveal_strlit("");
    }
    let mut rest = without_prefix(&text, "v");
    loop
        invariant_except_break
            trim_first(whole, 'v') == trim_first(text@, 'v'),
            match rest {
                Some(tail) => starts_with(text@, "v"@) && tail@ == text@.skip("v"@.len() as int),
                None => !starts_with(text@, "v"@),
            },
        invariant
            "v"@.len() == 1,
            "v"@[0] == 'v',
        ensures
            text@ == trim_first(whole, 'v'),
        decreases text@.len(),
    {
        match rest {
            Some(tail) => {
                assert(text@.subrange(0, 1)[0] == 'v');
                text = tail;
                rest = without_prefix(&text, "v");
            },
            None => {
                proof {
                    if text@.len() > 0 && text@[0] == 'v' {
                        assert(text@.subrange(0, 1) == "v"@);
                    }
                }
                break;
            },
        }
    }
    proof {
        if text@.len() == 0 {
            assert(text@ == ""@);
        }
    }
    if same(&text, "") {
        return None;
    }
    let parts = pieces(&text, '.');
    assert(parts@.len() == views(parts@).len());
    let numbers = parts.len();
    if numbers == 1 {
        Some(join_two(&text, ".0.0"))
    } else if numbers == 2 {
        Some(join_two(&text, ".0"))
    } else {
        Some(text)
    }
}

/// The operator and the version of a requirement, where it is supported.
pub fn parse_requirement(raw: &str) -> (result: Option<(String, Version)>)
    ensures
        match result {
            Some((operator, version)) => requirement_of(raw@) == Some((operator@, version@))
                && version@.is_valid(),
            None => requirement_of(raw@) is None,
        },
{
    let text = trimmed(raw);
    proof {
        reveal_strlit("");
        reveal_strlit("^");
        reveal_strlit("~");
        reveal_strlit("=");
        if text@.len() == 0 {
            assert(text@ == ""@);
        }
    }
    if same(&text, "") || holds_char(&text, ',') || holds_char(&text, '*') || holds_char(&text, '>')
        || holds_char(&text, '<') || holds_char(&text, ' ') {
        return None;
    }
    let (operator, rest) = match without_prefix(&text, "^") {
        Some(rest) => ("^", rest),
        None => match without_prefix(&text, "~") {
            Some(rest) => ("~", rest),
            None => match without_prefix(&text, "=") {
                Some(rest) => ("=", rest),
                None => ("", text.clone()),
            },
        },
    };
    assert(operator_and_rest(text@) == (operator@, rest@));
    match normalize_version(&trimmed(&rest)) {
        Some(version_text) => match Version::parse(&version_text) {
            Some(version) => Some((operator.to_owned(), version)),
            None => None,
        },
        None => None,
    }
}

/// The requirement of the latest version, with the operator of the current one.
pub open spec fn rewritten_requirement(current: Seq<char>, latest: Seq<char>) -> Option<Seq<char>> {
    match requirement_of(current) {
        Some((operator, _)) => Some(operator + latest),
        None => None,
    }
}

/// The requirement of the latest version, with the operator of the current one, where
/// that is supported.
pub fn rewrite_requirement(current_requirement: &str, latest_version: &str) -> (result: Option<
    String,
>)
    ensures
        option_view(result) == rewritten_requirement(current_requirement@, latest_version@),
{
    match parse_requirement(current_requirement) {
        Some((operator, _)) => Some(join_two(&operator, latest_version)),
        None => None,
    }
}

// ---------------------------------------------------------------------------
// Dependencies
// ---------------------------------------------------------------------------
/// What a `ManifestDependency` stands for.
pub struct DependencyView {
    pub name: Seq<char>,
    pub requirement: Option<Seq<char>>,
    pub target: KeyPath,
    pub inline: bool,
    pub managed: bool,
    pub reason: Option<Seq<char>>,
}

/// A dependency that is left alone, and why.
pub open spec fn left_alone(name: Seq<char>, path: KeyPath, reason: Seq<char>) -> DependencyView {
    DependencyView {
        name,
        requirement: None,
        target: path,
        inline: false,
        managed: false,
        reason: Some(reason),
    }
}

/// The dependency at a path.
pub open spec fn dependency_at(nodes: Nodes, table: KeyPath, name: Seq<char>) -> DependencyView {
    let path = table.push(name);
    let version = path.push("version"@);
    if text_at(nodes, path) is Some {
        DependencyView {
            name,
            requirement: text_at(nodes, path),
            target: path,
            inline: false,
            managed: true,
            reason: None,
        }
    } else if !(nodes.contains_key(path) && (nodes[path] is Table || nodes[path] is InlineTable)) {
        left_alone(name, path, "unsupported dependency declaration"@)
    } else if nodes.contains_key(path.push("path"@)) {
        left_alone(name, path, "path dependency"@)
    } else if nodes.contains_key(path.push("git"@)) {
        left_alone(name, path, "git dependency"@)
    } else if nodes.contains_key(path.push("workspace"@)) {
        left_alone(name, path, "workspace dependency"@)
    } else if text_at(nodes, version) is Some {
        DependencyView {
            name,
            requirement: text_at(nodes, version),
            target: version,
            inline: nodes[path] is InlineTable,
            managed: true,
            reason: None,
        }
    } else {
        left_alone(name, path, "missing version requirement"@)
    }
}

/// The dependencies of a table.
pub open spec fn dependencies_of_table(nodes: Nodes, table: KeyPath) -> Seq<DependencyView> {
    match keys_at(nodes, table) {
        Some(keys) => Seq::new(keys.len(), |i: int| dependency_at(nodes, table, keys[i])),
        None => Seq::empty(),
    }
}

/// The tables of dependencies below a path.
pub open spec fn tables_below(path: KeyPath) -> Seq<KeyPath> {
    seq![
        path.push("dependencies"@),
        path.push("dev-dependencies"@),
        path.push("build-dependencies"@),
    ]
}

/// The tables of dependencies of the named targets.
pub open spec fn target_tables(nodes: Nodes, names: Seq<Seq<char>>) -> Seq<KeyPath>
    decreases names.len(),
{
    if names.len() == 0 {
        Seq::empty()
    } else {
        let before = target_tables(nodes, names.drop_last());
        let path = seq!["target"@, names.last()];
        if keys_at(nodes, path) is Some {
            before + tables_below(path)
        } else {
            before
        }
    }
}

/// The tables of dependencies of a manifest: its own, those of the workspace, and
/// those of its targets.
pub open spec fn dependency_tables(nodes: Nodes) -> Seq<KeyPath> {
    let own = tables_below(Seq::empty());
    let shared = if keys_at(nodes, seq!["workspace"@]) is Some {
        own.push(seq!["workspace"@, "dependencies"@])
    } else {
        own
    };
    match keys_at(nodes, seq!["target"@]) {
        Some(names) => shared + target_tables(nodes, names),
        None => shared,
    }
}

/// The dependencies of the tables.
pub open spec fn dependencies_of(nodes: Nodes, tables: Seq<KeyPath>) -> Seq<DependencyView>
    decreases tables.len(),
{
    if tables.len() == 0 {
        Seq::empty()
    } else {
        dependencies_of(nodes, tables.drop_last()) + dependencies_of_table(nodes, tables.last())
    }
}

/// The dependencies of a manifest.
pub open spec fn all_dependencies(nodes: Nodes) -> Seq<DependencyView> {
    dependencies_of(nodes, dependency_tables(nodes))
}

/// A dependency of a manifest. `target` is the path of its requirement, which is `inline`
/// where it is an entry of an inline table.
#[derive(Debug, Clone, PartialEq, Eq)]
pub struct ManifestDependency {
    pub name: String,
    pub requirement: Option<String>,
    pub target: Vec<String>,
    pub inline: bool,
    pub managed: bool,
    pub reason: Option<String>,
}

impl View for ManifestDependency {
    type V = DependencyView;

    open spec fn view(&self) -> DependencyView {
        DependencyView {
            name: self.name@,
            requirement: option_view(self.requirement),
            target: views(self.target@),
            inline: self.inline,
            managed: self.managed,
            reason: option_view(self.reason),
        }
    }
}

fn unmanaged_reason(name: &str, path: Vec<String>, reason: &str) -> (result: ManifestDependency)
    ensures
        result@ == left_alone(name@, views(path@), reason@),
{
    ManifestDependency {
        name: name.to_owned(),
        requirement: None,
        target: path,
        inline: false,
        managed: false,
        reason: Some(reason.to_owned()),
    }
}

fn analyze_table(document: &DocumentMut, name: &str, path: Vec<String>, inline: bool) -> (result:
    ManifestDependency)
    requires
        views(path@).len() > 0,
        views(path@).last() == name@,
        toml_nodes(*document).contains_key(views(path@)),
        inline ==> toml_nodes(*document)[views(path@)] is InlineTable,
        !inline ==> toml_nodes(*document)[views(path@)] is Table,
    ensures
        result@ == dependency_at(toml_nodes(*document), views(path@).drop_last(), name@),
{
    assert(views(path@).drop_last().push(name@) == views(path@));
    if node_at(document, &extended(&path, "path")).is_some() {
        return unmanaged_reason(name, path, "path dependency");
    }
    if node_at(document, &extended(&path, "git")).is_some() {
        return unmanaged_reason(name, path, "git dependency");
    }
    if node_at(document, &extended(&path, "workspace")).is_some() {
        return unmanaged_reason(name, path, "workspace dependency");
    }
    let target = extended(&path, "version");
    match read_text(document, &target) {
        Some(requirement) => ManifestDependency {
            name: name.to_owned(),
            requirement: Some(requirement),
            target,
            inline,
            managed: true,
            reason: None,
        },
        None => unmanaged_reason(name, path, "missing version requirement"),
    }
}

fn analyze_dependency_item(document: &DocumentMut, table: &Vec<String>, name: &str) -> (result:
    ManifestDependency)
    ensures
        result@ == dependency_at(toml_nodes(*document), views(table@), name@),
{
    let path = extended(table, name);
    assert(views(path@).drop_last() == views(table@));
    match node_at(document, &path) {
        Some(Node::Text(requirement)) => ManifestDependency {
            name: name.to_owned(),
            requirement: Some(requirement),
            target: path,
            inline: false,
            managed: true,
            reason: None,
        },
        Some(Node::InlineTable) => analyze_table(document, name, path, true),
        Some(Node::Table(_)) => analyze_table(document, name, path, false),
        _ => unmanaged_reason(name, path, "unsupported dependency declaration"),
    }
}

/// Puts the tables of dependencies below a path behind others.
fn push_tables(tables: &mut Vec<Vec<String>>, path: &Vec<String>)
    ensures
        path_views(final(tables)@) == path_views(old(tables)@) + tables_below(views(path@)),
{
    let ghost before = path_views(tables@);
    tables.push(extended(path, "dependencies"));
    tables.push(extended(path, "dev-dependencies"));
    tables.push(extended(path, "build-dependencies"));
    assert(path_views(tables@) == before + tables_below(views(path@)));
}

/// The tables of dependencies of a manifest.
fn find_tables(document: &DocumentMut) -> (result: Vec<Vec<String>>)
    ensures
        path_views(result@) == dependency_tables(toml_nodes(*document)),
{
    let ghost nodes = toml_nodes(*document);
    let mut tables: Vec<Vec<String>> = Vec::new();
    let root: Vec<String> = Vec::new();
    assert(views(root@) == Seq::<Seq<char>>::empty());
    assert(path_views(tables@) == Seq::<KeyPath>::empty());
    push_tables(&mut tables, &root);
    assert(path_views(tables@) == tables_below(Seq::empty()));
    if read_keys(document, &path_of_one("workspace")).is_some() {
        let ghost before = path_views(tables@);
        tables.push(path_of_two("workspace", "dependencies"));
        assert(path_views(tables@) == before.push(seq!["workspace"@, "dependencies"@]));
    }
    let ghost shared = path_views(tables@);
    match read_keys(document, &path_of_one("target")) {
        Some(names) => {
            let ghost all = views(names@);
            let mut i: usize = 0;
            assert(path_views(tables@) == shared + target_tables(nodes, all.take(0)));
            while i < names.len()
                invariant
                    i <= names.len(),
                    nodes == toml_nodes(*document),
                    all == views(names@),
                    path_views(tables@) == shared + target_tables(nodes, all.take(i as int)),
                decreases names.len() - i,
            {
                proof {
                    assert(all.take(i + 1).drop_last() == all.take(i as int));
                    assert(all.take(i + 1).last() == names@[i as int]@);
                }
                let ghost before = path_views(tables@);
                let path = path_of_two("target", &names[i]);
                if read_keys(document, &path).is_some() {
                    push_tables(&mut tables, &path);
                    assert(path_views(tables@) == shared + target_tables(
                        nodes,
                        all.take(i + 1),
                    ));
                }
                i = i + 1;
            }
            assert(all.take(i as int) == all);
        },
        None => {},
    }
    tables
}

/// The dependencies of a manifest, table by table.
pub fn collect_dependencies(document: &DocumentMut) -> (result: Vec<ManifestDependency>)
    ensures
        views(result@) == all_dependencies(toml_nodes(*document)),
{
    let ghost nodes = toml_nodes(*document);
    let tables = find_tables(document);
    let ghost all = path_views(tables@);
    let mut result: Vec<ManifestDependency> = Vec::new();
    let mut i: usize = 0;
    assert(views(result@) == dependencies_of(nodes, all.take(0)));
    while i < tables.len()
        invariant
            i <= tables.len(),
            nodes == toml_nodes(*document),
            all == path_views(tables@),
            views(result@) == dependencies_of(nodes, all.take(i as int)),
        decreases tables.len() - i,
    {
        proof {
            assert(all.take(i + 1).drop_last() == all.take(i as int));
            assert(all.take(i + 1).last() == views(tables@[i as int]@));
        }
        let ghost before = views(result@);
        collect_dependency_table(document, &tables[i], &mut result);
        i = i + 1;
    }
    assert(all.take(i as int) == all);
    result
}

fn collect_dependency_table(
    document: &DocumentMut,
    table: &Vec<String>,
    dependencies: &mut Vec<ManifestDependency>,
)
    ensures
        views(final(dependencies)@) == views(old(dependencies)@) + dependencies_of_table(
            toml_nodes(*document),
            views(table@),
        ),
{
    let ghost nodes = toml_nodes(*document);
    let ghost before = views(dependencies@);
    let ghost found = dependencies_of_table(nodes, views(table@));
    match read_keys(document, table) {
        Some(keys) => {
            let mut i: usize = 0;
            assert(views(dependencies@) == before + found.take(0));
            while i < keys.len()
                invariant
                    i <= keys.len(),
                    nodes == toml_nodes(*document),
                    keys_at(nodes, views(table@)) == Some(views(keys@)),
                    found == dependencies_of_table(nodes, views(table@)),
                    views(dependencies@) == before + found.take(i as int),
                decreases keys.len() - i,
            {
                let ghost so_far = dependencies@;
                let dependency = analyze_dependency_item(document, table, &keys[i]);
                dependencies.push(dependency);
                proof {
                    assert(views(keys@)[i as int] == keys@[i as int]@);
                    assert(found[i as int] == dependency@);
                    assert(views(dependencies@) == views(so_far).push(dependency@));
                    assert(found.take(i + 1) == found.take(i as int).push(dependency@));
                }
                i = i + 1;
            }
            assert(found.take(i as int) == found);
        },
        None => {
            assert(views(dependencies@) == before + found);
        },
    }
}

// ---------------------------------------------------------------------------
// Updating
// ---------------------------------------------------------------------------
/// A replaced requirement: its path, whether it is an entry of an inline table, and its new
/// text.
pub struct EditView {
    pub path: KeyPath,
    pub inline: bool,
    pub text: Seq<char>,
}

/// What a manifest holds after the edits.
pub open spec fn with_edits(nodes: Nodes, edits: Seq<EditView>) -> Nodes
    decreases edits.len(),
{
    if edits.len() == 0 {
        nodes
    } else {
        with_edits(nodes, edits.drop_last()).insert(
            edits.last().path,
            NodeView::Text(edits.last().text),
        )
    }
}

/// What a manifest comes to.
pub struct ManifestView {
    pub entries: Seq<EntryView>,
    pub changes: Seq<UpdateChangeView>,
    pub unmanaged: nat,
    pub edits: Seq<EditView>,
}

/// The version of a crate among those that were looked up; the first that is there.
pub open spec fn known_version(known: Seq<CrateVersionView>, name: Seq<char>) -> Option<Seq<char>>
    decreases known.len(),
{
    if known.len() == 0 {
        None
    } else if known[0].name == name {
        Some(known[0].version)
    } else {
        known_version(known.skip(1), name)
    }
}

/// The entry of a dependency that is left alone.
pub open spec fn unmanaged_entry(
    file: Seq<char>,
    dependency: DependencyView,
    reason: Option<Seq<char>>,
) -> EntryView {
    EntryView {
        file,
        dependency_name: dependency.name,
        current_requirement: dependency.requirement,
        latest_version: None,
        update_needed: false,
        managed: false,
        reason,
    }
}

/// The manifest with one dependency more that is left alone.
pub open spec fn with_unmanaged(before: ManifestView, entry: EntryView) -> ManifestView {
    ManifestView {
        entries: before.entries.push(entry),
        unmanaged: before.unmanaged + 1,
        ..before
    }
}

/// The manifest with one dependency more that has a supported requirement.
pub open spec fn with_managed(
    file: Seq<char>,
    mode: UpdateMode,
    dependency: DependencyView,
    operator: Seq<char>,
    latest: Seq<char>,
    update_needed: bool,
    before: ManifestView,
) -> ManifestView {
    let entries = before.entries.push(
        EntryView {
            file,
            dependency_name: dependency.name,
            current_requirement: dependency.requirement,
            latest_version: Some(latest),
            update_needed,
            managed: true,
            reason: None,
        },
    );
    if update_needed && mode != UpdateMode::Status {
        ManifestView {
            entries,
            changes: before.changes.push(
                UpdateChangeView {
                    kind: UpdateChangeKind::CargoDependency,
                    file,
                    line_number: None,
                    subject: dependency.name,
                    from_version: dependency.requirement->0,
                    to_version: operator + latest,
                },
            ),
            unmanaged: before.unmanaged,
            edits: before.edits.push(
                EditView {
                    path: dependency.target,
                    inline: dependency.inline,
                    text: operator + latest,
                },
            ),
        }
    } else {
        ManifestView { entries, ..before }
    }
}

/// What a manifest comes to with one dependency more.
pub open spec fn manifest_with(
    file: Seq<char>,
    mode: UpdateMode,
    known: Seq<CrateVersionView>,
    dependency: DependencyView,
    before: ManifestView,
) -> CargoProgressView<ManifestView> {
    if !dependency.managed {
        CargoProgressView::Done(
            with_unmanaged(before, unmanaged_entry(file, dependency, dependency.reason)),
        )
    } else {
        match requirement_of(dependency.requirement->0) {
            None => CargoProgressView::Done(
                with_unmanaged(
                    before,
                    unmanaged_entry(file, dependency, Some("unsupported version requirement"@)),
                ),
            ),
            Some((operator, current)) => match known_version(known, dependency.name) {
                None => CargoProgressView::Ask(dependency.name),
                Some(latest) => match parsed_version(latest) {
                    None => CargoProgressView::Failed(
                        "invalid crates.io version '"@ + latest + "'"@,
                    ),
                    Some(version) => CargoProgressView::Done(
                        with_managed(
                            file,
                            mode,
                            dependency,
                            operator,
                            latest,
                            semver_exceeds(version, current),
                            before,
                        ),
                    ),
                },
            },
        }
    }
}

/// What a manifest comes to from the `i`-th dependency on.
pub open spec fn manifest_from(
    file: Seq<char>,
    mode: UpdateMode,
    known: Seq<CrateVersionView>,
    dependencies: Seq<DependencyView>,
    i: int,
    before: ManifestView,
) -> CargoProgressView<ManifestView>
    decreases dependencies.len() - i,
{
    if i < 0 || i >= dependencies.len() {
        CargoProgressView::Done(before)
    } else {
        match manifest_with(file, mode, known, dependencies[i], before) {
            CargoProgressView::Ask(name) => CargoProgressView::Ask(name),
            CargoProgressView::Failed(message) => CargoProgressView::Failed(message),
            CargoProgressView::Done(next) => manifest_from(
                file,
                mode,
                known,
                dependencies,
                i + 1,
                next,
            ),
        }
    }
}

/// Nothing found yet.
pub open spec fn empty_manifest() -> ManifestView {
    ManifestView {
        entries: Seq::empty(),
        changes: Seq::empty(),
        unmanaged: 0,
        edits: Seq::empty(),
    }
}

/// What is said of a manifest that is not TOML.
pub open spec fn invalid_manifest(file: ManifestFileView) -> Seq<char> {
    "failed to parse Cargo manifest '"@ + file.path + "': "@ + toml_error(file.content)
}

/// What a manifest comes to.
pub open spec fn manifest_result(
    file: ManifestFileView,
    mode: UpdateMode,
    known: Seq<CrateVersionView>,
) -> CargoProgressView<ManifestView> {
    match parsed_toml(file.content) {
        None => CargoProgressView::Failed(invalid_manifest(file)),
        Some(nodes) => manifest_from(
            file.path,
            mode,
            known,
            all_dependencies(nodes),
            0,
            empty_manifest(),
        ),
    }
}

/// What a manifest comes to.
#[derive(Debug, Clone, PartialEq, Eq)]
pub struct ManifestUpdateResult {
    pub entries: Vec<CargoDependencyEntry>,
    pub changes: Vec<UpdateChange>,
    pub file_update: Option<FileUpdate>,
    pub unmanaged_dependencies: usize,
}

/// The result is what the manifest comes to: its new content, where there are edits,
/// reads as the manifest with the edits.
pub open spec fn is_result_of(
    result: ManifestUpdateResult,
    file: ManifestFileView,
    expected: ManifestView,
) -> bool {
    &&& views(result.entries@) == expected.entries
    &&& views(result.changes@) == expected.changes
    &&& result.unmanaged_dependencies == expected.unmanaged
    &&& match result.file_update {
        Some(update) => expected.edits.len() > 0 && is_update_of(update@, file, expected.edits),
        None => expected.edits.len() == 0,
    }
}

/// The new content of a manifest reads as the manifest with the edits. Comments and
/// layout are those of the manifest: only the values of the requirements differ, and in
/// inline tables their keys.
pub open spec fn is_update_of(
    update: FileUpdateView,
    file: ManifestFileView,
    edits: Seq<EditView>,
) -> bool {
    &&& update.file == file.path
    &&& parsed_toml(file.content) is Some
    &&& parsed_toml(update.updated_content) == Some(
        with_edits(parsed_toml(file.content)->0, edits),
    )
    &&& is_edited(update.updated_content, file.content, edits_of_text(edits))
}

/// The edits of a manifest as texts that are replaced.
pub open spec fn edits_of_text(edits: Seq<EditView>) -> Seq<TextEdit> {
    edits.map_values(
        |edit: EditView| place_edit(Place { path: edit.path, entry: edit.inline }, edit.text),
    )
}

fn cached_latest_version(known: &Vec<CrateVersion>, name: &str) -> (result: Option<String>)
    ensures
        option_view(result) == known_version(views(known@), name@),
{
    let ghost all = views(known@);
    let mut i: usize = 0;
    assert(all.skip(0) == all);
    while i < known.len()
        invariant
            i <= known.len(),
            all == views(known@),
            known_version(all, name@) == known_version(all.skip(i as int), name@),
        decreases known.len() - i,
    {
        proof {
            assert(all.skip(i as int)[0] == known@[i as int]@);
            assert(all.skip(i as int).skip(1) == all.skip(i + 1));
        }
        if same(&known[i].name, name) {
            return Some(known[i].version.clone());
        }
        i = i + 1;
    }
    None
}

fn build_unmanaged_entry(
    file: &str,
    dependency: &ManifestDependency,
    reason: Option<String>,
) -> (result: CargoDependencyEntry)
    ensures
        result@ == unmanaged_entry(file@, dependency@, option_view(reason)),
{
    CargoDependencyEntry {
        file: file.to_owned(),
        dependency_name: dependency.name.clone(),
        current_requirement: copy_option(&dependency.requirement),
        latest_version: None,
        update_needed: false,
        managed: false,
        reason,
    }
}

/// A dependency that is managed has a requirement at its target.
proof fn lemma_targets_hold_texts(nodes: Nodes, tables: Seq<KeyPath>)
    ensures
        forall|i: int|
            0 <= i < dependencies_of(nodes, tables).len() && (#[trigger] dependencies_of(
                nodes,
                tables,
            )[i]).managed ==> holds_text(nodes, target_place(dependencies_of(nodes, tables)[i]))
                && dependencies_of(nodes, tables)[i].requirement is Some,
    decreases tables.len(),
{
    if tables.len() > 0 {
        lemma_targets_hold_texts(nodes, tables.drop_last());
        let before = dependencies_of(nodes, tables.drop_last());
        let found = dependencies_of_table(nodes, tables.last());
        let all = dependencies_of(nodes, tables);
        assert forall|i: int| 0 <= i < all.len() && (#[trigger] all[i]).managed implies holds_text(
            nodes,
            target_place(all[i]),
        ) && all[i].requirement is Some by {
            if i < before.len() {
                assert(all[i] == before[i]);
            } else {
                assert(all[i] == found[i - before.len()]);
                let path = tables.last().push(all[i].name);
                assert(path.push("version"@).drop_last() == path);
            }
        }
    }
}

/// Where the requirement of a dependency stands.
pub open spec fn target_place(dependency: DependencyView) -> Place {
    Place { path: dependency.target, entry: dependency.inline }
}

/// Where a text stood, a text still stands, and inline tables stay.
proof fn lemma_edits_keep_places(nodes: Nodes, edits: Seq<EditView>, place: Place)
    requires
        holds_text(nodes, place),
        forall|k: int| 0 <= k < edits.len() ==> text_at(nodes, (#[trigger] edits[k]).path) is Some,
    ensures
        holds_text(with_edits(nodes, edits), place),
    decreases edits.len(),
{
    if edits.len() > 0 {
        assert forall|k: int| 0 <= k < edits.drop_last().len() implies text_at(
            nodes,
            (#[trigger] edits.drop_last()[k]).path,
        ) is Some by {
            assert(edits.drop_last()[k] == edits[k]);
        }
        lemma_edits_keep_places(nodes, edits.drop_last(), place);
        assert(text_at(nodes, edits[edits.len() - 1].path) is Some);
    }
}

/// What the document of a manifest comes to.
pub struct DocumentUpdate {
    pub document: DocumentMut,
    pub entries: Vec<CargoDependencyEntry>,
    pub changes: Vec<UpdateChange>,
    pub unmanaged_dependencies: usize,
}

/// The result is what a manifest comes to that holds the nodes.
pub open spec fn is_document_of(
    result: DocumentUpdate,
    nodes: Nodes,
    expected: ManifestView,
) -> bool {
    &&& views(result.entries@) == expected.entries
    &&& views(result.changes@) == expected.changes
    &&& result.unmanaged_dependencies == expected.unmanaged
    &&& toml_nodes(result.document) == with_edits(nodes, expected.edits)
    &&& result.changes@.len() == expected.edits.len()
    &&& result.unmanaged_dependencies <= result.entries@.len()
}

/// What the document of a manifest comes to: an entry for each dependency, and a change
/// for each that is moved to its latest version. Its requirement is rewritten, and nothing
/// else.
pub fn process_document(
    file: &str,
    source: DocumentMut,
    mode: UpdateMode,
    known: &Vec<CrateVersion>,
) -> (result: CargoProgress<DocumentUpdate>)
    ensures
        match (
            result,
            manifest_from(
                file@,
                mode,
                views(known@),
                all_dependencies(toml_nodes(source)),
                0,
                empty_manifest(),
            ),
        ) {
            (CargoProgress::Ask(name), CargoProgressView::Ask(expected)) => name@ == expected,
            (CargoProgress::Failed(message), CargoProgressView::Failed(expected)) => message@
                == expected,
            (CargoProgress::Done(found), CargoProgressView::Done(expected)) => is_document_of(
                found,
                toml_nodes(source),
                expected,
            ) && toml_history(found.document) == with_history(
                toml_history(source),
                edits_of_text(expected.edits),
            ),
            _ => false,
        },
{
    let ghost nodes = toml_nodes(source);
    let mut document = source;
    let dependencies = collect_dependencies(&document);
    let ghost all = views(dependencies@);
    let ghost versions = views(known@);
    let mut entries: Vec<CargoDependencyEntry> = Vec::new();
    let mut changes: Vec<UpdateChange> = Vec::new();
    let mut unmanaged: usize = 0;
    let ghost mut edits: Seq<EditView> = Seq::empty();
    let mut i: usize = 0;
    proof {
        lemma_targets_hold_texts(nodes, dependency_tables(nodes));
        assert(views(entries@) == Seq::<EntryView>::empty());
        assert(views(changes@) == Seq::<UpdateChangeView>::empty());
        assert(edits_of_text(edits) == Seq::<TextEdit>::empty());
        lemma_no_more_history(toml_history(source));
    }
    while i < dependencies.len()
        invariant
            i <= dependencies.len(),
            all == views(dependencies@),
            all == all_dependencies(nodes),
            versions == views(known@),
            nodes == toml_nodes(source),
            toml_history(document) == with_history(toml_history(source), edits_of_text(edits)),
            toml_nodes(document) == with_edits(nodes, edits),
            unmanaged <= entries.len(),
            entries.len() == i,
            changes.len() == edits.len(),
            forall|k: int|
                0 <= k < all.len() && (#[trigger] all[k]).managed ==> holds_text(
                    nodes,
                    target_place(all[k]),
                ) && all[k].requirement is Some,
            forall|k: int|
                0 <= k < edits.len() ==> text_at(nodes, (#[trigger] edits[k]).path) is Some,
            manifest_from(file@, mode, versions, all, 0, empty_manifest()) == manifest_from(
                file@,
                mode,
                versions,
                all,
                i as int,
                ManifestView {
                    entries: views(entries@),
                    changes: views(changes@),
                    unmanaged: unmanaged as nat,
                    edits,
                },
            ),
        decreases dependencies.len() - i,
    {
        let dependency = &dependencies[i];
        let ghost so_far = entries@;
        assert(all[i as int] == dependency@);
        if !dependency.managed {
            let entry = build_unmanaged_entry(file, dependency, copy_option(&dependency.reason));
            entries.push(entry);
            unmanaged = unmanaged + 1;
            assert(views(entries@) == views(so_far).push(entry@));
            i = i + 1;
            continue;
        }
        let current = match &dependency.requirement {
            Some(requirement) => requirement.clone(),
            None => {
                assert(all[i as int].requirement is Some);
                String::new()
            },
        };
        match parse_requirement(&current) {
            None => {
                let entry = build_unmanaged_entry(
                    file,
                    dependency,
                    Some("unsupported version requirement".to_owned()),
                );
                entries.push(entry);
                unmanaged = unmanaged + 1;
                assert(views(entries@) == views(so_far).push(entry@));
            },
            Some((_, version)) => {
                let latest = match cached_latest_version(known, &dependency.name) {
                    Some(latest) => latest,
                    None => {
                        return CargoProgress::Ask(dependency.name.clone());
                    },
                };
                let latest_version = match Version::parse(&latest) {
                    Some(latest_version) => latest_version,
                    None => {
                        return CargoProgress::Failed(
                            join_three("invalid crates.io version '", &latest, "'"),
                        );
                    },
                };
                let update_needed = exceeds(&latest_version, &version);
                let entry = CargoDependencyEntry {
                    file: file.to_owned(),
                    dependency_name: dependency.name.clone(),
                    current_requirement: Some(current.clone()),
                    latest_version: Some(latest.clone()),
                    update_needed,
                    managed: true,
                    reason: None,
                };
                entries.push(entry);
                assert(views(entries@) == views(so_far).push(entry@));
                if update_needed && mode != UpdateMode::Status {
                    let requirement = match rewrite_requirement(&current, &latest) {
                        Some(requirement) => requirement,
                        None => {
                            assert(requirement_of(current@) is Some);
                            String::new()
                        },
                    };
                    proof {
                        lemma_edits_keep_places(nodes, edits, target_place(dependency@));
                        let edit = EditView {
                            path: dependency@.target,
                            inline: dependency.inline,
                            text: requirement@,
                        };
                        assert(edits.push(edit).drop_last() == edits);
                        let made = edits_of_text(edits);
                        let now = seq![place_edit(target_place(dependency@), edit.text)];
                        lemma_histories_add_up(toml_history(source), made, now);
                        assert(made + now == edits_of_text(edits.push(edit)));
                        edits = edits.push(edit);
                    }
                    replace_text(
                        &mut document,
                        &dependency.target,
                        dependency.inline,
                        &requirement,
                    );
                    let ghost before = changes@;
                    let change = UpdateChange {
                        kind: UpdateChangeKind::CargoDependency,
                        file: file.to_owned(),
                        line_number: None,
                        subject: dependency.name.clone(),
                        from_version: current,
                        to_version: requirement,
                    };
                    changes.push(change);
                    assert(views(changes@) == views(before).push(change@));
                }
            },
        }
        i = i + 1;
    }
    CargoProgress::Done(
        DocumentUpdate { document, entries, changes, unmanaged_dependencies: unmanaged },
    )
}

/// What a manifest comes to: an entry for each dependency, a change for each that is
/// moved to its latest version, and the new content where there is a change.
pub fn process_manifest(
    manifest: &ManifestFile,
    mode: UpdateMode,
    known: &Vec<CrateVersion>,
) -> (result: CargoProgress<ManifestUpdateResult>)
    ensures
        match (result, manifest_result(manifest@, mode, views(known@))) {
            (CargoProgress::Ask(name), CargoProgressView::Ask(expected)) => name@ == expected,
            (CargoProgress::Failed(message), CargoProgressView::Failed(expected)) => message@
                == expected,
            (CargoProgress::Done(found), CargoProgressView::Done(expected)) => is_result_of(
                found,
                manifest@,
                expected,
            ) && found.unmanaged_dependencies <= found.entries@.len(),
            _ => false,
        },
{
    let document = match parse_toml(&manifest.content) {
        Ok(document) => document,
        Err(error) => {
            return CargoProgress::Failed(
                join_four("failed to parse Cargo manifest '", &manifest.path, "': ", &error),
            );
        },
    };
    match process_document(&manifest.path, document, mode, known) {
        CargoProgress::Ask(name) => CargoProgress::Ask(name),
        CargoProgress::Failed(message) => CargoProgress::Failed(message),
        CargoProgress::Done(found) => {
            let file_update = if found.changes.len() > 0 {
                Some(
                    FileUpdate {
                        file: manifest.path.clone(),
                        updated_content: render_toml(&found.document),
                    },
                )
            } else {
                None
            };
            CargoProgress::Done(
                ManifestUpdateResult {
                    entries: found.entries,
                    changes: found.changes,
                    file_update,
                    unmanaged_dependencies: found.unmanaged_dependencies,
                },
            )
        },
    }
}

// ---------------------------------------------------------------------------
// All manifests
// ---------------------------------------------------------------------------
/// What the manifests come to. `updates` are the changed manifests with their edits.
pub struct ReportView {
    pub entries: Seq<EntryView>,
    pub changes: Seq<UpdateChangeView>,
    pub unmanaged: nat,
    pub updates: Seq<(ManifestFileView, Seq<EditView>)>,
}

/// Nothing found yet.
pub open spec fn empty_report() -> ReportView {
    ReportView {
        entries: Seq::empty(),
        changes: Seq::empty(),
        unmanaged: 0,
        updates: Seq::empty(),
    }
}

/// What the manifests come to with one more.
pub open spec fn report_with(
    before: ReportView,
    file: ManifestFileView,
    found: ManifestView,
) -> ReportView {
    ReportView {
        entries: before.entries + found.entries,
        changes: before.changes + found.changes,
        unmanaged: before.unmanaged + found.unmanaged,
        updates: if found.edits.len() > 0 {
            before.updates.push((file, found.edits))
        } else {
            before.updates
        },
    }
}

/// What the manifests come to from the `i`-th on.
pub open spec fn report_from(
    files: Seq<ManifestFileView>,
    mode: UpdateMode,
    known: Seq<CrateVersionView>,
    i: int,
    before: ReportView,
) -> CargoProgressView<ReportView>
    decreases files.len() - i,
{
    if i < 0 || i >= files.len() {
        CargoProgressView::Done(before)
    } else {
        match manifest_result(files[i], mode, known) {
            CargoProgressView::Ask(name) => CargoProgressView::Ask(name),
            CargoProgressView::Failed(message) => CargoProgressView::Failed(message),
            CargoProgressView::Done(found) => report_from(
                files,
                mode,
                known,
                i + 1,
                report_with(before, files[i], found),
            ),
        }
    }
}

/// What the manifests come to.
pub open spec fn report_of(
    files: Seq<ManifestFileView>,
    mode: UpdateMode,
    known: Seq<CrateVersionView>,
) -> CargoProgressView<ReportView> {
    report_from(files, mode, known, 0, empty_report())
}

/// The updates are those of the manifests with their edits.
pub open spec fn are_updates_of(
    updates: Seq<FileUpdateView>,
    expected: Seq<(ManifestFileView, Seq<EditView>)>,
) -> bool {
    &&& updates.len() == expected.len()
    &&& forall|i: int|
        0 <= i < updates.len() ==> is_update_of(
            #[trigger] updates[i],
            expected[i].0,
            expected[i].1,
        )
}

impl CargoUpdater {
    /// An updater that asks the given client.
    pub fn new(crates_io: CratesIoClient) -> (result: Self)
        ensures
            result.crates_io == crates_io,
    {
        CargoUpdater { crates_io }
    }

    /// Reports for every dependency of the manifests its requirement and its latest
    /// version, as far as those in `known` reach. Except in `Status` mode,
    /// requirements that the latest version exceeds are moved to it, and
    /// `file_updates` is what the manifests are to hold.
    pub fn update(
        &self,
        options: &CargoUpdateOptions,
        manifests: &Vec<ManifestFile>,
        known: &Vec<CrateVersion>,
    ) -> (result: CargoProgress<CargoUpdateReport>)
        ensures
            match (result, report_of(views(manifests@), options.mode, views(known@))) {
                (CargoProgress::Ask(name), CargoProgressView::Ask(expected)) => name@ == expected,
                (CargoProgress::Failed(message), CargoProgressView::Failed(expected)) => message@
                    == expected,
                (CargoProgress::Done(report), CargoProgressView::Done(expected)) => {
                    &&& report.manifest_files == manifests@.len()
                    &&& report.dependencies_scanned == expected.entries.len()
                    &&& report.unmanaged_dependencies == expected.unmanaged
                    &&& views(report.entries@) == expected.entries
                    &&& views(report.changes@) == expected.changes
                    &&& are_updates_of(views(report.file_updates@), expected.updates)
                },
                _ => false,
            },
    {
        let ghost all = views(manifests@);
        let ghost versions = views(known@);
        let mut entries: Vec<CargoDependencyEntry> = Vec::new();
        let mut changes: Vec<UpdateChange> = Vec::new();
        let mut file_updates: Vec<FileUpdate> = Vec::new();
        let mut unmanaged: usize = 0;
        let ghost mut updates: Seq<(ManifestFileView, Seq<EditView>)> = Seq::empty();
        let mut i: usize = 0;
        proof {
            assert(views(entries@) == Seq::<EntryView>::empty());
            assert(views(changes@) == Seq::<UpdateChangeView>::empty());
        }
        while i < manifests.len()
            invariant
                i <= manifests.len(),
                all == views(manifests@),
                versions == views(known@),
                unmanaged <= entries.len(),
                are_updates_of(views(file_updates@), updates),
                report_of(all, options.mode, versions) == report_from(
                    all,
                    options.mode,
                    versions,
                    i as int,
                    ReportView {
                        entries: views(entries@),
                        changes: views(changes@),
                        unmanaged: unmanaged as nat,
                        updates,
                    },
                ),
            decreases manifests.len() - i,
        {
            assert(all[i as int] == manifests@[i as int]@);
            match process_manifest(&manifests[i], options.mode, known) {
                CargoProgress::Ask(name) => {
                    return CargoProgress::Ask(name);
                },
                CargoProgress::Failed(message) => {
                    return CargoProgress::Failed(message);
                },
                CargoProgress::Done(found) => {
                    let ghost expected = manifest_result(all[i as int], options.mode, versions)->Done_0;
                    let ManifestUpdateResult {
                        entries: mut more_entries,
                        changes: mut more_changes,
                        file_update,
                        unmanaged_dependencies,
                    } = found;
                    let ghost before = (views(entries@), views(changes@));
                    let ghost added = (views(more_entries@), views(more_changes@));
                    entries.append(&mut more_entries);
                    changes.append(&mut more_changes);
                    assert(views(entries@) == before.0 + added.0);
                    assert(views(changes@) == before.1 + added.1);
                    let total: usize = entries.len();
                    assert(unmanaged + unmanaged_dependencies <= total);
                    unmanaged = unmanaged + unmanaged_dependencies;
                    match file_update {
                        Some(update) => {
                            let ghost so_far = views(file_updates@);
                            file_updates.push(update);
                            proof {
                                assert(views(file_updates@) == so_far.push(update@));
                                updates = updates.push((all[i as int], expected.edits));
                            }
                        },
                        None => {},
                    }
                },
            }
            i = i + 1;
        }
        CargoProgress::Done(
            CargoUpdateReport {
                manifest_files: manifests.len(),
                dependencies_scanned: entries.len(),
                unmanaged_dependencies: unmanaged,
                entries,
                changes,
                file_updates,
            },
        )
    }
}

// ---------------------------------------------------------------------------
// Files
// ---------------------------------------------------------------------------
/// The name is that of a directory with nothing to scan: build outputs, version
/// control, installed packages.
pub open spec fn is_skipped_directory(name: Seq<char>) -> bool {
    ||| name == "target"@
    ||| name == ".git"@
    ||| name == ".hg"@
    ||| name == ".svn"@
    ||| name == "node_modules"@
}

/// Whether a walk through the repository goes into an entry. The root is always
/// walked, and so is a directory whose name is no text.
pub fn should_scan_entry(depth: usize, is_directory: bool, name: &Option<String>) -> (result: bool)
    ensures
        result == (depth == 0 || !is_directory || name is None || !is_skipped_directory(
            name->0@,
        )),
{
    if depth == 0 || !is_directory {
        return true;
    }
    match name {
        Some(name) => !(same(name, "target") || same(name, ".git") || same(name, ".hg") || same(
            name,
            ".svn",
        ) || same(name, "node_modules")),
        None => true,
    }
}

/// Whether the file has the name.
fn is_named(path: &str, name: &str) -> (result: bool)
    ensures
        result == (file_name(path@) == name@),
{
    match cut_last(path, '/') {
        Some((_, last)) => same(&last, name),
        None => same(path, name),
    }
}

/// The manifests among the files, in the order of paths.
pub fn discover_manifest_files(files: &Vec<String>) -> (result: Vec<String>)
    ensures
        is_sorted(views(result@)),
        views(result@).to_multiset() == views(files@).filter(
            |path: Seq<char>| file_name(path) == "Cargo.toml"@,
        ).to_multiset(),
{
    let ghost all = views(files@);
    let ghost keep = |path: Seq<char>| file_name(path) == "Cargo.toml"@;
    let mut result: Vec<String> = Vec::new();
    let mut i: usize = 0;
    proof {
        reveal(Seq::filter);
        assert(views(result@) == all.take(0).filter(keep));
    }
    while i < files.len()
        invariant
            i <= files.len(),
            all == views(files@),
            keep == (|path: Seq<char>| file_name(path) == "Cargo.toml"@),
            is_sorted(views(result@)),
            views(result@).to_multiset() == all.take(i as int).filter(keep).to_multiset(),
        decreases files.len() - i,
    {
        proof {
            reveal(Seq::filter);
            assert(all.take(i + 1).drop_last() == all.take(i as int));
            assert(all.take(i + 1).last() == files@[i as int]@);
            all.take(i as int).filter(keep).to_multiset_ensures();
        }
        if is_named(&files[i], "Cargo.toml") {
            insert_sorted(&mut result, files[i].clone());
        }
        i = i + 1;
    }
    assert(all.take(i as int) == all);
    result
}

/// The manifest beside a file.
pub open spec fn manifest_beside(path: Seq<char>) -> Seq<char> {
    match split_last(path, '/') {
        Some((directory, _)) => directory + "/"@ + "Cargo.toml"@,
        None => "Cargo.toml"@,
    }
}

/// The manifest lies beside a lockfile among the files, and is among them itself.
pub open spec fn has_lockfile(files: Seq<Seq<char>>, manifest: Seq<char>) -> bool {
    files.contains(manifest) && exists|i: int|
        0 <= i < files.len() && file_name(#[trigger] files[i]) == "Cargo.lock"@ && manifest_beside(
            files[i],
        ) == manifest
}

/// Whether the text is in the list.
fn is_listed(texts: &Vec<String>, text: &str) -> (result: bool)
    ensures
        result == views(texts@).contains(text@),
{
    let ghost all = views(texts@);
    let mut i: usize = 0;
    while i < texts.len()
        invariant
            i <= texts.len(),
            all == views(texts@),
            forall|k: int| 0 <= k < i ==> #[trigger] all[k] != text@,
        decreases texts.len() - i,
    {
        assert(all[i as int] == texts@[i as int]@);
        if same(&texts[i], text) {
            return true;
        }
        i = i + 1;
    }
    false
}

/// The manifests beside the lockfiles among the files, each once, in the order of
/// paths.
pub fn discover_lockfile_manifests(files: &Vec<String>) -> (result: Vec<String>)
    ensures
        is_sorted(views(result@)),
        views(result@).no_duplicates(),
        forall|manifest: Seq<char>|
            views(result@).contains(manifest) == #[trigger] has_lockfile(views(files@), manifest),
{
    let ghost all = views(files@);
    let mut result: Vec<String> = Vec::new();
    let mut i: usize = 0;
    while i < files.len()
        invariant
            i <= files.len(),
            all == views(files@),
            is_sorted(views(result@)),
            views(result@).no_duplicates(),
            forall|manifest: Seq<char>| #[trigger]
                views(result@).contains(manifest) == (all.contains(manifest) && exists|k: int|
                    0 <= k < i && file_name(#[trigger] all[k]) == "Cargo.lock"@ && manifest_beside(
                        all[k],
                    ) == manifest),
        decreases files.len() - i,
    {
        let ghost before = views(result@);
        let path = &files[i];
        assert(all[i as int] == path@);
        if is_named(path, "Cargo.lock") {
            let manifest = match cut_last(path, '/') {
                Some((directory, _)) => join_three(&directory, "/", "Cargo.toml"),
                None => "Cargo.toml".to_owned(),
            };
            assert(manifest@ == manifest_beside(path@));
            if is_listed(files, &manifest) && !is_listed(&result, &manifest) {
                let ghost added = manifest@;
                insert_sorted(&mut result, manifest);
                proof {
                    lemma_inserted(before, views(result@), added);
                }
            }
        }
        proof {
            assert forall|manifest: Seq<char>| #[trigger]
                views(result@).contains(manifest) == (all.contains(manifest) && exists|k: int|
                    0 <= k < i + 1 && file_name(#[trigger] all[k]) == "Cargo.lock"@
                        && manifest_beside(all[k]) == manifest) by {
                assert(before.contains(manifest) == (all.contains(manifest) && exists|k: int|
                    0 <= k < i && file_name(#[trigger] all[k]) == "Cargo.lock"@ && manifest_beside(
                        all[k],
                    ) == manifest));
                if file_name(all[i as int]) == "Cargo.lock"@ && manifest_beside(all[i as int])
                    == manifest {
                    assert(file_name(all[i as int]) == "Cargo.lock"@);
                }
            }
        }
        i = i + 1;
    }
    result
}

/// What a list holds after one more element.
proof fn lemma_inserted(before: Seq<Seq<char>>, after: Seq<Seq<char>>, added: Seq<char>)
    requires
        after.to_multiset() == before.to_multiset().insert(added),
        !before.contains(added),
        before.no_duplicates(),
    ensures
        after.no_duplicates(),
        forall|x: Seq<char>| #[trigger]
            after.contains(x) == (before.contains(x) || x == added),
{
    before.to_multiset_ensures();
    after.to_multiset_ensures();
    assert forall|x: Seq<char>| #[trigger]
        after.contains(x) == (before.contains(x) || x == added) by {
        assert(after.contains(x) == (after.to_multiset().count(x) > 0));
        assert(before.contains(x) == (before.to_multiset().count(x) > 0));
    }
    before.lemma_multiset_has_no_duplicates();
    assert forall|x: Seq<char>| after.to_multiset().contains(x) implies after.to_multiset().count(
        x,
    ) == 1 by {
        if x == added {
            assert(before.to_multiset().count(x) == 0);
        } else {
            assert(before.to_multiset().contains(x));
        }
    }
    after.lemma_multiset_has_no_duplicates_conv();
}

// ---------------------------------------------------------------------------
// Laws
// ---------------------------------------------------------------------------
/// The path of every edit is that of a managed requirement, every edit has a change,
/// and there are none in `Status` mode.
pub open spec fn edits_are_sound(
    mode: UpdateMode,
    dependencies: Seq<DependencyView>,
    found: ManifestView,
) -> bool {
    &&& found.edits.len() == found.changes.len()
    &&& mode == UpdateMode::Status ==> found.edits.len() == 0
    &&& forall|k: int|
        0 <= k < found.edits.len() ==> (#[trigger] found.edits[k]).text
            == found.changes[k].to_version && is_requirement(dependencies, found.edits[k].path)
}

/// The path is that of the requirement of a managed dependency.
pub open spec fn is_requirement(dependencies: Seq<DependencyView>, path: KeyPath) -> bool {
    exists|i: int|
        0 <= i < dependencies.len() && (#[trigger] dependencies[i]).managed
            && dependencies[i].target == path
}

proof fn lemma_edits_are_sound(
    file: Seq<char>,
    mode: UpdateMode,
    known: Seq<CrateVersionView>,
    dependencies: Seq<DependencyView>,
    i: int,
    before: ManifestView,
)
    requires
        edits_are_sound(mode, dependencies, before),
    ensures
        manifest_from(file, mode, known, dependencies, i, before) matches CargoProgressView::Done(
            found,
        ) ==> edits_are_sound(mode, dependencies, found),
    decreases dependencies.len() - i,
{
    if 0 <= i < dependencies.len() {
        match manifest_with(file, mode, known, dependencies[i], before) {
            CargoProgressView::Done(next) => {
                assert forall|k: int| 0 <= k < next.edits.len() implies (
                #[trigger] next.edits[k]).text == next.changes[k].to_version && is_requirement(
                    dependencies,
                    next.edits[k].path,
                ) by {
                    if k < before.edits.len() {
                        assert(next.edits[k] == before.edits[k]);
                        assert(next.changes[k] == before.changes[k]);
                    } else {
                        assert(dependencies[i].managed && dependencies[i].target
                            == next.edits[k].path);
                    }
                }
                lemma_edits_are_sound(file, mode, known, dependencies, i + 1, next);
            },
            _ => {},
        }
    }
}

/// The change moves a supported requirement to the latest version of its crate, which is
/// greater than the one that was required, and keeps its operator.
pub open spec fn goes_up(change: UpdateChangeView, known: Seq<CrateVersionView>) -> bool {
    &&& requirement_of(change.from_version) is Some
    &&& known_version(known, change.subject) is Some
    &&& parsed_version(known_version(known, change.subject)->0) is Some
    &&& ({
        let (operator, current) = requirement_of(change.from_version)->0;
        let latest = known_version(known, change.subject)->0;
        &&& semver_exceeds(parsed_version(latest)->0, current)
        &&& change.to_version == operator + latest
    })
}

proof fn lemma_changes_go_up(
    file: Seq<char>,
    mode: UpdateMode,
    known: Seq<CrateVersionView>,
    dependencies: Seq<DependencyView>,
    i: int,
    before: ManifestView,
)
    requires
        forall|k: int|
            0 <= k < before.changes.len() ==> goes_up(#[trigger] before.changes[k], known),
    ensures
        manifest_from(file, mode, known, dependencies, i, before) matches CargoProgressView::Done(
            found,
        ) ==> forall|k: int|
            0 <= k < found.changes.len() ==> goes_up(#[trigger] found.changes[k], known),
    decreases dependencies.len() - i,
{
    if 0 <= i < dependencies.len() {
        match manifest_with(file, mode, known, dependencies[i], before) {
            CargoProgressView::Done(next) => {
                assert forall|k: int| 0 <= k < next.changes.len() implies goes_up(
                    #[trigger] next.changes[k],
                    known,
                ) by {
                    if k < before.changes.len() {
                        assert(next.changes[k] == before.changes[k]);
                    }
                }
                lemma_changes_go_up(file, mode, known, dependencies, i + 1, next);
            },
            _ => {},
        }
    }
}

/// Moving dependencies keeps the comments and the layout of a manifest: against the
/// manifest, written unchanged, only the requirements differ, and in inline tables their
/// keys.
pub proof fn law_update_keeps_layout(
    update: FileUpdateView,
    file: ManifestFileView,
    edits: Seq<EditView>,
)
    requires
        is_update_of(update, file, edits),
    ensures
        only_edits_differ(
            toml_display(file.content, Seq::empty()),
            update.updated_content,
            edits_of_text(edits),
        ),
{
    law_edits_keep_layout(update.updated_content, file.content, edits_of_text(edits));
}

/// Requirements only go up: every change moves a supported requirement to the latest
/// version of its crate, where that is greater, and keeps its operator.
pub proof fn law_requirements_only_go_up(
    file: ManifestFileView,
    mode: UpdateMode,
    known: Seq<CrateVersionView>,
)
    ensures
        manifest_result(file, mode, known) matches CargoProgressView::Done(found) ==> forall|k: int|
            0 <= k < found.changes.len() ==> goes_up(#[trigger] found.changes[k], known),
{
    match parsed_toml(file.content) {
        Some(nodes) => {
            lemma_changes_go_up(
                file.path,
                mode,
                known,
                all_dependencies(nodes),
                0,
                empty_manifest(),
            );
        },
        None => {},
    }
}

/// Whatever stands at a path that is not that of a managed requirement is the same.
pub open spec fn same_elsewhere(
    before: Nodes,
    after: Nodes,
    dependencies: Seq<DependencyView>,
) -> bool {
    forall|path: KeyPath|
        !is_requirement(dependencies, path) ==> {
            &&& #[trigger] after.contains_key(path) == before.contains_key(path)
            &&& before.contains_key(path) ==> after[path] == before[path]
        }
}

/// Updating a manifest touches nothing but the requirements of managed dependencies:
/// whatever stands at another path stays as it is. In `Status` mode nothing changes
/// at all.
pub proof fn law_only_managed_requirements_change(
    file: ManifestFileView,
    mode: UpdateMode,
    known: Seq<CrateVersionView>,
)
    requires
        parsed_toml(file.content) is Some,
    ensures
        manifest_result(file, mode, known) matches CargoProgressView::Done(found) ==> {
            let nodes = parsed_toml(file.content)->0;
            &&& same_elsewhere(nodes, with_edits(nodes, found.edits), all_dependencies(nodes))
            &&& mode == UpdateMode::Status ==> found.edits.len() == 0 && found.changes.len() == 0
        },
{
    let nodes = parsed_toml(file.content)->0;
    let dependencies = all_dependencies(nodes);
    lemma_edits_are_sound(file.path, mode, known, dependencies, 0, empty_manifest());
    match manifest_result(file, mode, known) {
        CargoProgressView::Done(found) => {
            lemma_other_paths_stay(nodes, dependencies, found.edits);
        },
        _ => {},
    }
}

proof fn lemma_other_paths_stay(
    nodes: Nodes,
    dependencies: Seq<DependencyView>,
    edits: Seq<EditView>,
)
    requires
        forall|k: int|
            0 <= k < edits.len() ==> is_requirement(dependencies, (#[trigger] edits[k]).path),
    ensures
        same_elsewhere(nodes, with_edits(nodes, edits), dependencies),
    decreases edits.len(),
{
    if edits.len() > 0 {
        let before = with_edits(nodes, edits.drop_last());
        let after = with_edits(nodes, edits);
        assert forall|k: int| 0 <= k < edits.drop_last().len() implies is_requirement(
            dependencies,
            (#[trigger] edits.drop_last()[k]).path,
        ) by {
            assert(is_requirement(dependencies, edits[k].path));
        }
        lemma_other_paths_stay(nodes, dependencies, edits.drop_last());
        assert(is_requirement(dependencies, edits[edits.len() - 1].path));
        assert forall|path: KeyPath| !is_requirement(dependencies, path) implies {
            &&& #[trigger] after.contains_key(path) == nodes.contains_key(path)
            &&& nodes.contains_key(path) ==> after[path] == nodes[path]
        } by {
            assert(before.contains_key(path) == nodes.contains_key(path));
            assert(path != edits.last().path);
        }
    }
}

/// An operator of a requirement that is supported.
pub open spec fn is_operator(text: Seq<char>) -> bool {
    text == ""@ || text == "^"@ || text == "~"@ || text == "="@
}

/// An operator in front of the text of a version is a requirement of that version.
pub proof fn law_operator_and_version_are_a_requirement(operator: Seq<char>, version: VersionView)
    requires
        is_operator(operator),
        version.is_valid(),
    ensures
        requirement_of(operator + version.text()) == Some((operator, version)),
{
    let text = version.text();
    let whole = operator + text;
    reveal_strlit("^");
    reveal_strlit("~");
    reveal_strlit("=");
    reveal_strlit("");
    lemma_version_text(version);
    assert(whole.len() == operator.len() + text.len());
    assert forall|i: int| 0 <= i < whole.len() implies {
        ||| operator.len() == 1 && i == 0 && whole[i] == operator[0]
        ||| is_version_char(#[trigger] whole[i])
    } by {
        if i >= operator.len() {
            assert(whole[i] == text[i - operator.len()]);
        }
    }
    assert(!is_unsupported(whole));
    assert(whole.last() == text.last());
    lemma_trim_same(whole);
    lemma_trim_same(text);
    if operator.len() == 1 {
        assert(whole.subrange(0, 1) == operator);
        assert(whole.skip(1) == text);
    } else {
        assert(whole == text);
        assert(text.subrange(0, 1)[0] == text[0]);
        assert(!starts_with(text, "^"@) && !starts_with(text, "~"@) && !starts_with(text, "="@));
    }
    assert(operator_and_rest(whole) == (operator, text));
    assert(trim_first(text, 'v') == text);
    law_version_is_read_back(version);
}

/// An operator in front of the text of a version is rewritten to the same operator in front
/// of the latest version, and writing the latest version again changes nothing.
pub proof fn law_requirement_is_rewritten(
    operator: Seq<char>,
    version: VersionView,
    latest: VersionView,
)
    requires
        is_operator(operator),
        version.is_valid(),
        latest.is_valid(),
    ensures
        rewritten_requirement(operator + version.text(), latest.text()) == Some(
            operator + latest.text(),
        ),
        rewritten_requirement(operator + latest.text(), latest.text()) == Some(
            operator + latest.text(),
        ),
{
    law_operator_and_version_are_a_requirement(operator, version);
    law_operator_and_version_are_a_requirement(operator, latest);
}

/// A requirement that is blank is not rewritten, and neither is one with several ranges, a
/// wildcard, a comparison or blanks in it.
pub proof fn law_unsupported_requirement_is_not_rewritten(current: Seq<char>, latest: Seq<char>)
    requires
        is_blank(current) || trim(current).contains(',') || trim(current).contains('*') || trim(
            current,
        ).contains('>') || trim(current).contains('<') || trim(current).contains(' '),
    ensures
        rewritten_requirement(current, latest) is None,
{
    lemma_trim_empty(current);
}

/// A rewritten requirement keeps its operator, and it is a requirement of the latest
/// version.
pub proof fn law_rewritten_requirement_keeps_its_operator(current: Seq<char>, latest: VersionView)
    requires
        requirement_of(current) is Some,
        latest.is_valid(),
    ensures
        ({
            let parts = requirement_of(current)->0;
            let operator = parts.0;
            rewritten_requirement(current, latest.text()) == Some(operator + latest.text())
                && requirement_of(operator + latest.text()) == Some((operator, latest))
        }),
{
    law_operator_and_version_are_a_requirement((requirement_of(current)->0).0, latest);
}

} // verus!
