//! Setting the version of a release in the manifests and the lockfile of a
//! workspace.

use toml_edit::DocumentMut;
use vstd::prelude::*;

use crate::cargo::{invalid_manifest, tables_below, ManifestFile, ManifestFileView};
use crate::glob::{covers, is_covered, matches_member_pattern, matches_path};
use crate::manifest::{
    extended, holds_text, is_edited, keys_at, law_edits_keep_layout, lemma_histories_add_up,
    lemma_no_more_history, lemma_with_texts, node_at, only_edits_differ, parse_toml, parsed_toml,
    path_of_one, path_of_three, path_of_two, path_views, paths_of, place_edits, read_from,
    read_keys, read_text, read_texts, render_toml, set_table_text, set_texts, table_edit,
    table_item_at, table_text, text_at, texts_at, toml_display, toml_error, toml_history,
    toml_nodes, value_place, with_history, with_table_text, with_texts, KeyPath, Node, NodeView,
    Nodes, Place, TableView, TextEdit, TextPlace,
};
use crate::model::{FileUpdate, FileUpdateView};
use crate::paths::{lies_in, path_below, strip_root, with_slashes};
use crate::text::{
    characters, cut_last, join_four, join_three, option_view, replace_char, same, split_last,
    text_before, views,
};

verus! {

/// What a release rewrites.
#[derive(Debug, Clone, PartialEq, Eq)]
pub struct VersionRewritePlan {
    pub current_version: String,
    pub internal_packages: Vec<String>,
    pub file_updates: Vec<FileUpdate>,
}

// ---------------------------------------------------------------------------
// The current version
// ---------------------------------------------------------------------------
/// `package.version`
pub open spec fn package_version() -> KeyPath {
    seq!["package"@, "version"@]
}

/// `workspace.package.version`
pub open spec fn workspace_version() -> KeyPath {
    seq!["workspace"@, "package"@, "version"@]
}

/// The version of a manifest: that of its package, and else that of its workspace.
pub open spec fn version_of(nodes: Nodes) -> Option<Seq<char>> {
    if text_at(nodes, package_version()) is Some {
        text_at(nodes, package_version())
    } else {
        text_at(nodes, workspace_version())
    }
}

/// What is said of a manifest without a version.
pub open spec fn missing_version(path: Seq<char>) -> Seq<char> {
    "unable to determine current version from '"@ + path + "'"@
}

/// What `current_version` returns.
pub open spec fn version_result(file: ManifestFileView) -> Result<Seq<char>, Seq<char>> {
    match parsed_toml(file.content) {
        None => Err(invalid_manifest(file)),
        Some(nodes) => match version_of(nodes) {
            Some(version) => Ok(version),
            None => Err(missing_version(file.path)),
        },
    }
}

fn parse_manifest(manifest: &ManifestFile) -> (result: Result<DocumentMut, String>)
    ensures
        match result {
            Ok(document) => parsed_toml(manifest.content@) == Some(toml_nodes(document))
                && toml_history(document) == Some(read_from(manifest.content@)),
            Err(message) => parsed_toml(manifest.content@) is None && message@ == invalid_manifest(
                manifest@,
            ),
        },
{
    match parse_toml(&manifest.content) {
        Ok(document) => Ok(document),
        Err(error) => Err(
            join_four("failed to parse Cargo manifest '", &manifest.path, "': ", &error),
        ),
    }
}

/// The version of a manifest: that of its package, and else that of its workspace.
pub fn version_from_document(document: &DocumentMut) -> (result: Option<String>)
    ensures
        option_view(result) == version_of(toml_nodes(*document)),
{
    match read_text(document, &path_of_two("package", "version")) {
        Some(version) => Some(version),
        None => read_text(document, &path_of_three("workspace", "package", "version")),
    }
}

/// The version of the root manifest: that of its package, and else that of its
/// workspace.
pub fn current_version(manifest: &ManifestFile) -> (result: Result<String, String>)
    ensures
        crate::workflow::text_result(result) == version_result(manifest@),
{
    match parse_manifest(manifest) {
        Err(message) => Err(message),
        Ok(document) => match version_from_document(&document) {
            Some(version) => Ok(version),
            None => Err(
                join_three("unable to determine current version from '", &manifest.path, "'"),
            ),
        },
    }
}

// ---------------------------------------------------------------------------
// Members
// ---------------------------------------------------------------------------
/// The directory of a file, as a path with slashes below the root.
pub open spec fn directory_below(root: Seq<char>, path: Seq<char>) -> Option<Seq<char>> {
    match split_last(path, '/') {
        Some((parent, _)) => if lies_in(root, parent) {
            Some(replace_char(path_below(root, parent), '\\', '/'))
        } else {
            None
        },
        None => None,
    }
}

/// A pattern among them matches the directory.
pub open spec fn any_matches(patterns: Seq<Seq<char>>, directory: Seq<char>) -> bool {
    exists|i: int| 0 <= i < patterns.len() && matches_path(#[trigger] patterns[i], directory)
}

/// An entry among them covers the directory.
pub open spec fn any_covers(entries: Seq<Seq<char>>, directory: Seq<char>) -> bool {
    exists|i: int| 0 <= i < entries.len() && is_covered(#[trigger] entries[i], directory)
}

/// The manifest belongs to a member of the workspace that is not the root: a pattern
/// of `workspace.members` matches its directory, and no entry of `workspace.exclude`
/// covers it.
pub open spec fn is_member(
    nodes: Nodes,
    root: Seq<char>,
    root_manifest: Seq<char>,
    path: Seq<char>,
) -> bool {
    &&& path != root_manifest
    &&& directory_below(root, path) is Some
    &&& any_matches(
        texts_at(nodes, seq!["workspace"@, "members"@]),
        directory_below(root, path)->0,
    )
    &&& !any_covers(
        texts_at(nodes, seq!["workspace"@, "exclude"@]),
        directory_below(root, path)->0,
    )
}

/// The root manifest, and the manifests of the members among the files.
pub open spec fn members_of(
    nodes: Nodes,
    root: Seq<char>,
    root_manifest: Seq<char>,
    files: Seq<Seq<char>>,
) -> Seq<Seq<char>> {
    seq![root_manifest] + files.filter(
        |path: Seq<char>| is_member(nodes, root, root_manifest, path),
    )
}

fn any_pattern_matches(patterns: &Vec<String>, directory: &str) -> (result: bool)
    ensures
        result == any_matches(views(patterns@), directory@),
{
    let ghost all = views(patterns@);
    let mut i: usize = 0;
    while i < patterns.len()
        invariant
            i <= patterns.len(),
            all == views(patterns@),
            forall|k: int| 0 <= k < i ==> !matches_path(#[trigger] all[k], directory@),
        decreases patterns.len() - i,
    {
        assert(all[i as int] == patterns@[i as int]@);
        if matches_member_pattern(&patterns[i], directory) {
            return true;
        }
        i = i + 1;
    }
    false
}

fn any_entry_covers(entries: &Vec<String>, directory: &str) -> (result: bool)
    ensures
        result == any_covers(views(entries@), directory@),
{
    let ghost all = views(entries@);
    let mut i: usize = 0;
    while i < entries.len()
        invariant
            i <= entries.len(),
            all == views(entries@),
            forall|k: int| 0 <= k < i ==> !is_covered(#[trigger] all[k], directory@),
        decreases entries.len() - i,
    {
        assert(all[i as int] == entries@[i as int]@);
        if covers(&entries[i], directory) {
            return true;
        }
        i = i + 1;
    }
    false
}

fn read_directory(root: &str, path: &str) -> (result: Option<String>)
    ensures
        option_view(result) == directory_below(root@, path@),
{
    match cut_last(path, '/') {
        Some((parent, _)) => match strip_root(root, &parent) {
            Some(rest) => Some(with_slashes(&rest)),
            None => None,
        },
        None => None,
    }
}

/// The root manifest, and the manifests of the members of its workspace among the files.
pub fn members_among(
    document: &DocumentMut,
    repo_root: &str,
    root_manifest: &str,
    files: &Vec<String>,
) -> (result: Vec<String>)
    ensures
        views(result@) == members_of(
            toml_nodes(*document),
            repo_root@,
            root_manifest@,
            views(files@),
        ),
{
    let ghost nodes = toml_nodes(*document);
    let patterns = read_texts(document, &path_of_two("workspace", "members"));
    let excluded = read_texts(document, &path_of_two("workspace", "exclude"));
    let ghost all = views(files@);
    let ghost keep = |path: Seq<char>| is_member(nodes, repo_root@, root_manifest@, path);
    let mut members: Vec<String> = vec![root_manifest.to_owned()];
    let mut i: usize = 0;
    proof {
        reveal(Seq::filter);
        assert(all.take(0).filter(keep) == Seq::<Seq<char>>::empty());
        assert(views(members@) == seq![root_manifest@] + all.take(0).filter(keep));
    }
    while i < files.len()
        invariant
            i <= files.len(),
            all == views(files@),
            nodes == toml_nodes(*document),
            keep == (|path: Seq<char>| is_member(nodes, repo_root@, root_manifest@, path)),
            views(patterns@) == texts_at(nodes, seq!["workspace"@, "members"@]),
            views(excluded@) == texts_at(nodes, seq!["workspace"@, "exclude"@]),
            views(members@) == seq![root_manifest@] + all.take(i as int).filter(keep),
        decreases files.len() - i,
    {
        let ghost before = members@;
        proof {
            reveal(Seq::filter);
            assert(all.take(i + 1).drop_last() == all.take(i as int));
            assert(all.take(i + 1).last() == files@[i as int]@);
        }
        let belongs = match read_directory(repo_root, &files[i]) {
            Some(directory) => !same(&files[i], root_manifest) && any_pattern_matches(
                &patterns,
                &directory,
            ) && !any_entry_covers(&excluded, &directory),
            None => false,
        };
        if belongs {
            members.push(files[i].clone());
            assert(views(members@) == views(before).push(files@[i as int]@));
        }
        assert(views(members@) == seq![root_manifest@] + all.take(i + 1).filter(keep));
        i = i + 1;
    }
    assert(all.take(i as int) == all);
    members
}

/// The manifests that a release rewrites: the root manifest first, then those of the
/// members of its workspace among the files.
pub fn member_manifests(repo_root: &str, root: &ManifestFile, files: &Vec<String>) -> (result:
    Result<Vec<String>, String>)
    ensures
        match result {
            Ok(members) => parsed_toml(root.content@) is Some && views(members@) == members_of(
                parsed_toml(root.content@)->0,
                repo_root@,
                root.path@,
                views(files@),
            ),
            Err(message) => parsed_toml(root.content@) is None && message@ == invalid_manifest(
                root@,
            ),
        },
{
    match parse_manifest(root) {
        Ok(document) => Ok(members_among(&document, repo_root, &root.path, files)),
        Err(message) => Err(message),
    }
}

// ---------------------------------------------------------------------------
// Names
// ---------------------------------------------------------------------------
/// The names with one more, in order; a name that is there is not put there again.
pub open spec fn with_name(names: Seq<Seq<char>>, name: Seq<char>) -> Seq<Seq<char>>
    decreases names.len(),
{
    if names.len() == 0 {
        seq![name]
    } else if names[0] == name {
        names
    } else if text_before(name, names[0]) {
        seq![name] + names
    } else {
        seq![names[0]] + with_name(names.skip(1), name)
    }
}

/// The name of the package of a manifest.
pub open spec fn package_name(file: ManifestFileView) -> Option<Seq<char>> {
    match parsed_toml(file.content) {
        Some(nodes) => text_at(nodes, seq!["package"@, "name"@]),
        None => None,
    }
}

/// The names of the packages of the manifests, each once and in order.
pub open spec fn package_names(files: Seq<ManifestFileView>) -> Seq<Seq<char>>
    decreases files.len(),
{
    if files.len() == 0 {
        Seq::empty()
    } else {
        let before = package_names(files.drop_last());
        match package_name(files.last()) {
            Some(name) => with_name(before, name),
            None => before,
        }
    }
}

/// What is said of the first of the manifests that is not TOML.
pub open spec fn first_invalid(files: Seq<ManifestFileView>) -> Option<Seq<char>>
    decreases files.len(),
{
    if files.len() == 0 {
        None
    } else if first_invalid(files.drop_last()) is Some {
        first_invalid(files.drop_last())
    } else if parsed_toml(files.last().content) is None {
        Some(invalid_manifest(files.last()))
    } else {
        None
    }
}

fn comes_first(left: &str, right: &str) -> (result: bool)
    ensures
        result == text_before(left@, right@),
{
    let a = characters(left);
    let b = characters(right);
    let mut i: usize = 0;
    assert(a@.skip(0) == a@ && b@.skip(0) == b@);
    while i < a.len() && i < b.len() && a[i] == b[i]
        invariant
            i <= a.len(),
            i <= b.len(),
            text_before(a@, b@) == text_before(a@.skip(i as int), b@.skip(i as int)),
        decreases a.len() - i,
    {
        assert(a@.skip(i as int).skip(1) == a@.skip(i + 1));
        assert(b@.skip(i as int).skip(1) == b@.skip(i + 1));
        i = i + 1;
    }
    if i >= b.len() {
        return false;
    }
    if i >= a.len() {
        return true;
    }
    assert(text_before(a@, b@) == (a@[i as int] < b@[i as int]));
    a[i] < b[i]
}

fn put_name(names: &mut Vec<String>, name: String)
    ensures
        views(final(names)@) == with_name(views(old(names)@), name@),
{
    let ghost all = views(names@);
    let mut at: usize = 0;
    assert(all.skip(0) == all);
    assert(all.take(0) + with_name(all, name@) == with_name(all, name@));
    while at < names.len()
        invariant
            at <= names.len(),
            all == views(names@),
            all == views(old(names)@),
            all.take(at as int) + with_name(all.skip(at as int), name@) == with_name(all, name@),
        decreases names.len() - at,
    {
        let ghost rest = all.skip(at as int);
        assert(rest[0] == names@[at as int]@);
        if same(&names[at], &name) {
            assert(all == all.take(at as int) + rest);
            return;
        }
        if comes_first(&name, &names[at]) {
            let ghost added = name@;
            names.insert(at, name);
            proof {
                assert(views(names@) == all.insert(at as int, added));
                assert(views(names@) == all.take(at as int) + (seq![added] + rest));
            }
            return;
        }
        proof {
            assert(rest.skip(1) == all.skip(at + 1));
            assert(with_name(rest, name@) == seq![rest[0]] + with_name(all.skip(at + 1), name@));
            assert(all.take(at + 1) == all.take(at as int).push(rest[0]));
            assert(all.take(at + 1) + with_name(all.skip(at + 1), name@) == all.take(at as int)
                + with_name(rest, name@));
        }
        at = at + 1;
    }
    let ghost added = name@;
    names.push(name);
    proof {
        assert(all.skip(at as int) == Seq::<Seq<char>>::empty());
        assert(views(names@) == all.push(added));
        assert(views(names@) == all.take(at as int) + seq![added]);
    }
}

proof fn lemma_first_invalid_stays(files: Seq<ManifestFileView>, n: int)
    requires
        0 <= n <= files.len(),
        first_invalid(files.take(n)) is Some,
    ensures
        first_invalid(files) == first_invalid(files.take(n)),
    decreases files.len() - n,
{
    if n < files.len() {
        assert(files.drop_last().take(n) == files.take(n));
        lemma_first_invalid_stays(files.drop_last(), n);
    } else {
        assert(files.take(n) == files);
    }
}

/// The names of the packages of the manifests, each once and in order.
pub fn internal_package_names(manifests: &Vec<ManifestFile>) -> (result: Result<
    Vec<String>,
    String,
>)
    ensures
        match result {
            Ok(names) => first_invalid(views(manifests@)) is None && views(names@)
                == package_names(views(manifests@)),
            Err(message) => first_invalid(views(manifests@)) == Some(message@),
        },
{
    let ghost all = views(manifests@);
    let mut names: Vec<String> = Vec::new();
    let mut i: usize = 0;
    assert(views(names@) == package_names(all.take(0)));
    while i < manifests.len()
        invariant
            i <= manifests.len(),
            all == views(manifests@),
            first_invalid(all.take(i as int)) is None,
            views(names@) == package_names(all.take(i as int)),
        decreases manifests.len() - i,
    {
        proof {
            assert(all.take(i + 1).drop_last() == all.take(i as int));
            assert(all.take(i + 1).last() == manifests@[i as int]@);
        }
        match parse_manifest(&manifests[i]) {
            Err(message) => {
                proof {
                    lemma_first_invalid_stays(all, i + 1);
                }
                return Err(message);
            },
            Ok(document) => match read_text(&document, &path_of_two("package", "name")) {
                Some(name) => {
                    put_name(&mut names, name);
                },
                None => {},
            },
        }
        i = i + 1;
    }
    assert(all.take(i as int) == all);
    Ok(names)
}

// ---------------------------------------------------------------------------
// Manifests
// ---------------------------------------------------------------------------
/// The tables of dependencies of the named targets.
pub open spec fn tables_of_targets(names: Seq<Seq<char>>) -> Seq<KeyPath>
    decreases names.len(),
{
    if names.len() == 0 {
        Seq::empty()
    } else {
        tables_of_targets(names.drop_last()) + tables_below(seq!["target"@, names.last()])
    }
}

/// The places where tables of dependencies may be.
pub open spec fn table_paths(nodes: Nodes) -> Seq<KeyPath> {
    let shared = tables_below(Seq::empty()).push(seq!["workspace"@, "dependencies"@]);
    match keys_at(nodes, seq!["target"@]) {
        Some(names) => shared + tables_of_targets(names),
        None => shared,
    }
}

/// Where the version of a dependency stands, if it has one. In an inline table its key is
/// written anew with it.
pub open spec fn version_place(nodes: Nodes, path: KeyPath) -> Option<Place> {
    if text_at(nodes, path) is Some {
        Some(value_place(path))
    } else if nodes.contains_key(path) && (nodes[path] is Table || nodes[path] is InlineTable)
        && text_at(nodes, path.push("version"@)) is Some {
        Some(Place { path: path.push("version"@), entry: nodes[path] is InlineTable })
    } else {
        None
    }
}

/// The places with one more, if there is one.
pub open spec fn with_place(places: Seq<Place>, place: Option<Place>) -> Seq<Place> {
    match place {
        Some(place) => places.push(place),
        None => places,
    }
}

/// The places of the versions of the named dependencies in a table.
pub open spec fn places_in_table(nodes: Nodes, table: KeyPath, names: Seq<Seq<char>>) -> Seq<
    Place,
>
    decreases names.len(),
{
    if names.len() == 0 {
        Seq::empty()
    } else {
        with_place(
            places_in_table(nodes, table, names.drop_last()),
            version_place(nodes, table.push(names.last())),
        )
    }
}

/// The places of the versions of the named dependencies in the tables.
pub open spec fn places_in_tables(
    nodes: Nodes,
    tables: Seq<KeyPath>,
    names: Seq<Seq<char>>,
) -> Seq<Place>
    decreases tables.len(),
{
    if tables.len() == 0 {
        Seq::empty()
    } else {
        places_in_tables(nodes, tables.drop_last(), names) + places_in_table(
            nodes,
            tables.last(),
            names,
        )
    }
}

/// The place of a text, if there is one.
pub open spec fn text_place(nodes: Nodes, path: KeyPath) -> Option<Place> {
    if text_at(nodes, path) is Some {
        Some(value_place(path))
    } else {
        None
    }
}

/// The places of the versions that a release sets: that of the package, that of the
/// workspace, and those of dependencies on packages of the workspace.
pub open spec fn version_spots(nodes: Nodes, internal: Seq<Seq<char>>) -> Seq<Place> {
    let own = with_place(Seq::empty(), text_place(nodes, package_version()));
    let shared = with_place(own, text_place(nodes, workspace_version()));
    shared + places_in_tables(nodes, table_paths(nodes), internal)
}

/// The paths of the versions that a release sets.
pub open spec fn version_places(nodes: Nodes, internal: Seq<Seq<char>>) -> Seq<KeyPath> {
    paths_of(version_spots(nodes, internal))
}

/// What a manifest holds after the release.
pub open spec fn released(nodes: Nodes, internal: Seq<Seq<char>>, version: Seq<char>) -> Nodes {
    with_texts(nodes, version_places(nodes, internal), version)
}

fn dependency_table_paths(document: &DocumentMut) -> (result: Vec<Vec<String>>)
    ensures
        path_views(result@) == table_paths(toml_nodes(*document)),
{
    let mut tables: Vec<Vec<String>> = Vec::new();
    let root: Vec<String> = Vec::new();
    assert(views(root@) == Seq::<Seq<char>>::empty());
    assert(path_views(tables@) == Seq::<KeyPath>::empty());
    push_tables(&mut tables, &root);
    tables.push(path_of_two("workspace", "dependencies"));
    let ghost shared = tables_below(Seq::empty()).push(seq!["workspace"@, "dependencies"@]);
    assert(path_views(tables@) == shared);
    match read_keys(document, &path_of_one("target")) {
        Some(names) => {
            let ghost all = views(names@);
            let mut i: usize = 0;
            assert(path_views(tables@) == shared + tables_of_targets(all.take(0)));
            while i < names.len()
                invariant
                    i <= names.len(),
                    all == views(names@),
                    path_views(tables@) == shared + tables_of_targets(all.take(i as int)),
                decreases names.len() - i,
            {
                proof {
                    assert(all.take(i + 1).drop_last() == all.take(i as int));
                    assert(all.take(i + 1).last() == names@[i as int]@);
                }
                push_tables(&mut tables, &path_of_two("target", &names[i]));
                assert(path_views(tables@) == shared + tables_of_targets(all.take(i + 1)));
                i = i + 1;
            }
            assert(all.take(i as int) == all);
        },
        None => {},
    }
    tables
}

fn push_tables(tables: &mut Vec<Vec<String>>, path: &Vec<String>)
    ensures
        path_views(final(tables)@) == path_views(old(tables)@) + tables_below(views(path@)),
{
    let ghost before = path_views(tables@);
    tables.push(extended(path, "dependencies"));
    tables.push(extended(path, "dev-dependencies"));
    tables.push(extended(path, "build-dependencies"));
    assert(path_views(tables@) == before + tables_below(views(path@)));
}

/// Puts the place of a text behind others, if there is a text.
fn push_text_place(document: &DocumentMut, path: Vec<String>, places: &mut Vec<TextPlace>)
    ensures
        views(final(places)@) == with_place(
            views(old(places)@),
            text_place(toml_nodes(*document), views(path@)),
        ),
{
    let ghost before = views(places@);
    if read_text(document, &path).is_some() {
        let place = TextPlace { path, entry: false };
        places.push(place);
        assert(views(places@) == before.push(place@));
    }
}

fn find_version_place(document: &DocumentMut, path: Vec<String>) -> (result: Option<TextPlace>)
    ensures
        option_view(result) == version_place(toml_nodes(*document), views(path@)),
{
    match node_at(document, &path) {
        Some(Node::Text(_)) => Some(TextPlace { path, entry: false }),
        Some(Node::Table(_)) => {
            let version = extended(&path, "version");
            if read_text(document, &version).is_some() {
                Some(TextPlace { path: version, entry: false })
            } else {
                None
            }
        },
        Some(Node::InlineTable) => {
            let version = extended(&path, "version");
            if read_text(document, &version).is_some() {
                Some(TextPlace { path: version, entry: true })
            } else {
                None
            }
        },
        _ => None,
    }
}

fn push_places_in_table(
    document: &DocumentMut,
    table: &Vec<String>,
    names: &Vec<String>,
    places: &mut Vec<TextPlace>,
)
    ensures
        views(final(places)@) == views(old(places)@) + places_in_table(
            toml_nodes(*document),
            views(table@),
            views(names@),
        ),
{
    let ghost nodes = toml_nodes(*document);
    let ghost before = views(places@);
    let ghost all = views(names@);
    let mut i: usize = 0;
    assert(views(places@) == before + places_in_table(nodes, views(table@), all.take(0)));
    while i < names.len()
        invariant
            i <= names.len(),
            nodes == toml_nodes(*document),
            all == views(names@),
            views(places@) == before + places_in_table(
                nodes,
                views(table@),
                all.take(i as int),
            ),
        decreases names.len() - i,
    {
        let ghost so_far = views(places@);
        proof {
            assert(all.take(i + 1).drop_last() == all.take(i as int));
            assert(all.take(i + 1).last() == names@[i as int]@);
        }
        match find_version_place(document, extended(table, &names[i])) {
            Some(place) => {
                places.push(place);
                assert(views(places@) == so_far.push(place@));
                assert(views(places@) == before + places_in_table(
                    nodes,
                    views(table@),
                    all.take(i + 1),
                ));
            },
            None => {},
        }
        i = i + 1;
    }
    assert(all.take(i as int) == all);
}

/// The places of the versions that a release sets.
fn find_version_places(document: &DocumentMut, internal: &Vec<String>) -> (result: Vec<
    TextPlace,
>)
    ensures
        views(result@) == version_spots(toml_nodes(*document), views(internal@)),
{
    let ghost nodes = toml_nodes(*document);
    let mut places: Vec<TextPlace> = Vec::new();
    assert(views(places@) == Seq::<Place>::empty());
    push_text_place(document, path_of_two("package", "version"), &mut places);
    push_text_place(document, path_of_three("workspace", "package", "version"), &mut places);
    let ghost shared = views(places@);
    let tables = dependency_table_paths(document);
    let ghost all = path_views(tables@);
    let mut i: usize = 0;
    assert(views(places@) == shared + places_in_tables(nodes, all.take(0), views(internal@)));
    while i < tables.len()
        invariant
            i <= tables.len(),
            nodes == toml_nodes(*document),
            all == path_views(tables@),
            views(places@) == shared + places_in_tables(
                nodes,
                all.take(i as int),
                views(internal@),
            ),
        decreases tables.len() - i,
    {
        proof {
            assert(all.take(i + 1).drop_last() == all.take(i as int));
            assert(all.take(i + 1).last() == views(tables@[i as int]@));
        }
        push_places_in_table(document, &tables[i], internal, &mut places);
        assert(views(places@) == shared + places_in_tables(
            nodes,
            all.take(i + 1),
            views(internal@),
        ));
        i = i + 1;
    }
    assert(all.take(i as int) == all);
    places
}

// ---------------------------------------------------------------------------
// Every place holds a text
// ---------------------------------------------------------------------------
/// At every place stands a text.
pub open spec fn all_texts(nodes: Nodes, places: Seq<Place>) -> bool {
    forall|i: int| 0 <= i < places.len() ==> holds_text(nodes, #[trigger] places[i])
}

proof fn lemma_table_places(nodes: Nodes, table: KeyPath, names: Seq<Seq<char>>)
    ensures
        all_texts(nodes, places_in_table(nodes, table, names)),
    decreases names.len(),
{
    if names.len() > 0 {
        lemma_table_places(nodes, table, names.drop_last());
        let before = places_in_table(nodes, table, names.drop_last());
        let now = places_in_table(nodes, table, names);
        assert forall|i: int| 0 <= i < now.len() implies holds_text(nodes, #[trigger] now[i]) by {
            if i < before.len() {
                assert(now[i] == before[i]);
            } else {
                let path = table.push(names.last());
                assert(path.push("version"@).drop_last() == path);
            }
        }
    }
}

proof fn lemma_tables_places(nodes: Nodes, tables: Seq<KeyPath>, names: Seq<Seq<char>>)
    ensures
        all_texts(nodes, places_in_tables(nodes, tables, names)),
    decreases tables.len(),
{
    if tables.len() > 0 {
        lemma_tables_places(nodes, tables.drop_last(), names);
        lemma_table_places(nodes, tables.last(), names);
        let before = places_in_tables(nodes, tables.drop_last(), names);
        let last = places_in_table(nodes, tables.last(), names);
        let now = places_in_tables(nodes, tables, names);
        assert forall|i: int| 0 <= i < now.len() implies holds_text(nodes, #[trigger] now[i]) by {
            if i < before.len() {
                assert(now[i] == before[i]);
            } else {
                assert(now[i] == last[i - before.len()]);
            }
        }
    }
}

proof fn lemma_places_hold_texts(nodes: Nodes, internal: Seq<Seq<char>>)
    ensures
        all_texts(nodes, version_spots(nodes, internal)),
{
    let own = with_place(Seq::empty(), text_place(nodes, package_version()));
    let shared = with_place(own, text_place(nodes, workspace_version()));
    let rest = places_in_tables(nodes, table_paths(nodes), internal);
    lemma_tables_places(nodes, table_paths(nodes), internal);
    let now = version_spots(nodes, internal);
    assert forall|i: int| 0 <= i < now.len() implies holds_text(nodes, #[trigger] now[i]) by {
        if i < shared.len() {
            assert(now[i] == shared[i]);
        } else {
            assert(now[i] == rest[i - shared.len()]);
        }
    }
}

/// The content is that of the manifest with the versions of the release. Comments and
/// layout are those of the manifest: only the values of the versions differ, and in inline
/// tables their keys.
pub open spec fn reads_as_released(
    content: Seq<char>,
    file: ManifestFileView,
    internal: Seq<Seq<char>>,
    version: Seq<char>,
) -> bool {
    parsed_toml(file.content) matches Some(nodes) && parsed_toml(content) == Some(
        released(nodes, internal, version),
    ) && is_edited(content, file.content, place_edits(version_spots(nodes, internal), version))
}

/// Sets the version of a release in a manifest: that of the package, that of the
/// workspace, and those of dependencies on packages of the workspace. Nothing else
/// changes. The result is whether there was a version to set.
pub fn rewrite_document(
    document: &mut DocumentMut,
    internal_packages: &Vec<String>,
    new_version: &str,
) -> (result: bool)
    ensures
        toml_nodes(*final(document)) == released(
            toml_nodes(*old(document)),
            views(internal_packages@),
            new_version@,
        ),
        toml_history(*final(document)) == with_history(
            toml_history(*old(document)),
            place_edits(
                version_spots(toml_nodes(*old(document)), views(internal_packages@)),
                new_version@,
            ),
        ),
        result == (version_places(
            toml_nodes(*old(document)),
            views(internal_packages@),
        ).len() > 0),
{
    let ghost nodes = toml_nodes(*document);
    let places = find_version_places(document, internal_packages);
    proof {
        lemma_places_hold_texts(nodes, views(internal_packages@));
        assert(views(places@).len() == places@.len());
        assert forall|i: int| 0 <= i < places@.len() implies holds_text(
            nodes,
            (#[trigger] places@[i])@,
        ) by {
            assert(views(places@)[i] == places@[i]@);
        }
    }
    set_texts(document, &places, new_version);
    places.len() > 0
}

/// The new content of a manifest, where the release sets any version in it.
pub fn rewrite_manifest(
    manifest: &ManifestFile,
    internal_packages: &Vec<String>,
    new_version: &str,
) -> (result: Result<Option<String>, String>)
    ensures
        match result {
            Err(message) => parsed_toml(manifest.content@) is None && message@ == invalid_manifest(
                manifest@,
            ),
            Ok(None) => parsed_toml(manifest.content@) matches Some(nodes) && version_places(
                nodes,
                views(internal_packages@),
            ).len() == 0,
            Ok(Some(content)) => {
                &&& parsed_toml(manifest.content@) matches Some(nodes) && version_places(
                    nodes,
                    views(internal_packages@),
                ).len() > 0
                &&& reads_as_released(content@, manifest@, views(internal_packages@), new_version@)
            },
        },
{
    match parse_manifest(manifest) {
        Ok(mut document) => if rewrite_document(&mut document, internal_packages, new_version) {
            Ok(Some(render_toml(&document)))
        } else {
            Ok(None)
        },
        Err(message) => Err(message),
    }
}

// ---------------------------------------------------------------------------
// The lockfile
// ---------------------------------------------------------------------------
/// The package belongs to the workspace: its name is one of its packages, it comes
/// from no source, and it has a version.
pub open spec fn is_internal(package: TableView, internal: Seq<Seq<char>>) -> bool {
    &&& table_text(package, "name"@) is Some
    &&& internal.contains(table_text(package, "name"@)->0)
    &&& !package.contains_key("source"@)
    &&& table_text(package, "version"@) is Some
}

/// The packages after the release.
pub open spec fn released_packages(
    packages: Seq<TableView>,
    internal: Seq<Seq<char>>,
    version: Seq<char>,
) -> Seq<TableView> {
    packages.map_values(
        |package: TableView|
            if is_internal(package, internal) {
                package.insert("version"@, Some(version))
            } else {
                package
            },
    )
}

/// The packages of a lockfile.
pub open spec fn packages_of(nodes: Nodes) -> Option<Seq<TableView>> {
    if nodes.contains_key(seq!["package"@]) {
        match nodes[seq!["package"@]] {
            NodeView::Tables(packages) => Some(packages),
            _ => None,
        }
    } else {
        None
    }
}

/// Some package belongs to the workspace.
pub open spec fn any_internal(packages: Seq<TableView>, internal: Seq<Seq<char>>) -> bool {
    exists|i: int| 0 <= i < packages.len() && is_internal(#[trigger] packages[i], internal)
}

/// The release changes the lockfile.
pub open spec fn lockfile_changes(file: ManifestFileView, internal: Seq<Seq<char>>) -> bool {
    parsed_toml(file.content) matches Some(nodes) && packages_of(nodes) matches Some(packages)
        && any_internal(packages, internal)
}

/// What a lockfile holds after the release.
pub open spec fn locked(nodes: Nodes, internal: Seq<Seq<char>>, version: Seq<char>) -> Nodes {
    match packages_of(nodes) {
        Some(packages) => nodes.insert(
            seq!["package"@],
            NodeView::Tables(released_packages(packages, internal, version)),
        ),
        None => nodes,
    }
}

/// The edits of a lockfile: the version of each package of the workspace is set.
pub open spec fn package_edits(
    packages: Seq<TableView>,
    internal: Seq<Seq<char>>,
    version: Seq<char>,
) -> Seq<TextEdit>
    decreases packages.len(),
{
    if packages.len() == 0 {
        Seq::empty()
    } else {
        let before = package_edits(packages.drop_last(), internal, version);
        if is_internal(packages.last(), internal) {
            before.push(
                table_edit(seq!["package"@], packages.len() - 1, "version"@, version),
            )
        } else {
            before
        }
    }
}

/// The edits of a lockfile.
pub open spec fn lockfile_edits(
    nodes: Nodes,
    internal: Seq<Seq<char>>,
    version: Seq<char>,
) -> Seq<TextEdit> {
    match packages_of(nodes) {
        Some(packages) => package_edits(packages, internal, version),
        None => Seq::empty(),
    }
}

/// The content is that of the lockfile with the versions of the release. Comments and
/// layout are those of the lockfile: only the values of the versions differ.
pub open spec fn reads_as_locked(
    content: Seq<char>,
    file: ManifestFileView,
    internal: Seq<Seq<char>>,
    version: Seq<char>,
) -> bool {
    parsed_toml(file.content) matches Some(nodes) && parsed_toml(content) == Some(
        locked(nodes, internal, version),
    ) && is_edited(content, file.content, lockfile_edits(nodes, internal, version))
}

/// What is said of a lockfile that is not TOML.
pub open spec fn invalid_lockfile(file: ManifestFileView) -> Seq<char> {
    "failed to parse lockfile '"@ + file.path + "': "@ + toml_error(file.content)
}

fn holds_name(names: &Vec<String>, name: &str) -> (result: bool)
    ensures
        result == views(names@).contains(name@),
{
    let ghost all = views(names@);
    let mut i: usize = 0;
    while i < names.len()
        invariant
            i <= names.len(),
            all == views(names@),
            forall|k: int| 0 <= k < i ==> #[trigger] all[k] != name@,
        decreases names.len() - i,
    {
        assert(all[i as int] == names@[i as int]@);
        if same(&names[i], name) {
            return true;
        }
        i = i + 1;
    }
    false
}

/// Whether a package of a lockfile belongs to the workspace.
fn belongs(document: &DocumentMut, path: &Vec<String>, number: usize, internal: &Vec<String>) -> (
result: bool)
    requires
        toml_nodes(*document).contains_key(views(path@)),
        toml_nodes(*document)[views(path@)] matches NodeView::Tables(tables) && number
            < tables.len(),
    ensures
        result == is_internal(
            toml_nodes(*document)[views(path@)]->Tables_0[number as int],
            views(internal@),
        ),
{
    let named = match table_item_at(document, path, number, "name") {
        Some(Some(name)) => holds_name(internal, &name),
        _ => false,
    };
    let versioned = match table_item_at(document, path, number, "version") {
        Some(Some(_)) => true,
        _ => false,
    };
    named && versioned && table_item_at(document, path, number, "source").is_none()
}

/// Sets the version of a release in a lockfile: the packages of the workspace get it.
/// Packages of the same name from a registry keep theirs. The result is whether there was
/// a version to set.
pub fn rewrite_packages(
    document: &mut DocumentMut,
    internal_packages: &Vec<String>,
    new_version: &str,
) -> (result: bool)
    ensures
        toml_nodes(*final(document)) == locked(
            toml_nodes(*old(document)),
            views(internal_packages@),
            new_version@,
        ),
        toml_history(*final(document)) == with_history(
            toml_history(*old(document)),
            lockfile_edits(toml_nodes(*old(document)), views(internal_packages@), new_version@),
        ),
        result == (packages_of(toml_nodes(*old(document))) matches Some(packages) && any_internal(
            packages,
            views(internal_packages@),
        )),
{
    let ghost nodes = toml_nodes(*document);
    let ghost names = views(internal_packages@);
    let ghost history = toml_history(*document);
    proof {
        lemma_no_more_history(history);
    }
    let path = path_of_one("package");
    let count = match node_at(document, &path) {
        Some(Node::Tables(count)) => count,
        _ => {
            return false;
        },
    };
    let ghost all = packages_of(nodes)->0;
    let ghost goal = released_packages(all, names, new_version@);
    let mut changed = false;
    let mut i: usize = 0;
    proof {
        assert(goal.take(0) + all.skip(0) == all);
        assert(package_edits(all.take(0), names, new_version@) == Seq::<TextEdit>::empty());
        assert(nodes.insert(seq!["package"@], NodeView::Tables(all)) == nodes);
    }
    while i < count
        invariant
            i <= count,
            count == all.len(),
            views(path@) == seq!["package"@],
            names == views(internal_packages@),
            goal == released_packages(all, names, new_version@),
            goal.len() == all.len(),
            toml_history(*document) == with_history(
                history,
                package_edits(all.take(i as int), names, new_version@),
            ),
            toml_nodes(*document) == nodes.insert(
                seq!["package"@],
                NodeView::Tables(goal.take(i as int) + all.skip(i as int)),
            ),
            changed == (exists|k: int| 0 <= k < i && is_internal(#[trigger] all[k], names)),
        decreases count - i,
    {
        let ghost now = goal.take(i as int) + all.skip(i as int);
        proof {
            assert(now[i as int] == all[i as int]);
            assert(toml_nodes(*document)[seq!["package"@]] == NodeView::Tables(now));
            assert(all.take(i + 1).drop_last() == all.take(i as int));
            assert(all.take(i + 1).last() == all[i as int]);
        }
        if belongs(document, &path, i, internal_packages) {
            set_table_text(document, &path, i, "version", new_version);
            changed = true;
            proof {
                let made = package_edits(all.take(i as int), names, new_version@);
                let edit = table_edit(views(path@), i as int, "version"@, new_version@);
                lemma_histories_add_up(history, made, seq![edit]);
                assert(made + seq![edit] == made.push(edit));
                assert(with_table_text(now, i as int, "version"@, new_version@) == goal.take(i + 1)
                    + all.skip(i + 1));
                assert(toml_nodes(*document) == nodes.insert(
                    seq!["package"@],
                    NodeView::Tables(goal.take(i + 1) + all.skip(i + 1)),
                ));
            }
        } else {
            assert(goal[i as int] == all[i as int]);
            assert(now == goal.take(i + 1) + all.skip(i + 1));
        }
        i = i + 1;
    }
    assert(goal.take(i as int) + all.skip(i as int) == goal);
    assert(all.take(i as int) == all);
    changed
}

/// The update of the lockfile: the packages of the workspace get the new version.
/// Packages of the same name from a registry keep theirs.
pub fn plan_lockfile_update(
    lockfile: &ManifestFile,
    internal_packages: &Vec<String>,
    new_version: &str,
) -> (result: Result<Option<FileUpdate>, String>)
    ensures
        match result {
            Err(message) => parsed_toml(lockfile.content@) is None && message@
                == invalid_lockfile(lockfile@),
            Ok(None) => parsed_toml(lockfile.content@) is Some && !lockfile_changes(
                lockfile@,
                views(internal_packages@),
            ),
            Ok(Some(update)) => {
                &&& lockfile_changes(lockfile@, views(internal_packages@))
                &&& update.file@ == lockfile.path@
                &&& reads_as_locked(
                    update.updated_content@,
                    lockfile@,
                    views(internal_packages@),
                    new_version@,
                )
            },
        },
{
    let mut document = match parse_toml(&lockfile.content) {
        Ok(document) => document,
        Err(error) => {
            return Err(join_four("failed to parse lockfile '", &lockfile.path, "': ", &error));
        },
    };
    if rewrite_packages(&mut document, internal_packages, new_version) {
        Ok(
            Some(
                FileUpdate {
                    file: lockfile.path.clone(),
                    updated_content: render_toml(&document),
                },
            ),
        )
    } else {
        Ok(None)
    }
}

// ---------------------------------------------------------------------------
// The plan
// ---------------------------------------------------------------------------
/// The update is that of the manifest.
pub open spec fn is_release_update(
    update: FileUpdateView,
    file: ManifestFileView,
    internal: Seq<Seq<char>>,
    version: Seq<char>,
) -> bool {
    &&& update.file == file.path
    &&& update.updated_content != file.content
    &&& reads_as_released(update.updated_content, file, internal, version)
}

/// The release sets a version in the manifest.
pub open spec fn has_places(file: ManifestFileView, internal: Seq<Seq<char>>) -> bool {
    parsed_toml(file.content) matches Some(nodes) && version_places(nodes, internal).len() > 0
}

/// The updates are those of the manifests, in order: one for each manifest that the
/// release sets a version in. It is left out only where the manifest reads as
/// released already.
pub open spec fn are_release_updates(
    updates: Seq<FileUpdateView>,
    files: Seq<ManifestFileView>,
    internal: Seq<Seq<char>>,
    version: Seq<char>,
) -> bool
    decreases files.len(),
{
    if files.len() == 0 {
        updates.len() == 0
    } else if !has_places(files.last(), internal) {
        are_release_updates(updates, files.drop_last(), internal, version)
    } else {
        ||| updates.len() > 0 && is_release_update(
            updates.last(),
            files.last(),
            internal,
            version,
        ) && are_release_updates(updates.drop_last(), files.drop_last(), internal, version)
        ||| reads_as_released(files.last().content, files.last(), internal, version)
            && are_release_updates(updates, files.drop_last(), internal, version)
    }
}

/// The updates are those of the manifests, then that of the lockfile, where there is
/// one and the release changes it.
pub open spec fn is_plan(
    updates: Seq<FileUpdateView>,
    files: Seq<ManifestFileView>,
    lockfile: Option<ManifestFileView>,
    internal: Seq<Seq<char>>,
    version: Seq<char>,
) -> bool {
    match lockfile {
        Some(lock) => if lockfile_changes(lock, internal) {
            &&& updates.len() > 0
            &&& updates.last().file == lock.path
            &&& reads_as_locked(updates.last().updated_content, lock, internal, version)
            &&& are_release_updates(updates.drop_last(), files, internal, version)
        } else {
            are_release_updates(updates, files, internal, version)
        },
        None => are_release_updates(updates, files, internal, version),
    }
}

/// Why there is no plan: a manifest is not TOML or the root manifest has no version,
/// or the lockfile is not TOML.
pub open spec fn plan_failure(files: Seq<ManifestFileView>, lockfile: Option<ManifestFileView>) ->
    Option<Seq<char>> {
    match version_result(files[0]) {
        Err(message) => Some(message),
        Ok(_) => match first_invalid(files) {
            Some(message) => Some(message),
            None => match lockfile {
                Some(lock) => if parsed_toml(lock.content) is None {
                    Some(invalid_lockfile(lock))
                } else {
                    None
                },
                None => None,
            },
        },
    }
}

/// What is said where a release changes nothing.
pub open spec fn nothing_to_rewrite() -> Seq<char> {
    "no Cargo.toml files were updated"@
}

proof fn lemma_valid_prefix(files: Seq<ManifestFileView>, i: int)
    requires
        first_invalid(files) is None,
        0 <= i < files.len(),
    ensures
        parsed_toml(files[i].content) is Some,
    decreases files.len(),
{
    if i < files.len() - 1 {
        assert(files.drop_last()[i] == files[i]);
        lemma_valid_prefix(files.drop_last(), i);
    }
}

/// Plans a release: the current version of the root manifest, which is the first, the
/// names of the packages, and what the manifests and the lockfile are to hold.
pub fn plan_version_rewrite(
    manifests: &Vec<ManifestFile>,
    lockfile: &Option<ManifestFile>,
    new_version: &str,
) -> (result: Result<VersionRewritePlan, String>)
    requires
        manifests@.len() > 0,
    ensures
        ({
            let files = views(manifests@);
            let lock = option_view(*lockfile);
            let internal = package_names(files);
            let failure = plan_failure(files, lock);
            match result {
                Ok(plan) => {
                    &&& failure is None
                    &&& version_result(files[0]) == Ok::<Seq<char>, Seq<char>>(
                        plan.current_version@,
                    )
                    &&& views(plan.internal_packages@) == internal
                    &&& plan.file_updates@.len() > 0
                    &&& is_plan(views(plan.file_updates@), files, lock, internal, new_version@)
                },
                Err(message) => {
                    ||| failure == Some(message@)
                    ||| failure is None && message@ == nothing_to_rewrite() && is_plan(
                        Seq::empty(),
                        files,
                        lock,
                        internal,
                        new_version@,
                    )
                },
            }
        }),
{
    let ghost files = views(manifests@);
    let ghost lock = option_view(*lockfile);
    assert(files[0] == manifests@[0]@);
    let version = match current_version(&manifests[0]) {
        Ok(version) => version,
        Err(message) => {
            return Err(message);
        },
    };
    let internal = match internal_package_names(manifests) {
        Ok(internal) => internal,
        Err(message) => {
            return Err(message);
        },
    };
    let ghost names = views(internal@);
    let mut updates: Vec<FileUpdate> = Vec::new();
    let mut i: usize = 0;
    assert(are_release_updates(views(updates@), files.take(0), names, new_version@));
    while i < manifests.len()
        invariant
            i <= manifests.len(),
            files == views(manifests@),
            names == views(internal@),
            first_invalid(files) is None,
            are_release_updates(views(updates@), files.take(i as int), names, new_version@),
        decreases manifests.len() - i,
    {
        proof {
            assert(files.take(i + 1).drop_last() == files.take(i as int));
            assert(files.take(i + 1).last() == manifests@[i as int]@);
            assert(files[i as int] == manifests@[i as int]@);
            lemma_valid_prefix(files, i as int);
        }
        let ghost before = views(updates@);
        match rewrite_manifest(&manifests[i], &internal, new_version) {
            Err(message) => {
                assert(parsed_toml(files[i as int].content) is Some);
                return Err(message);
            },
            Ok(None) => {},
            Ok(Some(content)) => {
                if !same(&content, &manifests[i].content) {
                    let update = FileUpdate {
                        file: manifests[i].path.clone(),
                        updated_content: content,
                    };
                    updates.push(update);
                    assert(views(updates@) == before.push(update@));
                    assert(views(updates@).drop_last() == before);
                }
            },
        }
        i = i + 1;
    }
    assert(files.take(i as int) == files);
    let ghost before = views(updates@);
    match lockfile {
        Some(lockfile) => match plan_lockfile_update(lockfile, &internal, new_version) {
            Err(message) => {
                return Err(message);
            },
            Ok(None) => {},
            Ok(Some(update)) => {
                updates.push(update);
                assert(views(updates@) == before.push(update@));
                assert(views(updates@).drop_last() == before);
            },
        },
        None => {},
    }
    if updates.len() == 0 {
        assert(views(updates@) == Seq::<FileUpdateView>::empty());
        return Err("no Cargo.toml files were updated".to_owned());
    }
    Ok(
        VersionRewritePlan {
            current_version: version,
            internal_packages: internal,
            file_updates: updates,
        },
    )
}

// ---------------------------------------------------------------------------
// Laws
// ---------------------------------------------------------------------------
/// A manifest with a version has the new one after the release: what the next run
/// reads is what this one wrote.
pub proof fn law_released_version_is_read_back(
    nodes: Nodes,
    internal: Seq<Seq<char>>,
    version: Seq<char>,
)
    requires
        version_of(nodes) is Some,
    ensures
        version_of(released(nodes, internal, version)) == Some(version),
{
    let places = version_places(nodes, internal);
    let own = with_place(Seq::empty(), text_place(nodes, package_version()));
    let shared = with_place(own, text_place(nodes, workspace_version()));
    if text_at(nodes, package_version()) is Some {
        assert(own[0] == value_place(package_version()));
        assert(shared[0] == value_place(package_version()));
        assert(version_spots(nodes, internal)[0] == shared[0]);
        assert(places[0] == package_version());
        assert(places.contains(package_version()));
        lemma_with_texts(nodes, places, version, package_version());
    } else {
        assert(shared[0] == value_place(workspace_version()));
        assert(version_spots(nodes, internal)[0] == shared[0]);
        assert(places[0] == workspace_version());
        assert(places.contains(workspace_version()));
        lemma_with_texts(nodes, places, version, workspace_version());
        lemma_with_texts(nodes, places, version, package_version());
        if places.contains(package_version()) {
            lemma_places_hold_texts(nodes, internal);
            let i = choose|i: int| 0 <= i < places.len() && places[i] == package_version();
            assert(holds_text(nodes, version_spots(nodes, internal)[i]));
        }
    }
}

/// A release changes nothing in a manifest but its version places; there it sets the
/// new version.
pub proof fn law_release_changes_only_versions(
    nodes: Nodes,
    internal: Seq<Seq<char>>,
    version: Seq<char>,
    path: KeyPath,
)
    ensures
        version_places(nodes, internal).contains(path) ==> text_at(
            released(nodes, internal, version),
            path,
        ) == Some(version),
        !version_places(nodes, internal).contains(path) ==> {
            &&& released(nodes, internal, version).contains_key(path) == nodes.contains_key(path)
            &&& nodes.contains_key(path) ==> released(nodes, internal, version)[path]
                == nodes[path]
        },
{
    lemma_with_texts(nodes, version_places(nodes, internal), version, path);
}

/// A release keeps the comments and the layout of a manifest: against the manifest, written
/// unchanged, only the versions differ, and in inline tables their keys.
pub proof fn law_release_keeps_layout(
    content: Seq<char>,
    file: ManifestFileView,
    internal: Seq<Seq<char>>,
    version: Seq<char>,
)
    requires
        reads_as_released(content, file, internal, version),
    ensures
        only_edits_differ(
            toml_display(file.content, Seq::empty()),
            content,
            place_edits(version_spots(parsed_toml(file.content)->0, internal), version),
        ),
{
    law_edits_keep_layout(
        content,
        file.content,
        place_edits(version_spots(parsed_toml(file.content)->0, internal), version),
    );
}

/// A release keeps the comments and the layout of a lockfile: against the lockfile, written
/// unchanged, only versions differ, one for each package of the workspace.
pub proof fn law_release_keeps_lockfile_layout(
    content: Seq<char>,
    file: ManifestFileView,
    internal: Seq<Seq<char>>,
    version: Seq<char>,
)
    requires
        reads_as_locked(content, file, internal, version),
    ensures
        only_edits_differ(
            toml_display(file.content, Seq::empty()),
            content,
            lockfile_edits(parsed_toml(file.content)->0, internal, version),
        ),
{
    law_edits_keep_layout(
        content,
        file.content,
        lockfile_edits(parsed_toml(file.content)->0, internal, version),
    );
}

/// In a lockfile a release changes only the versions of packages of the workspace:
/// every other package stays as it is, and so does whatever else a package says of
/// itself. No package is added or lost.
pub proof fn law_release_keeps_other_packages(
    packages: Seq<TableView>,
    internal: Seq<Seq<char>>,
    version: Seq<char>,
)
    ensures
        released_packages(packages, internal, version).len() == packages.len(),
        forall|i: int|
            0 <= i < packages.len() ==> {
                let after = #[trigger] released_packages(packages, internal, version)[i];
                &&& is_internal(packages[i], internal) ==> table_text(after, "version"@) == Some(
                    version,
                )
                &&& !is_internal(packages[i], internal) ==> after == packages[i]
            },
        forall|i: int, key: Seq<char>|
            #![trigger released_packages(packages, internal, version)[i].contains_key(key)]
            0 <= i < packages.len() && key != "version"@ ==> {
                let after = released_packages(packages, internal, version)[i];
                &&& after.contains_key(key) == packages[i].contains_key(key)
                &&& packages[i].contains_key(key) ==> after[key] == packages[i][key]
            },
{
}

/// A package with a source never changes.
pub proof fn law_registry_packages_keep_their_version(
    packages: Seq<TableView>,
    internal: Seq<Seq<char>>,
    version: Seq<char>,
    i: int,
)
    requires
        0 <= i < packages.len(),
        packages[i].contains_key("source"@),
    ensures
        released_packages(packages, internal, version)[i] == packages[i],
{
}

/// A manifest with a version has a place where a release sets it.
pub(crate) proof fn lemma_version_has_a_place(nodes: Nodes, internal: Seq<Seq<char>>)
    requires
        version_of(nodes) is Some,
    ensures
        version_places(nodes, internal).len() > 0,
{
    let own = with_place(Seq::empty(), text_place(nodes, package_version()));
    let shared = with_place(own, text_place(nodes, workspace_version()));
    assert(shared.len() > 0);
    assert(version_spots(nodes, internal)[0] == shared[0]);
}

} // verus!
