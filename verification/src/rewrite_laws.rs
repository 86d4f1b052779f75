//! Which versions a release writes, and where.

use vstd::prelude::*;

use crate::cargo::{invalid_manifest, tables_below, ManifestFileView};
use crate::cargo_laws::{is_any_table, is_table_name, is_text};
use crate::manifest::{
    keys_at, parsed_toml, text_at, EditPlace, KeyPath, Nodes, Place, TableView, TextEdit,
};
use crate::model::FileUpdateView;
use crate::text::text_before;
use crate::versioning::{
    are_release_updates, first_invalid, has_places, is_internal, is_plan, is_release_update,
    lockfile_changes, package_edits, package_name, package_names, places_in_table, places_in_tables,
    reads_as_locked, reads_as_released, released_packages, table_paths, tables_of_targets,
    version_of, version_place, version_places, version_spots, with_name,
};

verus! {

// ---------------------------------------------------------------------------
// The version and the names
// ---------------------------------------------------------------------------
/// The version of a manifest is that of its package, or else that of its workspace.
pub proof fn law_version_of_the_package_counts(nodes: Nodes, version: Seq<char>)
    ensures
        is_text(nodes, seq!["package"@, "version"@], version) ==> version_of(nodes) == Some(version),
        !(nodes.contains_key(seq!["package"@, "version"@]) && nodes[seq![
            "package"@,
            "version"@,
        ]] is Text) && is_text(
            nodes,
            seq!["workspace"@, "package"@, "version"@],
            version,
        ) ==> version_of(nodes) == Some(version),
        version_of(nodes) == Some(version) ==> is_text(nodes, seq!["package"@, "version"@], version)
            || is_text(nodes, seq!["workspace"@, "package"@, "version"@], version),
{
}

/// The manifest names its package.
pub open spec fn names_package(file: ManifestFileView, name: Seq<char>) -> bool {
    parsed_toml(file.content) is Some && is_text(
        parsed_toml(file.content)->0,
        seq!["package"@, "name"@],
        name,
    )
}

/// The names of packages are those of all manifests, sorted, each once.
pub proof fn law_every_package_is_named(files: Seq<ManifestFileView>)
    ensures
        forall|f: int, name: Seq<char>|
            0 <= f < files.len() && #[trigger] names_package(files[f], name) ==> package_names(
                files,
            ).contains(name),
        forall|k: int|
            0 <= k < package_names(files).len() ==> is_named(
                files,
                #[trigger] package_names(files)[k],
            ),
        is_in_order(package_names(files)),
    decreases files.len(),
{
    if files.len() > 0 {
        let front = files.drop_last();
        law_every_package_is_named(front);
        let before = package_names(front);
        let now = package_names(files);
        let last = files.last();
        match package_name(last) {
            Some(name) => {
                lemma_with_name(before, name);
                assert(names_package(last, name));
            },
            None => {},
        }
        assert forall|f: int, name: Seq<char>|
            0 <= f < files.len() && #[trigger] names_package(
                files[f],
                name,
            ) implies now.contains(name) by {
            if f < front.len() {
                assert(names_package(front[f], name));
                assert(before.contains(name));
            } else {
                assert(package_name(last) == Some(name));
            }
        }
        assert forall|k: int| 0 <= k < now.len() implies is_named(files, #[trigger] now[k]) by {
            let name = now[k];
            assert(now.contains(name));
            if before.contains(name) {
                let m = choose|m: int| 0 <= m < before.len() && before[m] == name;
                assert(is_named(front, before[m]));
                let f = choose|f: int|
                    0 <= f < front.len() && #[trigger] names_package(front[f], name);
                assert(names_package(files[f], name));
            } else {
                assert(names_package(files[files.len() - 1], name));
            }
        }
    }
}

/// Some manifest names that package.
pub open spec fn is_named(files: Seq<ManifestFileView>, name: Seq<char>) -> bool {
    exists|f: int| 0 <= f < files.len() && #[trigger] names_package(files[f], name)
}

/// Each name comes before all later ones.
pub open spec fn is_in_order(names: Seq<Seq<char>>) -> bool {
    forall|i: int, j: int|
        0 <= i < j < names.len() ==> #[trigger] text_before(names[i], names[j])
}

proof fn lemma_with_name(names: Seq<Seq<char>>, name: Seq<char>)
    ensures
        forall|other: Seq<char>| #[trigger]
            with_name(names, name).contains(other) == (other == name || names.contains(other)),
        is_in_order(names) ==> is_in_order(with_name(names, name)),
    decreases names.len(),
{
    let now = with_name(names, name);
    if names.len() == 0 {
        assert(now == seq![name]);
        assert(now[0] == name);
    } else if names[0] == name {
        assert(names.contains(names[0]));
    } else if text_before(name, names[0]) {
        assert(now == seq![name] + names);
        assert forall|other: Seq<char>| #[trigger] now.contains(other) == (other == name
            || names.contains(other)) by {
            assert(now[0] == name);
            if names.contains(other) {
                let k = choose|k: int| 0 <= k < names.len() && names[k] == other;
                assert(now[k + 1] == other);
            }
            if now.contains(other) && other != name {
                let k = choose|k: int| 0 <= k < now.len() && now[k] == other;
                assert(names[k - 1] == other);
            }
        }
        if is_in_order(names) {
            assert forall|i: int, j: int| 0 <= i < j < now.len() implies #[trigger] text_before(
                now[i],
                now[j],
            ) by {
                if i > 0 {
                    assert(text_before(names[i - 1], names[j - 1]));
                } else if j > 1 {
                    assert(text_before(names[0], names[j - 1]));
                    lemma_before_is_transitive(name, names[0], names[j - 1]);
                }
            }
        }
    } else {
        let rest = names.skip(1);
        lemma_with_name(rest, name);
        let tail = with_name(rest, name);
        assert(now == seq![names[0]] + tail);
        assert forall|other: Seq<char>| #[trigger] now.contains(other) == (other == name
            || names.contains(other)) by {
            assert(now[0] == names[0]);
            assert(tail.contains(other) == (other == name || rest.contains(other)));
            if names.contains(other) {
                let k = choose|k: int| 0 <= k < names.len() && names[k] == other;
                if k > 0 {
                    assert(rest[k - 1] == other);
                }
            }
            if tail.contains(other) {
                let k = choose|k: int| 0 <= k < tail.len() && tail[k] == other;
                assert(now[k + 1] == other);
            }
            if rest.contains(other) {
                let k = choose|k: int| 0 <= k < rest.len() && rest[k] == other;
                assert(names[k + 1] == other);
            }
            if now.contains(other) {
                let k = choose|k: int| 0 <= k < now.len() && now[k] == other;
                if k > 0 {
                    assert(tail[k - 1] == other);
                } else {
                    assert(names[0] == other);
                }
            }
        }
        if is_in_order(names) {
            assert forall|i: int, j: int| 0 <= i < j < rest.len() implies #[trigger] text_before(
                rest[i],
                rest[j],
            ) by {
                assert(text_before(names[i + 1], names[j + 1]));
            }
            assert forall|i: int, j: int| 0 <= i < j < now.len() implies #[trigger] text_before(
                now[i],
                now[j],
            ) by {
                if i > 0 {
                    assert(text_before(tail[i - 1], tail[j - 1]));
                } else {
                    assert(tail.contains(tail[j - 1]));
                    if now[j] == name {
                        lemma_before_is_total(names[0], name);
                    } else {
                        let k = choose|k: int| 0 <= k < rest.len() && rest[k] == now[j];
                        assert(text_before(names[0], names[k + 1]));
                    }
                }
            }
        }
    }
}

proof fn lemma_before_is_transitive(a: Seq<char>, b: Seq<char>, c: Seq<char>)
    requires
        text_before(a, b),
        text_before(b, c),
    ensures
        text_before(a, c),
    decreases a.len(),
{
    if a.len() > 0 && a[0] == b[0] && b[0] == c[0] {
        lemma_before_is_transitive(a.skip(1), b.skip(1), c.skip(1));
    }
}

proof fn lemma_before_is_total(a: Seq<char>, b: Seq<char>)
    requires
        a != b,
    ensures
        text_before(a, b) || text_before(b, a),
    decreases a.len(),
{
    if a.len() > 0 && b.len() > 0 && a[0] == b[0] {
        assert(a == seq![a[0]] + a.skip(1));
        assert(b == seq![b[0]] + b.skip(1));
        lemma_before_is_total(a.skip(1), b.skip(1));
    } else if a.len() == 0 && b.len() == 0 {
        assert(a == b);
    }
}

// ---------------------------------------------------------------------------
// Places of versions
// ---------------------------------------------------------------------------
/// The path is that of a table in which a release looks for packages.
pub open spec fn is_release_table(nodes: Nodes, table: KeyPath) -> bool {
    ||| table.len() == 1 && is_table_name(table[0])
    ||| table == seq!["workspace"@, "dependencies"@]
    ||| table.len() == 3 && table[0] == "target"@ && is_table_name(table[2]) && nodes.contains_key(
        seq!["target"@],
    ) && nodes[seq!["target"@]] is Table && nodes[seq!["target"@]]->Table_0.contains(table[1])
}

/// The path is that of a version which a release writes: that of the package, that of the
/// workspace, or the one that a table of dependencies requires of a package of the workspace.
pub open spec fn is_release_place(nodes: Nodes, internal: Seq<Seq<char>>, path: KeyPath) -> bool {
    ||| (path == seq!["package"@, "version"@] || path == seq![
        "workspace"@,
        "package"@,
        "version"@,
    ]) && text_at(nodes, path) is Some
    ||| exists|table: KeyPath, name: Seq<char>| #[trigger]
        requires_version(nodes, table, name, path) && is_release_table(nodes, table)
            && internal.contains(name)
}

/// The table requires that version of the package at the path.
pub open spec fn requires_version(
    nodes: Nodes,
    table: KeyPath,
    name: Seq<char>,
    path: KeyPath,
) -> bool {
    let entry = table.push(name);
    ||| path == entry && text_at(nodes, entry) is Some
    ||| path == entry.push("version"@) && is_any_table(nodes, entry) && text_at(nodes, path) is Some
}

/// A release writes the version at those places, all of them and no other.
pub proof fn law_every_version_is_written(nodes: Nodes, internal: Seq<Seq<char>>, path: KeyPath)
    ensures
        version_places(nodes, internal).contains(path) == is_release_place(nodes, internal, path),
{
    let spots = version_spots(nodes, internal);
    let places = version_places(nodes, internal);
    let tables = table_paths(nodes);
    let found = places_in_tables(nodes, tables, internal);
    let own = seq!["package"@, "version"@];
    let shared = seq!["workspace"@, "package"@, "version"@];
    lemma_in_tables(nodes, tables, internal, path);
    let head = spots.take(spots.len() - found.len());
    assert(spots == head + found);
    assert(head.len() <= 2);
    if text_at(nodes, own) is Some {
        assert(spots[0].path == own);
        assert(places[0] == own);
    }
    if text_at(nodes, shared) is Some {
        let k: int = if text_at(nodes, own) is Some {
            1
        } else {
            0
        };
        assert(spots[k].path == shared);
        assert(places[k] == shared);
    }
    if has_path(found, path) {
        let k = choose|k: int| 0 <= k < found.len() && (#[trigger] found[k]).path == path;
        assert(spots[head.len() + k] == found[k]);
        assert(places[head.len() + k] == path);
        let (t, n) = choose|t: int, n: int|
            0 <= t < tables.len() && 0 <= n < internal.len() && requires_version(
                nodes,
                #[trigger] tables[t],
                #[trigger] internal[n],
                path,
            );
        lemma_release_tables(nodes, tables[t]);
        assert(tables.contains(tables[t]));
        assert(internal.contains(internal[n]));
        assert(requires_version(nodes, tables[t], internal[n], path));
    }
    if places.contains(path) {
        let k = choose|k: int| 0 <= k < places.len() && places[k] == path;
        assert(spots[k].path == path);
        if k >= head.len() {
            assert(found[k - head.len()] == spots[k]);
            assert(has_path(found, path));
        }
    }
    if exists|table: KeyPath, name: Seq<char>| #[trigger]
        requires_version(nodes, table, name, path) && is_release_table(nodes, table)
            && internal.contains(name) {
        let (table, name) = choose|table: KeyPath, name: Seq<char>| #[trigger]
            requires_version(nodes, table, name, path) && is_release_table(nodes, table)
                && internal.contains(name);
        lemma_release_tables(nodes, table);
        let t = choose|t: int| 0 <= t < tables.len() && tables[t] == table;
        let n = choose|n: int| 0 <= n < internal.len() && internal[n] == name;
        assert(requires_version(nodes, tables[t], internal[n], path));
        lemma_shadow(nodes, tables, internal, t, n, path);
    }
}

spec fn has_path(places: Seq<Place>, path: KeyPath) -> bool {
    exists|k: int| 0 <= k < places.len() && (#[trigger] places[k]).path == path
}

proof fn lemma_shadow(
    nodes: Nodes,
    tables: Seq<KeyPath>,
    internal: Seq<Seq<char>>,
    t: int,
    n: int,
    path: KeyPath,
)
    requires
        0 <= t < tables.len(),
        0 <= n < internal.len(),
        requires_version(nodes, tables[t], internal[n], path),
        has_path(places_in_tables(nodes, tables, internal), path) == (exists|t: int, n: int|
            0 <= t < tables.len() && 0 <= n < internal.len() && requires_version(
                nodes,
                #[trigger] tables[t],
                #[trigger] internal[n],
                path,
            )),
    ensures
        has_path(places_in_tables(nodes, tables, internal), path),
{
}

proof fn lemma_place(nodes: Nodes, table: KeyPath, name: Seq<char>, path: KeyPath)
    ensures
        requires_version(nodes, table, name, path) == (version_place(
            nodes,
            table.push(name),
        ) matches Some(place) && place.path == path),
{
    let entry = table.push(name);
    assert(entry.push("version"@).len() == entry.len() + 1);
}

proof fn lemma_in_table(
    nodes: Nodes,
    table: KeyPath,
    names: Seq<Seq<char>>,
    path: KeyPath,
)
    ensures
        has_path(places_in_table(nodes, table, names), path) == (exists|n: int|
            0 <= n < names.len() && requires_version(nodes, table, #[trigger] names[n], path)),
    decreases names.len(),
{
    if names.len() > 0 {
        let front = names.drop_last();
        lemma_in_table(nodes, table, front, path);
        lemma_place(nodes, table, names.last(), path);
        let before = places_in_table(nodes, table, front);
        let now = places_in_table(nodes, table, names);
        if has_path(before, path) {
            let k = choose|k: int| 0 <= k < before.len() && (#[trigger] before[k]).path == path;
            assert(now[k].path == path);
            let n = choose|n: int|
                0 <= n < front.len() && requires_version(nodes, table, #[trigger] front[n], path);
            assert(requires_version(nodes, table, names[n], path));
        }
        if requires_version(nodes, table, names.last(), path) {
            assert(now[before.len() as int].path == path);
            assert(requires_version(nodes, table, names[names.len() - 1], path));
        }
        if has_path(now, path) {
            let k = choose|k: int| 0 <= k < now.len() && (#[trigger] now[k]).path == path;
            if k < before.len() {
                assert(before[k].path == path);
            }
        }
        if exists|n: int|
            0 <= n < names.len() && requires_version(nodes, table, #[trigger] names[n], path) {
            let n = choose|n: int|
                0 <= n < names.len() && requires_version(nodes, table, #[trigger] names[n], path);
            if n < front.len() {
                assert(requires_version(nodes, table, front[n], path));
            }
        }
    }
}

proof fn lemma_in_tables(
    nodes: Nodes,
    tables: Seq<KeyPath>,
    names: Seq<Seq<char>>,
    path: KeyPath,
)
    ensures
        has_path(places_in_tables(nodes, tables, names), path) == (exists|t: int, n: int|
            0 <= t < tables.len() && 0 <= n < names.len() && requires_version(
                nodes,
                #[trigger] tables[t],
                #[trigger] names[n],
                path,
            )),
    decreases tables.len(),
{
    if tables.len() > 0 {
        let front = tables.drop_last();
        lemma_in_tables(nodes, front, names, path);
        lemma_in_table(nodes, tables.last(), names, path);
        let before = places_in_tables(nodes, front, names);
        let last = places_in_table(nodes, tables.last(), names);
        let now = places_in_tables(nodes, tables, names);
        assert(now == before + last);
        if has_path(before, path) {
            let k = choose|k: int| 0 <= k < before.len() && (#[trigger] before[k]).path == path;
            assert(now[k].path == path);
            let (t, n) = choose|t: int, n: int|
                0 <= t < front.len() && 0 <= n < names.len() && requires_version(
                    nodes,
                    #[trigger] front[t],
                    #[trigger] names[n],
                    path,
                );
            assert(requires_version(nodes, tables[t], names[n], path));
        }
        if has_path(last, path) {
            let k = choose|k: int| 0 <= k < last.len() && (#[trigger] last[k]).path == path;
            assert(now[before.len() + k].path == path);
            let n = choose|n: int|
                0 <= n < names.len() && requires_version(
                    nodes,
                    tables.last(),
                    #[trigger] names[n],
                    path,
                );
            assert(requires_version(nodes, tables[tables.len() - 1], names[n], path));
        }
        if has_path(now, path) {
            let k = choose|k: int| 0 <= k < now.len() && (#[trigger] now[k]).path == path;
            if k < before.len() {
                assert(before[k].path == path);
            } else {
                assert(last[k - before.len()].path == path);
            }
        }
        if exists|t: int, n: int|
            0 <= t < tables.len() && 0 <= n < names.len() && requires_version(
                nodes,
                #[trigger] tables[t],
                #[trigger] names[n],
                path,
            ) {
            let (t, n) = choose|t: int, n: int|
                0 <= t < tables.len() && 0 <= n < names.len() && requires_version(
                    nodes,
                    #[trigger] tables[t],
                    #[trigger] names[n],
                    path,
                );
            if t < front.len() {
                assert(requires_version(nodes, front[t], names[n], path));
            } else {
                assert(requires_version(nodes, tables.last(), names[n], path));
            }
        }
    }
}

proof fn lemma_below(path: KeyPath, table: KeyPath)
    ensures
        tables_below(path).contains(table) == (table.len() > 0 && table.drop_last() == path
            && is_table_name(table.last())),
{
    let tables = tables_below(path);
    if tables.contains(table) {
        let k = choose|k: int| 0 <= k < tables.len() && tables[k] == table;
        assert(table.drop_last() == path);
    }
    if table.len() > 0 && table.drop_last() == path && is_table_name(table.last()) {
        assert(table == path.push(table.last()));
        assert(tables[0] == path.push("dependencies"@));
        assert(tables[1] == path.push("dev-dependencies"@));
        assert(tables[2] == path.push("build-dependencies"@));
    }
}

proof fn lemma_release_tables(nodes: Nodes, table: KeyPath)
    ensures
        table_paths(nodes).contains(table) == is_release_table(nodes, table),
{
    let own = tables_below(Seq::empty());
    let shared = own.push(seq!["workspace"@, "dependencies"@]);
    let all = table_paths(nodes);
    lemma_below(Seq::empty(), table);
    if table.len() == 1 {
        assert(table.drop_last() == Seq::<Seq<char>>::empty());
    }
    assert(all[3] == seq!["workspace"@, "dependencies"@]);
    if own.contains(table) {
        let k = choose|k: int| 0 <= k < own.len() && own[k] == table;
        assert(all[k] == table);
    }
    if all.contains(table) {
        let k = choose|k: int| 0 <= k < all.len() && all[k] == table;
        if k < own.len() {
            assert(own[k] == table);
        }
    }
    match keys_at(nodes, seq!["target"@]) {
        Some(names) => {
            let below = tables_of_targets(names);
            assert(all == shared + below);
            lemma_targets(names, table);
            if below.contains(table) {
                let k = choose|k: int| 0 <= k < below.len() && below[k] == table;
                assert(all[shared.len() + k] == table);
            }
            if all.contains(table) && !own.contains(table) && table != seq![
                "workspace"@,
                "dependencies"@,
            ] {
                let k = choose|k: int| 0 <= k < all.len() && all[k] == table;
                if k < shared.len() {
                    assert(shared[k] == table);
                    if k < own.len() {
                        assert(own[k] == table);
                    }
                } else {
                    assert(below[k - shared.len()] == table);
                }
            }
        },
        None => {},
    }
}

proof fn lemma_targets(names: Seq<Seq<char>>, table: KeyPath)
    ensures
        tables_of_targets(names).contains(table) == (table.len() == 3 && table[0] == "target"@
            && is_table_name(table[2]) && names.contains(table[1])),
    decreases names.len(),
{
    if names.len() > 0 {
        let front = names.drop_last();
        lemma_targets(front, table);
        let before = tables_of_targets(front);
        let path = seq!["target"@, names.last()];
        let below = tables_below(path);
        let now = tables_of_targets(names);
        assert(now == before + below);
        lemma_below(path, table);
        if before.contains(table) {
            let k = choose|k: int| 0 <= k < before.len() && before[k] == table;
            assert(now[k] == table);
            let m = choose|m: int| 0 <= m < front.len() && front[m] == table[1];
            assert(names[m] == table[1]);
        }
        if below.contains(table) {
            let k = choose|k: int| 0 <= k < below.len() && below[k] == table;
            assert(now[before.len() + k] == table);
            let head = table.drop_last();
            assert(head == path);
            assert(head.len() == 2);
            assert(table[0] == head[0] && table[1] == head[1]);
            assert(names[names.len() - 1] == table[1]);
        }
        if now.contains(table) {
            let k = choose|k: int| 0 <= k < now.len() && now[k] == table;
            if k < before.len() {
                assert(before[k] == table);
            } else {
                assert(below[k - before.len()] == table);
            }
        }
        if table.len() == 3 && table[0] == "target"@ && is_table_name(table[2]) && names.contains(
            table[1],
        ) {
            let m = choose|m: int| 0 <= m < names.len() && names[m] == table[1];
            if m < front.len() {
                assert(front[m] == table[1]);
            } else {
                assert(table.drop_last() == path);
            }
        }
    }
}

// ---------------------------------------------------------------------------
// Lockfiles
// ---------------------------------------------------------------------------
/// In the lockfile every package of the workspace gets the version: it has its name and a
/// version and comes from no source. Every other package stays.
pub proof fn law_workspace_packages_are_locked(
    packages: Seq<TableView>,
    internal: Seq<Seq<char>>,
    version: Seq<char>,
    i: int,
)
    requires
        0 <= i < packages.len(),
    ensures
        ({
            let package = packages[i];
            let after = released_packages(packages, internal, version)[i];
            if package.contains_key("name"@) && package["name"@] is Some && internal.contains(
                package["name"@]->0,
            ) && !package.contains_key("source"@) && package.contains_key("version"@)
                && package["version"@] is Some {
                after == package.insert("version"@, Some(version))
            } else {
                after == package
            }
        }),
        released_packages(packages, internal, version).len() == packages.len(),
{
}

/// Exactly the packages of the workspace are edited in the lockfile, each at its place in the
/// list.
pub proof fn law_locked_packages_are_edited(
    packages: Seq<TableView>,
    internal: Seq<Seq<char>>,
    version: Seq<char>,
)
    ensures
        forall|i: int|
            0 <= i < packages.len() && is_internal(#[trigger] packages[i], internal)
                ==> package_edits(packages, internal, version).contains(
                version_edit(i, version),
            ),
        forall|k: int|
            0 <= k < package_edits(packages, internal, version).len() ==> is_edit_of_one(
                packages,
                internal,
                version,
                #[trigger] package_edits(packages, internal, version)[k],
            ),
    decreases packages.len(),
{
    if packages.len() > 0 {
        let front = packages.drop_last();
        law_locked_packages_are_edited(front, internal, version);
        let before = package_edits(front, internal, version);
        let now = package_edits(packages, internal, version);
        assert forall|i: int|
            0 <= i < packages.len() && is_internal(
                #[trigger] packages[i],
                internal,
            ) implies now.contains(version_edit(i, version)) by {
            if i < front.len() {
                assert(front[i] == packages[i]);
                let k = choose|k: int| 0 <= k < before.len() && before[k] == version_edit(
                    i,
                    version,
                );
                assert(now[k] == before[k]);
            } else {
                assert(now[before.len() as int] == version_edit(i, version));
            }
        }
        assert forall|k: int| 0 <= k < now.len() implies is_edit_of_one(
            packages,
            internal,
            version,
            #[trigger] now[k],
        ) by {
            if k < before.len() {
                assert(now[k] == before[k]);
                let i = choose|i: int|
                    0 <= i < front.len() && is_internal(#[trigger] front[i], internal) && before[k]
                        == version_edit(i, version);
                assert(packages[i] == front[i]);
            } else {
                assert(is_internal(packages[packages.len() - 1], internal));
            }
        }
    }
}

/// The edit of the version of the package with the number.
pub open spec fn version_edit(i: int, version: Seq<char>) -> TextEdit {
    TextEdit { path: seq!["package"@], place: EditPlace::Table(i, "version"@), text: version }
}

/// The edit is that of a package of the workspace.
pub open spec fn is_edit_of_one(
    packages: Seq<TableView>,
    internal: Seq<Seq<char>>,
    version: Seq<char>,
    edit: TextEdit,
) -> bool {
    exists|i: int|
        0 <= i < packages.len() && is_internal(#[trigger] packages[i], internal) && edit
            == version_edit(i, version)
}

// ---------------------------------------------------------------------------
// Plans
// ---------------------------------------------------------------------------
/// The file is planned for: some update writes it anew with the version in all its places.
pub open spec fn is_planned(
    updates: Seq<FileUpdateView>,
    file: ManifestFileView,
    internal: Seq<Seq<char>>,
    version: Seq<char>,
) -> bool {
    exists|u: int|
        0 <= u < updates.len() && (#[trigger] updates[u]).file == file.path && reads_as_released(
            updates[u].updated_content,
            file,
            internal,
            version,
        )
}

/// A plan covers every manifest with a version to write, unless the manifest already reads as
/// released, and the lockfile; and it writes no other file.
pub proof fn law_plan_covers_every_manifest(
    updates: Seq<FileUpdateView>,
    files: Seq<ManifestFileView>,
    lockfile: Option<ManifestFileView>,
    internal: Seq<Seq<char>>,
    version: Seq<char>,
)
    requires
        is_plan(updates, files, lockfile, internal, version),
    ensures
        forall|f: int|
            0 <= f < files.len() && has_places(#[trigger] files[f], internal) ==> is_planned(
                updates,
                files[f],
                internal,
                version,
            ) || reads_as_released(files[f].content, files[f], internal, version),
        forall|u: int|
            0 <= u < updates.len() ==> is_of_a_manifest(#[trigger] updates[u], files) || (
            lockfile matches Some(lock) && u == updates.len() - 1 && updates[u].file == lock.path
                && lockfile_changes(lock, internal)),
        lockfile matches Some(lock) && lockfile_changes(lock, internal) ==> updates.len() > 0
            && updates.last().file == lockfile->0.path && reads_as_locked(
            updates.last().updated_content,
            lockfile->0,
            internal,
            version,
        ),
{
    match lockfile {
        Some(lock) => {
            if lockfile_changes(lock, internal) {
                let rest = updates.drop_last();
                lemma_covers(rest, files, internal, version);
                assert forall|f: int|
                    0 <= f < files.len() && has_places(
                        #[trigger] files[f],
                        internal,
                    ) implies is_planned(updates, files[f], internal, version)
                    || reads_as_released(files[f].content, files[f], internal, version) by {
                    if is_planned(rest, files[f], internal, version) {
                        lemma_planned_among_more(rest, updates, files[f], internal, version);
                    }
                }
                assert forall|u: int| 0 <= u < updates.len() - 1 implies is_of_a_manifest(
                    #[trigger] updates[u],
                    files,
                ) by {
                    assert(rest[u] == updates[u]);
                }
            } else {
                lemma_covers(updates, files, internal, version);
            }
        },
        None => {
            lemma_covers(updates, files, internal, version);
        },
    }
}

/// The update is of one of the manifests.
pub open spec fn is_of_a_manifest(
    update: FileUpdateView,
    files: Seq<ManifestFileView>,
) -> bool {
    exists|f: int| 0 <= f < files.len() && update.file == (#[trigger] files[f]).path
}

proof fn lemma_planned_among_more(
    rest: Seq<FileUpdateView>,
    updates: Seq<FileUpdateView>,
    file: ManifestFileView,
    internal: Seq<Seq<char>>,
    version: Seq<char>,
)
    requires
        updates.len() > 0,
        rest == updates.drop_last(),
        is_planned(rest, file, internal, version),
    ensures
        is_planned(updates, file, internal, version),
{
    let u = choose|u: int|
        0 <= u < rest.len() && (#[trigger] rest[u]).file == file.path && reads_as_released(
            rest[u].updated_content,
            file,
            internal,
            version,
        );
    assert(updates[u] == rest[u]);
}

proof fn lemma_covers(
    updates: Seq<FileUpdateView>,
    files: Seq<ManifestFileView>,
    internal: Seq<Seq<char>>,
    version: Seq<char>,
)
    requires
        are_release_updates(updates, files, internal, version),
    ensures
        forall|f: int|
            0 <= f < files.len() && has_places(#[trigger] files[f], internal) ==> is_planned(
                updates,
                files[f],
                internal,
                version,
            ) || reads_as_released(files[f].content, files[f], internal, version),
        forall|u: int|
            0 <= u < updates.len() ==> is_of_a_manifest(#[trigger] updates[u], files),
    decreases files.len(),
{
    if files.len() > 0 {
        let front = files.drop_last();
        let last = files.last();
        let written = has_places(last, internal) && updates.len() > 0 && is_release_update(
            updates.last(),
            last,
            internal,
            version,
        ) && are_release_updates(updates.drop_last(), front, internal, version);
        if written {
            let rest = updates.drop_last();
            lemma_covers(rest, front, internal, version);
            assert(updates[updates.len() - 1].file == last.path);
            assert(is_planned(updates, last, internal, version));
            assert forall|f: int|
                0 <= f < files.len() && has_places(#[trigger] files[f], internal) implies is_planned(
                updates,
                files[f],
                internal,
                version,
            ) || reads_as_released(files[f].content, files[f], internal, version) by {
                if f < front.len() {
                    assert(front[f] == files[f]);
                    if is_planned(rest, files[f], internal, version) {
                        lemma_planned_among_more(rest, updates, files[f], internal, version);
                    }
                }
            }
            assert forall|u: int| 0 <= u < updates.len() implies is_of_a_manifest(
                #[trigger] updates[u],
                files,
            ) by {
                if u < rest.len() {
                    assert(rest[u] == updates[u]);
                    let f = choose|f: int|
                        0 <= f < front.len() && rest[u].file == (#[trigger] front[f]).path;
                    assert(files[f] == front[f]);
                } else {
                    assert(updates[u].file == files[files.len() - 1].path);
                }
            }
        } else {
            lemma_covers(updates, front, internal, version);
            assert forall|f: int|
                0 <= f < files.len() && has_places(#[trigger] files[f], internal) implies is_planned(
                updates,
                files[f],
                internal,
                version,
            ) || reads_as_released(files[f].content, files[f], internal, version) by {
                if f < front.len() {
                    assert(front[f] == files[f]);
                }
            }
            assert forall|u: int| 0 <= u < updates.len() implies is_of_a_manifest(
                #[trigger] updates[u],
                files,
            ) by {
                let f = choose|f: int|
                    0 <= f < front.len() && updates[u].file == (#[trigger] front[f]).path;
                assert(files[f] == front[f]);
            }
        }
    }
}

/// What is wrong with a list of manifests is the first that cannot be read.
pub proof fn law_first_broken_manifest_is_told(files: Seq<ManifestFileView>, i: int)
    ensures
        0 <= i < files.len() && parsed_toml(files[i].content) is None && (forall|j: int|
            0 <= j < i ==> parsed_toml((#[trigger] files[j]).content) is Some) ==> first_invalid(
            files,
        ) == Some(invalid_manifest(files[i])),
        (forall|j: int| 0 <= j < files.len() ==> parsed_toml((#[trigger] files[j]).content) is Some)
            == first_invalid(files) is None,
    decreases files.len(),
{
    if files.len() > 0 {
        let front = files.drop_last();
        law_first_broken_manifest_is_told(front, i);
        assert(files[files.len() - 1] == files.last());
        assert forall|j: int| 0 <= j < front.len() implies #[trigger] front[j] == files[j] by {}
        if forall|j: int| 0 <= j < files.len() ==> parsed_toml(
            (#[trigger] files[j]).content,
        ) is Some {
            assert forall|j: int| 0 <= j < front.len() implies parsed_toml(
                (#[trigger] front[j]).content,
            ) is Some by {
                assert(parsed_toml(files[j].content) is Some);
            }
        }
        if first_invalid(files) is None {
            assert forall|j: int| 0 <= j < files.len() implies parsed_toml(
                (#[trigger] files[j]).content,
            ) is Some by {
                if j < front.len() {
                    assert(parsed_toml(front[j].content) is Some);
                }
            }
        }
        if 0 <= i < files.len() && parsed_toml(files[i].content) is None && (forall|j: int|
            0 <= j < i ==> parsed_toml((#[trigger] files[j]).content) is Some) {
            if i < front.len() {
                assert(front[i] == files[i]);
            } else {
                assert forall|j: int| 0 <= j < front.len() implies parsed_toml(
                    (#[trigger] front[j]).content,
                ) is Some by {
                    assert(parsed_toml(files[j].content) is Some);
                }
            }
        }
    }
}

} // verus!
