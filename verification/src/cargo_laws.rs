//! Which dependencies of a manifest are found, what is told of each, and which of them are
//! brought to another version.

use vstd::prelude::*;

use crate::cargo::{
    all_dependencies, dependencies_of, dependencies_of_table, dependency_at, dependency_tables,
    empty_manifest, is_result_of, known_version, manifest_from, manifest_result, manifest_with,
    report_from, report_of, report_with, requirement_of, tables_below, target_tables, with_edits,
    CargoProgressView, CrateVersionView, DependencyView, EditView, EntryView, ManifestFileView,
    ManifestUpdateResult, ManifestView, ReportView,
};
use crate::manifest::{keys_at, parsed_toml, text_at, KeyPath, NodeView, Nodes};
use crate::model::{UpdateChangeKind, UpdateChangeView};
use crate::update::UpdateMode;
use crate::version::{parsed_version, semver_exceeds};

verus! {

// ---------------------------------------------------------------------------
// Tables
// ---------------------------------------------------------------------------
/// A table with those keys stands at the path.
pub open spec fn is_table(nodes: Nodes, path: KeyPath, keys: Seq<Seq<char>>) -> bool {
    nodes.contains_key(path) && nodes[path] == NodeView::Table(keys)
}

/// A text stands at the path.
pub open spec fn is_text(nodes: Nodes, path: KeyPath, text: Seq<char>) -> bool {
    nodes.contains_key(path) && nodes[path] == NodeView::Text(text)
}

/// The name of a table of dependencies.
pub open spec fn is_table_name(name: Seq<char>) -> bool {
    name == "dependencies"@ || name == "dev-dependencies"@ || name == "build-dependencies"@
}

/// The path is that of a table of dependencies of one target.
pub open spec fn is_target_table(nodes: Nodes, target: Seq<char>, table: KeyPath) -> bool {
    &&& nodes.contains_key(seq!["target"@]) && nodes[seq!["target"@]] is Table
    &&& nodes[seq!["target"@]]->Table_0.contains(target)
    &&& nodes.contains_key(seq!["target"@, target]) && nodes[seq!["target"@, target]] is Table
    &&& table.len() == 3 && table[0] == "target"@ && table[1] == target && is_table_name(table[2])
}

/// The path is that of a table of dependencies: of the package, of the workspace, or of a
/// target.
pub open spec fn is_dependency_table(nodes: Nodes, table: KeyPath) -> bool {
    ||| table.len() == 1 && is_table_name(table[0])
    ||| nodes.contains_key(seq!["workspace"@]) && nodes[seq!["workspace"@]] is Table && table
        == seq!["workspace"@, "dependencies"@]
    ||| exists|target: Seq<char>| #[trigger] is_target_table(nodes, target, table)
}

proof fn lemma_below(path: KeyPath, table: KeyPath)
    ensures
        tables_below(path).contains(table) == (table.len() > 0 && table.drop_last() == path
            && is_table_name(table.last())),
{
    let tables = tables_below(path);
    if tables.contains(table) {
        let k = choose|k: int| 0 <= k < tables.len() && tables[k] == table;
        assert(table.drop_last() == path);
    }
    if table.len() > 0 && table.drop_last() == path && is_table_name(table.last()) {
        assert(table == path.push(table.last()));
        assert(tables[0] == path.push("dependencies"@));
        assert(tables[1] == path.push("dev-dependencies"@));
        assert(tables[2] == path.push("build-dependencies"@));
    }
}

proof fn lemma_target_tables(nodes: Nodes, names: Seq<Seq<char>>, table: KeyPath)
    ensures
        target_tables(nodes, names).contains(table) == (exists|k: int|
            0 <= k < names.len() && is_below_target(nodes, #[trigger] names[k], table)),
    decreases names.len(),
{
    if names.len() > 0 {
        let front = names.drop_last();
        lemma_target_tables(nodes, front, table);
        let before = target_tables(nodes, front);
        let now = target_tables(nodes, names);
        let path = seq!["target"@, names.last()];
        let below = tables_below(path);
        lemma_below(path, table);
        if now.contains(table) {
            let k = choose|k: int| 0 <= k < now.len() && now[k] == table;
            if k < before.len() {
                assert(before[k] == table);
                let m = choose|m: int|
                    0 <= m < front.len() && is_below_target(nodes, #[trigger] front[m], table);
                assert(is_below_target(nodes, names[m], table));
            } else {
                assert(below[k - before.len()] == table);
                assert(is_below_target(nodes, names[names.len() - 1], table));
            }
        }
        if exists|k: int| 0 <= k < names.len() && is_below_target(nodes, #[trigger] names[k], table) {
            let m = choose|m: int|
                0 <= m < names.len() && is_below_target(nodes, #[trigger] names[m], table);
            if m < front.len() {
                assert(is_below_target(nodes, front[m], table));
                let k = choose|k: int| 0 <= k < before.len() && before[k] == table;
                assert(now[k] == table);
            } else {
                let k = choose|k: int| 0 <= k < below.len() && below[k] == table;
                assert(now[before.len() + k] == table);
            }
        }
    }
}

spec fn is_below_target(nodes: Nodes, target: Seq<char>, table: KeyPath) -> bool {
    &&& keys_at(nodes, seq!["target"@, target]) is Some
    &&& table.len() > 0 && table.drop_last() == seq!["target"@, target] && is_table_name(
        table.last(),
    )
}

/// The tables that are searched are the tables of dependencies, all of them and no other.
pub proof fn law_every_table_is_searched(nodes: Nodes, table: KeyPath)
    ensures
        dependency_tables(nodes).contains(table) == is_dependency_table(nodes, table),
{
    let own = tables_below(Seq::empty());
    let shared = if keys_at(nodes, seq!["workspace"@]) is Some {
        own.push(seq!["workspace"@, "dependencies"@])
    } else {
        own
    };
    let all = dependency_tables(nodes);
    lemma_below(Seq::empty(), table);
    if table.len() == 1 {
        assert(table.drop_last() == Seq::<Seq<char>>::empty());
    }
    if own.contains(table) {
        let k = choose|k: int| 0 <= k < own.len() && own[k] == table;
        assert(all[k] == table);
    }
    if keys_at(nodes, seq!["workspace"@]) is Some {
        assert(all[3] == seq!["workspace"@, "dependencies"@]);
    }
    match keys_at(nodes, seq!["target"@]) {
        Some(names) => {
            lemma_target_tables(nodes, names, table);
            let below = target_tables(nodes, names);
            assert(all == shared + below);
            if exists|target: Seq<char>| #[trigger] is_target_table(nodes, target, table) {
                let target = choose|target: Seq<char>| #[trigger] is_target_table(
                    nodes,
                    target,
                    table,
                );
                let m = choose|m: int| 0 <= m < names.len() && names[m] == target;
                assert(table.drop_last() == seq!["target"@, target]);
                assert(is_below_target(nodes, names[m], table));
                let k = choose|k: int| 0 <= k < below.len() && below[k] == table;
                assert(all[shared.len() + k] == table);
            }
            if all.contains(table) {
                let k = choose|k: int| 0 <= k < all.len() && all[k] == table;
                if k < shared.len() {
                    assert(shared[k] == table);
                    if k < own.len() {
                        assert(own[k] == table);
                    }
                } else {
                    assert(below[k - shared.len()] == table);
                    let m = choose|m: int|
                        0 <= m < names.len() && is_below_target(nodes, #[trigger] names[m], table);
                    assert(names.contains(names[m]));
                    let front = table.drop_last();
                    assert(is_below_target(nodes, names[m], table));
                    assert(front == seq!["target"@, names[m]]);
                    assert(front.len() == 2);
                    assert(table[0] == front[0] && table[1] == front[1]);
                    assert(is_target_table(nodes, names[m], table));
                }
            }
        },
        None => {
            if all.contains(table) {
                let k = choose|k: int| 0 <= k < all.len() && all[k] == table;
                if k < own.len() {
                    assert(own[k] == table);
                }
            }
        },
    }
}

// ---------------------------------------------------------------------------
// Dependencies
// ---------------------------------------------------------------------------
/// The dependency is read from the path: its requirement is the text there, or the version in
/// the table there.
pub open spec fn is_read_from(nodes: Nodes, path: KeyPath, found: DependencyView) -> bool {
    &&& found.name == path.last()
    &&& forall|text: Seq<char>| #[trigger]
        is_text(nodes, path, text) ==> is_managed_at(found, text, path, false)
    &&& is_plain_table(nodes, path) ==> forall|text: Seq<char>| #[trigger]
        is_text(nodes, path.push("version"@), text) ==> is_managed_at(
            found,
            text,
            path.push("version"@),
            nodes[path] is InlineTable,
        )
    &&& found.managed ==> text_at(nodes, path) is Some || is_plain_table(nodes, path) && text_at(
        nodes,
        path.push("version"@),
    ) is Some
    &&& !found.managed ==> found.requirement is None && found.reason == Some(
        why_left_alone(nodes, path),
    )
}

/// The dependency is managed, with that requirement at that path.
pub open spec fn is_managed_at(
    found: DependencyView,
    text: Seq<char>,
    path: KeyPath,
    inline: bool,
) -> bool {
    &&& found.managed
    &&& found.requirement == Some(text)
    &&& found.target == path
    &&& found.inline == inline
    &&& found.reason is None
}

/// A table or an inline table stands at the path.
pub open spec fn is_any_table(nodes: Nodes, path: KeyPath) -> bool {
    nodes.contains_key(path) && (nodes[path] is Table || nodes[path] is InlineTable)
}

/// A table that names no path, no repository and no workspace stands at the path.
pub open spec fn is_plain_table(nodes: Nodes, path: KeyPath) -> bool {
    &&& is_any_table(nodes, path)
    &&& !nodes.contains_key(path.push("path"@))
    &&& !nodes.contains_key(path.push("git"@))
    &&& !nodes.contains_key(path.push("workspace"@))
}

/// Why a dependency is left alone.
pub open spec fn why_left_alone(nodes: Nodes, path: KeyPath) -> Seq<char> {
    if is_plain_table(nodes, path) {
        "missing version requirement"@
    } else if !is_any_table(nodes, path) {
        "unsupported dependency declaration"@
    } else if nodes.contains_key(path.push("path"@)) {
        "path dependency"@
    } else if nodes.contains_key(path.push("git"@)) {
        "git dependency"@
    } else {
        "workspace dependency"@
    }
}

/// Every key of every table of dependencies is found, with its requirement; and whatever is
/// found is such a key.
pub proof fn law_every_dependency_is_found(nodes: Nodes)
    ensures
        forall|table: KeyPath, keys: Seq<Seq<char>>, i: int|
            is_dependency_table(nodes, table) && #[trigger] is_table(nodes, table, keys) && 0 <= i
                < keys.len() ==> is_found(nodes, table.push(#[trigger] keys[i])),
        forall|k: int|
            0 <= k < all_dependencies(nodes).len() ==> is_from_a_table(
                nodes,
                #[trigger] all_dependencies(nodes)[k],
            ),
{
    let tables = dependency_tables(nodes);
    let all = all_dependencies(nodes);
    lemma_dependencies(nodes, tables);
    assert forall|table: KeyPath, keys: Seq<Seq<char>>, i: int|
        is_dependency_table(nodes, table) && #[trigger] is_table(nodes, table, keys) && 0 <= i
            < keys.len() implies is_found(nodes, table.push(#[trigger] keys[i])) by {
        law_every_table_is_searched(nodes, table);
        let t = choose|t: int| 0 <= t < tables.len() && tables[t] == table;
        let found = dependency_at(nodes, table, keys[i]);
        let own = dependencies_of_table(nodes, table);
        assert(own[i] == found);
        assert(dependencies_of_table(nodes, tables[t]).contains(found));
        let k = choose|k: int| 0 <= k < all.len() && all[k] == found;
        lemma_read(nodes, table, keys[i]);
        assert(is_read_from(nodes, table.push(keys[i]), all[k]));
    }
    assert forall|k: int| 0 <= k < all.len() implies is_from_a_table(nodes, #[trigger] all[k]) by {
        let t = choose|t: int|
            0 <= t < tables.len() && #[trigger] dependencies_of_table(nodes, tables[t]).contains(
                all[k],
            );
        let table = tables[t];
        let own = dependencies_of_table(nodes, table);
        let i = choose|i: int| 0 <= i < own.len() && own[i] == all[k];
        let keys = keys_at(nodes, table)->0;
        assert(tables.contains(table));
        law_every_table_is_searched(nodes, table);
        lemma_read(nodes, table, keys[i]);
        assert(is_table(nodes, table, keys));
        assert(is_key_of(nodes, table, keys, i, all[k]));
    }
}

/// The dependency at the path is found.
pub open spec fn is_found(nodes: Nodes, path: KeyPath) -> bool {
    exists|k: int|
        0 <= k < all_dependencies(nodes).len() && is_read_from(
            nodes,
            path,
            #[trigger] all_dependencies(nodes)[k],
        )
}

/// The dependency is that under a key of the table.
pub open spec fn is_key_of(
    nodes: Nodes,
    table: KeyPath,
    keys: Seq<Seq<char>>,
    i: int,
    found: DependencyView,
) -> bool {
    &&& is_dependency_table(nodes, table)
    &&& is_table(nodes, table, keys)
    &&& 0 <= i < keys.len()
    &&& is_read_from(nodes, table.push(keys[i]), found)
}

/// The dependency is a key of a table of dependencies.
pub open spec fn is_from_a_table(nodes: Nodes, found: DependencyView) -> bool {
    exists|table: KeyPath, keys: Seq<Seq<char>>, i: int| #[trigger]
        is_key_of(nodes, table, keys, i, found)
}

proof fn lemma_read(nodes: Nodes, table: KeyPath, name: Seq<char>)
    ensures
        is_read_from(nodes, table.push(name), dependency_at(nodes, table, name)),
{
    assert(table.push(name).last() == name);
}

spec fn is_in_a_table(nodes: Nodes, tables: Seq<KeyPath>, found: DependencyView) -> bool {
    exists|t: int|
        0 <= t < tables.len() && #[trigger] dependencies_of_table(nodes, tables[t]).contains(found)
}

proof fn lemma_dependencies(nodes: Nodes, tables: Seq<KeyPath>)
    ensures
        forall|t: int, found: DependencyView|
            0 <= t < tables.len() && #[trigger] dependencies_of_table(nodes, tables[t]).contains(
                found,
            ) ==> dependencies_of(nodes, tables).contains(found),
        forall|k: int|
            0 <= k < dependencies_of(nodes, tables).len() ==> is_in_a_table(
                nodes,
                tables,
                #[trigger] dependencies_of(nodes, tables)[k],
            ),
    decreases tables.len(),
{
    if tables.len() > 0 {
        let front = tables.drop_last();
        lemma_dependencies(nodes, front);
        let before = dependencies_of(nodes, front);
        let last = dependencies_of_table(nodes, tables.last());
        let all = dependencies_of(nodes, tables);
        assert(all == before + last);
        assert forall|t: int, found: DependencyView|
            0 <= t < tables.len() && #[trigger] dependencies_of_table(nodes, tables[t]).contains(
                found,
            ) implies all.contains(found) by {
            if t < front.len() {
                assert(dependencies_of_table(nodes, front[t]).contains(found));
                let k = choose|k: int| 0 <= k < before.len() && before[k] == found;
                assert(all[k] == found);
            } else {
                let k = choose|k: int| 0 <= k < last.len() && last[k] == found;
                assert(all[before.len() + k] == found);
            }
        }
        assert forall|k: int| 0 <= k < all.len() implies is_in_a_table(
            nodes,
            tables,
            #[trigger] all[k],
        ) by {
            if k < before.len() {
                assert(all[k] == before[k]);
                let t = choose|t: int|
                    0 <= t < front.len() && #[trigger] dependencies_of_table(
                        nodes,
                        front[t],
                    ).contains(before[k]);
                assert(dependencies_of_table(nodes, tables[t]).contains(all[k]));
            } else {
                assert(all[k] == last[k - before.len()]);
                assert(dependencies_of_table(nodes, tables[tables.len() - 1]).contains(all[k]));
            }
        }
    }
}

// ---------------------------------------------------------------------------
// What is told
// ---------------------------------------------------------------------------
/// The version that is known of a crate is the first under its name.
pub proof fn law_first_known_version_counts(known: Seq<CrateVersionView>, name: Seq<char>)
    ensures
        forall|i: int|
            0 <= i < known.len() && (#[trigger] known[i]).name == name && (forall|j: int|
                0 <= j < i ==> (#[trigger] known[j]).name != name) ==> known_version(known, name)
                == Some(known[i].version),
        (forall|i: int| 0 <= i < known.len() ==> (#[trigger] known[i]).name != name)
            ==> known_version(known, name) is None,
    decreases known.len(),
{
    if known.len() > 0 && known[0].name != name {
        let rest = known.skip(1);
        law_first_known_version_counts(rest, name);
        assert forall|i: int|
            0 <= i < known.len() && (#[trigger] known[i]).name == name && (forall|j: int|
                0 <= j < i ==> (#[trigger] known[j]).name != name) implies known_version(
            known,
            name,
        ) == Some(known[i].version) by {
            assert(rest[i - 1] == known[i]);
            assert forall|j: int| 0 <= j < i - 1 implies (#[trigger] rest[j]).name != name by {
                assert(rest[j] == known[j + 1]);
            }
        }
        if forall|i: int| 0 <= i < known.len() ==> (#[trigger] known[i]).name != name {
            assert forall|i: int| 0 <= i < rest.len() implies (#[trigger] rest[i]).name != name by {
                assert(rest[i] == known[i + 1]);
            }
        }
    }
}

/// The requirement of a managed dependency can be rewritten.
pub open spec fn is_supported(found: DependencyView) -> bool {
    found.managed && requirement_of(found.requirement->0) is Some
}

/// A greater version than the required one is known.
pub open spec fn is_behind(known: Seq<CrateVersionView>, found: DependencyView) -> bool {
    &&& is_supported(found)
    &&& known_version(known, found.name) is Some
    &&& parsed_version(known_version(known, found.name)->0) is Some
    &&& semver_exceeds(
        parsed_version(known_version(known, found.name)->0)->0,
        (requirement_of(found.requirement->0)->0).1,
    )
}

/// The operator of the requirement, and the known version behind it.
pub open spec fn raised(known: Seq<CrateVersionView>, found: DependencyView) -> Seq<char> {
    (requirement_of(found.requirement->0)->0).0 + known_version(known, found.name)->0
}

/// The entry tells of the dependency.
pub open spec fn tells(
    entry: EntryView,
    file: Seq<char>,
    known: Seq<CrateVersionView>,
    found: DependencyView,
) -> bool {
    &&& entry.file == file
    &&& entry.dependency_name == found.name
    &&& entry.current_requirement == found.requirement
    &&& entry.managed == is_supported(found)
    &&& entry.update_needed == is_behind(known, found)
    &&& entry.latest_version == if is_supported(found) {
        known_version(known, found.name)
    } else {
        None
    }
    &&& entry.reason == if is_supported(found) {
        None
    } else if found.managed {
        Some("unsupported version requirement"@)
    } else {
        found.reason
    }
}

/// The change raises the requirement of the dependency.
pub open spec fn raises(
    change: UpdateChangeView,
    file: Seq<char>,
    known: Seq<CrateVersionView>,
    found: DependencyView,
) -> bool {
    &&& change.kind == UpdateChangeKind::CargoDependency
    &&& change.file == file
    &&& change.line_number is None
    &&& change.subject == found.name
    &&& change.from_version == found.requirement->0
    &&& change.to_version == raised(known, found)
}

/// The edit writes the raised requirement where the dependency has its own.
pub open spec fn edits(
    edit: EditView,
    known: Seq<CrateVersionView>,
    found: DependencyView,
) -> bool {
    &&& edit.path == found.target
    &&& edit.inline == found.inline
    &&& edit.text == raised(known, found)
}

/// Some edit writes the raised requirement of the dependency, with the change at its place.
pub open spec fn is_raised(
    result: ManifestView,
    file: Seq<char>,
    known: Seq<CrateVersionView>,
    found: DependencyView,
    from: int,
) -> bool {
    exists|e: int|
        from <= e < result.edits.len() && edits(#[trigger] result.edits[e], known, found) && raises(
            result.changes[e],
            file,
            known,
            found,
        )
}

/// The edit and the change at its place raise the requirement of a dependency that is behind.
pub open spec fn is_of_one_behind(
    result: ManifestView,
    e: int,
    file: Seq<char>,
    known: Seq<CrateVersionView>,
    all: Seq<DependencyView>,
) -> bool {
    exists|k: int|
        0 <= k < all.len() && is_behind(known, #[trigger] all[k]) && edits(
            result.edits[e],
            known,
            all[k],
        ) && raises(result.changes[e], file, known, all[k])
}

/// Every dependency is told of, in its order; one for which a greater version is known is
/// raised, unless nothing is to change; and nothing else is.
pub proof fn law_every_dependency_is_told(
    file: ManifestFileView,
    mode: UpdateMode,
    known: Seq<CrateVersionView>,
)
    requires
        parsed_toml(file.content) is Some,
    ensures
        manifest_result(file, mode, known) matches CargoProgressView::Done(result) ==> {
            let all = all_dependencies(parsed_toml(file.content)->0);
            &&& result.entries.len() == all.len()
            &&& forall|k: int|
                0 <= k < all.len() ==> tells(
                    #[trigger] result.entries[k],
                    file.path,
                    known,
                    all[k],
                )
            &&& result.changes.len() == result.edits.len()
            &&& mode == UpdateMode::Status ==> result.edits.len() == 0
            &&& mode != UpdateMode::Status ==> forall|k: int|
                0 <= k < all.len() && is_behind(known, all[k]) ==> is_raised(
                    result,
                    file.path,
                    known,
                    #[trigger] all[k],
                    0,
                )
            &&& forall|e: int|
                0 <= e < result.edits.len() ==> #[trigger] is_of_one_behind(
                    result,
                    e,
                    file.path,
                    known,
                    all,
                )
            &&& result.unmanaged == unmanaged_among(result.entries)
        },
{
    let all = all_dependencies(parsed_toml(file.content)->0);
    lemma_from(file.path, mode, known, all, 0, empty_manifest());
}

/// How many of the entries are not managed.
pub open spec fn unmanaged_among(entries: Seq<EntryView>) -> nat {
    entries.filter(|entry: EntryView| !entry.managed).len()
}

spec fn follows(
    result: ManifestView,
    file: Seq<char>,
    mode: UpdateMode,
    known: Seq<CrateVersionView>,
    all: Seq<DependencyView>,
    i: int,
    before: ManifestView,
) -> bool {
    let start = before.entries.len() as int;
    let first = before.edits.len() as int;
    &&& result.entries.len() == start + all.len() - i
    &&& forall|k: int| 0 <= k < start ==> #[trigger] result.entries[k] == before.entries[k]
    &&& forall|k: int|
        start <= k < result.entries.len() ==> tells(
            #[trigger] result.entries[k],
            file,
            known,
            all[i + k - start],
        )
    &&& result.changes.len() == result.edits.len()
    &&& first <= result.edits.len()
    &&& forall|e: int|
        0 <= e < first ==> #[trigger] result.edits[e] == before.edits[e] && result.changes[e]
            == before.changes[e]
    &&& mode == UpdateMode::Status ==> result.edits.len() == first
    &&& mode != UpdateMode::Status ==> forall|k: int|
        i <= k < all.len() && is_behind(known, all[k]) ==> is_raised(
            result,
            file,
            known,
            #[trigger] all[k],
            first,
        )
    &&& forall|e: int|
        first <= e < result.edits.len() ==> #[trigger] is_of_one_behind(
            result,
            e,
            file,
            known,
            all,
        )
}

#[verifier::rlimit(40)]
proof fn lemma_from(
    file: Seq<char>,
    mode: UpdateMode,
    known: Seq<CrateVersionView>,
    all: Seq<DependencyView>,
    i: int,
    before: ManifestView,
)
    requires
        0 <= i <= all.len(),
        before.changes.len() == before.edits.len(),
        before.unmanaged == unmanaged_among(before.entries),
    ensures
        manifest_from(file, mode, known, all, i, before) matches CargoProgressView::Done(result)
            ==> follows(result, file, mode, known, all, i, before) && result.unmanaged
            == unmanaged_among(result.entries),
    decreases all.len() - i,
{
    reveal(Seq::filter);
    if i < all.len() {
        match manifest_with(file, mode, known, all[i], before) {
            CargoProgressView::Done(next) => {
                let found = all[i];
                let entry = next.entries.last();
                assert(next.entries == before.entries.push(entry));
                assert(next.entries.drop_last() == before.entries);
                assert(tells(entry, file, known, found));
                assert(next.unmanaged == unmanaged_among(next.entries));
                lemma_from(file, mode, known, all, i + 1, next);
                match manifest_from(file, mode, known, all, i + 1, next) {
                    CargoProgressView::Done(result) => {
                        lemma_step(result, file, mode, known, all, i, before, next);
                    },
                    _ => {},
                }
            },
            _ => {},
        }
    }
}

proof fn lemma_step(
    result: ManifestView,
    file: Seq<char>,
    mode: UpdateMode,
    known: Seq<CrateVersionView>,
    all: Seq<DependencyView>,
    i: int,
    before: ManifestView,
    next: ManifestView,
)
    requires
        0 <= i < all.len(),
        before.changes.len() == before.edits.len(),
        manifest_with(file, mode, known, all[i], before) == CargoProgressView::Done(next),
        follows(result, file, mode, known, all, i + 1, next),
    ensures
        follows(result, file, mode, known, all, i, before),
{
    let start = before.entries.len() as int;
    let first = before.edits.len() as int;
    let found = all[i];
    assert(next.entries[start] == next.entries.last());
    assert forall|k: int| 0 <= k < start implies #[trigger] result.entries[k]
        == before.entries[k] by {
        assert(result.entries[k] == next.entries[k]);
    }
    assert forall|k: int| start <= k < result.entries.len() implies tells(
        #[trigger] result.entries[k],
        file,
        known,
        all[i + k - start],
    ) by {
        if k == start {
            assert(result.entries[k] == next.entries[k]);
        }
    }
    assert forall|e: int| 0 <= e < first implies #[trigger] result.edits[e] == before.edits[e]
        && result.changes[e] == before.changes[e] by {
        assert(result.edits[e] == next.edits[e]);
    }
    if next.edits.len() > first {
        assert(next.edits.len() == first + 1);
        assert(result.edits[first] == next.edits[first]);
        assert(edits(result.edits[first], known, found));
        assert(raises(result.changes[first], file, known, found));
        assert(is_of_one_behind(result, first, file, known, all));
    }
    if mode != UpdateMode::Status {
        assert forall|k: int| i <= k < all.len() && is_behind(known, all[k]) implies is_raised(
            result,
            file,
            known,
            #[trigger] all[k],
            first,
        ) by {
            if k > i {
                assert(is_raised(result, file, known, all[k], next.edits.len() as int));
                let e = choose|e: int|
                    next.edits.len() <= e < result.edits.len() && edits(
                        #[trigger] result.edits[e],
                        known,
                        all[k],
                    ) && raises(result.changes[e], file, known, all[k]);
                assert(edits(result.edits[e], known, all[k]));
            } else {
                assert(next.edits.len() == first + 1);
                assert(edits(result.edits[first], known, all[k]));
            }
        }
    }
    assert forall|e: int| first <= e < result.edits.len() implies #[trigger] is_of_one_behind(
        result,
        e,
        file,
        known,
        all,
    ) by {
        if e >= next.edits.len() {
            assert(is_of_one_behind(result, e, file, known, all));
        }
    }
}

/// A manifest can be done once a version is known of every crate whose requirement can be
/// rewritten, and those versions can be read. The first crate without one is asked for.
pub proof fn law_manifest_is_done(
    file: ManifestFileView,
    mode: UpdateMode,
    known: Seq<CrateVersionView>,
)
    requires
        parsed_toml(file.content) is Some,
    ensures
        ({
            let all = all_dependencies(parsed_toml(file.content)->0);
            &&& (forall|k: int|
                0 <= k < all.len() && is_supported(#[trigger] all[k]) ==> known_version(
                    known,
                    all[k].name,
                ) is Some && parsed_version(known_version(known, all[k].name)->0) is Some)
                ==> manifest_result(file, mode, known) is Done
            &&& manifest_result(file, mode, known) matches CargoProgressView::Ask(name)
                ==> exists|k: int|
                0 <= k < all.len() && is_supported(#[trigger] all[k]) && all[k].name == name
                    && known_version(known, name) is None
        }),
{
    let all = all_dependencies(parsed_toml(file.content)->0);
    lemma_done(file.path, mode, known, all, 0, empty_manifest());
}

proof fn lemma_done(
    file: Seq<char>,
    mode: UpdateMode,
    known: Seq<CrateVersionView>,
    all: Seq<DependencyView>,
    i: int,
    before: ManifestView,
)
    requires
        0 <= i <= all.len(),
    ensures
        (forall|k: int|
            0 <= k < all.len() && is_supported(#[trigger] all[k]) ==> known_version(
                known,
                all[k].name,
            ) is Some && parsed_version(known_version(known, all[k].name)->0) is Some)
            ==> manifest_from(file, mode, known, all, i, before) is Done,
        manifest_from(file, mode, known, all, i, before) matches CargoProgressView::Ask(name)
            ==> exists|k: int|
            0 <= k < all.len() && is_supported(#[trigger] all[k]) && all[k].name == name
                && known_version(known, name) is None,
    decreases all.len() - i,
{
    if i < all.len() {
        assert(is_supported(all[i]) == is_supported(all[i]));
        match manifest_with(file, mode, known, all[i], before) {
            CargoProgressView::Done(next) => {
                lemma_done(file, mode, known, all, i + 1, next);
            },
            _ => {},
        }
    }
}

// ---------------------------------------------------------------------------
// What is written
// ---------------------------------------------------------------------------
/// Two dependencies with their requirement at one place are the same.
proof fn lemma_same_target(nodes: Nodes, a: DependencyView, b: DependencyView)
    requires
        is_from_a_table(nodes, a),
        is_from_a_table(nodes, b),
        a.managed,
        b.managed,
        a.target == b.target,
    ensures
        a.name == b.name,
        a.requirement == b.requirement,
{
    let (s, keys, i) = choose|table: KeyPath, keys: Seq<Seq<char>>, i: int| #[trigger]
        is_key_of(nodes, table, keys, i, a);
    let (t, names, j) = choose|table: KeyPath, keys: Seq<Seq<char>>, i: int| #[trigger]
        is_key_of(nodes, table, keys, i, b);
    let p = s.push(keys[i]);
    let q = t.push(names[j]);
    lemma_target(nodes, p, a);
    lemma_target(nodes, q, b);
    assert(p.drop_last() == s);
    assert(q.drop_last() == t);
    assert(p.push("version"@).drop_last() == p);
    assert(q.push("version"@).drop_last() == q);
    if a.target == p && b.target == q.push("version"@) {
        assert(s == q);
        lemma_tables_do_not_nest(nodes, s, t, names[j]);
    }
    if b.target == q && a.target == p.push("version"@) {
        assert(t == p);
        lemma_tables_do_not_nest(nodes, t, s, keys[i]);
    }
}

proof fn lemma_target(nodes: Nodes, path: KeyPath, found: DependencyView)
    requires
        is_read_from(nodes, path, found),
        found.managed,
    ensures
        found.requirement is Some,
        found.target == path && found.requirement == text_at(nodes, path) || found.target
            == path.push("version"@) && found.requirement == text_at(
            nodes,
            path.push("version"@),
        ),
{
    match text_at(nodes, path) {
        Some(text) => {
            assert(is_text(nodes, path, text));
        },
        None => {
            let text = text_at(nodes, path.push("version"@))->0;
            assert(is_text(nodes, path.push("version"@), text));
        },
    }
}

proof fn lemma_tables_do_not_nest(nodes: Nodes, s: KeyPath, t: KeyPath, name: Seq<char>)
    requires
        is_dependency_table(nodes, s),
        is_dependency_table(nodes, t),
    ensures
        s != t.push(name),
{
    reveal_strlit("dependencies");
    reveal_strlit("dev-dependencies");
    reveal_strlit("build-dependencies");
    reveal_strlit("workspace");
    reveal_strlit("target");
    assert("dependencies"@.len() == 12);
    assert("dev-dependencies"@.len() == 16);
    assert("build-dependencies"@.len() == 18);
    assert("workspace"@.len() == 9);
    assert("target"@.len() == 6);
    lemma_table_shape(nodes, s);
    lemma_table_shape(nodes, t);
    if s == t.push(name) {
        assert(s[0] == t[0]);
    }
}

proof fn lemma_table_shape(nodes: Nodes, table: KeyPath)
    requires
        is_dependency_table(nodes, table),
    ensures
        table.len() == 1 && is_table_name(table[0]) || table.len() == 2 && table[0] == "workspace"@
            || table.len() == 3 && table[0] == "target"@,
{
    if exists|target: Seq<char>| #[trigger] is_target_table(nodes, target, table) {
        let target = choose|target: Seq<char>| #[trigger] is_target_table(nodes, target, table);
        assert(table.len() == 3);
    }
}

/// In the manifest as it is written, the requirement of every dependency for which a greater
/// version is known is its operator with that version; every other requirement is as it was.
pub proof fn law_requirements_are_raised(
    file: ManifestFileView,
    mode: UpdateMode,
    known: Seq<CrateVersionView>,
)
    requires
        parsed_toml(file.content) is Some,
        mode != UpdateMode::Status,
    ensures
        manifest_result(file, mode, known) matches CargoProgressView::Done(result) ==> {
            let nodes = parsed_toml(file.content)->0;
            let all = all_dependencies(nodes);
            forall|k: int|
                0 <= k < all.len() && (#[trigger] all[k]).managed ==> is_text(
                    with_edits(nodes, result.edits),
                    all[k].target,
                    if is_behind(known, all[k]) {
                        raised(known, all[k])
                    } else {
                        all[k].requirement->0
                    },
                )
        },
{
    let nodes = parsed_toml(file.content)->0;
    let all = all_dependencies(nodes);
    law_every_dependency_is_told(file, mode, known);
    law_every_dependency_is_found(nodes);
    match manifest_result(file, mode, known) {
        CargoProgressView::Done(result) => {
            assert forall|k: int| 0 <= k < all.len() && (#[trigger] all[k]).managed implies is_text(
                with_edits(nodes, result.edits),
                all[k].target,
                if is_behind(known, all[k]) {
                    raised(known, all[k])
                } else {
                    all[k].requirement->0
                },
            ) by {
                let found = all[k];
                assert(is_from_a_table(nodes, found));
                lemma_managed_text(nodes, found);
                assert forall|e: int|
                    0 <= e < result.edits.len() && (
                    #[trigger] result.edits[e]).path == found.target implies result.edits[e].text
                    == raised(known, found) && is_behind(known, found) by {
                    assert(is_of_one_behind(result, e, file.path, known, all));
                    let m = choose|m: int|
                        0 <= m < all.len() && is_behind(known, #[trigger] all[m]) && edits(
                            result.edits[e],
                            known,
                            all[m],
                        ) && raises(result.changes[e], file.path, known, all[m]);
                    assert(is_from_a_table(nodes, all[m]));
                    lemma_same_target(nodes, found, all[m]);
                }
                if is_behind(known, found) {
                    assert(is_raised(result, file.path, known, found, 0));
                    let e = choose|e: int|
                        0 <= e < result.edits.len() && edits(
                            #[trigger] result.edits[e],
                            known,
                            found,
                        ) && raises(result.changes[e], file.path, known, found);
                    assert(result.edits[e].path == found.target);
                }
                lemma_written(nodes, result.edits, found.target, raised(known, found));
            }
        },
        _ => {},
    }
}

proof fn lemma_managed_text(nodes: Nodes, found: DependencyView)
    requires
        is_from_a_table(nodes, found),
        found.managed,
    ensures
        is_text(nodes, found.target, found.requirement->0),
{
    let (s, keys, i) = choose|table: KeyPath, keys: Seq<Seq<char>>, i: int| #[trigger]
        is_key_of(nodes, table, keys, i, found);
    lemma_target(nodes, s.push(keys[i]), found);
}

proof fn lemma_written(nodes: Nodes, all: Seq<EditView>, path: KeyPath, text: Seq<char>)
    requires
        forall|e: int|
            0 <= e < all.len() && (#[trigger] all[e]).path == path ==> all[e].text == text,
    ensures
        (exists|e: int| 0 <= e < all.len() && (#[trigger] all[e]).path == path) ==> is_text(
            with_edits(nodes, all),
            path,
            text,
        ),
        !(exists|e: int| 0 <= e < all.len() && (#[trigger] all[e]).path == path) ==> {
            &&& with_edits(nodes, all).contains_key(path) == nodes.contains_key(path)
            &&& nodes.contains_key(path) ==> with_edits(nodes, all)[path] == nodes[path]
        },
    decreases all.len(),
{
    if all.len() > 0 {
        let front = all.drop_last();
        assert forall|e: int|
            0 <= e < front.len() && (#[trigger] front[e]).path == path implies front[e].text
            == text by {
            assert(front[e] == all[e]);
        }
        lemma_written(nodes, front, path, text);
        let last = all[all.len() - 1];
        if exists|e: int| 0 <= e < front.len() && (#[trigger] front[e]).path == path {
            let e = choose|e: int| 0 <= e < front.len() && (#[trigger] front[e]).path == path;
            assert(all[e].path == path);
        }
        if exists|e: int| 0 <= e < all.len() && (#[trigger] all[e]).path == path {
            let e = choose|e: int| 0 <= e < all.len() && (#[trigger] all[e]).path == path;
            if e < front.len() {
                assert(front[e].path == path);
            }
        }
    }
}

// ---------------------------------------------------------------------------
// Reports
// ---------------------------------------------------------------------------
/// A report is done when every manifest is, and holds what was found in each.
pub proof fn law_report_holds_every_manifest(
    files: Seq<ManifestFileView>,
    mode: UpdateMode,
    known: Seq<CrateVersionView>,
)
    ensures
        (forall|f: int|
            0 <= f < files.len() ==> manifest_result(#[trigger] files[f], mode, known) is Done)
            == report_of(files, mode, known) is Done,
        report_of(files, mode, known) matches CargoProgressView::Done(report) ==> forall|f: int|
            0 <= f < files.len() ==> is_in_report(
                report,
                #[trigger] files[f],
                manifest_result(files[f], mode, known),
            ),
{
    lemma_report(files, mode, known, 0, crate::cargo::empty_report());
}

/// What was found in the manifest stands in the report.
pub open spec fn is_in_report(
    report: ReportView,
    file: ManifestFileView,
    result: CargoProgressView<ManifestView>,
) -> bool {
    result matches CargoProgressView::Done(found) && {
        &&& forall|k: int|
            0 <= k < found.entries.len() ==> report.entries.contains(#[trigger] found.entries[k])
        &&& forall|k: int|
            0 <= k < found.changes.len() ==> report.changes.contains(#[trigger] found.changes[k])
        &&& found.edits.len() > 0 ==> report.updates.contains((file, found.edits))
    }
}

proof fn lemma_report(
    files: Seq<ManifestFileView>,
    mode: UpdateMode,
    known: Seq<CrateVersionView>,
    i: int,
    before: ReportView,
)
    requires
        0 <= i <= files.len(),
    ensures
        (forall|f: int|
            i <= f < files.len() ==> manifest_result(#[trigger] files[f], mode, known) is Done)
            == report_from(files, mode, known, i, before) is Done,
        report_from(files, mode, known, i, before) matches CargoProgressView::Done(report) ==> {
            &&& keeps(before, report)
            &&& forall|f: int|
                i <= f < files.len() ==> is_in_report(
                    report,
                    #[trigger] files[f],
                    manifest_result(files[f], mode, known),
                )
        },
    decreases files.len() - i,
{
    if i < files.len() {
        match manifest_result(files[i], mode, known) {
            CargoProgressView::Done(found) => {
                let next = report_with(before, files[i], found);
                lemma_report(files, mode, known, i + 1, next);
                match report_from(files, mode, known, i, before) {
                    CargoProgressView::Done(report) => {
                        lemma_keeps(before, next, report, files[i], found);
                    },
                    _ => {},
                }
            },
            _ => {
                assert(!(manifest_result(files[i], mode, known) is Done));
            },
        }
    }
}

spec fn keeps(before: ReportView, after: ReportView) -> bool {
    &&& forall|k: int|
        0 <= k < before.entries.len() ==> after.entries.contains(#[trigger] before.entries[k])
    &&& forall|k: int|
        0 <= k < before.changes.len() ==> after.changes.contains(#[trigger] before.changes[k])
    &&& forall|k: int|
        0 <= k < before.updates.len() ==> after.updates.contains(#[trigger] before.updates[k])
}

proof fn lemma_keeps(
    before: ReportView,
    next: ReportView,
    report: ReportView,
    file: ManifestFileView,
    found: ManifestView,
)
    requires
        next == report_with(before, file, found),
        keeps(next, report),
    ensures
        keeps(before, report),
        is_in_report(report, file, CargoProgressView::Done(found)),
{
    assert forall|k: int| 0 <= k < before.entries.len() implies report.entries.contains(
        #[trigger] before.entries[k],
    ) by {
        assert(next.entries[k] == before.entries[k]);
    }
    assert forall|k: int| 0 <= k < before.changes.len() implies report.changes.contains(
        #[trigger] before.changes[k],
    ) by {
        assert(next.changes[k] == before.changes[k]);
    }
    assert forall|k: int| 0 <= k < before.updates.len() implies report.updates.contains(
        #[trigger] before.updates[k],
    ) by {
        assert(next.updates[k] == before.updates[k]);
    }
    assert forall|k: int| 0 <= k < found.entries.len() implies report.entries.contains(
        #[trigger] found.entries[k],
    ) by {
        assert(next.entries[before.entries.len() + k] == found.entries[k]);
    }
    assert forall|k: int| 0 <= k < found.changes.len() implies report.changes.contains(
        #[trigger] found.changes[k],
    ) by {
        assert(next.changes[before.changes.len() + k] == found.changes[k]);
    }
    if found.edits.len() > 0 {
        assert(next.updates[before.updates.len() as int] == (file, found.edits));
    }
}

// ---------------------------------------------------------------------------
// Files
// ---------------------------------------------------------------------------
/// Where something changed, the manifest is written, and what is written reads as the manifest
/// with the raised requirements; where nothing did, it is not.
pub proof fn law_written_manifest_holds_the_versions(
    result: ManifestUpdateResult,
    file: ManifestFileView,
    mode: UpdateMode,
    known: Seq<CrateVersionView>,
    found: ManifestView,
)
    requires
        parsed_toml(file.content) is Some,
        manifest_result(file, mode, known) == CargoProgressView::Done(found),
        is_result_of(result, file, found),
    ensures
        result.entries@.len() == all_dependencies(parsed_toml(file.content)->0).len(),
        mode == UpdateMode::Status ==> result.file_update is None && result.changes@.len() == 0,
        result.file_update is None ==> result.changes@.len() == 0,
        mode != UpdateMode::Status ==> {
            let all = all_dependencies(parsed_toml(file.content)->0);
            forall|k: int|
                0 <= k < all.len() && is_behind(known, #[trigger] all[k]) ==> (
                result.file_update matches Some(update) && update.file@ == file.path && (
                parsed_toml(update.updated_content@) matches Some(after) && is_text(
                    after,
                    all[k].target,
                    raised(known, all[k]),
                )))
        },
{
    law_every_dependency_is_told(file, mode, known);
    assert(crate::text::views(result.entries@).len() == result.entries@.len());
    assert(crate::text::views(result.changes@).len() == result.changes@.len());
    if mode != UpdateMode::Status {
        law_requirements_are_raised(file, mode, known);
        let all = all_dependencies(parsed_toml(file.content)->0);
        assert forall|k: int| 0 <= k < all.len() && is_behind(known, #[trigger] all[k]) implies (
        result.file_update matches Some(update) && update.file@ == file.path && (
        parsed_toml(update.updated_content@) matches Some(after) && is_text(
            after,
            all[k].target,
            raised(known, all[k]),
        ))) by {
            assert(is_raised(found, file.path, known, all[k], 0));
        }
    }
}

} // verus!
