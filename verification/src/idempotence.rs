//! A second preparation with the same version changes nothing.

use vstd::prelude::*;
use crate::graph::{DependencyType, GraphModel};
use crate::manifest::{
    dependencies_settable, dependency_settable, entry_released,
    lemma_dependencies_version_idempotent, lemma_entry_released_idempotent,
    lemma_key_is_not_target, lemma_keys_differ, lemma_section_version, lemma_target_versions,
    released_targets, section_settable, targets_settable, top_table, with_dependencies_version,
    with_dependency_version, with_package_version, with_section_version, with_target_versions,
};
use crate::prepare::{prepared, with_links_released};
use crate::toml::{TomlItem, TomlValue};

verus! {

/// The release of `name` has nothing to change in the manifest `root`.
pub open spec fn settled(
    root: TomlItem,
    typ: DependencyType,
    name: Seq<char>,
    version: Seq<char>,
) -> bool {
    &&& dependencies_settable(root, typ, name)
    &&& with_dependencies_version(root, typ, name, version) == root
}

/// In a dependency table in which the release of `name` has nothing to
/// change, it has nothing to change after the release of `other` either.
proof fn lemma_table_stays_settled(
    items: Map<Seq<char>, TomlItem>,
    typ: DependencyType,
    name: Seq<char>,
    other: Seq<char>,
    version: Seq<char>,
)
    requires
        with_dependency_version(items, typ, name, version) == items,
    ensures
        with_dependency_version(
            with_dependency_version(items, typ, other, version),
            typ,
            name,
            version,
        ) == with_dependency_version(items, typ, other, version),
        dependency_settable(with_dependency_version(items, typ, other, version), name)
            == dependency_settable(items, name),
{
    let changed = with_dependency_version(items, typ, other, version);
    if items.contains_key(other) {
        lemma_entry_released_idempotent(items[other], typ, version);
    }
    if items.contains_key(name) {
        if name == other {
            assert(changed.insert(name, changed[name]) =~= changed);
        } else {
            assert(items.insert(name, entry_released(items[name], typ, version))[name]
                == items[name]);
            assert(changed.insert(name, changed[name]) =~= changed);
        }
    }
}

/// In a manifest, or a table under `target`, in whose dependency table the
/// release of `name` has nothing to change, it has nothing to change after
/// the release of `other` either.
proof fn lemma_section_stays_settled(
    root: TomlItem,
    typ: DependencyType,
    name: Seq<char>,
    other_typ: DependencyType,
    other: Seq<char>,
    version: Seq<char>,
)
    requires
        with_section_version(root, typ, name, version) == root,
    ensures
        with_section_version(
            with_section_version(root, other_typ, other, version),
            typ,
            name,
            version,
        ) == with_section_version(root, other_typ, other, version),
        section_settable(
            with_section_version(root, other_typ, other, version),
            typ.key_spec(),
            name,
        ) == section_settable(root, typ.key_spec(), name),
{
    lemma_keys_differ(typ, other_typ);
    let changed = with_section_version(root, other_typ, other, version);
    lemma_section_version(root, other_typ, other, version, typ.key_spec());
    lemma_section_version(root, typ, name, version, typ.key_spec());
    match top_table(root, typ.key_spec()) {
        Some(items) => {
            if typ == other_typ {
                lemma_table_stays_settled(items, typ, name, other, version);
            }
            let kept = top_table(changed, typ.key_spec())->0;
            assert(with_dependency_version(kept, typ, name, version) == kept);
            assert(changed->Table_0.insert(typ.key_spec(), TomlItem::Table(kept))
                =~= changed->Table_0);
        },
        None => {},
    }
}

/// What the release of a dependency leaves of a manifest in which it has
/// nothing to change: its top-level dependency table and the tables under
/// `target` are as the release would make them.
proof fn lemma_settled_parts(root: TomlItem, typ: DependencyType, name: Seq<char>, version: Seq<char>)
    requires
        with_dependencies_version(root, typ, name, version) == root,
    ensures
        with_section_version(root, typ, name, version) == root,
        with_target_versions(root, typ, name, version) == root,
{
    lemma_key_is_not_target(typ);
    let first = with_section_version(root, typ, name, version);
    lemma_section_version(root, typ, name, version, typ.key_spec());
    lemma_section_version(root, typ, name, version, "target"@);
    lemma_target_versions(first, typ, name, version, typ.key_spec());
    lemma_target_versions(first, typ, name, version, "target"@);
    match top_table(root, typ.key_spec()) {
        Some(items) => {
            let changed = with_dependency_version(items, typ, name, version);
            assert(top_table(root, typ.key_spec()) == Some(changed));
            assert(root->Table_0.insert(typ.key_spec(), TomlItem::Table(items))
                =~= root->Table_0);
        },
        None => {},
    }
}

/// In a manifest in which the release of `name` has nothing to change, it
/// has nothing to change after the release of `other` either.
pub proof fn lemma_stays_settled(
    root: TomlItem,
    typ: DependencyType,
    name: Seq<char>,
    other_typ: DependencyType,
    other: Seq<char>,
    version: Seq<char>,
)
    requires
        settled(root, typ, name, version),
    ensures
        settled(with_dependencies_version(root, other_typ, other, version), typ, name, version),
{
    lemma_keys_differ(typ, other_typ);
    lemma_keys_differ(other_typ, typ);
    lemma_settled_parts(root, typ, name, version);
    let first = with_section_version(root, other_typ, other, version);
    let second = with_target_versions(first, other_typ, other, version);
    // The top-level table of the dependency.
    lemma_section_stays_settled(root, typ, name, other_typ, other, version);
    lemma_target_versions(first, other_typ, other, version, typ.key_spec());
    assert(with_section_version(second, typ, name, version) == second) by {
        lemma_section_version(first, typ, name, version, typ.key_spec());
        match top_table(first, typ.key_spec()) {
            Some(items) => {
                assert(top_table(second, typ.key_spec()) == Some(items));
                assert(with_dependency_version(items, typ, name, version) == items) by {
                    assert(top_table(with_section_version(first, typ, name, version), typ.key_spec())
                        == Some(with_dependency_version(items, typ, name, version)));
                }
                assert(second->Table_0.insert(typ.key_spec(), TomlItem::Table(items))
                    =~= second->Table_0);
            },
            None => {},
        }
    }
    // The tables under `target`.
    lemma_section_version(root, other_typ, other, version, "target"@);
    lemma_target_versions(first, other_typ, other, version, "target"@);
    lemma_target_versions(root, typ, name, version, "target"@);
    match top_table(root, "target"@) {
        Some(targets) => {
            let changed = released_targets(targets, other_typ, other, version);
            assert(top_table(second, "target"@) == Some(changed));
            assert(released_targets(targets, typ, name, version) == targets);
            assert forall|target: Seq<char>| changed.contains_key(target) implies (
            #[trigger] released_targets(changed, typ, name, version)[target]) == changed[target]
                && section_settable(changed[target], typ.key_spec(), name) == section_settable(
                targets[target],
                typ.key_spec(),
                name,
            ) by {
                assert(released_targets(targets, typ, name, version)[target] == targets[target]);
                lemma_section_stays_settled(targets[target], typ, name, other_typ, other, version);
            }
            assert(released_targets(changed, typ, name, version) =~= changed);
            assert(second->Table_0.insert("target"@, TomlItem::Table(changed))
                =~= second->Table_0);
            assert(targets_settable(second, typ, name)) by {
                assert forall|target: Seq<char>| changed.contains_key(target) implies section_settable(
                    #[trigger] changed[target],
                    typ.key_spec(),
                    name,
                ) by {
                    assert(section_settable(targets[target], typ.key_spec(), name));
                }
            }
        },
        None => {},
    }
    assert(with_target_versions(second, typ, name, version) == second);
    assert(section_settable(second, typ.key_spec(), name)) by {
        assert(top_table(second, typ.key_spec()) == top_table(first, typ.key_spec()));
    }
}

/// The release of a dependency leaves the table of the package alone.
proof fn lemma_package_table_kept(
    root: TomlItem,
    typ: DependencyType,
    name: Seq<char>,
    version: Seq<char>,
)
    ensures
        top_table(with_dependencies_version(root, typ, name, version), "package"@) == top_table(
            root,
            "package"@,
        ),
{
    lemma_keys_differ(typ, typ);
    let first = with_section_version(root, typ, name, version);
    lemma_section_version(root, typ, name, version, "package"@);
    lemma_target_versions(first, typ, name, version, "package"@);
}

/// Every link of `links` before `upto` is settled in `root`.
spec fn all_settled(
    root: TomlItem,
    g: GraphModel,
    links: Seq<usize>,
    upto: int,
    version: Seq<char>,
) -> bool {
    forall|j: int|
        0 <= j < upto ==> settled(
            root,
            g.links[(#[trigger] links[j]) as int].kind,
            g.links[links[j] as int].dep_name@,
            version,
        )
}

/// What a run over the links `links[from..]` leaves behind needs no second
/// run, if the links before `from` need none.
proof fn lemma_links_settle(
    root: TomlItem,
    g: GraphModel,
    links: Seq<usize>,
    from: int,
    version: Seq<char>,
)
    requires
        0 <= from <= links.len(),
        all_settled(root, g, links, from, version),
        with_links_released(root, g, links, from, version) is Ok,
    ensures
        all_settled(
            with_links_released(root, g, links, from, version)->Ok_0,
            g,
            links,
            links.len() as int,
            version,
        ),
        top_table(with_links_released(root, g, links, from, version)->Ok_0, "package"@)
            == top_table(root, "package"@),
    decreases links.len() - from,
{
    if from < links.len() {
        let link = g.links[links[from] as int];
        let next = with_dependencies_version(root, link.kind, link.dep_name@, version);
        lemma_dependencies_version_idempotent(root, link.kind, link.dep_name@, version);
        lemma_package_table_kept(root, link.kind, link.dep_name@, version);
        assert forall|j: int| 0 <= j < from + 1 implies settled(
            next,
            g.links[(#[trigger] links[j]) as int].kind,
            g.links[links[j] as int].dep_name@,
            version,
        ) by {
            if j < from {
                lemma_stays_settled(
                    root,
                    g.links[links[j] as int].kind,
                    g.links[links[j] as int].dep_name@,
                    link.kind,
                    link.dep_name@,
                    version,
                );
            }
        }
        lemma_links_settle(next, g, links, from + 1, version);
    }
}

/// A run over links that are all settled changes nothing.
proof fn lemma_settled_links_stay(
    root: TomlItem,
    g: GraphModel,
    links: Seq<usize>,
    from: int,
    version: Seq<char>,
)
    requires
        0 <= from <= links.len(),
        all_settled(root, g, links, links.len() as int, version),
    ensures
        with_links_released(root, g, links, from, version) == Ok::<TomlItem, Seq<char>>(root),
    decreases links.len() - from,
{
    if from < links.len() {
        assert(settled(
            root,
            g.links[links[from] as int].kind,
            g.links[links[from] as int].dep_name@,
            version,
        ));
        lemma_settled_links_stay(root, g, links, from + 1, version);
    }
}

/// Running the preparation twice with the same version leaves the manifest
/// as the first run left it: a manifest that has been prepared is prepared
/// to itself.
pub proof fn lemma_prepare_idempotent(
    root: TomlItem,
    g: GraphModel,
    member: usize,
    version: Seq<char>,
)
    requires
        prepared(root, g, member, version) is Ok,
    ensures
        prepared(prepared(root, g, member, version)->Ok_0, g, member, version) == prepared(
            root,
            g,
            member,
            version,
        ),
{
    let links = g.release_links(member);
    let first = with_package_version(root, version)->0;
    let last = prepared(root, g, member, version)->Ok_0;
    lemma_links_settle(first, g, links, 0, version);
    // The version of the package is in place already.
    let package = top_table(root, "package"@)->0;
    let entry = TomlItem::Value(TomlValue::Text(version));
    let changed = package.insert("version"@, entry);
    assert(top_table(first, "package"@) == Some(changed));
    assert(top_table(last, "package"@) == Some(changed));
    assert(changed.insert("version"@, entry) =~= changed);
    assert(last->Table_0.insert("package"@, TomlItem::Table(changed)) =~= last->Table_0);
    assert(with_package_version(last, version) == Some(last));
    lemma_settled_links_stay(last, g, links, 0, version);
}

} // verus!
