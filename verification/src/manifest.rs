//! Version numbers in a package manifest.

use vstd::prelude::*;
use crate::error::{CargoTomlError, Error};
use crate::graph::DependencyType;
use crate::toml::{
    document_item, document_item_mut, document_root, inline_items, inline_table_contains_key,
    inline_table_get_mut, inline_table_insert, is_absent, item_as_inline_table,
    item_as_inline_table_mut, item_as_table, item_as_table_mut, item_model, parse_document,
    parsed_toml, render_document, rendered_toml, table_get, table_get_mut, table_items,
    table_keys, table_put, text_value, value_item, value_model, TomlItem, TomlValue,
};

verus! {

/// Parses the text of the file at `path` as a TOML document. The root of the
/// document is a table.
pub fn read_cargo_toml(text: &str, path: &str) -> (read: Result<toml_edit::DocumentMut, Error>)
    ensures
        match read {
            Ok(doc) => {
                &&& parsed_toml(text@) == Ok::<TomlItem, Seq<char>>(document_root(doc))
                &&& document_root(doc) is Table
            },
            Err(error) => {
                &&& error matches Error::TomlError(inner)
                &&& inner.path@ == path@
                &&& parsed_toml(text@) == Err::<TomlItem, Seq<char>>(inner.inner@)
            },
        },
{
    match parse_document(text) {
        Ok(doc) => Ok(doc),
        Err(inner) => Err(Error::toml_error(inner, path)),
    }
}

/// Writes a TOML document out as text. The root of the document has to be
/// a table, as it is in every document that was read and then edited by the
/// functions of this library.
pub fn write_cargo_toml(doc: &toml_edit::DocumentMut) -> (text: String)
    requires
        document_root(*doc) is Table,
    ensures
        text@ == rendered_toml(*doc),
{
    render_document(doc)
}

/// Writes a TOML document out as text if its root is a table, and returns
/// `None` if it is not.
pub fn try_write_cargo_toml(doc: &toml_edit::DocumentMut) -> (text: Option<String>)
    ensures
        match text {
            Some(text) => document_root(*doc) is Table && text@ == rendered_toml(*doc),
            None => !(document_root(*doc) is Table),
        },
{
    if item_as_table(document_item(doc)).is_some() {
        Some(write_cargo_toml(doc))
    } else {
        None
    }
}

/// The items of the table that the document holds under `key` at top level,
/// if it holds a table there.
pub open spec fn top_table(root: TomlItem, key: Seq<char>) -> Option<Map<Seq<char>, TomlItem>> {
    match root {
        TomlItem::Table(top) => if top.contains_key(key) && top[key] is Table {
            Some(top[key]->Table_0)
        } else {
            None
        },
        _ => None,
    }
}

/// The document after the table under `key` at top level has got the items
/// `items`.
pub open spec fn with_top_table(
    root: TomlItem,
    key: Seq<char>,
    items: Map<Seq<char>, TomlItem>,
) -> TomlItem {
    TomlItem::Table(root->Table_0.insert(key, TomlItem::Table(items)))
}

/// Hands out the table that the document holds under `key` at top level.
pub fn get_top_table<'a>(doc: &'a toml_edit::DocumentMut, key: &str) -> (table: Option<
    &'a toml_edit::Table,
>)
    ensures
        table is Some <==> top_table(document_root(*doc), key@) is Some,
        table matches Some(t) ==> Some(table_items(*t)) == top_table(document_root(*doc), key@),
{
    match item_as_table(document_item(doc)) {
        Some(top) => match table_get(top, key) {
            Some(item) => item_as_table(item),
            None => None,
        },
        None => None,
    }
}

/// Hands out, for editing, the table that the document holds under `key` at
/// top level. Nothing else in the document changes.
pub fn get_top_table_mut<'a>(doc: &'a mut toml_edit::DocumentMut, key: &str) -> (table: Option<
    &'a mut toml_edit::Table,
>)
    ensures
        table is Some <==> top_table(document_root(*old(doc)), key@) is Some,
        table matches Some(t) ==> Some(table_items(*t)) == top_table(document_root(*old(doc)), key@)
            && document_root(*final(doc)) == with_top_table(
            document_root(*old(doc)),
            key@,
            table_items(*final(t)),
        ),
        table is None ==> document_root(*final(doc)) == document_root(*old(doc)),
{
    match item_as_table_mut(document_item_mut(doc)) {
        Some(top) => {
            let ghost before = table_items(*top);
            match table_get_mut(top, key) {
                Some(item) => match item_as_table_mut(item) {
                    Some(table) => Some(table),
                    None => {
                        assert(before.insert(key@, before[key@]) =~= before);
                        None
                    },
                },
                None => None,
            }
        },
        None => None,
    }
}

/// Sets the value under `key` in `table`, adding the key if it is missing.
pub fn table_add_or_update_value(table: &mut toml_edit::Table, key: &str, value: toml_edit::Value)
    ensures
        table_items(*final(table)) == table_items(*old(table)).insert(
            key@,
            TomlItem::Value(value_model(value)),
        ),
{
    table_put(table, key, value_item(value));
}

/// Sets the value under `key` in `table`, adding the key if it is missing.
pub fn inline_table_add_or_update_value(
    table: &mut toml_edit::InlineTable,
    key: &str,
    value: toml_edit::Value,
)
    ensures
        inline_items(*final(table)) == inline_items(*old(table)).insert(key@, value_model(value)),
{
    match inline_table_get_mut(table, key) {
        Some(slot) => {
            *slot = value;
        },
        None => {
            inline_table_insert(table, key, value);
        },
    }
}

/// The manifest has a `package` table.
pub open spec fn has_package_table(root: TomlItem) -> bool {
    top_table(root, "package"@) is Some
}

/// The `package` table of the manifest holds a version.
pub open spec fn has_version_slot(root: TomlItem) -> bool {
    top_table(root, "package"@) matches Some(package) && package.contains_key("version"@)
}

/// The manifest after the version of its package has become `version`, or
/// `None` if the manifest has no `package` table or the table holds no
/// version to set.
pub open spec fn with_package_version(root: TomlItem, version: Seq<char>) -> Option<TomlItem> {
    if has_version_slot(root) {
        Some(
            with_top_table(
                root,
                "package"@,
                top_table(root, "package"@)->0.insert(
                    "version"@,
                    TomlItem::Value(TomlValue::Text(version)),
                ),
            ),
        )
    } else {
        None
    }
}

/// Sets the version of the package that the manifest describes.
///
/// Fails, and leaves the manifest as it is, if it has no `package` table,
/// or if the table holds no `version`: a version is overwritten, never
/// added.
pub fn set_package_version(doc: &mut toml_edit::DocumentMut, version: &str) -> (done: Result<
    (),
    CargoTomlError,
>)
    ensures
        done is Ok <==> has_version_slot(document_root(*old(doc))),
        document_root(*final(doc)) is Table <==> document_root(*old(doc)) is Table,
        match done {
            Ok(()) => Some(document_root(*final(doc))) == with_package_version(
                document_root(*old(doc)),
                version@,
            ),
            Err(error) => {
                &&& document_root(*final(doc)) == document_root(*old(doc))
                &&& if has_package_table(document_root(*old(doc))) {
                    error.is_no_value("version"@)
                } else {
                    error.is_no_table("package"@)
                }
            },
        },
{
    let ghost root = document_root(*doc);
    match get_top_table_mut(doc, "package") {
        Some(table) => {
            let ghost package = table_items(*table);
            if table_get(table, "version").is_none() {
                assert(root->Table_0.insert("package"@, TomlItem::Table(package))
                    =~= root->Table_0);
                return Err(CargoTomlError::no_value("version"));
            }
            table_add_or_update_value(table, "version", text_value(version));
            Ok(())
        },
        None => Err(CargoTomlError::no_table("package")),
    }
}

/// The entry of a dependency is a table or an inline table.
pub open spec fn entry_is_table_like(entry: TomlItem) -> bool {
    entry is Table || entry matches TomlItem::Value(TomlValue::Inline(_))
}

/// The entry of a dependency states a version.
pub open spec fn entry_has_version(entry: TomlItem) -> bool {
    match entry {
        TomlItem::Table(fields) => fields.contains_key("version"@),
        TomlItem::Value(TomlValue::Inline(fields)) => fields.contains_key("version"@),
        _ => false,
    }
}

/// The entry of a dependency after its version has become `version`.
pub open spec fn entry_with_version(entry: TomlItem, version: Seq<char>) -> TomlItem {
    match entry {
        TomlItem::Table(fields) => TomlItem::Table(
            fields.insert("version"@, TomlItem::Value(TomlValue::Text(version))),
        ),
        TomlItem::Value(TomlValue::Inline(fields)) => TomlItem::Value(
            TomlValue::Inline(fields.insert("version"@, TomlValue::Text(version))),
        ),
        _ => entry,
    }
}

/// The entry of a dependency of type `typ` after a release of `version`: it
/// states that version, unless it is a dev dependency that states none.
pub open spec fn entry_released(entry: TomlItem, typ: DependencyType, version: Seq<char>) -> TomlItem {
    if typ is Dev && !entry_has_version(entry) {
        entry
    } else {
        entry_with_version(entry, version)
    }
}

/// A dependency table has no entry for `name` or one whose version can be
/// set.
pub open spec fn dependency_settable(items: Map<Seq<char>, TomlItem>, name: Seq<char>) -> bool {
    items.contains_key(name) ==> entry_is_table_like(items[name])
}

/// A dependency table after a release of `version` of the dependency
/// `name`. A table without an entry for `name` stays as it is.
pub open spec fn with_dependency_version(
    items: Map<Seq<char>, TomlItem>,
    typ: DependencyType,
    name: Seq<char>,
    version: Seq<char>,
) -> Map<Seq<char>, TomlItem> {
    if items.contains_key(name) {
        items.insert(name, entry_released(items[name], typ, version))
    } else {
        items
    }
}

/// Sets the version of the dependency `name` in one dependency table of
/// type `typ`.
///
/// Returns `None`, and leaves the table as it is, if the entry of the
/// dependency is neither a table nor an inline table.
pub fn set_dependency_version(
    table: &mut toml_edit::Table,
    version: &str,
    typ: DependencyType,
    name: &str,
) -> (done: Option<()>)
    ensures
        done is Some <==> dependency_settable(table_items(*old(table)), name@),
        done is Some ==> table_items(*final(table)) == with_dependency_version(
            table_items(*old(table)),
            typ,
            name@,
            version@,
        ),
        done is None ==> table_items(*final(table)) == table_items(*old(table)),
        table_items(*final(table)).dom() == table_items(*old(table)).dom(),
        typ is Dev && table_items(*old(table)).contains_key(name@) && !entry_has_version(
            table_items(*old(table))[name@],
        ) ==> table_items(*final(table)) == table_items(*old(table)),
{
    let ghost before = table_items(*table);
    proof {
        lemma_dependency_version(before, typ, name@, version@);
        if typ is Dev && before.contains_key(name@) && !entry_has_version(before[name@]) {
            lemma_dev_dependency_without_version(before, name@, version@);
        }
    }
    let dev = match typ {
        DependencyType::Dev => true,
        _ => false,
    };
    match table_get_mut(table, name) {
        Some(item) => {
            let ghost entry = item_model(*item);
            let inline = match item_as_inline_table(item) {
                Some(fields) => Some(inline_table_contains_key(fields, "version")),
                None => None,
            };
            match inline {
                Some(has_version) => {
                    if !dev || has_version {
                        match item_as_inline_table_mut(item) {
                            Some(fields) => {
                                inline_table_add_or_update_value(
                                    fields,
                                    "version",
                                    text_value(version),
                                );
                            },
                            None => {},
                        }
                    } else {
                        assert(before.insert(name@, entry) =~= before);
                    }
                    Some(())
                },
                None => {
                    let standard = match item_as_table(item) {
                        Some(fields) => Some(table_get(fields, "version").is_some()),
                        None => None,
                    };
                    match standard {
                        Some(has_version) => {
                            if !dev || has_version {
                                match item_as_table_mut(item) {
                                    Some(fields) => {
                                        table_add_or_update_value(
                                            fields,
                                            "version",
                                            text_value(version),
                                        );
                                    },
                                    None => {},
                                }
                            } else {
                                assert(before.insert(name@, entry) =~= before);
                            }
                            Some(())
                        },
                        None => {
                            assert(before.insert(name@, entry) =~= before);
                            None
                        },
                    }
                },
            }
        },
        None => Some(()),
    }
}

/// The manifest states a version for the dependency `name` in its top-level
/// dependency table of type `typ`.
pub open spec fn declares_version(root: TomlItem, typ: DependencyType, name: Seq<char>) -> bool {
    top_table(root, typ.key_spec()) matches Some(items) && items.contains_key(name)
        && entry_has_version(items[name])
}

/// Does the manifest state a version for the dependency `name` in its
/// top-level dependency table of type `typ`?
pub fn dependency_has_version(doc: &toml_edit::DocumentMut, typ: DependencyType, name: &str) -> (has:
    bool)
    ensures
        has == declares_version(document_root(*doc), typ, name@),
{
    match get_top_table(doc, typ.key()) {
        Some(deps) => match table_get(deps, name) {
            Some(entry) => match item_as_table(entry) {
                Some(fields) => table_get(fields, "version").is_some(),
                None => match item_as_inline_table(entry) {
                    Some(fields) => inline_table_contains_key(fields, "version"),
                    None => false,
                },
            },
            None => false,
        },
        None => false,
    }
}

/// The dependency table under `key` of a manifest, or of a table that holds
/// dependency tables as a manifest does, has no entry for `name` or one
/// whose version can be set.
pub open spec fn section_settable(root: TomlItem, key: Seq<char>, name: Seq<char>) -> bool {
    top_table(root, key) matches Some(items) ==> dependency_settable(items, name)
}

/// A manifest, or a table that holds dependency tables as a manifest does,
/// after a release of `version` of the dependency `name` has been entered in
/// the dependency table of type `typ`. Without such a table it stays as it
/// is.
pub open spec fn with_section_version(
    root: TomlItem,
    typ: DependencyType,
    name: Seq<char>,
    version: Seq<char>,
) -> TomlItem {
    match top_table(root, typ.key_spec()) {
        Some(items) => with_top_table(
            root,
            typ.key_spec(),
            with_dependency_version(items, typ, name, version),
        ),
        None => root,
    }
}

/// In every table under `target`, the dependency table of type `typ` has no
/// entry for `name` or one whose version can be set.
pub open spec fn targets_settable(root: TomlItem, typ: DependencyType, name: Seq<char>) -> bool {
    top_table(root, "target"@) matches Some(targets) ==> forall|target: Seq<char>|
        targets.contains_key(target) ==> section_settable(
            #[trigger] targets[target],
            typ.key_spec(),
            name,
        )
}

/// The tables under `target` after a release of `version` of the dependency
/// `name` has been entered in each of them.
pub open spec fn released_targets(
    targets: Map<Seq<char>, TomlItem>,
    typ: DependencyType,
    name: Seq<char>,
    version: Seq<char>,
) -> Map<Seq<char>, TomlItem> {
    Map::new(
        |target: Seq<char>| targets.contains_key(target),
        |target: Seq<char>| with_section_version(targets[target], typ, name, version),
    )
}

/// A manifest after a release of `version` of the dependency `name` has been
/// entered in every table under `target`.
pub open spec fn with_target_versions(
    root: TomlItem,
    typ: DependencyType,
    name: Seq<char>,
    version: Seq<char>,
) -> TomlItem {
    match top_table(root, "target"@) {
        Some(targets) => with_top_table(
            root,
            "target"@,
            released_targets(targets, typ, name, version),
        ),
        None => root,
    }
}

/// The version of the dependency `name` can be set wherever the manifest
/// declares it as a dependency of type `typ`.
pub open spec fn dependencies_settable(root: TomlItem, typ: DependencyType, name: Seq<char>) -> bool {
    section_settable(root, typ.key_spec(), name) && targets_settable(root, typ, name)
}

/// A manifest after a release of `version` of the dependency `name`: every
/// entry that declares it as a dependency of type `typ`, at top level or
/// under `target`, states that version, except that a dev dependency entry
/// that states no version is left alone. No entry is added.
pub open spec fn with_dependencies_version(
    root: TomlItem,
    typ: DependencyType,
    name: Seq<char>,
    version: Seq<char>,
) -> TomlItem {
    with_target_versions(with_section_version(root, typ, name, version), typ, name, version)
}

/// No dependency table is called `target`.
pub proof fn lemma_key_is_not_target(typ: DependencyType)
    ensures
        typ.key_spec() != "target"@,
{
    reveal_strlit("target");
    reveal_strlit("dependencies");
    reveal_strlit("build-dependencies");
    reveal_strlit("dev-dependencies");
    assert("target"@.len() == 6);
    assert(typ.key_spec().len() > 6);
}

/// Dependencies of different types go into different tables, and none goes
/// into the table of the package.
pub proof fn lemma_keys_differ(a: DependencyType, b: DependencyType)
    ensures
        a != b ==> a.key_spec() != b.key_spec(),
        a.key_spec() != "package"@,
        a.key_spec() != "target"@,
        "package"@ != "target"@,
{
    reveal_strlit("package");
    reveal_strlit("target");
    reveal_strlit("dependencies");
    reveal_strlit("build-dependencies");
    reveal_strlit("dev-dependencies");
    assert("package"@.len() == 7);
    assert("target"@.len() == 6);
    assert(DependencyType::Normal.key_spec().len() == 12);
    assert(DependencyType::Build.key_spec().len() == 18);
    assert(DependencyType::Dev.key_spec().len() == 16);
}

/// Sets the version of the dependency `name` in the dependency table of type
/// `typ` that `holder` holds, if `holder` is a table and holds one.
///
/// Returns `None`, and leaves `holder` as it is, if the entry of the
/// dependency is neither a table nor an inline table.
fn set_section_version(
    holder: &mut toml_edit::Item,
    version: &str,
    typ: DependencyType,
    name: &str,
) -> (done: Option<()>)
    requires
        !(item_model(*old(holder)) is Absent),
    ensures
        done is Some <==> section_settable(item_model(*old(holder)), typ.key_spec(), name@),
        done is Some ==> item_model(*final(holder)) == with_section_version(
            item_model(*old(holder)),
            typ,
            name@,
            version@,
        ),
        done is None ==> item_model(*final(holder)) == item_model(*old(holder)),
{
    match item_as_table_mut(holder) {
        Some(top) => {
            let ghost before = table_items(*top);
            match table_get_mut(top, typ.key()) {
                Some(item) => match item_as_table_mut(item) {
                    Some(table) => {
                        let ghost section = table_items(*table);
                        let done = set_dependency_version(table, version, typ, name);
                        proof {
                            if done is None {
                                assert(before.insert(typ.key_spec(), TomlItem::Table(section))
                                    =~= before);
                            }
                        }
                        done
                    },
                    None => {
                        assert(before.insert(typ.key_spec(), before[typ.key_spec()]) =~= before);
                        Some(())
                    },
                },
                None => Some(()),
            }
        },
        None => Some(()),
    }
}

/// Sets the version of the dependency `name` wherever the manifest declares
/// it as a dependency of type `typ`: in the dependency table of that type at
/// top level and in the one of every table under `target`.
///
/// Fails if an entry of the dependency is neither a table nor an inline
/// table. The manifest may then have been changed in part.
pub fn set_dependencies_version(
    doc: &mut toml_edit::DocumentMut,
    version: &str,
    typ: DependencyType,
    name: &str,
) -> (done: Result<(), CargoTomlError>)
    ensures
        done is Ok <==> dependencies_settable(document_root(*old(doc)), typ, name@),
        done is Ok ==> document_root(*final(doc)) == with_dependencies_version(
            document_root(*old(doc)),
            typ,
            name@,
            version@,
        ),
        done matches Err(error) ==> error.is_set_version(name@, version@),
        !section_settable(document_root(*old(doc)), typ.key_spec(), name@) ==> document_root(
            *final(doc),
        ) == document_root(*old(doc)),
        document_root(*final(doc)) is Table <==> document_root(*old(doc)) is Table,
{
    let ghost root = document_root(*doc);
    proof {
        lemma_key_is_not_target(typ);
    }
    let top = document_item_mut(doc);
    let at_top = if !is_absent(top) {
        set_section_version(top, version, typ, name)
    } else {
        Some(())
    };
    if at_top.is_none() {
        return Err(CargoTomlError::set_version(name, version));
    }
    let ghost first = document_root(*doc);
    assert(first == with_section_version(root, typ, name@, version@));
    assert(top_table(first, "target"@) == top_table(root, "target"@)) by {
        if top_table(root, typ.key_spec()) is Some {
            let top_items = root->Table_0;
            let changed = with_dependency_version(
                top_table(root, typ.key_spec())->0,
                typ,
                name@,
                version@,
            );
            assert(first == TomlItem::Table(
                top_items.insert(typ.key_spec(), TomlItem::Table(changed)),
            ));
        }
    }
    let targets: Vec<String> = match get_top_table(doc, "target") {
        Some(table) => table_keys(table),
        None => {
            return Ok(());
        },
    };
    let ghost before = top_table(first, "target"@)->0;
    proof {
        assert(partly_released(before, targets@, 0, typ, name@, version@) =~= before);
        assert(first->Table_0.insert("target"@, TomlItem::Table(before)) =~= first->Table_0);
    }
    let mut i: usize = 0;
    while i < targets.len()
        invariant
            i <= targets.len(),
            first is Table,
            top_table(first, "target"@) == Some(before),
            top_table(root, "target"@) == Some(before),
            root == document_root(*old(doc)),
            section_settable(root, typ.key_spec(), name@),
            forall|key: Seq<char>|
                before.contains_key(key) <==> exists|j: int|
                    0 <= j < targets.len() && (#[trigger] targets[j])@ == key,
            forall|a: int, b: int|
                0 <= a < b < targets.len() ==> (#[trigger] targets[a])@ != (#[trigger] targets[b])@,
            forall|j: int|
                0 <= j < i ==> section_settable(
                    before[(#[trigger] targets[j])@],
                    typ.key_spec(),
                    name@,
                ),
            document_root(*doc) == with_top_table(
                first,
                "target"@,
                partly_released(before, targets@, i as int, typ, name@, version@),
            ),
        decreases targets.len() - i,
    {
        let ghost current = partly_released(before, targets@, i as int, typ, name@, version@);
        let ghost target = targets[i as int]@;
        assert(before.contains_key(target));
        assert(top_table(document_root(*doc), "target"@) == Some(current)) by {
            assert(first->Table_0.insert("target"@, TomlItem::Table(current)).contains_key(
                "target"@,
            ));
        }
        assert(current[target] == before[target]) by {
            if exists|j: int| 0 <= j < i && (#[trigger] targets[j])@ == target {
                let j = choose|j: int| 0 <= j < i && (#[trigger] targets[j])@ == target;
                assert(targets[j]@ != targets[i as int]@);
            }
        }
        let done = match get_top_table_mut(doc, "target") {
            Some(table) => match table_get_mut(table, targets[i].as_str()) {
                Some(item) => set_section_version(item, version, typ, name),
                None => Some(()),
            },
            None => Some(()),
        };
        if done.is_none() {
            assert(!section_settable(before[target], typ.key_spec(), name@));
            assert(!targets_settable(root, typ, name@));
            return Err(CargoTomlError::set_version(name, version));
        }
        proof {
            let next = partly_released(before, targets@, i + 1, typ, name@, version@);
            let changed = current.insert(
                target,
                with_section_version(before[target], typ, name@, version@),
            );
            assert(changed =~= next) by {
                assert forall|key: Seq<char>| changed.contains_key(key) implies changed[key]
                    == next[key] by {
                    if key == target {
                        assert(targets[i as int]@ == key);
                    } else if exists|j: int| 0 <= j < i + 1 && (#[trigger] targets[j])@ == key {
                        let j = choose|j: int| 0 <= j < i + 1 && (#[trigger] targets[j])@ == key;
                        assert(j < i);
                    }
                }
            }
            assert(with_top_table(with_top_table(first, "target"@, current), "target"@, changed)
                == with_top_table(first, "target"@, changed)) by {
                assert(first->Table_0.insert("target"@, TomlItem::Table(current)).insert(
                    "target"@,
                    TomlItem::Table(changed),
                ) =~= first->Table_0.insert("target"@, TomlItem::Table(changed)));
            }
        }
        i += 1;
    }
    proof {
        let last = partly_released(before, targets@, targets.len() as int, typ, name@, version@);
        assert(last =~= released_targets(before, typ, name@, version@));
        assert forall|target: Seq<char>| before.contains_key(target) implies section_settable(
            #[trigger] before[target],
            typ.key_spec(),
            name@,
        ) by {
            let j = choose|j: int| 0 <= j < targets.len() && (#[trigger] targets[j])@ == target;
            assert(section_settable(before[targets[j]@], typ.key_spec(), name@));
        }
    }
    Ok(())
}

/// The tables under `target` after a release of `version` of the dependency
/// `name` has been entered in those named by the first `done` of `keys`.
spec fn partly_released(
    targets: Map<Seq<char>, TomlItem>,
    keys: Seq<String>,
    done: int,
    typ: DependencyType,
    name: Seq<char>,
    version: Seq<char>,
) -> Map<Seq<char>, TomlItem> {
    Map::new(
        |target: Seq<char>| targets.contains_key(target),
        |target: Seq<char>|
            if exists|j: int| 0 <= j < done && (#[trigger] keys[j])@ == target {
                with_section_version(targets[target], typ, name, version)
            } else {
                targets[target]
            },
    )
}

/// Setting the version of the package twice is the same as setting it once.
pub proof fn lemma_package_version_idempotent(root: TomlItem, version: Seq<char>)
    requires
        with_package_version(root, version) is Some,
    ensures
        with_package_version(with_package_version(root, version)->0, version)
            == with_package_version(root, version),
{
    let package = top_table(root, "package"@)->0;
    let entry = TomlItem::Value(TomlValue::Text(version));
    let changed = package.insert("version"@, entry);
    let once = with_package_version(root, version)->0;
    assert(top_table(once, "package"@) == Some(changed));
    assert(has_version_slot(once));
    assert(changed.insert("version"@, entry) =~= changed);
    assert(root->Table_0.insert("package"@, TomlItem::Table(changed)).insert(
        "package"@,
        TomlItem::Table(changed),
    ) =~= root->Table_0.insert("package"@, TomlItem::Table(changed)));
}

/// An entry that has been released is left alone by a second release of the
/// same version.
pub proof fn lemma_entry_released_idempotent(
    entry: TomlItem,
    typ: DependencyType,
    version: Seq<char>,
)
    ensures
        entry_released(entry_released(entry, typ, version), typ, version) == entry_released(
            entry,
            typ,
            version,
        ),
        entry_is_table_like(entry_released(entry, typ, version)) == entry_is_table_like(entry),
{
    match entry {
        TomlItem::Table(fields) => {
            let text = TomlItem::Value(TomlValue::Text(version));
            assert(fields.insert("version"@, text).insert("version"@, text) =~= fields.insert(
                "version"@,
                text,
            ));
        },
        TomlItem::Value(TomlValue::Inline(fields)) => {
            let text = TomlValue::Text(version);
            assert(fields.insert("version"@, text).insert("version"@, text) =~= fields.insert(
                "version"@,
                text,
            ));
        },
        _ => {},
    }
}

/// Releasing a dependency in a dependency table adds no entry and removes
/// none, and a second release of the same version changes nothing.
pub proof fn lemma_dependency_version(
    items: Map<Seq<char>, TomlItem>,
    typ: DependencyType,
    name: Seq<char>,
    version: Seq<char>,
)
    ensures
        with_dependency_version(items, typ, name, version).dom() == items.dom(),
        dependency_settable(with_dependency_version(items, typ, name, version), name)
            == dependency_settable(items, name),
        with_dependency_version(
            with_dependency_version(items, typ, name, version),
            typ,
            name,
            version,
        ) == with_dependency_version(items, typ, name, version),
{
    let once = with_dependency_version(items, typ, name, version);
    assert(once.dom() =~= items.dom());
    if items.contains_key(name) {
        lemma_entry_released_idempotent(items[name], typ, version);
        assert(once.insert(name, once[name]) =~= once);
    }
}

/// A dev dependency whose entry states no version is left alone.
pub proof fn lemma_dev_dependency_without_version(
    items: Map<Seq<char>, TomlItem>,
    name: Seq<char>,
    version: Seq<char>,
)
    requires
        items.contains_key(name) ==> !entry_has_version(items[name]),
    ensures
        with_dependency_version(items, DependencyType::Dev, name, version) == items,
{
    if items.contains_key(name) {
        assert(items.insert(name, items[name]) =~= items);
    }
}

/// Releasing a dependency in the dependency table that a manifest, or a
/// table under `target`, holds changes that table only, adds no table and
/// removes none, and a second release of the same version changes nothing.
pub proof fn lemma_section_version(
    root: TomlItem,
    typ: DependencyType,
    name: Seq<char>,
    version: Seq<char>,
    key: Seq<char>,
)
    ensures
        key != typ.key_spec() ==> top_table(with_section_version(root, typ, name, version), key)
            == top_table(root, key),
        top_table(with_section_version(root, typ, name, version), typ.key_spec()) == match top_table(
            root,
            typ.key_spec(),
        ) {
            Some(items) => Some(with_dependency_version(items, typ, name, version)),
            None => None,
        },
        section_settable(with_section_version(root, typ, name, version), typ.key_spec(), name)
            == section_settable(root, typ.key_spec(), name),
        with_section_version(with_section_version(root, typ, name, version), typ, name, version)
            == with_section_version(root, typ, name, version),
{
    match top_table(root, typ.key_spec()) {
        Some(items) => {
            let top = root->Table_0;
            let changed = with_dependency_version(items, typ, name, version);
            lemma_dependency_version(items, typ, name, version);
            let once = with_section_version(root, typ, name, version);
            assert(once == TomlItem::Table(top.insert(typ.key_spec(), TomlItem::Table(changed))));
            assert(top_table(once, typ.key_spec()) == Some(changed));
            assert(top.insert(typ.key_spec(), TomlItem::Table(changed)).insert(
                typ.key_spec(),
                TomlItem::Table(changed),
            ) =~= top.insert(typ.key_spec(), TomlItem::Table(changed)));
        },
        None => {},
    }
}

/// Releasing a dependency under `target` changes the tables under `target`
/// only, adds no table and removes none, and a second release of the same
/// version changes nothing.
pub proof fn lemma_target_versions(
    root: TomlItem,
    typ: DependencyType,
    name: Seq<char>,
    version: Seq<char>,
    key: Seq<char>,
)
    ensures
        key != "target"@ ==> top_table(with_target_versions(root, typ, name, version), key)
            == top_table(root, key),
        top_table(with_target_versions(root, typ, name, version), "target"@) == match top_table(
            root,
            "target"@,
        ) {
            Some(targets) => Some(released_targets(targets, typ, name, version)),
            None => None,
        },
        targets_settable(with_target_versions(root, typ, name, version), typ, name)
            == targets_settable(root, typ, name),
        with_target_versions(with_target_versions(root, typ, name, version), typ, name, version)
            == with_target_versions(root, typ, name, version),
{
    match top_table(root, "target"@) {
        Some(targets) => {
            let top = root->Table_0;
            let changed = released_targets(targets, typ, name, version);
            let once = with_target_versions(root, typ, name, version);
            assert(once == TomlItem::Table(top.insert("target"@, TomlItem::Table(changed))));
            assert(top_table(once, "target"@) == Some(changed));
            assert forall|target: Seq<char>| targets.contains_key(target) implies section_settable(
                #[trigger] changed[target],
                typ.key_spec(),
                name,
            ) == section_settable(targets[target], typ.key_spec(), name) by {
                lemma_section_version(targets[target], typ, name, version, typ.key_spec());
            }
            assert(released_targets(changed, typ, name, version) =~= changed) by {
                assert forall|target: Seq<char>| changed.contains_key(target) implies (
                #[trigger] released_targets(changed, typ, name, version)[target])
                    == changed[target] by {
                    lemma_section_version(targets[target], typ, name, version, typ.key_spec());
                }
            }
            assert(top.insert("target"@, TomlItem::Table(changed)).insert(
                "target"@,
                TomlItem::Table(changed),
            ) =~= top.insert("target"@, TomlItem::Table(changed)));
            if targets_settable(root, typ, name) {
                assert forall|target: Seq<char>| changed.contains_key(target) implies section_settable(
                    #[trigger] changed[target],
                    typ.key_spec(),
                    name,
                ) by {
                    assert(section_settable(targets[target], typ.key_spec(), name));
                }
            }
            if targets_settable(once, typ, name) {
                assert forall|target: Seq<char>| targets.contains_key(target) implies section_settable(
                    #[trigger] targets[target],
                    typ.key_spec(),
                    name,
                ) by {
                    assert(section_settable(changed[target], typ.key_spec(), name));
                }
            }
        },
        None => {},
    }
}

/// Running the release of a dependency twice with the same version leaves
/// the manifest as the first run left it, and what could be released once
/// can be released again.
pub proof fn lemma_dependencies_version_idempotent(
    root: TomlItem,
    typ: DependencyType,
    name: Seq<char>,
    version: Seq<char>,
)
    ensures
        dependencies_settable(with_dependencies_version(root, typ, name, version), typ, name)
            == dependencies_settable(root, typ, name),
        with_dependencies_version(
            with_dependencies_version(root, typ, name, version),
            typ,
            name,
            version,
        ) == with_dependencies_version(root, typ, name, version),
{
    lemma_key_is_not_target(typ);
    let first = with_section_version(root, typ, name, version);
    let second = with_target_versions(first, typ, name, version);
    lemma_section_version(root, typ, name, version, "target"@);
    lemma_section_version(root, typ, name, version, typ.key_spec());
    lemma_target_versions(first, typ, name, version, typ.key_spec());
    lemma_target_versions(first, typ, name, version, "target"@);
    lemma_section_version(first, typ, name, version, typ.key_spec());
    // The second run finds the top-level table as the first run left it.
    assert(with_section_version(second, typ, name, version) == second) by {
        match top_table(first, typ.key_spec()) {
            Some(items) => {
                lemma_dependency_version(top_table(root, typ.key_spec())->0, typ, name, version);
                assert(top_table(second, typ.key_spec()) == Some(items));
                assert(second->Table_0.insert(typ.key_spec(), TomlItem::Table(items))
                    =~= second->Table_0);
            },
            None => {},
        }
    }
}

/// The names of the entries of the table that the manifest, or a table
/// under `target`, holds under `key`.
pub open spec fn entries(root: TomlItem, key: Seq<char>) -> Option<Set<Seq<char>>> {
    match top_table(root, key) {
        Some(items) => Some(items.dom()),
        None => None,
    }
}

/// The table that the manifest holds under `key` in its table for the
/// target `target`.
pub open spec fn target_table(root: TomlItem, target: Seq<char>, key: Seq<char>) -> Option<
    Map<Seq<char>, TomlItem>,
> {
    match top_table(root, "target"@) {
        Some(targets) => if targets.contains_key(target) {
            top_table(targets[target], key)
        } else {
            None
        },
        None => None,
    }
}

/// The release of a dependency never creates an entry where none existed:
/// every table of the manifest, apart from the table `target` itself, has
/// the entries that it had; the manifest has tables for the targets that it
/// had them for; and each of their tables has the entries that it had.
pub proof fn lemma_no_entry_created(
    root: TomlItem,
    typ: DependencyType,
    name: Seq<char>,
    version: Seq<char>,
    target: Seq<char>,
    key: Seq<char>,
)
    ensures
        key != "target"@ ==> entries(with_dependencies_version(root, typ, name, version), key)
            == entries(root, key),
        entries(with_dependencies_version(root, typ, name, version), "target"@) == entries(
            root,
            "target"@,
        ),
        match (
            target_table(root, target, key),
            target_table(with_dependencies_version(root, typ, name, version), target, key),
        ) {
            (Some(before), Some(after)) => after.dom() == before.dom(),
            (None, None) => true,
            _ => false,
        },
{
    lemma_key_is_not_target(typ);
    let first = with_section_version(root, typ, name, version);
    lemma_section_version(root, typ, name, version, key);
    lemma_section_version(root, typ, name, version, "target"@);
    lemma_section_version(root, typ, name, version, typ.key_spec());
    lemma_target_versions(first, typ, name, version, key);
    lemma_target_versions(first, typ, name, version, "target"@);
    match top_table(root, typ.key_spec()) {
        Some(items) => {
            lemma_dependency_version(items, typ, name, version);
        },
        None => {},
    }
    match top_table(root, "target"@) {
        Some(targets) => {
            let changed = released_targets(targets, typ, name, version);
            assert(changed.dom() =~= targets.dom());
            if targets.contains_key(target) {
                lemma_section_version(targets[target], typ, name, version, key);
                lemma_section_version(targets[target], typ, name, version, typ.key_spec());
                match top_table(targets[target], typ.key_spec()) {
                    Some(items) => {
                        lemma_dependency_version(items, typ, name, version);
                    },
                    None => {},
                }
            }
        },
        None => {},
    }
}

/// The release of a dependency never adds a version to a dev dependency
/// that states none: such an entry of a table `dev-dependencies`, at top
/// level or under `target`, is after the release what it was before.
pub proof fn lemma_dev_dependency_kept(
    root: TomlItem,
    typ: DependencyType,
    name: Seq<char>,
    version: Seq<char>,
    target: Seq<char>,
    dependency: Seq<char>,
)
    ensures
        top_table(root, DependencyType::Dev.key_spec()) matches Some(before) ==> (before.contains_key(
            dependency,
        ) && !entry_has_version(before[dependency]) ==> top_table(
            with_dependencies_version(root, typ, name, version),
            DependencyType::Dev.key_spec(),
        )->0[dependency] == before[dependency]),
        target_table(root, target, DependencyType::Dev.key_spec()) matches Some(before) ==> (
        before.contains_key(dependency) && !entry_has_version(before[dependency]) ==> target_table(
            with_dependencies_version(root, typ, name, version),
            target,
            DependencyType::Dev.key_spec(),
        )->0[dependency] == before[dependency]),
{
    let dev = DependencyType::Dev.key_spec();
    lemma_keys_differ(typ, DependencyType::Dev);
    lemma_keys_differ(DependencyType::Dev, typ);
    let first = with_section_version(root, typ, name, version);
    lemma_section_version(root, typ, name, version, dev);
    lemma_section_version(root, typ, name, version, "target"@);
    lemma_target_versions(first, typ, name, version, dev);
    lemma_target_versions(first, typ, name, version, "target"@);
    match top_table(root, dev) {
        Some(before) => {
            if typ is Dev && before.contains_key(dependency) && !entry_has_version(
                before[dependency],
            ) {
                let after = with_dependency_version(before, typ, name, version);
                assert(after[dependency] == before[dependency]);
            }
        },
        None => {},
    }
    match top_table(root, "target"@) {
        Some(targets) => {
            if targets.contains_key(target) {
                lemma_section_version(targets[target], typ, name, version, dev);
                match top_table(targets[target], dev) {
                    Some(before) => {
                        if typ is Dev && before.contains_key(dependency) && !entry_has_version(
                            before[dependency],
                        ) {
                            let after = with_dependency_version(before, typ, name, version);
                            assert(after[dependency] == before[dependency]);
                        }
                    },
                    None => {},
                }
            }
        },
        None => {},
    }
}

} // verus!
