//! The record that a lockfile keeps of a workspace member.

use vstd::prelude::*;
use crate::error::Error;
use crate::manifest::table_add_or_update_value;
use crate::text::str_eq;
use crate::toml::{
    array_get, array_get_mut, array_items, array_len, document_item_mut, document_root,
    item_as_array_of_tables_mut, item_as_str, item_as_table_mut, item_model, table_get,
    table_get_mut, table_items, text_value, TomlItem, TomlValue,
};

verus! {

/// The records of the lockfile: the elements of its array of tables
/// `package`, if it has one.
pub open spec fn lock_records(root: TomlItem) -> Option<Seq<TomlItem>> {
    match root {
        TomlItem::Table(top) => if top.contains_key("package"@) && top["package"@] is Tables {
            Some(top["package"@]->Tables_0)
        } else {
            None
        },
        _ => None,
    }
}

/// `record` is the record of the package called `name`.
pub open spec fn is_record_of(record: TomlItem, name: Seq<char>) -> bool {
    record matches TomlItem::Table(fields) && fields.contains_key("name"@) && fields["name"@]
        == TomlItem::Value(TomlValue::Text(name))
}

/// The record at `index` is the first record of the package called `name`.
pub open spec fn is_first_record_of(records: Seq<TomlItem>, name: Seq<char>, index: int) -> bool {
    &&& 0 <= index < records.len()
    &&& is_record_of(records[index], name)
    &&& forall|i: int| 0 <= i < index ==> !is_record_of(#[trigger] records[i], name)
}

/// The lockfile has a record of the package called `name`.
pub open spec fn has_record_of(root: TomlItem, name: Seq<char>) -> bool {
    lock_records(root) matches Some(records) && exists|index: int|
        is_first_record_of(records, name, index)
}

/// The lockfile after the record at `index` has got the version `version`.
pub open spec fn with_record_version(root: TomlItem, index: int, version: Seq<char>) -> TomlItem {
    let records = lock_records(root)->0;
    let fields = records[index]->Table_0;
    TomlItem::Table(
        root->Table_0.insert(
            "package"@,
            TomlItem::Tables(
                records.update(
                    index,
                    TomlItem::Table(
                        fields.insert("version"@, TomlItem::Value(TomlValue::Text(version))),
                    ),
                ),
            ),
        ),
    )
}

/// The lockfile after the first record of the package called `name` has got
/// the version `version`. No other record changes.
pub open spec fn with_locked_version(root: TomlItem, name: Seq<char>, version: Seq<char>) -> TomlItem {
    with_record_version(
        root,
        choose|index: int| is_first_record_of(lock_records(root)->0, name, index),
        version,
    )
}

/// The reason given for a lockfile without an array of tables `package`.
pub const NO_RECORDS: &'static str = "Cargo lockfile does not contain 'packages' array of tables";

/// The reason given for a lockfile without a record of the package.
pub const NO_RECORD: &'static str = "Unable to locate self-referential metadata in lockfile";

/// The error says that the lockfile could not be updated for the package
/// called `name`, for the reason `reason`.
pub open spec fn is_lockfile_error(error: Error, reason: Seq<char>, name: Seq<char>) -> bool {
    error matches Error::CargoLockfileUpdate { reason: r, package_name: p } && r@ == reason && p@
        == name
}

/// The index of the first record of the package called `name`.
fn find_record(records: &toml_edit::ArrayOfTables, name: &str) -> (found: Option<usize>)
    ensures
        match found {
            Some(index) => is_first_record_of(array_items(*records), name@, index as int),
            None => forall|i: int|
                0 <= i < array_items(*records).len() ==> !is_record_of(
                    #[trigger] array_items(*records)[i],
                    name@,
                ),
        },
{
    let n = array_len(records);
    let mut i: usize = 0;
    while i < n
        invariant
            i <= n,
            n == array_items(*records).len(),
            forall|j: int|
                0 <= j < i ==> !is_record_of(#[trigger] array_items(*records)[j], name@),
        decreases n - i,
    {
        let matches = match array_get(records, i) {
            Some(record) => match table_get(record, "name") {
                Some(item) => match item_as_str(item) {
                    Some(text) => str_eq(text, name),
                    None => false,
                },
                None => false,
            },
            None => false,
        };
        if matches {
            return Some(i);
        }
        i += 1;
    }
    None
}

/// Brings the lockfile's own record of the workspace member called
/// `package_name` up to the version `next_release_version`.
///
/// Only the first record with that name is touched. The records that other
/// packages keep of their dependency on the member are left as they are.
/// Fails, and leaves the lockfile as it is, if it has no array of tables
/// `package` or no record of the member.
pub fn set_lockfile_self_describing_metadata(
    doc: &mut toml_edit::DocumentMut,
    next_release_version: &str,
    package_name: &str,
) -> (done: Result<(), Error>)
    ensures
        document_root(*final(doc)) is Table <==> document_root(*old(doc)) is Table,
        match done {
            Ok(()) => {
                &&& has_record_of(document_root(*old(doc)), package_name@)
                &&& document_root(*final(doc)) == with_locked_version(
                    document_root(*old(doc)),
                    package_name@,
                    next_release_version@,
                )
            },
            Err(error) => {
                &&& document_root(*final(doc)) == document_root(*old(doc))
                &&& !has_record_of(document_root(*old(doc)), package_name@)
                &&& is_lockfile_error(
                    error,
                    if lock_records(document_root(*old(doc))) is Some {
                        NO_RECORD@
                    } else {
                        NO_RECORDS@
                    },
                    package_name@,
                )
            },
        },
{
    let ghost root = document_root(*doc);
    let found = match item_as_table_mut(document_item_mut(doc)) {
        Some(top) => {
            let ghost before = table_items(*top);
            match table_get_mut(top, "package") {
                Some(item) => {
                    let ghost entry = item_model(*item);
                    match item_as_array_of_tables_mut(item) {
                        Some(records) => {
                            let ghost elements = array_items(*records);
                            let found = find_record(records, package_name);
                            match found {
                                Some(index) => {
                                    match array_get_mut(records, index) {
                                        Some(record) => {
                                            table_add_or_update_value(
                                                record,
                                                "version",
                                                text_value(next_release_version),
                                            );
                                        },
                                        None => {},
                                    }
                                    proof {
                                        let picked = choose|i: int|
                                            is_first_record_of(elements, package_name@, i);
                                        assert(is_first_record_of(
                                            elements,
                                            package_name@,
                                            index as int,
                                        ));
                                        if picked < index {
                                            assert(!is_record_of(elements[picked], package_name@));
                                        } else if index < picked {
                                            assert(!is_record_of(
                                                elements[index as int],
                                                package_name@,
                                            ));
                                        }
                                    }
                                    Some(true)
                                },
                                None => {
                                    assert(before.insert("package"@, entry) =~= before);
                                    Some(false)
                                },
                            }
                        },
                        None => {
                            assert(before.insert("package"@, entry) =~= before);
                            None
                        },
                    }
                },
                None => None,
            }
        },
        None => None,
    };
    match found {
        Some(true) => Ok(()),
        Some(false) => Err(
            Error::CargoLockfileUpdate {
                reason: NO_RECORD.to_owned(),
                package_name: package_name.to_owned(),
            },
        ),
        None => Err(
            Error::CargoLockfileUpdate {
                reason: NO_RECORDS.to_owned(),
                package_name: package_name.to_owned(),
            },
        ),
    }
}

/// Updating the record of a package twice with the same version leaves the
/// lockfile as the first update left it.
pub proof fn lemma_locked_version_idempotent(root: TomlItem, name: Seq<char>, version: Seq<char>)
    requires
        has_record_of(root, name),
    ensures
        has_record_of(with_locked_version(root, name, version), name),
        with_locked_version(with_locked_version(root, name, version), name, version)
            == with_locked_version(root, name, version),
{
    reveal_strlit("name");
    reveal_strlit("version");
    assert("name"@.len() == 4);
    assert("version"@.len() == 7);
    let records = lock_records(root)->0;
    let index = choose|index: int| is_first_record_of(records, name, index);
    let fields = records[index]->Table_0;
    let text = TomlItem::Value(TomlValue::Text(version));
    let changed = records.update(index, TomlItem::Table(fields.insert("version"@, text)));
    let once = with_locked_version(root, name, version);
    assert(lock_records(once) == Some(changed));
    assert(is_first_record_of(changed, name, index)) by {
        assert forall|i: int| 0 <= i < index implies !is_record_of(#[trigger] changed[i], name) by {
            assert(changed[i] == records[i]);
        }
    }
    let again = choose|i: int| is_first_record_of(changed, name, i);
    assert(again == index) by {
        if again < index {
            assert(!is_record_of(changed[again], name));
        } else if index < again {
            assert(!is_record_of(changed[index], name));
        }
    }
    assert(fields.insert("version"@, text).insert("version"@, text) =~= fields.insert(
        "version"@,
        text,
    ));
    assert(changed.update(index, changed[index]) =~= changed);
    assert(once->Table_0.insert("package"@, TomlItem::Tables(changed)) =~= once->Table_0);
}

} // verus!
