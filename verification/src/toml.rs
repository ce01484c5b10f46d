//! TOML documents that can be edited in place, as `toml_edit` provides them,
//! and what this library states of them.
//!
//! A document is a tree: tables hold items under keys, an item is a value, a
//! table or an array of tables, and a value may be an inline table of further
//! values. The functions of this module are thin wrappers round `toml_edit`.
//! Their contracts are not proved: they restate what `toml_edit` does in
//! terms of [`TomlItem`] and [`TomlValue`].

use vstd::prelude::*;

verus! {

#[verifier::external_type_specification]
#[verifier::external_body]
pub struct ExDocumentMut(toml_edit::DocumentMut);

#[verifier::external_type_specification]
#[verifier::external_body]
pub struct ExItem(toml_edit::Item);

#[verifier::external_type_specification]
#[verifier::external_body]
pub struct ExTable(toml_edit::Table);

#[verifier::external_type_specification]
#[verifier::external_body]
pub struct ExInlineTable(toml_edit::InlineTable);

#[verifier::external_type_specification]
#[verifier::external_body]
pub struct ExValue(toml_edit::Value);

#[verifier::external_type_specification]
#[verifier::external_body]
pub struct ExArrayOfTables(toml_edit::ArrayOfTables);

/// What a TOML value holds, as far as this library looks.
pub enum TomlValue {
    /// A string.
    Text(Seq<char>),
    /// An inline table with its values by key.
    Inline(Map<Seq<char>, TomlValue>),
    /// A value of any other type.
    Other,
}

/// What a TOML item holds, as far as this library looks.
pub enum TomlItem {
    /// No item. A table does not show the keys under which it holds none.
    Absent,
    /// A value.
    Value(TomlValue),
    /// A table with its items by key.
    Table(Map<Seq<char>, TomlItem>),
    /// An array of tables with its elements in order.
    Tables(Seq<TomlItem>),
}

/// The items of a table after the item under `key` has become `item`.
pub open spec fn with_item(
    items: Map<Seq<char>, TomlItem>,
    key: Seq<char>,
    item: TomlItem,
) -> Map<Seq<char>, TomlItem> {
    if item is Absent {
        items.remove(key)
    } else {
        items.insert(key, item)
    }
}

/// The element of `items` at `index` is there and is a table.
pub open spec fn has_table_at(items: Seq<TomlItem>, index: int) -> bool {
    0 <= index < items.len() && items[index] is Table
}

/// The root item of a document.
pub uninterp spec fn document_root(document: toml_edit::DocumentMut) -> TomlItem;

/// What an item holds.
pub uninterp spec fn item_model(item: toml_edit::Item) -> TomlItem;

/// The items that a table shows, by key.
pub uninterp spec fn table_items(table: toml_edit::Table) -> Map<Seq<char>, TomlItem>;

/// The values of an inline table, by key.
pub uninterp spec fn inline_items(table: toml_edit::InlineTable) -> Map<Seq<char>, TomlValue>;

/// What a value holds.
pub uninterp spec fn value_model(value: toml_edit::Value) -> TomlValue;

/// The elements of an array of tables, in order.
pub uninterp spec fn array_items(array: toml_edit::ArrayOfTables) -> Seq<TomlItem>;

/// The root item of the document that `text` is parsed to, or what the
/// parser says of `text` if it is not a TOML document.
pub uninterp spec fn parsed_toml(text: Seq<char>) -> Result<TomlItem, Seq<char>>;

/// The text that a document is written as.
pub uninterp spec fn rendered_toml(document: toml_edit::DocumentMut) -> Seq<char>;

/// Calls `DocumentMut::from_str`, and `TomlError::to_string` on the error.
/// The contract claims that whether `text` parses, to which items, and with
/// which complaint if it does not, depends on `text` alone, and that the
/// root of a document that the parser made is a table.
#[verifier::external_body]
pub(crate) fn parse_document(text: &str) -> (parsed: Result<toml_edit::DocumentMut, String>)
    ensures
        parsed is Ok <==> parsed_toml(text@) is Ok,
        parsed matches Ok(document) ==> parsed_toml(text@)->Ok_0 == document_root(document),
        parsed matches Ok(document) ==> document_root(document) is Table,
        parsed matches Err(complaint) ==> parsed_toml(text@)->Err_0 == complaint@,
{
    text.parse::<toml_edit::DocumentMut>().map_err(|error| error.to_string())
}

/// Calls `DocumentMut::to_string`, which walks the tables of the document
/// from its root and stops the program if the root is no table. The
/// contract asks for a table as root and gives the result a name.
#[verifier::external_body]
pub(crate) fn render_document(document: &toml_edit::DocumentMut) -> (text: String)
    requires
        document_root(*document) is Table,
    ensures
        text@ == rendered_toml(*document),
{
    document.to_string()
}

/// Calls `DocumentMut::as_item`, which hands out the root item.
#[verifier::external_body]
pub(crate) fn document_item(document: &toml_edit::DocumentMut) -> (item: &toml_edit::Item)
    ensures
        item_model(*item) == document_root(*document),
{
    document.as_item()
}

/// Calls `DocumentMut::as_item_mut`, which hands out the root item for
/// editing: what the root item becomes is the root of the document.
#[verifier::external_body]
pub(crate) fn document_item_mut(document: &mut toml_edit::DocumentMut) -> (item: &mut toml_edit::Item)
    ensures
        item_model(*item) == document_root(*old(document)),
        document_root(*final(document)) == item_model(*final(item)),
{
    document.as_item_mut()
}

/// Calls `Item::is_none`, which says whether the item is no item at all.
#[verifier::external_body]
pub(crate) fn is_absent(item: &toml_edit::Item) -> (absent: bool)
    ensures
        absent == (item_model(*item) is Absent),
{
    item.is_none()
}

/// Calls `Item::as_table`, which hands out the table if the item is one.
#[verifier::external_body]
pub(crate) fn item_as_table(item: &toml_edit::Item) -> (table: Option<&toml_edit::Table>)
    ensures
        table is Some <==> item_model(*item) is Table,
        table matches Some(t) ==> item_model(*item) == TomlItem::Table(table_items(*t)),
{
    item.as_table()
}

/// Calls `Item::as_table_mut`, which hands out the table for editing if the
/// item is one. The item stays a table, with what the table becomes.
#[verifier::external_body]
pub(crate) fn item_as_table_mut(item: &mut toml_edit::Item) -> (table: Option<&mut toml_edit::Table>)
    ensures
        table is Some <==> item_model(*old(item)) is Table,
        table matches Some(t) ==> item_model(*old(item)) == TomlItem::Table(table_items(*t))
            && item_model(*final(item)) == TomlItem::Table(table_items(*final(t))),
        table is None ==> item_model(*final(item)) == item_model(*old(item)),
{
    item.as_table_mut()
}

/// Calls `Item::as_inline_table`, which hands out the inline table if the
/// item is a value that is one.
#[verifier::external_body]
pub(crate) fn item_as_inline_table(item: &toml_edit::Item) -> (table: Option<&toml_edit::InlineTable>)
    ensures
        table is Some <==> item_model(*item) matches TomlItem::Value(TomlValue::Inline(_)),
        table matches Some(t) ==> item_model(*item) == TomlItem::Value(
            TomlValue::Inline(inline_items(*t)),
        ),
{
    item.as_inline_table()
}

/// Calls `Item::as_inline_table_mut`, which hands out the inline table for
/// editing if the item is a value that is one. The item stays an inline
/// table, with what the table becomes.
#[verifier::external_body]
pub(crate) fn item_as_inline_table_mut(item: &mut toml_edit::Item) -> (table: Option<
    &mut toml_edit::InlineTable,
>)
    ensures
        table is Some <==> item_model(*old(item)) matches TomlItem::Value(TomlValue::Inline(_)),
        table matches Some(t) ==> item_model(*old(item)) == TomlItem::Value(
            TomlValue::Inline(inline_items(*t)),
        ) && item_model(*final(item)) == TomlItem::Value(
            TomlValue::Inline(inline_items(*final(t))),
        ),
        table is None ==> item_model(*final(item)) == item_model(*old(item)),
{
    item.as_inline_table_mut()
}

/// Calls `Item::as_array_of_tables_mut`, which hands out the array for
/// editing if the item is an array of tables. The item stays one, with what
/// the array becomes.
#[verifier::external_body]
pub(crate) fn item_as_array_of_tables_mut(item: &mut toml_edit::Item) -> (array: Option<
    &mut toml_edit::ArrayOfTables,
>)
    ensures
        array is Some <==> item_model(*old(item)) is Tables,
        array matches Some(a) ==> item_model(*old(item)) == TomlItem::Tables(array_items(*a))
            && item_model(*final(item)) == TomlItem::Tables(array_items(*final(a))),
        array is None ==> item_model(*final(item)) == item_model(*old(item)),
{
    item.as_array_of_tables_mut()
}

/// Calls `Item::as_str`, which hands out the string if the item is a value
/// that is one.
#[verifier::external_body]
pub(crate) fn item_as_str(item: &toml_edit::Item) -> (text: Option<&str>)
    ensures
        text is Some <==> item_model(*item) matches TomlItem::Value(TomlValue::Text(_)),
        text matches Some(t) ==> item_model(*item) == TomlItem::Value(TomlValue::Text(t@)),
{
    item.as_str()
}

/// Calls `Table::get`, which hands out the item that the table shows under
/// `key`, if any. A table shows no absent item.
#[verifier::external_body]
pub(crate) fn table_get<'a>(table: &'a toml_edit::Table, key: &str) -> (item: Option<
    &'a toml_edit::Item,
>)
    ensures
        item is Some <==> table_items(*table).contains_key(key@),
        item matches Some(i) ==> item_model(*i) == table_items(*table)[key@] && !(item_model(
            *i,
        ) is Absent),
{
    table.get(key)
}

/// Calls `Table::get_mut`, which hands out the item that the table shows
/// under `key`, if any, for editing. A table shows no absent item. No other
/// item changes.
#[verifier::external_body]
pub(crate) fn table_get_mut<'a>(table: &'a mut toml_edit::Table, key: &str) -> (item: Option<
    &'a mut toml_edit::Item,
>)
    ensures
        item is Some <==> table_items(*old(table)).contains_key(key@),
        item matches Some(i) ==> item_model(*i) == table_items(*old(table))[key@] && !(item_model(
            *i,
        ) is Absent) && table_items(*final(table)) == with_item(
            table_items(*old(table)),
            key@,
            item_model(*final(i)),
        ),
        item is None ==> table_items(*final(table)) == table_items(*old(table)),
{
    table.get_mut(key)
}

/// Calls `Table::iter` and collects the keys, which are those under which
/// the table shows an item, each once.
#[verifier::external_body]
pub(crate) fn table_keys(table: &toml_edit::Table) -> (keys: Vec<String>)
    ensures
        forall|key: Seq<char>|
            table_items(*table).contains_key(key) <==> exists|i: int|
                0 <= i < keys.len() && (#[trigger] keys[i])@ == key,
        forall|i: int, j: int|
            0 <= i < j < keys.len() ==> (#[trigger] keys[i])@ != (#[trigger] keys[j])@,
{
    table.iter().map(|(key, _)| key.to_owned()).collect()
}

/// Calls `Table::entry` and, on the entry that it finds or makes,
/// `OccupiedEntry::insert` or `VacantEntry::insert`: the table then holds
/// `item` under `key`, and its other items are as before.
#[verifier::external_body]
pub(crate) fn table_put(table: &mut toml_edit::Table, key: &str, item: toml_edit::Item)
    ensures
        table_items(*final(table)) == with_item(table_items(*old(table)), key@, item_model(item)),
{
    match table.entry(key) {
        toml_edit::Entry::Occupied(mut entry) => {
            entry.insert(item);
        },
        toml_edit::Entry::Vacant(entry) => {
            entry.insert(item);
        },
    }
}

/// Calls `InlineTable::contains_key`, which says whether the inline table
/// holds a value under `key`.
#[verifier::external_body]
pub(crate) fn inline_table_contains_key(table: &toml_edit::InlineTable, key: &str) -> (found: bool)
    ensures
        found == inline_items(*table).contains_key(key@),
{
    table.contains_key(key)
}

/// Calls `InlineTable::get_mut`, which hands out the value under `key`, if
/// any, for editing. No other value changes.
#[verifier::external_body]
pub(crate) fn inline_table_get_mut<'a>(table: &'a mut toml_edit::InlineTable, key: &str) -> (value:
    Option<&'a mut toml_edit::Value>)
    ensures
        value is Some <==> inline_items(*old(table)).contains_key(key@),
        value matches Some(v) ==> value_model(*v) == inline_items(*old(table))[key@]
            && inline_items(*final(table)) == inline_items(*old(table)).insert(
            key@,
            value_model(*final(v)),
        ),
        value is None ==> inline_items(*final(table)) == inline_items(*old(table)),
{
    table.get_mut(key)
}

/// Calls `InlineTable::insert`: the inline table then holds `value` under
/// `key`, and its other values are as before.
#[verifier::external_body]
pub(crate) fn inline_table_insert(table: &mut toml_edit::InlineTable, key: &str, value: toml_edit::Value)
    ensures
        inline_items(*final(table)) == inline_items(*old(table)).insert(key@, value_model(value)),
{
    table.insert(key, value);
}

/// Calls `ArrayOfTables::len`, the number of elements.
#[verifier::external_body]
pub(crate) fn array_len(array: &toml_edit::ArrayOfTables) -> (len: usize)
    ensures
        len == array_items(*array).len(),
{
    array.len()
}

/// Calls `ArrayOfTables::get`, which hands out the element at `index` if
/// there is one and it is a table.
#[verifier::external_body]
pub(crate) fn array_get(array: &toml_edit::ArrayOfTables, index: usize) -> (table: Option<
    &toml_edit::Table,
>)
    ensures
        table is Some <==> has_table_at(array_items(*array), index as int),
        table matches Some(t) ==> array_items(*array)[index as int] == TomlItem::Table(
            table_items(*t),
        ),
{
    array.get(index)
}

/// Calls `ArrayOfTables::get_mut`, which hands out the element at `index`
/// for editing if there is one and it is a table. No other element changes.
#[verifier::external_body]
pub(crate) fn array_get_mut(array: &mut toml_edit::ArrayOfTables, index: usize) -> (table: Option<
    &mut toml_edit::Table,
>)
    ensures
        table is Some <==> has_table_at(array_items(*old(array)), index as int),
        table matches Some(t) ==> array_items(*old(array))[index as int] == TomlItem::Table(
            table_items(*t),
        ) && array_items(*final(array)) == array_items(*old(array)).update(
            index as int,
            TomlItem::Table(table_items(*final(t))),
        ),
        table is None ==> array_items(*final(array)) == array_items(*old(array)),
{
    array.get_mut(index)
}

/// Calls `Value::from` on a string slice, which makes the string value of
/// those characters.
#[verifier::external_body]
pub(crate) fn text_value(text: &str) -> (value: toml_edit::Value)
    ensures
        value_model(value) == TomlValue::Text(text@),
{
    toml_edit::Value::from(text)
}

/// Makes an `Item::Value` of `value`.
#[verifier::external_body]
pub(crate) fn value_item(value: toml_edit::Value) -> (item: toml_edit::Item)
    ensures
        item_model(item) == TomlItem::Value(value_model(value)),
{
    toml_edit::Item::Value(value)
}

} // verus!
