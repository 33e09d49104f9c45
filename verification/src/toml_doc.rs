//! Editing `ditto.toml` in place with the `toml_edit` crate, which keeps the
//! file's formatting and comments.

use toml_edit::{Array, DocumentMut, InlineTable, Item, TomlError, Value};
use vstd::prelude::*;

verus! {

#[verifier::external_type_specification]
#[verifier::external_body]
pub struct ExDocumentMut(DocumentMut);

#[verifier::external_type_specification]
#[verifier::external_body]
pub struct ExTomlError(TomlError);

#[verifier::external_type_specification]
#[verifier::external_body]
pub struct ExItem(Item);

#[verifier::external_type_specification]
#[verifier::external_body]
pub struct ExArray(Array);

#[verifier::external_type_specification]
#[verifier::external_body]
pub struct ExInlineTable(InlineTable);

/// What the contents of a document record of an element of an array: a
/// string, the string-valued entries of an inline table, or that it is
/// another value.
pub enum Element {
    Text(Seq<char>),
    Table(Map<Seq<char>, Seq<char>>),
    Other,
}

/// What the contents of a document record of an item: a table (or inline
/// table), a string, an array with its elements, or another value (a
/// number, a boolean, a date, an array of tables).
pub enum Entry {
    Table,
    Text(Seq<char>),
    Array(Seq<Element>),
    Other,
}

/// The contents of a document: every path of keys, from the root table down
/// through tables and inline tables, at which an item other than an empty one
/// is stored, with what it is. Arrays are not looked into for further paths.
pub type Contents = Map<Seq<Seq<char>>, Entry>;

/// The contents of a document (see `Contents`).
pub uninterp spec fn doc_contents(doc: DocumentMut) -> Contents;

/// The contents of an item, as for a document: the item itself at the empty
/// path (nothing for an empty item), and, for a table or inline table, the
/// contents of each of its items below its key.
pub uninterp spec fn item_contents(item: Item) -> Contents;

/// The elements of an array (see `Element`).
pub uninterp spec fn array_elements(array: Array) -> Seq<Element>;

/// The string-valued entries of an inline table.
pub uninterp spec fn table_entries(table: InlineTable) -> Map<Seq<char>, Seq<char>>;

/// The contents of the document `toml_edit` parses from `content`; `None`
/// when it does not parse.
pub uninterp spec fn toml_contents(content: Seq<char>) -> Option<Contents>;

/// The text a document displays.
pub uninterp spec fn doc_text(doc: DocumentMut) -> Seq<char>;

/// Whether `toml_edit` accepts `content` as a TOML document.
pub open spec fn toml_parses(content: Seq<char>) -> bool {
    toml_contents(content) is Some
}

/// The contents below `key`: at the paths that, with `key` put in front, are there.
pub open spec fn under(contents: Contents, key: Seq<char>) -> Contents {
    Map::new(
        |p: Seq<Seq<char>>| contents.contains_key(seq![key] + p),
        |p: Seq<Seq<char>>| contents[seq![key] + p],
    )
}

/// `contents` with those below `key` replaced by `below`.
pub open spec fn graft(contents: Contents, key: Seq<char>, below: Contents) -> Contents {
    Map::new(
        |p: Seq<Seq<char>>|
            if p.len() > 0 && p[0] == key {
                below.contains_key(p.drop_first())
            } else {
                contents.contains_key(p)
            },
        |p: Seq<Seq<char>>|
            if p.len() > 0 && p[0] == key {
                below[p.drop_first()]
            } else {
                contents[p]
            },
    )
}

/// The contents of an item once an empty item is made a table.
pub open spec fn as_table(contents: Contents) -> Contents {
    if contents.dom() == Set::<Seq<Seq<char>>>::empty() {
        map![Seq::<Seq<char>>::empty() => Entry::Table]
    } else {
        contents
    }
}

/// The item is empty, a table or an inline table: one that keys can be looked up in.
pub open spec fn is_table_like(contents: Contents) -> bool {
    contents.dom() == Set::<Seq<Seq<char>>>::empty() || (contents.contains_key(
        Seq::<Seq<char>>::empty(),
    ) && contents[Seq::<Seq<char>>::empty()] is Table)
}

/// Parses a document with `<DocumentMut as FromStr>::from_str`. What comes
/// out depends on the text alone: whether it parses, and the contents of the
/// document, are named by `toml_contents`.
#[verifier::external_body]
pub(crate) fn parse_document(content: &str) -> (r: Result<DocumentMut, TomlError>)
    ensures
        r is Ok <==> toml_contents(content@) is Some,
        r matches Ok(d) ==> toml_contents(content@) == Some(doc_contents(d)),
{
    content.parse::<DocumentMut>()
}

/// The text of a parse error, by its `Display`. Nothing is stated of it.
#[verifier::external_body]
pub(crate) fn toml_error_message(e: &TomlError) -> (r: String) {
    e.to_string()
}

/// The item under `key` in the document's root table, by `Table::get_mut`
/// (through `DocumentMut`'s `DerefMut`), which inserts nothing: found
/// exactly when the key holds an item that is not empty. The item has the
/// document's contents below `key`, and stays at `key`, so the document ends
/// with the item's final contents below `key` and all else as it was.
/// Without an item the document is left as it is and has nothing below `key`.
#[verifier::external_body]
pub(crate) fn root_get_mut<'a>(doc: &'a mut DocumentMut, key: &str) -> (r: Option<&'a mut Item>)
    ensures
        r is Some <==> doc_contents(*old(doc)).contains_key(seq![key@]),
        r matches Some(i) ==> item_contents(*i) == under(doc_contents(*old(doc)), key@),
        r matches Some(i) ==> doc_contents(*final(doc)) == graft(
            doc_contents(*old(doc)),
            key@,
            item_contents(*final(i)),
        ),
        r is None ==> *final(doc) == *old(doc) && under(doc_contents(*old(doc)), key@).dom()
            == Set::<Seq<Seq<char>>>::empty(),
{
    doc.get_mut(key)
}

/// The item under `key` in a table or inline table, by `Item::get_mut`:
/// found exactly when the item is empty, a table or an inline table. An
/// empty item is first made an inline table, and an absent key is inserted
/// with an empty item. The item found has `item`'s contents below `key`, and
/// stays at `key`, so `item` ends with its final contents below `key` and
/// all else as it was (made a table, if it was empty). Without an item,
/// `item` is left as it is and has nothing below `key`.
#[verifier::external_body]
pub(crate) fn item_get_mut<'a>(item: &'a mut Item, key: &str) -> (r: Option<&'a mut Item>)
    ensures
        r is Some <==> is_table_like(item_contents(*old(item))),
        r matches Some(c) ==> item_contents(*c) == under(item_contents(*old(item)), key@),
        r matches Some(c) ==> item_contents(*final(item)) == graft(
            as_table(item_contents(*old(item))),
            key@,
            item_contents(*final(c)),
        ),
        r is None ==> *final(item) == *old(item) && under(item_contents(*old(item)), key@).dom()
            == Set::<Seq<Seq<char>>>::empty(),
{
    item.get_mut(key)
}

/// The item as an array, by `Item::as_array_mut`: found exactly when the
/// item is an array value, whose contents are then the array alone;
/// otherwise the item is left as it is.
#[verifier::external_body]
pub(crate) fn item_as_array_mut<'a>(item: &'a mut Item) -> (r: Option<&'a mut Array>)
    ensures
        r is Some <==> item_contents(*old(item)).contains_key(Seq::<Seq<char>>::empty()) && item_contents(
            *old(item),
        )[Seq::<Seq<char>>::empty()] is Array,
        r matches Some(a) ==> item_contents(*old(item)) == map![Seq::<Seq<char>>::empty() => Entry::Array(array_elements(*a))],
        r matches Some(a) ==> item_contents(*final(item)) == map![Seq::<Seq<char>>::empty() => Entry::Array(array_elements(*final(a)))],
        r is None ==> *final(item) == *old(item),
{
    item.as_array_mut()
}

/// An empty inline table, by `InlineTable::new`.
#[verifier::external_body]
pub(crate) fn inline_table_new() -> (r: InlineTable)
    ensures
        table_entries(r).dom() == Set::<Seq<char>>::empty(),
{
    InlineTable::new()
}

/// Sets `key` to the string `value` in an inline table, by
/// `InlineTable::insert`, which replaces an entry of that key.
#[verifier::external_body]
pub(crate) fn inline_table_insert(table: &mut InlineTable, key: &str, value: &str)
    ensures
        table_entries(*final(table)) == table_entries(*old(table)).insert(key@, value@),
{
    table.insert(key, Value::from(value));
}

/// Appends an inline table to the end of an array, by `Array::push`.
#[verifier::external_body]
pub(crate) fn array_push_table(array: &mut Array, table: InlineTable)
    ensures
        array_elements(*final(array)) == array_elements(*old(array)).push(
            Element::Table(table_entries(table)),
        ),
{
    array.push(table);
}

/// The document's text, by its `Display` (named `doc_text`).
#[verifier::external_body]
pub(crate) fn document_text(doc: &DocumentMut) -> (r: String)
    ensures
        r@ == doc_text(*doc),
{
    doc.to_string()
}

} // verus!
