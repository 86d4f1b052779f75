//! TOML documents: Cargo manifests and lockfiles.
//!
//! A document is read as a map from paths of keys to what stands there. It is
//! written back with its formatting; only texts are ever replaced.

use toml_edit::{DocumentMut, Item, Value};
use vstd::prelude::*;

use crate::text::{option_view, same, views};

verus! {

/// What stands at a path of a document.
#[derive(Debug, Clone, PartialEq, Eq)]
pub enum Node {
    Text(String),
    InlineTable,
    /// A table and its keys, in order.
    Table(Vec<String>),
    /// An array; what is no text in it is left open.
    Array(Vec<Option<String>>),
    /// An array of tables, and how many they are.
    Tables(usize),
    Other,
}

/// A table of an array of tables: what stands under its keys, where that is a text.
pub type TableView = Map<Seq<char>, Option<Seq<char>>>;

/// What a document holds at a path.
pub enum NodeView {
    Text(Seq<char>),
    InlineTable,
    Table(Seq<Seq<char>>),
    Array(Seq<Option<Seq<char>>>),
    Tables(Seq<TableView>),
    Other,
}

/// The node is what stands there.
pub open spec fn shows(node: Node, view: NodeView) -> bool {
    match node {
        Node::Text(text) => view == NodeView::Text(text@),
        Node::InlineTable => view == NodeView::InlineTable,
        Node::Table(keys) => view == NodeView::Table(views(keys@)),
        Node::Array(items) => view == NodeView::Array(
            items@.map_values(|item: Option<String>| option_view(item)),
        ),
        Node::Tables(count) => view matches NodeView::Tables(tables) && tables.len() == count,
        Node::Other => view == NodeView::Other,
    }
}

/// A path of keys.
pub type KeyPath = Seq<Seq<char>>;

/// What a document holds, by the path of its keys.
pub type Nodes = Map<Seq<Seq<char>>, NodeView>;

/// `toml_edit::DocumentMut`, a TOML document that keeps its formatting.
#[verifier::external_type_specification]
#[verifier::external_body]
pub struct ExDocumentMut(toml_edit::DocumentMut);

/// What a document holds: every item that is reached from the root through tables
/// and inline tables, by the path of its keys. Of the tables of an array of tables it
/// tells the texts.
pub uninterp spec fn toml_nodes(document: toml_edit::DocumentMut) -> Map<
    Seq<Seq<char>>,
    NodeView,
>;

/// How a text in a document is replaced.
pub enum EditPlace {
    /// The value at a path of keys is replaced.
    Value,
    /// The entry of an inline table is written anew, its key and its value.
    Entry,
    /// In the array of tables at a path of keys, the value under a key of the table with
    /// the number is replaced.
    Table(int, Seq<char>),
}

/// A text in a document that is replaced.
pub struct TextEdit {
    pub path: Seq<Seq<char>>,
    pub place: EditPlace,
    pub text: Seq<char>,
}

/// How a document came about: the text that it was read from, and the texts in it that
/// were replaced since, in order.
pub struct TomlHistory {
    pub source: Seq<char>,
    pub edits: Seq<TextEdit>,
}

/// How a document came about, where it was read from a text and since then only texts in
/// it were replaced.
pub uninterp spec fn toml_history(document: toml_edit::DocumentMut) -> Option<TomlHistory>;

/// The document of a text with some of its texts replaced, written as text.
pub uninterp spec fn toml_display(source: Seq<char>, edits: Seq<TextEdit>) -> Seq<char>;

/// What the document of a text holds, where the text is TOML.
pub uninterp spec fn parsed_toml(text: Seq<char>) -> Option<Map<Seq<Seq<char>>, NodeView>>;

/// What is said of a text that is not TOML.
pub uninterp spec fn toml_error(text: Seq<char>) -> Seq<char>;

/// `toml_edit::DocumentMut::from_str`: the document of a text, or why it is none.
#[verifier::external_body]
pub(crate) fn parse_toml(text: &str) -> (result: Result<DocumentMut, String>)
    ensures
        match result {
            Ok(document) => parsed_toml(text@) == Some(toml_nodes(document)) && toml_history(
                document,
            ) == Some(read_from(text@)),
            Err(message) => parsed_toml(text@) is None && message@ == toml_error(text@),
        },
{
    text.parse::<DocumentMut>().map_err(|error| error.to_string())
}

/// `toml_edit::TableLike::get` along a path of keys, and the kind of item that is found
/// there.
#[verifier::external_body]
pub(crate) fn node_at(document: &DocumentMut, path: &Vec<String>) -> (result: Option<Node>)
    ensures
        match result {
            Some(node) => toml_nodes(*document).contains_key(views(path@)) && shows(
                node,
                toml_nodes(*document)[views(path@)],
            ),
            None => !toml_nodes(*document).contains_key(views(path@)),
        },
{
    let root = document.as_item();
    Some(match path.iter().try_fold(root, |item, key| item.as_table_like()?.get(key))? {
        Item::Table(table) => Node::Table(table.iter().map(|(key, _)| key.to_owned()).collect()),
        Item::ArrayOfTables(tables) => Node::Tables(tables.len()),
        Item::Value(Value::Array(items)) => Node::Array(
            items.iter().map(|item| item.as_str().map(str::to_owned)).collect(),
        ),
        Item::Value(Value::InlineTable(_)) => Node::InlineTable,
        Item::Value(Value::String(text)) => Node::Text(text.value().clone()),
        _ => Node::Other,
    })
}

/// `toml_edit::ArrayOfTables::get` on the array of tables along a path of keys, and
/// `toml_edit::Table::get` on the table with the given number: what stands there under a
/// key, where that is a text.
#[verifier::external_body]
pub(crate) fn table_item_at(
    document: &DocumentMut,
    path: &Vec<String>,
    number: usize,
    key: &str,
) -> (result: Option<Option<String>>)
    requires
        toml_nodes(*document).contains_key(views(path@)),
        toml_nodes(*document)[views(path@)] matches NodeView::Tables(tables) && number
            < tables.len(),
    ensures
        match result {
            Some(text) => toml_nodes(*document)[views(path@)]->Tables_0[number as int].contains_pair(
                key@,
                option_view(text),
            ),
            None => !toml_nodes(*document)[views(path@)]->Tables_0[number as int].contains_key(
                key@,
            ),
        },
{
    let root = document.as_item();
    let item = path.iter().try_fold(root, |item, key| item.as_table_like()?.get(key))?;
    let found = item.as_array_of_tables()?.get(number)?.get(key)?;
    Some(found.as_str().map(str::to_owned))
}

/// `toml_edit::TableLike::get_mut` along a path of keys, and the assignment of
/// `toml_edit::value` to the text that stands there. Nothing else in the document
/// changes.
#[verifier::external_body]
pub(crate) fn set_text(document: &mut DocumentMut, path: &Vec<String>, text: &str)
    requires
        toml_nodes(*old(document)).contains_key(views(path@)),
        toml_nodes(*old(document))[views(path@)] is Text,
    ensures
        toml_nodes(*final(document)) == toml_nodes(*old(document)).insert(
            views(path@),
            NodeView::Text(text@),
        ),
        toml_history(*final(document)) == with_history(
            toml_history(*old(document)),
            seq![place_edit(value_place(views(path@)), text@)],
        ),
{
    let root = document.as_item_mut();
    let item = path.iter().try_fold(root, |item, key| item.as_table_like_mut()?.get_mut(key));
    *item.unwrap() = toml_edit::value(text);
}

/// `toml_edit::TableLike::get_mut` along a path of keys but the last, and
/// `toml_edit::InlineTable::insert` of the text under the last key, where a text stands
/// already. The key loses its formatting. Nothing else in the document changes.
#[verifier::external_body]
pub(crate) fn insert_text(document: &mut DocumentMut, path: &Vec<String>, text: &str)
    requires
        text_at(toml_nodes(*old(document)), views(path@)) is Some,
        is_in_inline_table(toml_nodes(*old(document)), views(path@)),
    ensures
        toml_nodes(*final(document)) == toml_nodes(*old(document)).insert(
            views(path@),
            NodeView::Text(text@),
        ),
        toml_history(*final(document)) == with_history(
            toml_history(*old(document)),
            seq![place_edit(Place { path: views(path@), entry: true }, text@)],
        ),
{
    let root = document.as_item_mut();
    let (last, front) = path.split_last().unwrap();
    let item = front.iter().try_fold(root, |item, key| item.as_table_like_mut()?.get_mut(key));
    item.unwrap().as_inline_table_mut().unwrap().insert(last, text.into());
}

/// `toml_edit::ArrayOfTables::get_mut` on the array of tables along a path of keys,
/// `toml_edit::Table::get_mut` on the table with the given number, and the assignment of
/// `toml_edit::value` to the text that stands there under a key. Nothing else in the
/// document changes.
#[verifier::external_body]
pub(crate) fn set_table_text(
    document: &mut DocumentMut,
    path: &Vec<String>,
    number: usize,
    key: &str,
    text: &str,
)
    requires
        toml_nodes(*old(document)).contains_key(views(path@)),
        toml_nodes(*old(document))[views(path@)] matches NodeView::Tables(tables) && number
            < tables.len() && table_text(tables[number as int], key@) is Some,
    ensures
        toml_nodes(*final(document)) == toml_nodes(*old(document)).insert(
            views(path@),
            NodeView::Tables(
                with_table_text(
                    toml_nodes(*old(document))[views(path@)]->Tables_0,
                    number as int,
                    key@,
                    text@,
                ),
            ),
        ),
        toml_history(*final(document)) == with_history(
            toml_history(*old(document)),
            seq![table_edit(views(path@), number as int, key@, text@)],
        ),
{
    let root = document.as_item_mut();
    let item = path.iter().try_fold(root, |item, key| item.as_table_like_mut()?.get_mut(key));
    let table = item.unwrap().as_array_of_tables_mut().unwrap().get_mut(number).unwrap();
    *table.get_mut(key).unwrap() = toml_edit::value(text);
}

/// The text under a key of a table, where there is one.
pub open spec fn table_text(table: TableView, key: Seq<char>) -> Option<Seq<char>> {
    if table.contains_key(key) {
        table[key]
    } else {
        None
    }
}

/// The tables with a text in one of them.
pub open spec fn with_table_text(
    tables: Seq<TableView>,
    number: int,
    key: Seq<char>,
    text: Seq<char>,
) -> Seq<TableView> {
    tables.update(number, tables[number].insert(key, Some(text)))
}

/// The history of a document that was just read.
pub open spec fn read_from(text: Seq<char>) -> TomlHistory {
    TomlHistory { source: text, edits: Seq::empty() }
}

/// The history with further edits.
pub open spec fn with_history(history: Option<TomlHistory>, edits: Seq<TextEdit>) -> Option<
    TomlHistory,
> {
    match history {
        Some(TomlHistory { source, edits: before }) => Some(
            TomlHistory { source, edits: before + edits },
        ),
        None => None,
    }
}

/// Where a text stands that is replaced, and whether its key is written anew with it.
pub struct Place {
    pub path: Seq<Seq<char>>,
    pub entry: bool,
}

/// The place of a text whose key stays as it is.
pub open spec fn value_place(path: KeyPath) -> Place {
    Place { path, entry: false }
}

/// The text at a place is replaced.
pub open spec fn place_edit(place: Place, text: Seq<char>) -> TextEdit {
    TextEdit {
        path: place.path,
        place: if place.entry {
            EditPlace::Entry
        } else {
            EditPlace::Value
        },
        text,
    }
}

/// The texts at the places are replaced by one.
pub open spec fn place_edits(places: Seq<Place>, text: Seq<char>) -> Seq<TextEdit> {
    places.map_values(|place: Place| place_edit(place, text))
}

/// The paths of the places.
pub open spec fn paths_of(places: Seq<Place>) -> Seq<KeyPath> {
    places.map_values(|place: Place| place.path)
}

/// The path is that of an entry of an inline table.
pub open spec fn is_in_inline_table(nodes: Nodes, path: KeyPath) -> bool {
    path.len() > 0 && nodes.contains_key(path.drop_last()) && nodes[path.drop_last()] is InlineTable
}

/// At the place stands a text, in an inline table where its key is written anew.
pub open spec fn holds_text(nodes: Nodes, place: Place) -> bool {
    text_at(nodes, place.path) is Some && (place.entry ==> is_in_inline_table(nodes, place.path))
}

/// The text under a key of a table is replaced.
pub open spec fn table_edit(
    path: KeyPath,
    number: int,
    key: Seq<char>,
    text: Seq<char>,
) -> TextEdit {
    TextEdit { path, place: EditPlace::Table(number, key), text }
}

/// Behind a key and `=`, the piece is a value that stands for the text. Blanks and a
/// comment may stand around it.
pub open spec fn is_value(piece: Seq<char>, text: Seq<char>) -> bool {
    parsed_toml("x ="@ + piece) == Some(
        map![
            Seq::<Seq<char>>::empty() => NodeView::Table(seq!["x"@]),
            seq!["x"@] => NodeView::Text(text),
        ],
    )
}

/// A piece with what stands around it.
pub open spec fn around(head: Seq<char>, piece: Seq<char>, tail: Seq<char>) -> Seq<char> {
    head + piece + tail
}

/// What a document holds whose only entry is a text at a path.
pub open spec fn entry_nodes(path: KeyPath, text: Seq<char>) -> Nodes {
    Map::new(
        |front: KeyPath| front.len() <= path.len() && front == path.take(front.len() as int),
        |front: KeyPath|
            if front.len() == path.len() {
                NodeView::Text(text)
            } else {
                NodeView::Table(seq![path[front.len() as int]])
            },
    )
}

/// The piece is an entry with the key and a value that stands for the text. Blanks and
/// comments may stand around it, and other keys with dots between them in front.
pub open spec fn is_entry(piece: Seq<char>, key: Seq<char>, text: Seq<char>) -> bool {
    exists|path: KeyPath|
        path.len() > 0 && path.last() == key && parsed_toml(piece) == Some(
            #[trigger] entry_nodes(path, text),
        )
}

/// The piece is what an edit replaces, where it stands for the text: an entry of an inline
/// table, or else a value.
pub open spec fn stands_for(piece: Seq<char>, edit: TextEdit, text: Seq<char>) -> bool {
    match edit.place {
        EditPlace::Entry => is_entry(piece, edit.path.last(), text),
        _ => is_value(piece, text),
    }
}

/// The two are the same up to the piece that the edit replaces.
pub open spec fn one_piece_differs(before: Seq<char>, after: Seq<char>, edit: TextEdit) -> bool {
    exists|head: Seq<char>, earlier: Seq<char>, piece: Seq<char>, tail: Seq<char>, was: Seq<char>|
        {
            &&& before == #[trigger] around(head, earlier, tail)
            &&& after == #[trigger] around(head, piece, tail)
            &&& #[trigger] stands_for(earlier, edit, was)
            &&& stands_for(piece, edit, edit.text)
        }
}

/// The content is the source with the edits made in it: written edit by edit, each time
/// the piece that is replaced differs and all else stays, comments and layout included.
pub open spec fn is_edited(
    content: Seq<char>,
    source: Seq<char>,
    edits: Seq<TextEdit>,
) -> bool {
    &&& content == toml_display(source, edits)
    &&& forall|i: int|
        0 <= i < edits.len() ==> one_piece_differs(
            #[trigger] toml_display(source, edits.take(i)),
            toml_display(source, edits.take(i + 1)),
            edits[i],
        )
}

/// From the source to the content, each edit replaces one piece, and all else stays.
pub open spec fn only_edits_differ(
    source: Seq<char>,
    content: Seq<char>,
    edits: Seq<TextEdit>,
) -> bool
    decreases edits.len(),
{
    if edits.len() == 0 {
        content == source
    } else {
        exists|before: Seq<char>| #[trigger]
            one_piece_differs(before, content, edits.last()) && only_edits_differ(
                source,
                before,
                edits.drop_last(),
            )
    }
}

/// The text is TOML, and its document is written as it was read.
pub open spec fn is_written_as_read(source: Seq<char>) -> bool {
    parsed_toml(source) is Some && toml_display(source, Seq::empty()) == source
}

/// The `Display` of `toml_edit::DocumentMut`: the document as text. Read again, the
/// text holds what the document holds. Against the text of the document before an edit,
/// the text after it differs in the value that was replaced, with the blanks and the
/// comment directly behind it, or in the entry that was written anew, and in nothing else.
/// How the text of a document that was read and not edited differs from its source is left
/// unsaid: `written_as_read` tells whether it does.
#[verifier::external_body]
pub(crate) fn render_toml(document: &DocumentMut) -> (result: String)
    requires
        toml_history(*document) is Some,
    ensures
        parsed_toml(result@) == Some(toml_nodes(*document)),
        result@ == toml_display(
            toml_history(*document)->0.source,
            toml_history(*document)->0.edits,
        ),
        is_edited(
            result@,
            toml_history(*document)->0.source,
            toml_history(*document)->0.edits,
        ),
{
    document.to_string()
}

// ---------------------------------------------------------------------------
// Paths
// ---------------------------------------------------------------------------
/// The text at a path, where there is one.
pub open spec fn text_at(nodes: Nodes, path: KeyPath) -> Option<Seq<char>> {
    if nodes.contains_key(path) {
        match nodes[path] {
            NodeView::Text(text) => Some(text),
            _ => None,
        }
    } else {
        None
    }
}

/// The keys of the table at a path, where there is one.
pub open spec fn keys_at(nodes: Nodes, path: KeyPath) -> Option<Seq<Seq<char>>> {
    if nodes.contains_key(path) {
        match nodes[path] {
            NodeView::Table(keys) => Some(keys),
            _ => None,
        }
    } else {
        None
    }
}

/// The texts of the array at a path.
pub open spec fn texts_at(nodes: Nodes, path: KeyPath) -> Seq<Seq<char>> {
    if nodes.contains_key(path) {
        match nodes[path] {
            NodeView::Array(items) => texts_among(items),
            _ => Seq::empty(),
        }
    } else {
        Seq::empty()
    }
}

/// The texts among the items of an array.
pub open spec fn texts_among(items: Seq<Option<Seq<char>>>) -> Seq<Seq<char>>
    decreases items.len(),
{
    if items.len() == 0 {
        Seq::empty()
    } else {
        let before = texts_among(items.drop_last());
        match items.last() {
            Some(text) => before.push(text),
            None => before,
        }
    }
}

/// What the document holds when the texts at the paths are replaced by one.
pub open spec fn with_texts(nodes: Nodes, paths: Seq<KeyPath>, text: Seq<char>) -> Nodes
    decreases paths.len(),
{
    if paths.len() == 0 {
        nodes
    } else {
        with_texts(nodes, paths.drop_last(), text).insert(paths.last(), NodeView::Text(text))
    }
}

/// A path of one key.
pub(crate) fn path_of_one(a: &str) -> (result: Vec<String>)
    ensures
        views(result@) == seq![a@],
{
    let result: Vec<String> = vec![a.to_owned()];
    assert(views(result@) == seq![a@]);
    result
}

/// A path of two keys.
pub(crate) fn path_of_two(a: &str, b: &str) -> (result: Vec<String>)
    ensures
        views(result@) == seq![a@, b@],
{
    let result: Vec<String> = vec![a.to_owned(), b.to_owned()];
    assert(views(result@) == seq![a@, b@]);
    result
}

/// A path of three keys.
pub(crate) fn path_of_three(a: &str, b: &str, c: &str) -> (result: Vec<String>)
    ensures
        views(result@) == seq![a@, b@, c@],
{
    let result: Vec<String> = vec![a.to_owned(), b.to_owned(), c.to_owned()];
    assert(views(result@) == seq![a@, b@, c@]);
    result
}

/// The path with one key more.
pub(crate) fn extended(path: &Vec<String>, key: &str) -> (result: Vec<String>)
    ensures
        views(result@) == views(path@).push(key@),
{
    let mut result: Vec<String> = Vec::new();
    let mut i: usize = 0;
    while i < path.len()
        invariant
            i <= path.len(),
            result.len() == i,
            forall|k: int| 0 <= k < i ==> (#[trigger] result@[k])@ == path@[k]@,
        decreases path.len() - i,
    {
        result.push(path[i].clone());
        i = i + 1;
    }
    result.push(key.to_owned());
    assert(views(result@) == views(path@).push(key@));
    result
}

/// The text at a path, where there is one.
pub(crate) fn read_text(document: &DocumentMut, path: &Vec<String>) -> (result: Option<String>)
    ensures
        option_view(result) == text_at(toml_nodes(*document), views(path@)),
{
    match node_at(document, path) {
        Some(Node::Text(text)) => Some(text),
        _ => None,
    }
}

/// The keys of the table at a path, where there is one.
pub(crate) fn read_keys(document: &DocumentMut, path: &Vec<String>) -> (result: Option<Vec<String>>)
    ensures
        match result {
            Some(keys) => keys_at(toml_nodes(*document), views(path@)) == Some(views(keys@)),
            None => keys_at(toml_nodes(*document), views(path@)) is None,
        },
{
    match node_at(document, path) {
        Some(Node::Table(keys)) => Some(keys),
        _ => None,
    }
}

/// The texts of the array at a path.
pub(crate) fn read_texts(document: &DocumentMut, path: &Vec<String>) -> (result: Vec<String>)
    ensures
        views(result@) == texts_at(toml_nodes(*document), views(path@)),
{
    let mut result: Vec<String> = Vec::new();
    assert(views(result@) == Seq::<Seq<char>>::empty());
    match node_at(document, path) {
        Some(Node::Array(items)) => {
            let ghost all = items@.map_values(|item: Option<String>| option_view(item));
            let mut i: usize = 0;
            while i < items.len()
                invariant
                    i <= items.len(),
                    all == items@.map_values(|item: Option<String>| option_view(item)),
                    views(result@) == texts_among(all.take(i as int)),
                decreases items.len() - i,
            {
                let ghost before = result@;
                assert(all.take(i + 1).drop_last() == all.take(i as int));
                assert(all.take(i + 1).last() == option_view(items@[i as int]));
                match &items[i] {
                    Some(text) => {
                        result.push(text.clone());
                        assert(views(result@) == views(before).push(text@));
                    },
                    None => {},
                }
                i = i + 1;
            }
            assert(all.take(i as int) == all);
        },
        _ => {},
    }
    result
}

/// Where a text stands that is replaced, and whether its key is written anew with it.
#[derive(Debug, Clone, PartialEq, Eq)]
pub struct TextPlace {
    pub path: Vec<String>,
    pub entry: bool,
}

impl View for TextPlace {
    type V = Place;

    open spec fn view(&self) -> Place {
        Place { path: views(self.path@), entry: self.entry }
    }
}

/// Replaces the text at a path, with its key where that is written anew.
pub(crate) fn replace_text(
    document: &mut DocumentMut,
    path: &Vec<String>,
    entry: bool,
    text: &str,
)
    requires
        holds_text(toml_nodes(*old(document)), Place { path: views(path@), entry }),
    ensures
        toml_nodes(*final(document)) == toml_nodes(*old(document)).insert(
            views(path@),
            NodeView::Text(text@),
        ),
        toml_history(*final(document)) == with_history(
            toml_history(*old(document)),
            seq![place_edit(Place { path: views(path@), entry }, text@)],
        ),
{
    if entry {
        insert_text(document, path, text);
    } else {
        set_text(document, path, text);
    }
}

/// Replaces the texts at the places by one.
pub(crate) fn set_texts(document: &mut DocumentMut, places: &Vec<TextPlace>, text: &str)
    requires
        forall|i: int|
            0 <= i < places@.len() ==> holds_text(
                toml_nodes(*old(document)),
                (#[trigger] places@[i])@,
            ),
    ensures
        toml_history(*final(document)) == with_history(
            toml_history(*old(document)),
            place_edits(views(places@), text@),
        ),
        toml_nodes(*final(document)) == with_texts(
            toml_nodes(*old(document)),
            paths_of(views(places@)),
            text@,
        ),
{
    let ghost nodes = toml_nodes(*document);
    let ghost all = views(places@);
    let ghost paths = paths_of(all);
    let mut i: usize = 0;
    assert(with_texts(nodes, paths.take(0), text@) == nodes);
    assert(place_edits(all.take(0), text@) == Seq::<TextEdit>::empty());
    assert(with_history(toml_history(*document), Seq::empty()) == toml_history(*document)) by {
        lemma_no_more_history(toml_history(*document));
    }
    while i < places.len()
        invariant
            i <= places.len(),
            all == views(places@),
            paths == paths_of(all),
            toml_history(*document) == with_history(
                toml_history(*old(document)),
                place_edits(all.take(i as int), text@),
            ),
            toml_nodes(*document) == with_texts(nodes, paths.take(i as int), text@),
            forall|k: int|
                0 <= k < places@.len() ==> holds_text(nodes, (#[trigger] places@[k])@),
        decreases places.len() - i,
    {
        let place = &places[i];
        proof {
            assert(paths.take(i + 1).drop_last() == paths.take(i as int));
            assert(paths.take(i + 1).last() == place@.path);
            assert forall|k: int| 0 <= k < paths.take(i as int).len() implies text_at(
                nodes,
                #[trigger] paths.take(i as int)[k],
            ) is Some by {
                assert(holds_text(nodes, places@[k]@));
                assert(all[k] == places@[k]@);
            }
            lemma_place_stays(nodes, paths.take(i as int), text@, place@);
        }
        replace_text(document, &place.path, place.entry, text);
        proof {
            let made = place_edits(all.take(i as int), text@);
            let now = seq![place_edit(place@, text@)];
            lemma_histories_add_up(toml_history(*old(document)), made, now);
            assert(all.take(i + 1) == all.take(i as int).push(place@));
            assert(made + now == place_edits(all.take(i + 1), text@));
        }
        i = i + 1;
    }
    assert(paths.take(i as int) == paths);
    assert(all.take(i as int) == all);
}

/// Where a text stood, a text still stands, and inline tables stay.
pub(crate) proof fn lemma_place_stays(
    nodes: Nodes,
    paths: Seq<KeyPath>,
    text: Seq<char>,
    place: Place,
)
    requires
        holds_text(nodes, place),
        forall|k: int| 0 <= k < paths.len() ==> text_at(nodes, #[trigger] paths[k]) is Some,
    ensures
        holds_text(with_texts(nodes, paths, text), place),
{
    lemma_texts_stay_texts(nodes, paths, text, place.path);
    if place.entry {
        lemma_with_texts(nodes, paths, text, place.path.drop_last());
        if paths.contains(place.path.drop_last()) {
            let k = choose|k: int| 0 <= k < paths.len() && paths[k] == place.path.drop_last();
            assert(text_at(nodes, paths[k]) is Some);
        }
    }
}

/// Whether a text is TOML whose document is written as it was read. Where it is, whatever
/// edits are made in it keep its comments and its layout.
pub fn written_as_read(text: &str) -> (result: bool)
    ensures
        result == is_written_as_read(text@),
        result ==> forall|content: Seq<char>, edits: Seq<TextEdit>| #[trigger]
            is_edited(content, text@, edits) ==> only_edits_differ(text@, content, edits),
{
    match parse_toml(text) {
        Ok(document) => {
            let result = same(&render_toml(&document), text);
            proof {
                assert forall|content: Seq<char>, edits: Seq<TextEdit>|
                    result && #[trigger] is_edited(content, text@, edits) implies only_edits_differ(
                    text@,
                    content,
                    edits,
                ) by {
                    law_edits_keep_layout(content, text@, edits);
                }
            }
            result
        },
        Err(_) => false,
    }
}

/// No edit leaves the history as it is.
pub(crate) proof fn lemma_no_more_history(history: Option<TomlHistory>)
    ensures
        with_history(history, Seq::empty()) == history,
{
    if let Some(known) = history {
        assert(known.edits + Seq::<TextEdit>::empty() == known.edits);
    }
}

/// Edits that follow on others come behind them.
pub(crate) proof fn lemma_histories_add_up(
    history: Option<TomlHistory>,
    first: Seq<TextEdit>,
    then_made: Seq<TextEdit>,
)
    ensures
        with_history(with_history(history, first), then_made) == with_history(
            history,
            first + then_made,
        ),
{
    if let Some(known) = history {
        assert(known.edits + first + then_made == known.edits + (first + then_made));
    }
}

/// The paths that a list of paths stands for.
pub open spec fn path_views(paths: Seq<Vec<String>>) -> Seq<KeyPath> {
    paths.map_values(|path: Vec<String>| views(path@))
}

/// Where a text stood, a text still stands.
pub proof fn lemma_texts_stay_texts(
    nodes: Nodes,
    paths: Seq<KeyPath>,
    text: Seq<char>,
    path: KeyPath,
)
    requires
        text_at(nodes, path) is Some,
    ensures
        text_at(with_texts(nodes, paths, text), path) is Some,
    decreases paths.len(),
{
    if paths.len() > 0 {
        lemma_texts_stay_texts(nodes, paths.drop_last(), text, path);
    }
}

/// What stands at a path when texts are replaced: the new text where the path is
/// among the replaced ones, and else what stood there.
pub proof fn lemma_with_texts(nodes: Nodes, paths: Seq<KeyPath>, text: Seq<char>, path: KeyPath)
    ensures
        paths.contains(path) ==> with_texts(nodes, paths, text).contains_pair(
            path,
            NodeView::Text(text),
        ),
        !paths.contains(path) ==> {
            &&& with_texts(nodes, paths, text).contains_key(path) == nodes.contains_key(path)
            &&& nodes.contains_key(path) ==> with_texts(nodes, paths, text)[path] == nodes[path]
        },
    decreases paths.len(),
{
    if paths.len() > 0 {
        let before = paths.drop_last();
        lemma_with_texts(nodes, before, text, path);
        if paths.contains(path) && paths.last() != path {
            let i = choose|i: int| 0 <= i < paths.len() && paths[i] == path;
            assert(before[i] == path);
        }
        if before.contains(path) {
            let i = choose|i: int| 0 <= i < before.len() && before[i] == path;
            assert(paths[i] == path);
        }
        if paths.last() == path {
            assert(paths[paths.len() - 1] == path);
        }
    }
}

/// Edits keep comments and layout: against the document of the source, written without
/// them, only the pieces differ that the edits replace. `written_as_read` tells whether
/// that is the source itself.
pub proof fn law_edits_keep_layout(content: Seq<char>, source: Seq<char>, edits: Seq<TextEdit>)
    requires
        is_edited(content, source, edits),
    ensures
        only_edits_differ(toml_display(source, Seq::empty()), content, edits),
{
    lemma_edits_differ(source, edits, edits.len() as int);
    assert(edits.take(edits.len() as int) == edits);
}

proof fn lemma_edits_differ(source: Seq<char>, edits: Seq<TextEdit>, n: int)
    requires
        0 <= n <= edits.len(),
        is_edited(toml_display(source, edits), source, edits),
    ensures
        only_edits_differ(
            toml_display(source, Seq::empty()),
            toml_display(source, edits.take(n)),
            edits.take(n),
        ),
    decreases n,
{
    if n == 0 {
        assert(edits.take(0) == Seq::<TextEdit>::empty());
    } else {
        lemma_edits_differ(source, edits, n - 1);
        let made = edits.take(n);
        assert(made.drop_last() == edits.take(n - 1));
        assert(made.last() == edits[n - 1]);
        assert(one_piece_differs(
            toml_display(source, edits.take(n - 1)),
            toml_display(source, edits.take(n - 1 + 1)),
            edits[n - 1],
        ));
    }
}

} // verus!
