//! The configuration file as a TOML document that can be changed without losing its comments or
//! the order of its values.

use vstd::prelude::*;

verus! {

/// An editable document of `toml_edit`.
#[verifier::external_type_specification]
#[verifier::external_body]
pub struct ExDocumentMut(toml_edit::DocumentMut);

/// What stands under a key in a table.
#[verifier::ext_equal]
pub enum TomlEntry {
    /// A string: its text.
    Text(Seq<char>),
    /// Anything else, such as a number, an array or a table: the text that spells it.
    Other(Seq<char>),
}

/// What stands under a key at the top level of a document.
#[verifier::ext_equal]
pub enum TomlItem {
    /// A table that a `[name]` header or a dotted key makes: its entries.
    Table(Map<Seq<char>, TomlEntry>),
    /// Anything else, such as an inline table or an array of tables: the text that spells it.
    Other(Seq<char>),
}

/// The keys that lead from the top level of a document to something in it.
pub type TomlPath = Seq<Seq<char>>;

/// A comment.
#[verifier::ext_equal]
pub struct TomlComment {
    /// The comment itself, from its `#` to the end of its line.
    pub text: Seq<char>,
    /// What the comment goes with: the value that it stands in or behind, the table whose header
    /// it stands above or behind, the table that holds the key which it stands above, or, at the
    /// end of the document, the top level.
    pub place: TomlPath,
}

/// What a document holds.
#[verifier::ext_equal]
pub struct TomlContents {
    /// What stands at the top level.
    pub items: Map<Seq<char>, TomlItem>,
    /// The values, in the order in which the document writes them.
    pub order: Seq<TomlPath>,
    /// The comments, in the order in which the document writes them.
    pub comments: Seq<TomlComment>,
    /// The strings in tables at the top level, as table and key, that the document writes as the
    /// key, ` = `, and the text between double quotes.
    pub plain: Set<(Seq<char>, Seq<char>)>,
    /// Whether the document is flat: it has no dotted keys, in front of values or in headers, and
    /// no arrays of tables. Each of its tables then has one header, of one key.
    pub flat: bool,
}

/// How a document is written.
#[verifier::ext_equal]
pub struct TomlLayout {
    /// The text that the document writes.
    pub text: Seq<char>,
    /// Where in the text the section of a table at the top level ends that has a header: behind
    /// the last value below the header or, where there is none, behind the line of the header.
    pub ends: Map<Seq<char>, int>,
}

/// What a document holds.
pub uninterp spec fn document_contents(doc: toml_edit::DocumentMut) -> TomlContents;

/// How a document is written.
pub uninterp spec fn document_layout(doc: toml_edit::DocumentMut) -> TomlLayout;

/// What reading a text as a document gives: what the document holds, or the message of the error.
pub uninterp spec fn parsed_toml(text: Seq<char>) -> Result<TomlContents, Seq<char>>;

/// Whether reading `text` gives a document that holds `contents`.
pub open spec fn reads_as(text: Seq<char>, contents: TomlContents) -> bool {
    parsed_toml(text) == Ok::<TomlContents, Seq<char>>(contents)
}

/// Whether `part` stands somewhere in `whole`.
pub open spec fn is_part(part: Seq<char>, whole: Seq<char>) -> bool {
    exists|i: int|
        0 <= i <= whole.len() - part.len() && #[trigger] whole.subrange(i, i + part.len()) == part
}

/// A key and a string in the plain way to write them.
pub open spec fn plain_line(key: Seq<char>, text: Seq<char>) -> Seq<char> {
    key + " = \""@ + text + "\""@
}

/// Whether `text` shows what a document that holds `contents` writes out as it is: its comments,
/// and the strings that it writes plainly.
pub open spec fn shows(text: Seq<char>, contents: TomlContents) -> bool {
    &&& forall|i: int|
        0 <= i < contents.comments.len() ==> is_part(#[trigger] contents.comments[i].text, text)
    &&& forall|table: Seq<char>, key: Seq<char>|
        #![trigger contents.plain.contains((table, key))]
        contents.plain.contains((table, key)) && has_entry(contents, table, key) ==> (
        contents.items[table]->Table_0[key] matches TomlEntry::Text(s) ==> is_part(
            plain_line(key, s),
            text,
        ))
}

/// The first line of `text`, without its line end.
pub open spec fn first_line(text: Seq<char>) -> Seq<char>
    decreases text.len(),
{
    if text.len() == 0 || text[0] == '\n' || text[0] == '\r' {
        seq![]
    } else {
        seq![text[0]] + first_line(text.skip(1))
    }
}

/// Whether a comment among `comments` is `text`.
pub open spec fn has_comment(comments: Seq<TomlComment>, text: Seq<char>) -> bool {
    exists|i: int| 0 <= i < comments.len() && #[trigger] comments[i].text == text
}

/// Whether there is something at `place`, as far as its first two keys tell.
pub open spec fn is_there(contents: TomlContents, place: TomlPath) -> bool {
    place.len() > 0 ==> {
        &&& contents.items.contains_key(place[0])
        &&& place.len() > 1 && has_table(contents, place[0]) ==> has_entry(
            contents,
            place[0],
            place[1],
        )
    }
}

/// Whether each comment goes with something that is there.
pub open spec fn comments_are_placed(contents: TomlContents) -> bool {
    forall|i: int|
        0 <= i < contents.comments.len() ==> is_there(
            contents,
            (#[trigger] contents.comments[i]).place,
        )
}

/// Whether the comments of a document are as reading `text` leaves them: each goes with something
/// that is there, and a first line that starts with `#` is one.
pub open spec fn has_comments_of(text: Seq<char>, read: Result<TomlContents, Seq<char>>) -> bool {
    read matches Ok(contents) ==> {
        &&& comments_are_placed(contents)
        &&& text.len() > 0 && text[0] == '#' ==> has_comment(contents.comments, first_line(text))
    }
}

/// Whether `text` is made of whole lines that line feeds end, without a byte order mark.
pub open spec fn is_made_of_lines(text: Seq<char>) -> bool {
    &&& !text.contains('\r')
    &&& text.len() > 0 ==> text[0] != '\u{feff}' && text.last() == '\n'
}

/// Whether a line of `text` starts at `i`, or could.
pub open spec fn is_line_start(text: Seq<char>, i: int) -> bool {
    0 <= i <= text.len() && (i > 0 ==> text[i - 1] == '\n')
}

/// Whether a document that was read from `text` is written the way `layout` says: as `text` itself,
/// where it is flat and made of lines. In a flat document the section of every table ends
/// somewhere.
pub open spec fn is_laid_out_as(
    text: Seq<char>,
    contents: TomlContents,
    layout: TomlLayout,
) -> bool {
    contents.flat ==> {
        &&& is_made_of_lines(text) ==> layout.text == text
        &&& forall|table: Seq<char>|
            #![trigger has_table(contents, table)]
            has_table(contents, table) ==> layout.ends.contains_key(table) && is_line_start(
                layout.text,
                layout.ends[table],
            )
    }
}

/// `text` with `piece` put in at `i`.
pub open spec fn inserted(text: Seq<char>, i: int, piece: Seq<char>) -> Seq<char> {
    text.take(i) + piece + text.skip(i)
}

/// Whether `piece` is the header of a table, on a line of its own, with or without a blank line in
/// front of it.
pub open spec fn is_header(piece: Seq<char>, table: Seq<char>) -> bool {
    piece == "["@ + table + "]\n"@ || piece == "\n["@ + table + "]\n"@
}

/// Whether `piece` is a line that puts a string under a key, plainly where it can be.
pub open spec fn is_line_for(piece: Seq<char>, key: Seq<char>, text: Seq<char>) -> bool {
    exists|quoted: Seq<char>|
        piece == key + " = "@ + quoted + "\n"@ && #[trigger] is_quoted(quoted, text)
}

/// Whether `quoted` can be how a string is written: between double quotes as it is, where it can
/// be.
pub open spec fn is_quoted(quoted: Seq<char>, text: Seq<char>) -> bool {
    is_plain_text(text) ==> quoted == "\""@ + text + "\""@
}

/// Whether the way a document is written changed from `before` to `after` because it got a table
/// under `key`: the header of the table was put in where a line starts, and the section of the
/// table ends there.
pub open spec fn is_laid_out_with_table(
    before: TomlLayout,
    after: TomlLayout,
    key: Seq<char>,
) -> bool {
    exists|i: int, header: Seq<char>|
        #![trigger inserted(before.text, i, header)]
        {
            &&& is_header(header, key)
            &&& is_line_start(before.text, i)
            &&& after.text == inserted(before.text, i, header)
            &&& after.ends.contains_key(key)
            &&& after.ends[key] == i + header.len()
        }
}

/// Whether the way a document is written changed from `before` to `after` because a table that has
/// a header got a string under a new key: one line was put in, at the end of the section of the
/// table.
pub open spec fn is_laid_out_with_string(
    before: TomlLayout,
    after: TomlLayout,
    table: Seq<char>,
    key: Seq<char>,
    text: Seq<char>,
) -> bool {
    exists|line: Seq<char>|
        #[trigger] is_line_for(line, key, text) && after.text == inserted(
            before.text,
            before.ends[table],
            line,
        )
}

/// Whether there is a table under `key`.
pub open spec fn has_table(contents: TomlContents, key: Seq<char>) -> bool {
    contents.items.contains_key(key) && contents.items[key] is Table
}

/// Whether there is something under `key` in a table under `table`.
pub open spec fn has_entry(contents: TomlContents, table: Seq<char>, key: Seq<char>) -> bool {
    has_table(contents, table) && contents.items[table]->Table_0.contains_key(key)
}

/// `contents` with an empty table under `key`, unless something is under it already.
pub open spec fn with_table(contents: TomlContents, key: Seq<char>) -> TomlContents {
    if contents.items.contains_key(key) {
        contents
    } else {
        TomlContents {
            items: contents.items.insert(key, TomlItem::Table(Map::empty())),
            ..contents
        }
    }
}

/// Whether `path` leads to what stands under `key` in the table under `table`, or into it.
pub open spec fn leads_to(path: TomlPath, table: Seq<char>, key: Seq<char>) -> bool {
    path.len() >= 2 && path[0] == table && path[1] == key
}

/// Those of `paths` that lead to what stands under `key` in the table under `table`, or into it.
pub open spec fn paths_to(paths: Seq<TomlPath>, table: Seq<char>, key: Seq<char>) -> Seq<TomlPath> {
    paths.filter(|path: TomlPath| leads_to(path, table, key))
}

/// The others of `paths`.
pub open spec fn other_paths(paths: Seq<TomlPath>, table: Seq<char>, key: Seq<char>) -> Seq<
    TomlPath,
> {
    paths.filter(|path: TomlPath| !leads_to(path, table, key))
}

/// Whether what stands under `key` in the table under `table` comes behind the other values of that
/// table.
pub open spec fn is_last_of_table(
    order: Seq<TomlPath>,
    table: Seq<char>,
    key: Seq<char>,
) -> bool {
    forall|i: int, j: int|
        0 <= i < order.len() && 0 <= j < order.len() && #[trigger] order[i] == seq![table, key]
            && (#[trigger] order[j]).len() == 2 && order[j][0] == table ==> j <= i
}

/// Those of `comments` that do not go with what stands under `key` in the table under `table`.
pub open spec fn other_comments(
    comments: Seq<TomlComment>,
    table: Seq<char>,
    key: Seq<char>,
) -> Seq<TomlComment> {
    comments.filter(|comment: TomlComment| !leads_to(comment.place, table, key))
}

/// Whether `key` can be written without quotes.
pub open spec fn is_bare_key(key: Seq<char>) -> bool {
    &&& key.len() > 0
    &&& forall|i: int|
        0 <= i < key.len() ==> 'a' <= #[trigger] key[i] <= 'z' || 'A' <= key[i] <= 'Z' || '0'
            <= key[i] <= '9' || key[i] == '-' || key[i] == '_'
}

/// Whether `text` can be written between double quotes as it is. Texts with single quotes are not
/// counted in.
pub open spec fn is_plain_text(text: Seq<char>) -> bool {
    forall|i: int|
        0 <= i < text.len() ==> #[trigger] text[i] >= '\u{20}' && text[i] != '\u{7f}' && text[i]
            != '"' && text[i] != '\'' && text[i] != '\\'
}

/// Whether a document that held `before` holds `after` once a string was put under `key` in the
/// table under `table`. Nothing else that stands in the document changes. Gone are the comments
/// that went with what stood under the key. The order of all else stays. A value that was there
/// before is replaced where it stands, and a new one stands behind the others of its table. A new
/// string is written plainly, where it can be.
pub open spec fn is_with_string(
    before: TomlContents,
    after: TomlContents,
    table: Seq<char>,
    key: Seq<char>,
    text: Seq<char>,
) -> bool {
    &&& after.items == before.items.insert(
        table,
        TomlItem::Table(before.items[table]->Table_0.insert(key, TomlEntry::Text(text))),
    )
    &&& paths_to(after.order, table, key) == seq![seq![table, key]]
    &&& other_paths(after.order, table, key) == other_paths(before.order, table, key)
    &&& before.order.contains(seq![table, key]) ==> after.order == before.order
    &&& !has_entry(before, table, key) ==> is_last_of_table(after.order, table, key)
    &&& after.comments == other_comments(before.comments, table, key)
    &&& after.plain.remove((table, key)) == before.plain.remove((table, key))
    &&& !has_entry(before, table, key) && is_bare_key(key) && is_plain_text(text)
        ==> after.plain.contains((table, key))
    &&& before.flat ==> after.flat
}

/// A way to find a string under a key in something that is no table but may be read as one: it
/// takes the text that spells the thing, and the key.
pub type SectionReader = spec_fn(Seq<char>, Seq<char>) -> Option<Seq<char>>;

/// The string under `key` in the section under `section`, where there is one. `other` reads a
/// section that is no table.
pub open spec fn string_at(
    contents: TomlContents,
    section: Seq<char>,
    key: Seq<char>,
    other: SectionReader,
) -> Option<Seq<char>> {
    if contents.items.contains_key(section) {
        match contents.items[section] {
            TomlItem::Table(entries) => if entries.contains_key(key) {
                match entries[key] {
                    TomlEntry::Text(text) => Some(text),
                    TomlEntry::Other(_) => None,
                }
            } else {
                None
            },
            TomlItem::Other(text) => other(text, key),
        }
    } else {
        None
    }
}

/// Whether `text` holds as many of one character in a row, from `start` on, as one byte cannot
/// count.
pub open spec fn is_long_run(text: Seq<char>, c: char, start: int) -> bool {
    &&& 0 <= start <= text.len() - 256
    &&& forall|i: int| start <= i < start + 256 ==> #[trigger] text[i] == c
}

/// Whether `text` is free of long runs of quotes, single or double.
pub open spec fn quotes_can_be_counted(text: Seq<char>) -> bool {
    &&& forall|start: int| !#[trigger] is_long_run(text, '\'', start)
    &&& forall|start: int| !#[trigger] is_long_run(text, '"', start)
}

/// A document that was read from a text, and maybe changed since by the functions below.
struct ConfigDocument {
    doc: toml_edit::DocumentMut,
}

/// What reading a document gave.
spec fn document_result(r: Result<ConfigDocument, String>) -> Result<TomlContents, Seq<char>> {
    match r {
        Ok(document) => Ok(document_contents(document.doc)),
        Err(message) => Err(message@),
    }
}

/// Whether a document that reading `text` gave is written as it must be.
spec fn layout_matches(text: Seq<char>, r: Result<ConfigDocument, String>) -> bool {
    r matches Ok(document) ==> is_laid_out_as(
        text,
        document_contents(document.doc),
        document_layout(document.doc),
    )
}

/// Calls `str::parse` for a `toml_edit::DocumentMut`. What the document holds and the message of
/// an error are only named, but for where comments can be and that a comment on the first line is
/// among them. A flat document that was read from lines with line feeds writes these lines.
#[verifier::external_body]
fn parse_document(text: &str) -> (r: Result<ConfigDocument, String>)
    ensures
        document_result(r) == parsed_toml(text@),
        has_comments_of(text@, document_result(r)),
        layout_matches(text@, r),
{
    text.parse::<toml_edit::DocumentMut>()
        .map(|doc| ConfigDocument { doc })
        .map_err(|e| e.to_string())
}

/// Whether a table under `key` was put in unless something was there, as far as it shows.
spec fn table_shows(before: ConfigDocument, after: ConfigDocument, key: Seq<char>) -> bool {
    if document_contents(before.doc).items.contains_key(key) {
        document_layout(after.doc) == document_layout(before.doc)
    } else {
        is_bare_key(key) ==> is_laid_out_with_table(
            document_layout(before.doc),
            document_layout(after.doc),
            key,
        )
    }
}

/// Whether a string was put under a key, as far as it shows.
spec fn string_shows(
    before: ConfigDocument,
    after: ConfigDocument,
    table: Seq<char>,
    key: Seq<char>,
    text: Seq<char>,
) -> bool {
    document_layout(before.doc).ends.contains_key(table) && !has_entry(
        document_contents(before.doc),
        table,
        key,
    ) && is_bare_key(key) ==> is_laid_out_with_string(
        document_layout(before.doc),
        document_layout(after.doc),
        table,
        key,
        text,
    )
}

/// Calls `toml_edit::Entry::or_insert_with` on the entry under `key`, with a new table: the key
/// gets an empty table, unless something is under it already. Of the text that the document writes
/// all stays, and the header of the table is new.
#[verifier::external_body]
fn insert_table(document: &mut ConfigDocument, key: &str)
    ensures
        table_shows(*old(document), *final(document), key@),
        document_contents(final(document).doc) == with_table(
            document_contents(old(document).doc),
            key@,
        ),
{
    document.doc.entry(key).or_insert_with(|| toml_edit::Item::Table(toml_edit::Table::new()));
}

/// Calls `toml_edit::Table::contains_table`: whether there is a table under `key`.
#[verifier::external_body]
fn contains_table(document: &ConfigDocument, key: &str) -> (r: bool)
    ensures
        r == has_table(document_contents(document.doc), key@),
{
    document.doc.contains_table(key)
}

/// Calls `toml_edit::Table::set_implicit` on the table under `table`, so that its header shows.
/// What the document holds stays, and so does the text that it writes, where the header shows
/// already.
#[verifier::external_body]
fn show_header(document: &mut ConfigDocument, table: &str)
    requires
        has_table(document_contents(old(document).doc), table@),
    ensures
        document_contents(final(document).doc) == document_contents(old(document).doc),
        document_layout(old(document).doc).ends.contains_key(table@) ==> document_layout(
            final(document).doc,
        ) == document_layout(old(document).doc),
{
    if let Some(found) = document.doc[table].as_table_mut() {
        found.set_implicit(false);
    }
}

/// Assigns through the `IndexMut` of `toml_edit::Table` to the entry under `key` in the table
/// under `table`: the entry is a string with this text from then on, whether it was there or not,
/// and everything else stays, in its order. What was stored with a value that this replaces is
/// gone, and with it the comments in it and behind it. A new entry is written on a line of its own
/// at the end of the section of its table, as a bare key, ` = ` and a basic string, where the text
/// needs no escapes; the rest of the text that the document writes stays. To pick the quotes around the text when the
/// document is written, `toml_edit` counts those in a row in a byte, and where arithmetic is
/// checked for overflow it panics on more than fit: such a text is not let in.
#[verifier::external_body]
fn set_string(document: &mut ConfigDocument, table: &str, key: &str, text: &str)
    requires
        has_table(document_contents(old(document).doc), table@),
        quotes_can_be_counted(text@),
    ensures
        is_with_string(
            document_contents(old(document).doc),
            document_contents(final(document).doc),
            table@,
            key@,
            text@,
        ),
        string_shows(*old(document), *final(document), table@, key@, text@),
{
    document.doc[table][key] = toml_edit::value(text);
}

/// Calls `to_string` on the `toml_edit::DocumentMut`. Reading the text gives a document that holds
/// the same, and the text shows the comments and the strings that the document writes plainly.
#[verifier::external_body]
fn document_text(document: &ConfigDocument) -> (r: String)
    ensures
        reads_as(r@, document_contents(document.doc)),
        shows(r@, document_contents(document.doc)),
        r@ == document_layout(document.doc).text,
{
    document.doc.to_string()
}

/// Why an identifier cannot be added to a configuration file.
#[derive(Debug, Clone, PartialEq)]
pub enum PersistError {
    /// The file is no TOML document.
    Syntax { message: String },
    /// Something that is no table stands where the table `[client]` belongs.
    NotATable,
}

/// Whether a file that held `before` holds `after` once an identifier was added to it: the
/// identifier stands under `id` in `[client]`, which is added where it is missing. All other values
/// stay, in their order, and all comments but those that went with an identifier before.
pub open spec fn is_with_client_id(
    before: TomlContents,
    after: TomlContents,
    client_id: Seq<char>,
) -> bool {
    is_with_string(with_table(before, "client"@), after, "client"@, "id"@, client_id)
}

/// Whether a file that holds `contents` has room for an identifier: `[client]` is a table or
/// missing.
pub open spec fn has_room_for_id(contents: TomlContents) -> bool {
    contents.items.contains_key("client"@) ==> contents.items["client"@] is Table
}

/// Whether `piece` is what a new identifier adds to the text of a file that holds `contents`: a line
/// for it, with the header of `[client]` in front where that is missing.
pub open spec fn is_addition(
    contents: TomlContents,
    piece: Seq<char>,
    client_id: Seq<char>,
) -> bool {
    if has_table(contents, "client"@) {
        is_line_for(piece, "id"@, client_id)
    } else {
        exists|header: Seq<char>, line: Seq<char>|
            piece == header + line && #[trigger] is_header(header, "client"@)
                && #[trigger] is_line_for(line, "id"@, client_id)
    }
}

/// Whether `after` is `before` with a new identifier added where a line starts, and nothing else
/// changed.
pub open spec fn differs_by_addition(
    contents: TomlContents,
    before: Seq<char>,
    after: Seq<char>,
    client_id: Seq<char>,
) -> bool {
    exists|i: int, piece: Seq<char>|
        is_line_start(before, i) && is_addition(contents, piece, client_id) && after
            == #[trigger] inserted(before, i, piece)
}

/// The text of a configuration file with an identifier added to it.
///
/// The text of a flat file that has no identifier yet stays as it is, blank lines and white space
/// included, but for what is added. Of other files `toml_edit` may write dotted keys in another
/// order and the keys of headers in another spelling, and it ends every line with a line feed.
pub fn persist_client_id(original: &str, client_id: &str) -> (r: Result<String, PersistError>)
    requires
        quotes_can_be_counted(client_id@),
    ensures
        match parsed_toml(original@) {
            Err(cause) => r matches Err(PersistError::Syntax { message }) && message@ == cause,
            Ok(contents) => if has_room_for_id(contents) {
                &&& r matches Ok(text)
                &&& parsed_toml(text@) matches Ok(after)
                &&& is_with_client_id(contents, after, client_id@)
                &&& shows(text@, after)
                &&& !has_entry(contents, "client"@, "id"@) ==> after.comments == contents.comments
                &&& !has_entry(contents, "client"@, "id"@) && original@.len() > 0 && original@[0]
                    == '#' ==> is_part(first_line(original@), text@)
                &&& !has_entry(contents, "client"@, "id"@) && is_plain_text(client_id@) ==> is_part(
                    plain_line("id"@, client_id@),
                    text@,
                )
                &&& !has_entry(contents, "client"@, "id"@) && contents.flat && is_made_of_lines(
                    original@,
                ) ==> differs_by_addition(contents, original@, text@, client_id@)
            } else {
                r matches Err(PersistError::NotATable)
            },
        },
{
    let mut document: ConfigDocument = match parse_document(original) {
        Ok(document) => document,
        Err(message) => {
            return Err(PersistError::Syntax { message });
        },
    };
    let ghost contents = document_contents(document.doc);
    let ghost read = document_layout(document.doc);
    proof {
        reveal_strlit("client");
        assert(is_bare_key("client"@));
    }
    insert_table(&mut document, "client");
    let ghost roomy = document_layout(document.doc);
    if !contains_table(&document, "client") {
        return Err(PersistError::NotATable);
    }
    show_header(&mut document, "client");
    set_string(&mut document, "client", "id", client_id);
    proof {
        reveal_strlit("id");
        assert(is_bare_key("id"@));
        let after = document_contents(document.doc);
        let written = document_layout(document.doc);
        nothing_but_the_id_changes(contents, after, client_id@);
        if contents.flat && !has_entry(contents, "client"@, "id"@) {
            assert(has_table(contents, "client"@) || !contents.items.contains_key("client"@));
            lemma_addition(contents, read, roomy, written, client_id@);
        }
    }
    Ok(document_text(&document))
}

proof fn lemma_addition(
    contents: TomlContents,
    read: TomlLayout,
    roomy: TomlLayout,
    written: TomlLayout,
    client_id: Seq<char>,
)
    requires
        has_table(contents, "client"@) ==> roomy == read && read.ends.contains_key("client"@)
            && is_line_start(read.text, read.ends["client"@]),
        !has_table(contents, "client"@) ==> is_laid_out_with_table(read, roomy, "client"@),
        is_laid_out_with_string(roomy, written, "client"@, "id"@, client_id),
    ensures
        differs_by_addition(contents, read.text, written.text, client_id),
{
    let end = roomy.ends["client"@];
    let line = choose|line: Seq<char>|
        #[trigger] is_line_for(line, "id"@, client_id) && written.text == inserted(
            roomy.text,
            end,
            line,
        );
    if has_table(contents, "client"@) {
        assert(is_addition(contents, line, client_id));
        assert(written.text == inserted(read.text, end, line));
    } else {
        let (i, header) = choose|i: int, header: Seq<char>|
            #![trigger inserted(read.text, i, header)]
            {
                &&& is_header(header, "client"@)
                &&& is_line_start(read.text, i)
                &&& roomy.text == inserted(read.text, i, header)
                &&& roomy.ends.contains_key("client"@)
                &&& roomy.ends["client"@] == i + header.len()
            };
        assert(is_addition(contents, header + line, client_id));
        assert(written.text =~= inserted(read.text, i, header + line));
    }
}

/// The identifier that was added to a file is read back from it, and every other string in the
/// file is what it was.
pub proof fn persisted_id_is_read_back(
    before: TomlContents,
    after: TomlContents,
    client_id: Seq<char>,
    section: Seq<char>,
    key: Seq<char>,
    other: SectionReader,
)
    requires
        has_room_for_id(before),
        is_with_client_id(before, after, client_id),
    ensures
        string_at(after, "client"@, "id"@, other) == Some(client_id),
        !(section == "client"@ && key == "id"@) ==> string_at(after, section, key, other)
            == string_at(before, section, key, other),
{
}

/// Adding an identifier to a file changes nothing else in it: whatever stands outside `[client]`,
/// and every other entry of `[client]`, is spelled as it was, the values keep their order, and a
/// file without an identifier keeps all its comments.
pub proof fn nothing_but_the_id_changes(
    before: TomlContents,
    after: TomlContents,
    client_id: Seq<char>,
)
    requires
        has_room_for_id(before),
        is_with_client_id(before, after, client_id),
    ensures
        after.items.remove("client"@) == before.items.remove("client"@),
        has_table(after, "client"@),
        has_table(before, "client"@) ==> after.items["client"@]->Table_0.remove("id"@)
            == before.items["client"@]->Table_0.remove("id"@),
        !has_table(before, "client"@) ==> after.items["client"@]->Table_0.dom() == set!["id"@],
        other_paths(after.order, "client"@, "id"@) == other_paths(
            before.order,
            "client"@,
            "id"@,
        ),
        !has_entry(before, "client"@, "id"@) && comments_are_placed(before) ==> after.comments
            == before.comments,
{
    if !has_entry(before, "client"@, "id"@) && comments_are_placed(before) {
        assert forall|i: int| 0 <= i < before.comments.len() implies !leads_to(
            (#[trigger] before.comments[i]).place,
            "client"@,
            "id"@,
        ) by {
            assert(is_there(before, before.comments[i].place));
        }
        lemma_filter_keeps(
            before.comments,
            |comment: TomlComment| !leads_to(comment.place, "client"@, "id"@),
        );
    }
}

proof fn lemma_filter_keeps<A>(s: Seq<A>, keep: spec_fn(A) -> bool)
    requires
        forall|i: int| 0 <= i < s.len() ==> keep(#[trigger] s[i]),
    ensures
        s.filter(keep) == s,
    decreases s.len(),
{
    reveal(Seq::filter);
    if s.len() > 0 {
        let init = s.drop_last();
        assert forall|i: int| 0 <= i < init.len() implies keep(#[trigger] init[i]) by {
            assert(init[i] == s[i]);
        }
        lemma_filter_keeps(init, keep);
        assert(keep(s[s.len() - 1]));
        assert(s =~= init.push(s.last()));
    } else {
        assert(s.filter(keep) =~= s);
    }
}

proof fn lemma_filter_picks<A>(s: Seq<A>, pick: spec_fn(A) -> bool, i: int)
    requires
        0 <= i < s.filter(pick).len(),
    ensures
        s.contains(s.filter(pick)[i]),
    decreases s.len(),
{
    reveal(Seq::filter);
    let init = s.drop_last();
    let x = s.filter(pick)[i];
    if i < init.filter(pick).len() {
        lemma_filter_picks(init, pick, i);
        let j = choose|j: int| 0 <= j < init.len() && init[j] == x;
        assert(s[j] == x);
    } else {
        assert(s[s.len() - 1] == x);
    }
}

/// The identifier that is written last wins: a file to which first one and then another is added
/// holds what it would hold if only the other one were. The second identifier stands where the
/// first one stood.
pub proof fn the_last_id_wins(
    before: TomlContents,
    between: TomlContents,
    after: TomlContents,
    at_once: TomlContents,
    first: Seq<char>,
    last: Seq<char>,
)
    requires
        has_room_for_id(before),
        is_with_client_id(before, between, first),
        is_with_client_id(between, after, last),
        is_with_client_id(before, at_once, last),
    ensures
        after.items == at_once.items,
        after.comments == at_once.comments,
        other_paths(after.order, "client"@, "id"@) == other_paths(
            at_once.order,
            "client"@,
            "id"@,
        ),
        after.order == between.order,
        first == last ==> after.items == between.items && after.comments == between.comments,
{
    let keep = |comment: TomlComment| !leads_to(comment.place, "client"@, "id"@);
    assert forall|i: int| 0 <= i < between.comments.len() implies keep(
        #[trigger] between.comments[i],
    ) by {
        before.comments.lemma_filter_pred(keep, i);
    }
    lemma_filter_keeps(between.comments, keep);
    assert(paths_to(between.order, "client"@, "id"@)[0] == seq!["client"@, "id"@]);
    lemma_filter_picks(between.order, |path: TomlPath| leads_to(path, "client"@, "id"@), 0);
    let room = with_table(before, "client"@).items;
    let entries = room["client"@]->Table_0;
    assert(with_table(between, "client"@) == between);
    assert(between.items["client"@]->Table_0 == entries.insert("id"@, TomlEntry::Text(first)));
    assert(entries.insert("id"@, TomlEntry::Text(first)).insert("id"@, TomlEntry::Text(last))
        =~= entries.insert("id"@, TomlEntry::Text(last)));
    assert(after.items =~= at_once.items);
}

/// There is room for an identifier exactly in a file where nothing stands under `client`, or a table
/// does.
pub proof fn a_table_or_nothing_leaves_room(contents: TomlContents)
    ensures
        !contents.items.contains_key("client"@) ==> has_room_for_id(contents),
        contents.items.contains_key("client"@) ==> (has_room_for_id(contents)
            <==> contents.items["client"@] is Table),
{
}

} // verus!
