use vstd::prelude::*;
use crate::error::VaultError;
use crate::vault::{Entry, EntryView, Vault};
use std::collections::BTreeMap;

verus! {

/// One object of a document: its keys, each with a text or nothing.
pub type Row = Vec<(String, Option<String>)>;

/// A document: its top-level keys, each with a list of objects.
pub type Document = Vec<(String, Vec<Row>)>;

/// A row as plain text.
pub type RowView = Seq<(Seq<char>, Option<Seq<char>>)>;

/// A document as plain text.
pub type DocumentView = Seq<(Seq<char>, Seq<RowView>)>;

/// `serde_json::Error`, the refusal of `serde_json::to_vec` and
/// `serde_json::from_slice`. Nothing is read from it.
#[verifier::external_type_specification]
#[verifier::external_body]
pub struct ExJsonError(serde_json::Error);

/// What `serde_json::to_vec` writes for the map with the single key `top`,
/// whose value is the list of the rows, each as a map: a JSON object whose
/// one member is an array of objects, each key of a row with its text or
/// with `null`.
pub uninterp spec fn json_text(
    top: Seq<char>,
    rows: Seq<Seq<(Seq<char>, Option<Seq<char>>)>>,
) -> Seq<u8>;

/// What `serde_json::from_slice` reads as a map from texts to lists of maps
/// from texts to optional texts, each map as the list of its pairs: `None`
/// where it refuses the bytes.
pub uninterp spec fn json_parsed(bytes: Seq<u8>) -> Option<
    Seq<(Seq<char>, Seq<Seq<(Seq<char>, Option<Seq<char>>)>>)>,
>;

/// No key occurs twice in the row.
pub open spec fn distinct_keys(row: RowView) -> bool {
    forall|i: int, j: int| 0 <= i < j < row.len() ==> row[i].0 != row[j].0
}

/// Two rows hold the same pairs, in whatever order.
pub open spec fn same_pairs(a: RowView, b: RowView) -> bool {
    forall|pair: (Seq<char>, Option<Seq<char>>)| a.contains(pair) <==> b.contains(pair)
}

/// The document holds `rows` under the single key `top`: as many rows, in
/// the same order, each with the same pairs.
pub open spec fn holds_rows(document: DocumentView, top: Seq<char>, rows: Seq<RowView>) -> bool {
    &&& document.len() == 1
    &&& document[0].0 == top
    &&& document[0].1.len() == rows.len()
    &&& forall|i: int| 0 <= i < rows.len() ==> same_pairs(#[trigger] document[0].1[i], rows[i])
}

/// What was read is a document that holds `rows` under the single key `top`.
pub open spec fn reads_as(read: Option<DocumentView>, top: Seq<char>, rows: Seq<RowView>) -> bool {
    match read {
        Some(document) => holds_rows(document, top, rows),
        None => false,
    }
}

/// Calls `serde_json::to_vec` on the map with the single key `top`, whose
/// value is the list of the rows, each as a map. Such a value always
/// serialises, and `serde_json::from_slice` reads the text back as a document
/// that holds the same rows; the keys of a map come back in sorted order.
#[verifier::external_body]
fn write_json(top: &str, rows: &Vec<Row>) -> (r: Result<Vec<u8>, serde_json::Error>)
    requires
        forall|i: int| 0 <= i < rows@.len() ==> distinct_keys(#[trigger] rows.deep_view()[i]),
    ensures
        r is Ok,
        r matches Ok(bytes) ==> bytes@ == json_text(top@, rows.deep_view()),
        r matches Ok(bytes) ==> reads_as(json_parsed(bytes@), top@, rows.deep_view()),
{
    let objects: Vec<BTreeMap<&str, &Option<String>>> = rows.iter().map(
        |row| row.iter().map(|pair| (pair.0.as_str(), &pair.1)).collect(),
    ).collect();
    let mut document = BTreeMap::new();
    document.insert(top, objects);
    serde_json::to_vec(&document)
}

/// Calls `serde_json::from_slice` for a map from texts to lists of maps from
/// texts to optional texts, and hands the maps out as lists of pairs.
#[verifier::external_body]
fn read_json(bytes: &[u8]) -> (r: Result<Document, serde_json::Error>)
    ensures
        match r {
            Ok(document) => json_parsed(bytes@) == Some(document.deep_view()),
            Err(_) => json_parsed(bytes@) is None,
        },
{
    match serde_json::from_slice::<BTreeMap<String, Vec<BTreeMap<String, Option<String>>>>>(bytes) {
        Ok(document) => Ok(
            document.into_iter().map(
                |(key, objects)| (
                    key,
                    objects.into_iter().map(|object| object.into_iter().collect()).collect(),
                ),
            ).collect(),
        ),
        Err(e) => Err(e),
    }
}

/// The value of the first pair with that key at or after `from`.
pub open spec fn field_from(row: RowView, key: Seq<char>, from: int) -> Option<Option<Seq<char>>>
    decreases row.len() - from,
{
    if from < 0 || from >= row.len() {
        None
    } else if row[from].0 == key {
        Some(row[from].1)
    } else {
        field_from(row, key, from + 1)
    }
}

/// The value of the first pair with that key: `None` where the key is
/// absent, `Some(None)` where it is present without a text.
pub open spec fn field(row: RowView, key: Seq<char>) -> Option<Option<Seq<char>>> {
    field_from(row, key, 0)
}

/// The rows under the first top-level key of that name at or after `from`.
pub open spec fn rows_from(document: DocumentView, key: Seq<char>, from: int) -> Option<
    Seq<RowView>,
>
    decreases document.len() - from,
{
    if from < 0 || from >= document.len() {
        None
    } else if document[from].0 == key {
        Some(document[from].1)
    } else {
        rows_from(document, key, from + 1)
    }
}

/// A field that an entry must have: present, with a text.
pub open spec fn required(value: Option<Option<Seq<char>>>) -> Option<Seq<char>> {
    match value {
        Some(Some(text)) => Some(text),
        _ => None,
    }
}

/// A field that an entry may lack: absent and empty are the same.
pub open spec fn optional(value: Option<Option<Seq<char>>>) -> Option<Seq<char>> {
    match value {
        Some(text) => text,
        None => None,
    }
}

/// The entry that a row stands for, or `None` where it lacks a name, a
/// username or a password. Keys that no field is named after are passed over.
pub open spec fn entry_of_row(row: RowView) -> Option<EntryView> {
    match (
        required(field(row, "name"@)),
        required(field(row, "username"@)),
        required(field(row, "password"@)),
    ) {
        (Some(name), Some(username), Some(password)) => Some(
            EntryView {
                name,
                username,
                password,
                url: optional(field(row, "url"@)),
                notes: optional(field(row, "notes"@)),
            },
        ),
        _ => None,
    }
}

/// The entries that the rows stand for, or `None` where one of them stands
/// for none.
pub open spec fn entries_of_rows(rows: Seq<RowView>) -> Option<Seq<EntryView>> {
    if forall|i: int| 0 <= i < rows.len() ==> entry_of_row(#[trigger] rows[i]) is Some {
        Some(Seq::new(rows.len(), |i: int| entry_of_row(rows[i]).unwrap()))
    } else {
        None
    }
}

/// The vault that a document stands for: the entries under `entries`.
pub open spec fn entries_of_document(document: DocumentView) -> Option<Seq<EntryView>> {
    match rows_from(document, "entries"@, 0) {
        Some(rows) => entries_of_rows(rows),
        None => None,
    }
}

/// The vault that an encoding stands for, or `None` where the bytes encode
/// none.
pub open spec fn decoded(bytes: Seq<u8>) -> Option<Seq<EntryView>> {
    match json_parsed(bytes) {
        Some(document) => entries_of_document(document),
        None => None,
    }
}

/// The row that stands for an entry: every field tagged with its name.
pub open spec fn row_of_entry(entry: EntryView) -> RowView {
    seq![
        ("name"@, Some(entry.name)),
        ("username"@, Some(entry.username)),
        ("password"@, Some(entry.password)),
        ("url"@, entry.url),
        ("notes"@, entry.notes),
    ]
}

/// The rows that stand for the entries, in their order.
pub open spec fn rows_of_entries(entries: Seq<EntryView>) -> Seq<RowView> {
    Seq::new(entries.len(), |i: int| row_of_entry(entries[i]))
}

/// The encoding of a vault.
pub open spec fn encoded(entries: Seq<EntryView>) -> Seq<u8> {
    json_text("entries"@, rows_of_entries(entries))
}

/// The five field names differ from one another.
pub proof fn lemma_field_names_differ()
    ensures
        "name"@ != "username"@,
        "name"@ != "password"@,
        "name"@ != "url"@,
        "name"@ != "notes"@,
        "username"@ != "password"@,
        "username"@ != "url"@,
        "username"@ != "notes"@,
        "password"@ != "url"@,
        "password"@ != "notes"@,
        "url"@ != "notes"@,
{
    reveal_strlit("name");
    reveal_strlit("username");
    reveal_strlit("password");
    reveal_strlit("url");
    reveal_strlit("notes");
    assert("username"@[0] != "password"@[0]);
    assert("name"@.len() == 4 && "username"@.len() == 8 && "password"@.len() == 8);
    assert("url"@.len() == 3 && "notes"@.len() == 5);
}

/// The row of an entry tags each field once.
pub proof fn lemma_row_of_entry_distinct(entry: EntryView)
    ensures
        distinct_keys(row_of_entry(entry)),
{
    lemma_field_names_differ();
}

fn clone_text(text: &Option<String>) -> (copy: Option<String>)
    ensures
        copy.deep_view() == text.deep_view(),
{
    match text {
        Some(t) => Some(t.clone()),
        None => None,
    }
}

/// The row that stands for an entry.
fn row_of(entry: &Entry) -> (row: Row)
    ensures
        row.deep_view() == row_of_entry(entry@),
{
    let mut row: Row = Vec::new();
    row.push(("name".to_owned(), Some(entry.name.clone())));
    row.push(("username".to_owned(), Some(entry.username.clone())));
    row.push(("password".to_owned(), Some(entry.password.clone())));
    row.push(("url".to_owned(), clone_text(&entry.url)));
    row.push(("notes".to_owned(), clone_text(&entry.notes)));
    assert(row.deep_view() =~= row_of_entry(entry@));
    row
}

/// The rows that stand for the entries of a vault, in stored order.
fn rows_of(vault: &Vault) -> (rows: Vec<Row>)
    ensures
        rows.deep_view() == rows_of_entries(vault@),
{
    let mut rows: Vec<Row> = Vec::new();
    let mut i: usize = 0;
    while i < vault.entries.len()
        invariant
            i <= vault.entries@.len(),
            rows@.len() == i,
            forall|j: int|
                0 <= j < i ==> (#[trigger] rows@[j]).deep_view() == row_of_entry(
                    vault.entries@[j]@,
                ),
        decreases vault.entries@.len() - i,
    {
        rows.push(row_of(&vault.entries[i]));
        i = i + 1;
    }
    assert(rows.deep_view() =~= rows_of_entries(vault@));
    rows
}

/// A field that is found at or after `from` is the value of a pair there.
proof fn lemma_field_found(row: RowView, key: Seq<char>, from: int)
    requires
        0 <= from,
        field_from(row, key, from) is Some,
    ensures
        exists|i: int|
            from <= i < row.len() && #[trigger] row[i] == (key, field_from(row, key, from).unwrap()),
    decreases row.len() - from,
{
    if row[from].0 == key {
        assert(row[from] == (key, field_from(row, key, from).unwrap()));
    } else {
        lemma_field_from_step(row, key, from);
        lemma_field_found(row, key, from + 1);
    }
}

/// Past a pair with another key the search goes on unchanged.
proof fn lemma_field_from_step(row: RowView, key: Seq<char>, from: int)
    requires
        0 <= from < row.len(),
        row[from].0 != key,
    ensures
        field_from(row, key, from) == field_from(row, key, from + 1),
{
}

/// A key that occurs at or after `from` is found.
proof fn lemma_field_present(row: RowView, key: Seq<char>, from: int, at: int)
    requires
        0 <= from <= at < row.len(),
        row[at].0 == key,
    ensures
        field_from(row, key, from) is Some,
    decreases at - from,
{
    if row[from].0 != key {
        lemma_field_from_step(row, key, from);
        lemma_field_present(row, key, from + 1, at);
    }
}

/// A row with the same pairs as a row without repeated keys gives, for each
/// key of that row, the value that the key has there.
pub proof fn lemma_field_of_same_pairs(
    read: RowView,
    written: RowView,
    key: Seq<char>,
    value: Option<Seq<char>>,
)
    requires
        same_pairs(read, written),
        distinct_keys(written),
        written.contains((key, value)),
    ensures
        field(read, key) == Some(value),
{
    assert(read.contains((key, value)));
    let at = choose|i: int| 0 <= i < read.len() && read[i] == (key, value);
    lemma_field_present(read, key, 0, at);
    lemma_field_found(read, key, 0);
    let found = field(read, key).unwrap();
    let i = choose|i: int| 0 <= i < read.len() && #[trigger] read[i] == (key, found);
    assert(read.contains((key, found)));
    assert(written.contains((key, found)));
    let a = choose|a: int| 0 <= a < written.len() && written[a] == (key, value);
    let b = choose|b: int| 0 <= b < written.len() && written[b] == (key, found);
    if a != b {
        if a < b {
            assert(written[a].0 != written[b].0);
        } else {
            assert(written[b].0 != written[a].0);
        }
    }
}

/// A row with the same pairs as the row of an entry stands for that entry.
pub proof fn lemma_entry_reads_back(read: RowView, entry: EntryView)
    requires
        same_pairs(read, row_of_entry(entry)),
    ensures
        entry_of_row(read) == Some(entry),
{
    let written = row_of_entry(entry);
    lemma_row_of_entry_distinct(entry);
    assert(written[0] == ("name"@, Some(entry.name)));
    assert(written[1] == ("username"@, Some(entry.username)));
    assert(written[2] == ("password"@, Some(entry.password)));
    assert(written[3] == ("url"@, entry.url));
    assert(written[4] == ("notes"@, entry.notes));
    lemma_field_of_same_pairs(read, written, "name"@, Some(entry.name));
    lemma_field_of_same_pairs(read, written, "username"@, Some(entry.username));
    lemma_field_of_same_pairs(read, written, "password"@, Some(entry.password));
    lemma_field_of_same_pairs(read, written, "url"@, entry.url);
    lemma_field_of_same_pairs(read, written, "notes"@, entry.notes);
}

/// Decoding undoes encoding: a document that holds the rows of some entries
/// under `entries` stands for exactly those entries, field for field, absent
/// optional fields included.
pub proof fn lemma_document_reads_back(document: DocumentView, entries: Seq<EntryView>)
    requires
        holds_rows(document, "entries"@, rows_of_entries(entries)),
    ensures
        entries_of_document(document) == Some(entries),
{
    let rows = document[0].1;
    assert(rows_from(document, "entries"@, 0) == Some(rows));
    assert forall|i: int| 0 <= i < rows.len() implies entry_of_row(#[trigger] rows[i]) == Some(
        entries[i],
    ) by {
        assert(same_pairs(document[0].1[i], rows_of_entries(entries)[i]));
        lemma_entry_reads_back(rows[i], entries[i]);
    }
    assert(entries_of_rows(rows).unwrap() =~= entries);
}

/// Encodes a vault: a JSON object with the key `entries`, whose value lists
/// one object per entry, every field tagged with its name and an absent
/// optional field written as `null`. Decoding the bytes gives the vault back.
pub fn encode(vault: &Vault) -> (r: Result<Vec<u8>, VaultError>)
    ensures
        r matches Ok(bytes) && bytes@ == encoded(vault@) && decoded(bytes@) == Some(vault@),
{
    let rows = rows_of(vault);
    proof {
        assert(rows.deep_view().len() == rows@.len());
        assert(rows_of_entries(vault@).len() == vault@.len());
        assert forall|i: int| 0 <= i < rows@.len() implies distinct_keys(
            #[trigger] rows.deep_view()[i],
        ) by {
            assert(rows_of_entries(vault@)[i] == row_of_entry(vault@[i]));
            lemma_row_of_entry_distinct(vault@[i]);
        }
    }
    match write_json("entries", &rows) {
        Ok(bytes) => {
            proof {
                lemma_document_reads_back(json_parsed(bytes@).unwrap(), vault@);
            }
            Ok(bytes)
        },
        Err(_) => Err(VaultError::FormatError),
    }
}

/// The value of the first pair of a row with that key.
fn look_up(row: &Row, key: &str) -> (value: Option<Option<String>>)
    ensures
        value.deep_view() == field(row.deep_view(), key@),
{
    let wanted = key.to_owned();
    let mut i: usize = 0;
    while i < row.len()
        invariant
            i <= row@.len(),
            wanted@ == key@,
            field(row.deep_view(), key@) == field_from(row.deep_view(), key@, i as int),
        decreases row@.len() - i,
    {
        proof {
            assert(row.deep_view()[i as int] == (row@[i as int].0@, row@[i as int].1.deep_view()));
        }
        if row[i].0 == wanted {
            return Some(clone_text(&row[i].1));
        }
        i = i + 1;
    }
    None
}

/// What `entry_of` returns on a row.
pub open spec fn entry_of_returns(row: RowView, r: Option<Entry>) -> bool {
    match entry_of_row(row) {
        Some(entry) => r matches Some(e) && e@ == entry,
        None => r is None,
    }
}

/// The entry that a row stands for, if it has a name, a username and a
/// password.
pub fn entry_of(row: &Row) -> (r: Option<Entry>)
    ensures
        entry_of_returns(row.deep_view(), r),
{
    let name = look_up(row, "name");
    let username = look_up(row, "username");
    let password = look_up(row, "password");
    let url = look_up(row, "url");
    let notes = look_up(row, "notes");
    match (name, username, password) {
        (Some(Some(name)), Some(Some(username)), Some(Some(password))) => Some(
            Entry {
                name,
                username,
                password,
                url: match url {
                    Some(text) => text,
                    None => None,
                },
                notes: match notes {
                    Some(text) => text,
                    None => None,
                },
            },
        ),
        _ => None,
    }
}

/// What `read_document` and `decode` return where the entries are `entries`.
pub open spec fn decode_returns(entries: Option<Seq<EntryView>>, r: Result<Vault, VaultError>) -> bool {
    match entries {
        Some(entries) => r matches Ok(vault) && vault@ == entries,
        None => r matches Err(e) && e == VaultError::FormatError,
    }
}

/// The vault that a document stands for. The document must have the key
/// `entries`, and every object under it a name, a username and a password.
pub fn read_document(document: &Document) -> (r: Result<Vault, VaultError>)
    ensures
        decode_returns(entries_of_document(document.deep_view()), r),
{
    let wanted = "entries".to_owned();
    let mut k: usize = 0;
    while k < document.len()
        invariant
            k <= document@.len(),
            wanted@ == "entries"@,
            rows_from(document.deep_view(), "entries"@, 0) == rows_from(
                document.deep_view(),
                "entries"@,
                k as int,
            ),
        decreases document@.len() - k,
    {
        proof {
            assert(document.deep_view()[k as int] == (
                document@[k as int].0@,
                document@[k as int].1.deep_view(),
            ));
        }
        if document[k].0 == wanted {
            return read_rows(&document[k].1);
        }
        k = k + 1;
    }
    Err(VaultError::FormatError)
}

/// The vault that the rows stand for, in their order.
fn read_rows(rows: &Vec<Row>) -> (r: Result<Vault, VaultError>)
    ensures
        decode_returns(entries_of_rows(rows.deep_view()), r),
{
    let mut vault = Vault::new();
    let mut i: usize = 0;
    while i < rows.len()
        invariant
            i <= rows@.len(),
            vault@.len() == i,
            forall|j: int|
                0 <= j < i ==> entry_of_row(#[trigger] rows.deep_view()[j]) == Some(vault@[j]),
        decreases rows@.len() - i,
    {
        proof {
            assert(rows.deep_view()[i as int] == rows@[i as int].deep_view());
        }
        match entry_of(&rows[i]) {
            Some(entry) => {
                vault.add(entry);
            },
            None => {
                return Err(VaultError::FormatError);
            },
        }
        i = i + 1;
    }
    assert(entries_of_rows(rows.deep_view()).unwrap() =~= vault@);
    Ok(vault)
}

/// Decodes a vault. Bytes that are not the encoding of a vault are refused
/// with a format error, and nothing of them is kept.
pub fn decode(bytes: &[u8]) -> (r: Result<Vault, VaultError>)
    ensures
        decode_returns(decoded(bytes@), r),
{
    match read_json(bytes) {
        Ok(document) => read_document(&document),
        Err(_) => Err(VaultError::FormatError),
    }
}

} // verus!
