//! The translation table: display texts by identifier, for one language.

use vstd::hash_map::StringHashMap;
use vstd::prelude::*;

verus! {

/// The text shown for an identifier that the table does not hold.
pub open spec fn placeholder() -> Seq<char> {
    seq!['?', '?', '?']
}

/// The text shown for `id`: its entry in the table, or the placeholder.
pub open spec fn resolved(table: Map<Seq<char>, Seq<char>>, id: Seq<char>) -> Seq<char> {
    if table.contains_key(id) {
        table[id]
    } else {
        placeholder()
    }
}

/// An identifier that the table does not hold is shown as the placeholder,
/// and one that it holds as its entry.
pub proof fn lemma_resolved(table: Map<Seq<char>, Seq<char>>, id: Seq<char>)
    ensures
        !table.contains_key(id) ==> resolved(table, id) == placeholder(),
        table.contains_key(id) ==> resolved(table, id) == table[id],
{
}

/// The table that the rows of a sheet make: each row gives its first field
/// as the identifier and the field in column `column` as the text. A later
/// row replaces an earlier one with the same identifier; a row that has no
/// field in that column gives nothing.
pub open spec fn table_of_rows(rows: Seq<Seq<Seq<char>>>, column: int) -> Map<
    Seq<char>,
    Seq<char>,
>
    decreases rows.len(),
{
    if rows.len() == 0 {
        Map::empty()
    } else {
        let before = table_of_rows(rows.drop_last(), column);
        let row = rows.last();
        if 0 <= column < row.len() {
            before.insert(row[0], row[column])
        } else {
            before
        }
    }
}

/// The fields of the rows, as plain sequences.
pub open spec fn rows_view(rows: Seq<Vec<String>>) -> Seq<Seq<Seq<char>>> {
    Seq::new(rows.len(), |i: int| Seq::new(rows[i]@.len(), |j: int| rows[i]@[j]@))
}

/// The records that the `csv` crate reads from the bytes of a sheet, with
/// its default settings: the first record is the header and is left out,
/// and so is each record that it reports as an error. It is a function of
/// the bytes alone.
pub uninterp spec fn csv_records(data: Seq<u8>) -> Seq<Seq<Seq<char>>>;

/// Reads the records of a sheet with `csv::Reader::from_reader` and
/// `Reader::records`, and keeps those that were read without error, each as
/// the list of its fields. The contract claims only that they are what
/// [`csv_records`] names.
#[verifier::external_body]
fn read_records(data: &[u8]) -> (rows: Vec<Vec<String>>)
    ensures
        rows_view(rows@) == csv_records(data@),
{
    let mut reader = csv::Reader::from_reader(data);
    reader.records().filter_map(|record| record.ok()).map(
        |record| record.iter().map(|field| field.to_owned()).collect(),
    ).collect()
}

/// Display texts by identifier.
pub struct Translation {
    table: StringHashMap<String>,
}

impl View for Translation {
    type V = Map<Seq<char>, Seq<char>>;

    closed spec fn view(&self) -> Map<Seq<char>, Seq<char>> {
        self.table@.map_values(|text: String| text@)
    }
}

impl Translation {
    /// A table without entries.
    pub fn new() -> (table: Translation)
        ensures
            table@ == Map::<Seq<char>, Seq<char>>::empty(),
    {
        Translation { table: StringHashMap::new() }
    }

    /// Gives `id` the text `text`, in place of the text it had, if any.
    pub fn insert(&mut self, id: &str, text: &str)
        ensures
            final(self)@ == old(self)@.insert(id@, text@),
    {
        self.table.insert(id.to_owned(), text.to_owned());
    }

    /// The text that the table holds for `id`.
    pub fn lookup(&self, id: &str) -> (text: Option<&String>)
        ensures
            match text {
                Some(t) => self@.contains_key(id@) && self@[id@] == t@,
                None => !self@.contains_key(id@),
            },
    {
        self.table.get(id)
    }

    /// The text shown for `id`: its entry in the table, or `???` where the
    /// table has none.
    pub fn resolve(&self, id: &str) -> (text: String)
        ensures
            text@ == resolved(self@, id@),
    {
        match self.lookup(id) {
            Some(found) => found.clone(),
            None => {
                proof {
                    reveal_strlit("???");
                }
                "???".to_owned()
            },
        }
    }

    /// The table that the rows of a sheet make, with the texts taken from
    /// column `column`.
    pub fn from_rows(rows: &Vec<Vec<String>>, column: usize) -> (table: Translation)
        ensures
            table@ == table_of_rows(rows_view(rows@), column as int),
    {
        let mut table = Translation::new();
        let ghost all = rows_view(rows@);
        let mut i: usize = 0;
        while i < rows.len()
            invariant
                i <= rows@.len(),
                all == rows_view(rows@),
                table@ == table_of_rows(all.take(i as int), column as int),
            decreases rows@.len() - i,
        {
            let row = &rows[i];
            proof {
                assert(all.take(i + 1).drop_last() =~= all.take(i as int));
            }
            if column < row.len() {
                table.insert(row[0].as_str(), row[column].as_str());
            }
            i += 1;
        }
        proof {
            assert(all.take(rows@.len() as int) =~= all);
        }
        table
    }
}

/// The table that the bytes of a comma-separated sheet make, with the texts
/// taken from the column `language_index`.
pub fn load_translation(data: &[u8], language_index: usize) -> (table: Translation)
    ensures
        table@ == table_of_rows(csv_records(data@), language_index as int),
{
    let rows = read_records(data);
    Translation::from_rows(&rows, language_index)
}

} // verus!
