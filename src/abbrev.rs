//! The table of abbreviations: short upper-cased forms of book names and the
//! names they stand for.
use vstd::prelude::*;
use crate::text::{to_upper, upper_of};

verus! {

#[verifier::external_type_specification]
#[verifier::external_body]
pub struct ExCsvError(csv::Error);

/// What csv's reader, with no header row, makes of `text`: its records, each
/// as its fields, or nothing when the text is not well-formed.
pub uninterp spec fn csv_records(text: Seq<char>) -> Option<Seq<Seq<Seq<char>>>>;

/// Relies on csv's `ReaderBuilder` (with `has_headers(false)`) and
/// `Reader::records`: every row of `text`, the first one included, as its
/// fields, or the first parse error.
#[verifier::external_body]
fn read_records(text: &str) -> (r: Result<Vec<Vec<String>>, csv::Error>)
    ensures
        r is Ok == csv_records(text@) is Some,
        r is Ok ==> r->Ok_0.deep_view() == csv_records(text@)->0,
{
    let mut reader = csv::ReaderBuilder::new().has_headers(false).from_reader(text.as_bytes());
    let mut out = Vec::new();
    for record in reader.records() {
        out.push(record?.iter().map(|f| f.to_string()).collect());
    }
    Ok(out)
}

/// Why a table could not be read.
#[derive(Clone, Copy, Debug, PartialEq, Eq, Structural)]
pub enum TableError {
    /// The text is not well-formed delimited text.
    Malformed,
    /// The record at this index (counting from 0) has fewer than two fields.
    MissingField { record: usize },
}

/// The table that a sequence of (key, expansion) pairs makes, a later pair
/// replacing an earlier one with the same key.
pub open spec fn table_of(pairs: Seq<(Seq<char>, Seq<char>)>) -> Map<Seq<char>, Seq<char>>
    decreases pairs.len(),
{
    if pairs.len() == 0 {
        Map::empty()
    } else {
        table_of(pairs.drop_last()).insert(pairs.last().0, pairs.last().1)
    }
}

/// The table that the records of a delimited text make: each record's first
/// field, upper-cased, stands for its second.
pub open spec fn records_table(records: Seq<Seq<Seq<char>>>) -> Map<Seq<char>, Seq<char>>
    decreases records.len(),
{
    if records.len() == 0 {
        Map::empty()
    } else {
        records_table(records.drop_last()).insert(
            upper_of(records.last()[0]),
            records.last()[1],
        )
    }
}

/// The index of the first record with fewer than two fields, if any.
pub open spec fn short_record(records: Seq<Seq<Seq<char>>>) -> Option<int> {
    if exists|i: int| 0 <= i < records.len() && #[trigger] records[i].len() < 2 {
        Some(
            choose|i: int|
                0 <= i < records.len() && #[trigger] records[i].len() < 2 && forall|j: int|
                    0 <= j < i ==> records[j].len() >= 2,
        )
    } else {
        None
    }
}

/// The (key, expansion) pairs that a sequence of entries holds.
pub open spec fn pairs_of(entries: Seq<(String, String)>) -> Seq<(Seq<char>, Seq<char>)> {
    entries.map_values(|e: (String, String)| (e.0@, e.1@))
}

/// A mapping from upper-cased short forms to the names they stand for.
pub struct AbbreviationTable {
    entries: Vec<(String, String)>,
}

impl View for AbbreviationTable {
    type V = Map<Seq<char>, Seq<char>>;

    closed spec fn view(&self) -> Map<Seq<char>, Seq<char>> {
        table_of(pairs_of(self.entries@))
    }
}

impl AbbreviationTable {
    /// An empty table.
    pub fn new() -> (r: AbbreviationTable)
        ensures
            r@ == Map::<Seq<char>, Seq<char>>::empty(),
    {
        let r = AbbreviationTable { entries: Vec::new() };
        assert(pairs_of(r.entries@) =~= Seq::empty());
        r
    }

    /// Makes `key`, upper-cased, stand for `expansion`, replacing what it stood for.
    pub fn insert(&mut self, key: &String, expansion: &String)
        ensures
            final(self)@ == old(self)@.insert(upper_of(key@), expansion@),
    {
        let k = to_upper(key.as_str());
        self.entries.push((k, expansion.clone()));
        assert(pairs_of(self.entries@).drop_last() =~= pairs_of(old(self).entries@));
    }

    /// The expansion of `key` (compared exactly), if it is in the table.
    pub fn get(&self, key: &String) -> (r: Option<String>)
        ensures
            r is Some == self@.contains_key(key@),
            r is Some ==> r->0@ == self@[key@],
    {
        let ghost all = pairs_of(self.entries@);
        let mut i = self.entries.len();
        assert(all.take(i as int) =~= all);
        while i > 0
            invariant
                i <= self.entries.len(),
                all == pairs_of(self.entries@),
                table_of(all.take(i as int)).contains_key(key@) == table_of(all).contains_key(key@),
                table_of(all.take(i as int)).contains_key(key@) ==> table_of(all.take(i as int))[key@]
                    == table_of(all)[key@],
            decreases i,
        {
            assert(all.take(i as int).drop_last() =~= all.take(i - 1));
            assert(all.take(i as int).last() == (self.entries@[i - 1].0@, self.entries@[i - 1].1@));
            if self.entries[i - 1].0 == *key {
                return Some(self.entries[i - 1].1.clone());
            }
            i = i - 1;
        }
        assert(all.take(0) =~= Seq::empty());
        None
    }

    /// `token`, upper-cased, replaced by its expansion (upper-cased) when it is
    /// an abbreviation in the table, and `token` unchanged when it is not.
    pub fn resolve(&self, token: &String) -> (r: String)
        ensures
            self@.contains_key(upper_of(token@)) ==> r@ == upper_of(self@[upper_of(token@)]),
            !self@.contains_key(upper_of(token@)) ==> r@ == token@,
    {
        let key = to_upper(token.as_str());
        match self.get(&key) {
            Some(e) => to_upper(e.as_str()),
            None => token.clone(),
        }
    }

    /// The table that the delimited text `text` describes: one record per row,
    /// the first row included, whose first field (upper-cased) stands for its
    /// second. Fails when the text is not well-formed, or names the first record
    /// with fewer than two fields.
    pub fn from_csv(text: &str) -> (r: Result<AbbreviationTable, TableError>)
        ensures
            csv_records(text@) is None ==> r == Err::<AbbreviationTable, TableError>(
                TableError::Malformed,
            ),
            csv_records(text@) is Some ==> match short_record(csv_records(text@)->0) {
                Some(i) => r is Err && r->Err_0 == (TableError::MissingField { record: i as usize }),
                None => r is Ok && r->Ok_0@ == records_table(csv_records(text@)->0),
            },
    {
        match read_records(text) {
            Err(_) => Err(TableError::Malformed),
            Ok(records) => AbbreviationTable::from_records(&records),
        }
    }

    /// The table that `records` describe: each record's first field,
    /// upper-cased, stands for its second. Fails on the first record with
    /// fewer than two fields, naming it.
    pub fn from_records(records: &Vec<Vec<String>>) -> (r: Result<AbbreviationTable, TableError>)
        ensures
            match short_record(records.deep_view()) {
                Some(i) => r is Err && r->Err_0 == (TableError::MissingField { record: i as usize }),
                None => r is Ok && r->Ok_0@ == records_table(records.deep_view()),
            },
    {
        let ghost rs = records.deep_view();
        let mut table = AbbreviationTable::new();
        let mut i: usize = 0;
        while i < records.len()
            invariant
                i <= records.len(),
                rs == records.deep_view(),
                forall|j: int| 0 <= j < i ==> #[trigger] rs[j].len() >= 2,
                table@ == records_table(rs.take(i as int)),
            decreases records.len() - i,
        {
            assert(rs[i as int] == records[i as int].deep_view());
            if records[i].len() < 2 {
                assert(rs[i as int].len() < 2);
                let ghost c = choose|k: int|
                    0 <= k < rs.len() && #[trigger] rs[k].len() < 2 && forall|j: int|
                        0 <= j < k ==> rs[j].len() >= 2;
                assert(c == i) by {
                    if c < i {
                        assert(rs[c].len() >= 2);
                    } else if c > i {
                        assert(rs[i as int].len() >= 2);
                    }
                }
                return Err(TableError::MissingField { record: i });
            }
            table.insert(&records[i][0], &records[i][1]);
            assert(rs.take(i + 1).drop_last() =~= rs.take(i as int));
            i = i + 1;
        }
        assert(rs.take(i as int) =~= rs);
        Ok(table)
    }
}

} // verus!
