//! The fixed lookup universe records are drawn from: five read-only tables
//! of example strings, held as raw bytes.  The tables are built elsewhere
//! (they are opaque example data); this module only states and checks the
//! shape the generator relies on.

use vstd::prelude::*;

verus! {

/// How many entries of the name, industry, city and state tables the
/// categorical draw ranges over.
pub const CATEGORY_DRAW_RANGE: usize = 100;

/// How many entries of the country table the country draw ranges over.
pub const COUNTRY_DRAW_RANGE: usize = 5;

/// Longest entry a table may hold, so that one encoded record stays well
/// below the micro-chunk size.
pub const MAX_FIELD_BYTES: usize = 1024;

/// A table entry the generator can use: short enough to bound record
/// size, and free of newlines so that a CSV row stays one line.
pub open spec fn entry_ok(s: Seq<u8>) -> bool {
    &&& s.len() <= MAX_FIELD_BYTES
    &&& forall|i: int| 0 <= i < s.len() ==> s[i] != 10
}

/// All entries of a table usable, and the table long enough for the draw
/// range it serves.
pub open spec fn table_ok(t: Seq<Seq<u8>>, min_len: int) -> bool {
    &&& t.len() >= min_len
    &&& forall|i: int| 0 <= i < t.len() ==> entry_ok(#[trigger] t[i])
}

/// Mathematical image of the five tables.
pub struct DataPoolsView {
    pub names: Seq<Seq<u8>>,
    pub industries: Seq<Seq<u8>>,
    pub cities: Seq<Seq<u8>>,
    pub states: Seq<Seq<u8>>,
    pub countries: Seq<Seq<u8>>,
}

impl DataPoolsView {
    /// The shape every consumer of the dictionary relies on.
    pub open spec fn wf(self) -> bool {
        &&& table_ok(self.names, CATEGORY_DRAW_RANGE as int)
        &&& table_ok(self.industries, CATEGORY_DRAW_RANGE as int)
        &&& table_ok(self.cities, CATEGORY_DRAW_RANGE as int)
        &&& table_ok(self.states, CATEGORY_DRAW_RANGE as int)
        &&& table_ok(self.countries, COUNTRY_DRAW_RANGE as int)
    }
}

/// The five lookup tables, immutable once built and shared read-only by
/// every shard worker.
pub struct DataPools {
    pub names: Vec<Vec<u8>>,
    pub cities: Vec<Vec<u8>>,
    pub states: Vec<Vec<u8>>,
    pub countries: Vec<Vec<u8>>,
    pub industries: Vec<Vec<u8>>,
}

/// The sequence of entry views of one table.
pub open spec fn table_view(t: Seq<Vec<u8>>) -> Seq<Seq<u8>> {
    Seq::new(t.len(), |i: int| t[i]@)
}

impl View for DataPools {
    type V = DataPoolsView;

    open spec fn view(&self) -> DataPoolsView {
        DataPoolsView {
            names: table_view(self.names@),
            industries: table_view(self.industries@),
            cities: table_view(self.cities@),
            states: table_view(self.states@),
            countries: table_view(self.countries@),
        }
    }
}

/// Checks that one table is usable: long enough for its draw range, every
/// entry short enough and newline-free.
fn check_table(t: &Vec<Vec<u8>>, min_len: usize) -> (r: bool)
    ensures
        r == table_ok(table_view(t@), min_len as int),
{
    if t.len() < min_len {
        return false;
    }
    let n: usize = t.len();
    let mut i: usize = 0;
    while i < n
        invariant
            n == t@.len(),
            i <= n,
            forall|k: int| 0 <= k < i ==> entry_ok(#[trigger] table_view(t@)[k]),
        ensures
            i <= n,
            forall|k: int| 0 <= k < i ==> entry_ok(#[trigger] table_view(t@)[k]),
            i < n ==> !entry_ok(table_view(t@)[i as int]),
        decreases n - i,
    {
        let e: &Vec<u8> = &t[i];
        proof {
            assert(table_view(t@)[i as int] == e@);
        }
        if e.len() > MAX_FIELD_BYTES {
            break;
        }
        let elen: usize = e.len();
        let mut j: usize = 0;
        let mut clean: bool = true;
        while j < elen
            invariant
                elen == e@.len(),
                j <= elen,
                clean == forall|k: int| 0 <= k < j ==> e@[k] != 10,
            decreases elen - j,
        {
            if e[j] == 10 {
                clean = false;
            }
            j = j + 1;
        }
        if !clean {
            break;
        }
        i = i + 1;
    }
    i == n
}

impl DataPools {
    /// Takes ownership of pre-built tables, accepting them only in the
    /// shape the generator relies on.
    pub fn new(
        names: Vec<Vec<u8>>,
        industries: Vec<Vec<u8>>,
        cities: Vec<Vec<u8>>,
        states: Vec<Vec<u8>>,
        countries: Vec<Vec<u8>>,
    ) -> (r: Option<DataPools>)
        ensures
            match r {
                Some(d) => {
                    &&& d@.wf()
                    &&& d@.names == table_view(names@)
                    &&& d@.industries == table_view(industries@)
                    &&& d@.cities == table_view(cities@)
                    &&& d@.states == table_view(states@)
                    &&& d@.countries == table_view(countries@)
                },
                None => !({
                    &&& table_ok(table_view(names@), CATEGORY_DRAW_RANGE as int)
                    &&& table_ok(table_view(industries@), CATEGORY_DRAW_RANGE as int)
                    &&& table_ok(table_view(cities@), CATEGORY_DRAW_RANGE as int)
                    &&& table_ok(table_view(states@), CATEGORY_DRAW_RANGE as int)
                    &&& table_ok(table_view(countries@), COUNTRY_DRAW_RANGE as int)
                }),
            },
    {
        if !check_table(&names, CATEGORY_DRAW_RANGE) {
            return None;
        }
        if !check_table(&industries, CATEGORY_DRAW_RANGE) {
            return None;
        }
        if !check_table(&cities, CATEGORY_DRAW_RANGE) {
            return None;
        }
        if !check_table(&states, CATEGORY_DRAW_RANGE) {
            return None;
        }
        if !check_table(&countries, COUNTRY_DRAW_RANGE) {
            return None;
        }
        Some(DataPools { names, cities, states, countries, industries })
    }
}

} // verus!
