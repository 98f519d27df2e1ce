//! Record synthesis: a pure, reproducible function from the request seed,
//! a record offset and the dictionary to one synthetic business location.

use crate::dict::{entry_ok, DataPools, DataPoolsView, CATEGORY_DRAW_RANGE, COUNTRY_DRAW_RANGE};
use crate::random::{draw_record, record_draws};
use crate::text::strip_commas;
use crate::text::strip_commas_exec;
use vstd::prelude::*;

verus! {

/// One synthetic record.  String fields are raw bytes out of the
/// dictionary; revenue is held in hundredths of the currency unit.
pub struct BusinessLocation {
    pub id: u64,
    pub name: Vec<u8>,
    pub industry: Vec<u8>,
    pub revenue_cents: u64,
    pub employees: u32,
    pub city: Vec<u8>,
    pub state: Vec<u8>,
    pub country: Vec<u8>,
}

/// Mathematical image of a record.
pub struct BusinessLocationView {
    pub id: u64,
    pub name: Seq<u8>,
    pub industry: Seq<u8>,
    pub revenue_cents: u64,
    pub employees: u32,
    pub city: Seq<u8>,
    pub state: Seq<u8>,
    pub country: Seq<u8>,
}

impl View for BusinessLocation {
    type V = BusinessLocationView;

    open spec fn view(&self) -> BusinessLocationView {
        BusinessLocationView {
            id: self.id,
            name: self.name@,
            industry: self.industry@,
            revenue_cents: self.revenue_cents,
            employees: self.employees,
            city: self.city@,
            state: self.state@,
            country: self.country@,
        }
    }
}

/// The record at `offset`: the id is the offset itself; the categorical
/// fields come from one draw over the front of the tables; the industry
/// has its commas stripped so a CSV row needs no quoting.  The draws are
/// already inside the draw ranges; the reduction here makes that plain
/// in the specification itself.
pub open spec fn synth_record(seed: u64, offset: u64, d: DataPoolsView) -> BusinessLocationView {
    let dr = record_draws(seed, offset);
    let cat = (dr.0 % (CATEGORY_DRAW_RANGE as u64)) as int;
    let co = (dr.3 % (COUNTRY_DRAW_RANGE as u64)) as int;
    BusinessLocationView {
        id: offset,
        name: d.names[cat],
        industry: strip_commas(d.industries[cat]),
        revenue_cents: dr.1,
        employees: dr.2,
        city: d.cities[cat],
        state: d.states[cat],
        country: d.countries[co],
    }
}

/// Copies a byte string out of a table.
fn clone_bytes(v: &Vec<u8>) -> (r: Vec<u8>)
    ensures
        r@ == v@,
{
    let r: Vec<u8> = v.clone();
    proof {
        assert(r@ =~= v@);
    }
    r
}

/// Synthesizes the record at `offset`.  Calling this twice with the same
/// arguments yields field-identical records, and the ranges of the drawn
/// fields are pinned alongside the record itself.
pub fn synthesize(seed: u64, offset: u64, dict: &DataPools) -> (r: BusinessLocation)
    requires
        dict@.wf(),
    ensures
        r@ == synth_record(seed, offset, dict@),
        10000000 <= r@.revenue_cents < 10000000000,
        10 <= r@.employees < 10000,
        entry_ok(r@.name),
        entry_ok(r@.industry),
        entry_ok(r@.city),
        entry_ok(r@.state),
        entry_ok(r@.country),
        forall|i: int| 0 <= i < r@.industry.len() ==> r@.industry[i] != 44,
{
    let (category, revenue_cents, employees, country) = draw_record(seed, offset);
    let ci: usize = category as usize;
    let co: usize = country as usize;
    proof {
        assert(ci < CATEGORY_DRAW_RANGE);
        assert(co < COUNTRY_DRAW_RANGE);
        let entry = dict@.industries[ci as int];
        assert(entry_ok(entry));
        crate::text::lemma_strip_commas_len(entry);
        crate::text::lemma_strip_commas_absent(entry, 10);
        crate::text::lemma_strip_commas_no_comma(entry);
    }
    BusinessLocation {
        id: offset,
        name: clone_bytes(&dict.names[ci]),
        industry: strip_commas_exec(dict.industries[ci].as_slice()),
        revenue_cents,
        employees,
        city: clone_bytes(&dict.cities[ci]),
        state: clone_bytes(&dict.states[ci]),
        country: clone_bytes(&dict.countries[co]),
    }
}

} // verus!
