//! Record encoding.  A record is rendered to its byte-exact wire form,
//! JSON object or CSV line, in the fixed field order id, name, industry,
//! revenue, employees, city, state, country.  The literal JSON syntax
//! around the record-specific bytes comes from templates precomputed
//! once per request, so the hot path only copies bytes.

use crate::dict::{entry_ok, DataPoolsView, CATEGORY_DRAW_RANGE, COUNTRY_DRAW_RANGE, MAX_FIELD_BYTES};
use crate::format::OutputFormat;
use crate::random::record_draws;
use crate::record::{synth_record, BusinessLocation, BusinessLocationView};
use crate::text::{
    append_bytes, append_escaped, append_lit, append_money, append_u64, ascii_seq, count_byte,
    dec_digits, json_escape, lemma_count_byte_absent, lemma_count_byte_app, lemma_dec_digits_len,
    lemma_dec_digits_range, lemma_json_escape_len, lemma_money_len, lemma_money_range,
    lemma_strip_commas_absent, money_digits, pow10,
};
use vstd::prelude::*;

verus! {

/// Opening brace and the id key.
pub open spec fn tpl_head_id(pretty: bool) -> Seq<u8> {
    if pretty {
        ascii_seq("{\n  \"id\": "@)
    } else {
        ascii_seq("{\"id\":"@)
    }
}

/// Separator and the name key, up to its opening quote.
pub open spec fn tpl_name(pretty: bool) -> Seq<u8> {
    if pretty {
        ascii_seq(",\n  \"name\": \""@)
    } else {
        ascii_seq(",\"name\":\""@)
    }
}

/// Closing quote of name, separator, the industry key and opening quote.
pub open spec fn tpl_industry(pretty: bool) -> Seq<u8> {
    if pretty {
        ascii_seq("\",\n  \"industry\": \""@)
    } else {
        ascii_seq("\",\"industry\":\""@)
    }
}

/// Closing quote of industry, separator and the revenue key.
pub open spec fn tpl_revenue(pretty: bool) -> Seq<u8> {
    if pretty {
        ascii_seq("\",\n  \"revenue\": "@)
    } else {
        ascii_seq("\",\"revenue\":"@)
    }
}

/// Separator and the employees key.
pub open spec fn tpl_employees(pretty: bool) -> Seq<u8> {
    if pretty {
        ascii_seq(",\n  \"employees\": "@)
    } else {
        ascii_seq(",\"employees\":"@)
    }
}

/// Separator, the city key and opening quote.
pub open spec fn tpl_city(pretty: bool) -> Seq<u8> {
    if pretty {
        ascii_seq(",\n  \"city\": \""@)
    } else {
        ascii_seq(",\"city\":\""@)
    }
}

/// Closing quote of city, separator, the state key and opening quote.
pub open spec fn tpl_state(pretty: bool) -> Seq<u8> {
    if pretty {
        ascii_seq("\",\n  \"state\": \""@)
    } else {
        ascii_seq("\",\"state\":\""@)
    }
}

/// Closing quote of state, separator, the country key and opening quote.
pub open spec fn tpl_country(pretty: bool) -> Seq<u8> {
    if pretty {
        ascii_seq("\",\n  \"country\": \""@)
    } else {
        ascii_seq("\",\"country\":\""@)
    }
}

/// Closing quote of country and the closing brace.
pub open spec fn tpl_tail(pretty: bool) -> Seq<u8> {
    if pretty {
        ascii_seq("\"\n}"@)
    } else {
        ascii_seq("\"}"@)
    }
}

/// The separator a shard writes before every JSON record it emits; the
/// consumer strips the one before the first record of the stream.
pub open spec fn json_lead(pretty: bool) -> Seq<u8> {
    if pretty {
        ascii_seq(",\n"@)
    } else {
        ascii_seq(","@)
    }
}

/// How many leading separator bytes the consumer strips from the front
/// of the first chunk of a stream: the JSON lead, nothing for CSV.
pub open spec fn lead_len(format: OutputFormat, pretty: bool) -> nat {
    match format {
        OutputFormat::JSON => json_lead(pretty).len(),
        OutputFormat::CSV => 0,
    }
}

/// The JSON object a record encodes to.
pub open spec fn json_record_bytes(r: BusinessLocationView, pretty: bool) -> Seq<u8> {
    tpl_head_id(pretty) + dec_digits(r.id as nat) + tpl_name(pretty) + json_escape(r.name)
        + tpl_industry(pretty) + json_escape(r.industry) + tpl_revenue(pretty) + money_digits(
        r.revenue_cents as nat,
    ) + tpl_employees(pretty) + dec_digits(r.employees as nat) + tpl_city(pretty) + json_escape(
        r.city,
    ) + tpl_state(pretty) + json_escape(r.state) + tpl_country(pretty) + json_escape(r.country)
        + tpl_tail(pretty)
}

/// The CSV line a record encodes to: fields comma-separated, no quoting,
/// one trailing newline.
pub open spec fn csv_record_bytes(r: BusinessLocationView) -> Seq<u8> {
    dec_digits(r.id as nat) + seq![44u8] + r.name + seq![44u8] + r.industry + seq![44u8]
        + money_digits(r.revenue_cents as nat) + seq![44u8] + dec_digits(r.employees as nat)
        + seq![44u8] + r.city + seq![44u8] + r.state + seq![44u8] + r.country + seq![10u8]
}

/// Each CSV record is exactly one line: built from a well-formed
/// dictionary, it holds exactly one newline, its own terminator, so a
/// CSV body of `n` records parses into `n` rows.
pub proof fn lemma_csv_record_one_line(seed: u64, offset: u64, d: DataPoolsView)
    requires
        d.wf(),
    ensures
        count_byte(csv_record_bytes(synth_record(seed, offset, d)), 10) == 1,
{
    let r = synth_record(seed, offset, d);
    let dr = record_draws(seed, offset);
    let cat = (dr.0 % (CATEGORY_DRAW_RANGE as u64)) as int;
    let co = (dr.3 % (COUNTRY_DRAW_RANGE as u64)) as int;
    assert(entry_ok(d.names[cat]));
    assert(entry_ok(d.industries[cat]));
    assert(entry_ok(d.cities[cat]));
    assert(entry_ok(d.states[cat]));
    assert(entry_ok(d.countries[co]));
    lemma_strip_commas_absent(d.industries[cat], 10);
    lemma_dec_digits_range(r.id as nat);
    lemma_dec_digits_range(r.employees as nat);
    lemma_money_range(r.revenue_cents as nat);
    let comma = seq![44u8];
    let nl = seq![10u8];
    lemma_count_byte_absent(dec_digits(r.id as nat), 10);
    lemma_count_byte_absent(dec_digits(r.employees as nat), 10);
    lemma_count_byte_absent(money_digits(r.revenue_cents as nat), 10);
    lemma_count_byte_absent(r.name, 10);
    lemma_count_byte_absent(r.industry, 10);
    lemma_count_byte_absent(r.city, 10);
    lemma_count_byte_absent(r.state, 10);
    lemma_count_byte_absent(r.country, 10);
    lemma_count_byte_absent(comma, 10);
    let s1 = dec_digits(r.id as nat) + comma;
    lemma_count_byte_app(dec_digits(r.id as nat), comma, 10);
    let s2 = s1 + r.name;
    lemma_count_byte_app(s1, r.name, 10);
    let s3 = s2 + comma;
    lemma_count_byte_app(s2, comma, 10);
    let s4 = s3 + r.industry;
    lemma_count_byte_app(s3, r.industry, 10);
    let s5 = s4 + comma;
    lemma_count_byte_app(s4, comma, 10);
    let s6 = s5 + money_digits(r.revenue_cents as nat);
    lemma_count_byte_app(s5, money_digits(r.revenue_cents as nat), 10);
    let s7 = s6 + comma;
    lemma_count_byte_app(s6, comma, 10);
    let s8 = s7 + dec_digits(r.employees as nat);
    lemma_count_byte_app(s7, dec_digits(r.employees as nat), 10);
    let s9 = s8 + comma;
    lemma_count_byte_app(s8, comma, 10);
    let s10 = s9 + r.city;
    lemma_count_byte_app(s9, r.city, 10);
    let s11 = s10 + comma;
    lemma_count_byte_app(s10, comma, 10);
    let s12 = s11 + r.state;
    lemma_count_byte_app(s11, r.state, 10);
    let s13 = s12 + comma;
    lemma_count_byte_app(s12, comma, 10);
    let s14 = s13 + r.country;
    lemma_count_byte_app(s13, r.country, 10);
    lemma_count_byte_app(s14, nl, 10);
    assert(nl.drop_last() =~= Seq::<u8>::empty());
    assert(count_byte(Seq::<u8>::empty(), 10) == 0);
    assert(count_byte(nl, 10) == 1);
    assert(csv_record_bytes(r) == s14 + nl);
}

/// The immutable byte templates for the literal JSON syntax, precomputed
/// once so encoding never re-formats literal text.
pub struct JsonPatterns {
    pub head_id: Vec<u8>,
    pub name: Vec<u8>,
    pub industry: Vec<u8>,
    pub revenue: Vec<u8>,
    pub employees: Vec<u8>,
    pub city: Vec<u8>,
    pub state: Vec<u8>,
    pub country: Vec<u8>,
    pub tail: Vec<u8>,
}

impl JsonPatterns {
    /// Each template holds exactly the literal bytes of its place in the
    /// record layout, for the given pretty flag.
    pub open spec fn wf(self, pretty: bool) -> bool {
        &&& self.head_id@ == tpl_head_id(pretty)
        &&& self.name@ == tpl_name(pretty)
        &&& self.industry@ == tpl_industry(pretty)
        &&& self.revenue@ == tpl_revenue(pretty)
        &&& self.employees@ == tpl_employees(pretty)
        &&& self.city@ == tpl_city(pretty)
        &&& self.state@ == tpl_state(pretty)
        &&& self.country@ == tpl_country(pretty)
        &&& self.tail@ == tpl_tail(pretty)
    }

    /// Precomputes the templates for one request.
    pub fn new(pretty: bool) -> (r: JsonPatterns)
        ensures
            r.wf(pretty),
    {
        if pretty {
            proof {
                reveal_strlit("{\n  \"id\": ");
                reveal_strlit(",\n  \"name\": \"");
                reveal_strlit("\",\n  \"industry\": \"");
                reveal_strlit("\",\n  \"revenue\": ");
                reveal_strlit(",\n  \"employees\": ");
                reveal_strlit(",\n  \"city\": \"");
                reveal_strlit("\",\n  \"state\": \"");
                reveal_strlit("\",\n  \"country\": \"");
                reveal_strlit("\"\n}");
            }
            JsonPatterns {
                head_id: lit_vec("{\n  \"id\": "),
                name: lit_vec(",\n  \"name\": \""),
                industry: lit_vec("\",\n  \"industry\": \""),
                revenue: lit_vec("\",\n  \"revenue\": "),
                employees: lit_vec(",\n  \"employees\": "),
                city: lit_vec(",\n  \"city\": \""),
                state: lit_vec("\",\n  \"state\": \""),
                country: lit_vec("\",\n  \"country\": \""),
                tail: lit_vec("\"\n}"),
            }
        } else {
            proof {
                reveal_strlit("{\"id\":");
                reveal_strlit(",\"name\":\"");
                reveal_strlit("\",\"industry\":\"");
                reveal_strlit("\",\"revenue\":");
                reveal_strlit(",\"employees\":");
                reveal_strlit(",\"city\":\"");
                reveal_strlit("\",\"state\":\"");
                reveal_strlit("\",\"country\":\"");
                reveal_strlit("\"}");
            }
            JsonPatterns {
                head_id: lit_vec("{\"id\":"),
                name: lit_vec(",\"name\":\""),
                industry: lit_vec("\",\"industry\":\""),
                revenue: lit_vec("\",\"revenue\":"),
                employees: lit_vec(",\"employees\":"),
                city: lit_vec(",\"city\":\""),
                state: lit_vec("\",\"state\":\""),
                country: lit_vec("\",\"country\":\""),
                tail: lit_vec("\"}"),
            }
        }
    }
}

/// A fresh buffer holding the bytes of an ASCII literal.
fn lit_vec(s: &str) -> (r: Vec<u8>)
    requires
        s.is_ascii(),
    ensures
        r@ == ascii_seq(s@),
{
    let mut v: Vec<u8> = Vec::new();
    append_lit(&mut v, s);
    proof {
        assert(v@ =~= ascii_seq(s@));
    }
    v
}

/// No record built from well-formed dictionary entries encodes to more
/// than this many bytes; it is comfortably below the micro-chunk size,
/// so one record can never blow a chunk up.
pub const MAX_RECORD_BYTES: u64 = 12286;

/// Bounds the encoded size of a record whose string fields respect the
/// dictionary entry cap and whose revenue is in its drawn range.
pub proof fn lemma_record_bytes_len(r: BusinessLocationView, pretty: bool)
    requires
        r.name.len() <= MAX_FIELD_BYTES,
        r.industry.len() <= MAX_FIELD_BYTES,
        r.city.len() <= MAX_FIELD_BYTES,
        r.state.len() <= MAX_FIELD_BYTES,
        r.country.len() <= MAX_FIELD_BYTES,
        r.revenue_cents < 10000000000,
    ensures
        0 < json_record_bytes(r, pretty).len() <= MAX_RECORD_BYTES,
        0 < csv_record_bytes(r).len() <= MAX_RECORD_BYTES,
{
    reveal_strlit("{\n  \"id\": ");
    reveal_strlit(",\n  \"name\": \"");
    reveal_strlit("\",\n  \"industry\": \"");
    reveal_strlit("\",\n  \"revenue\": ");
    reveal_strlit(",\n  \"employees\": ");
    reveal_strlit(",\n  \"city\": \"");
    reveal_strlit("\",\n  \"state\": \"");
    reveal_strlit("\",\n  \"country\": \"");
    reveal_strlit("\"\n}");
    reveal_strlit("{\"id\":");
    reveal_strlit(",\"name\":\"");
    reveal_strlit("\",\"industry\":\"");
    reveal_strlit("\",\"revenue\":");
    reveal_strlit(",\"employees\":");
    reveal_strlit(",\"city\":\"");
    reveal_strlit("\",\"state\":\"");
    reveal_strlit("\",\"country\":\"");
    reveal_strlit("\"}");
    assert(pow10(20) == 100000000000000000000) by {
        reveal_with_fuel(pow10, 21);
    }
    assert(pow10(10) == 10000000000) by {
        reveal_with_fuel(pow10, 11);
    }
    lemma_dec_digits_len(r.id as nat, 20);
    lemma_dec_digits_len(r.employees as nat, 10);
    lemma_money_len(r.revenue_cents as nat);
    lemma_json_escape_len(r.name);
    lemma_json_escape_len(r.industry);
    lemma_json_escape_len(r.city);
    lemma_json_escape_len(r.state);
    lemma_json_escape_len(r.country);
}

/// Appends the JSON object form of the record to the output buffer.
#[verifier::rlimit(60)]
pub fn write_location_json(
    patterns: &JsonPatterns,
    pretty: bool,
    location: &BusinessLocation,
    out: &mut Vec<u8>,
)
    requires
        patterns.wf(pretty),
    ensures
        final(out)@ == old(out)@ + json_record_bytes(location@, pretty),
{
    append_bytes(out, patterns.head_id.as_slice());
    append_u64(out, location.id);
    append_bytes(out, patterns.name.as_slice());
    append_escaped(out, location.name.as_slice());
    append_bytes(out, patterns.industry.as_slice());
    append_escaped(out, location.industry.as_slice());
    append_bytes(out, patterns.revenue.as_slice());
    append_money(out, location.revenue_cents);
    append_bytes(out, patterns.employees.as_slice());
    append_u64(out, location.employees as u64);
    append_bytes(out, patterns.city.as_slice());
    append_escaped(out, location.city.as_slice());
    append_bytes(out, patterns.state.as_slice());
    append_escaped(out, location.state.as_slice());
    append_bytes(out, patterns.country.as_slice());
    append_escaped(out, location.country.as_slice());
    append_bytes(out, patterns.tail.as_slice());
    proof {
        assert(final(out)@ =~= old(out)@ + json_record_bytes(location@, pretty));
    }
}

/// Appends the CSV line form of the record to the output buffer.
pub fn write_location_csv(location: &BusinessLocation, out: &mut Vec<u8>)
    ensures
        final(out)@ == old(out)@ + csv_record_bytes(location@),
{
    append_u64(out, location.id);
    out.push(44);
    append_bytes(out, location.name.as_slice());
    out.push(44);
    append_bytes(out, location.industry.as_slice());
    out.push(44);
    append_money(out, location.revenue_cents);
    out.push(44);
    append_u64(out, location.employees as u64);
    out.push(44);
    append_bytes(out, location.city.as_slice());
    out.push(44);
    append_bytes(out, location.state.as_slice());
    out.push(44);
    append_bytes(out, location.country.as_slice());
    out.push(10);
    proof {
        assert(final(out)@ =~= old(out)@ + csv_record_bytes(location@));
    }
}

} // verus!
