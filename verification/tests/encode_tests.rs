use fast_json_gen::encode::{write_location_csv, write_location_json, JsonPatterns};
use fast_json_gen::format::OutputFormat;
use fast_json_gen::record::BusinessLocation;
use fast_json_gen::text::{append_money, append_u64, strip_commas_exec};

fn sample_record() -> BusinessLocation {
    BusinessLocation {
        id: 1,
        name: b"Acme".to_vec(),
        industry: b"Retail".to_vec(),
        revenue_cents: 12345,
        employees: 10,
        city: b"Rome".to_vec(),
        state: b"RM".to_vec(),
        country: b"IT".to_vec(),
    }
}

#[test]
fn json_compact_record_bytes() {
    let patterns = JsonPatterns::new(false);
    let mut out: Vec<u8> = Vec::new();
    write_location_json(&patterns, false, &sample_record(), &mut out);
    let expected = "{\"id\":1,\"name\":\"Acme\",\"industry\":\"Retail\",\"revenue\":123.45,\
                    \"employees\":10,\"city\":\"Rome\",\"state\":\"RM\",\"country\":\"IT\"}";
    assert_eq!(String::from_utf8(out).unwrap(), expected);
}

#[test]
fn json_pretty_record_bytes() {
    let patterns = JsonPatterns::new(true);
    let mut out: Vec<u8> = Vec::new();
    write_location_json(&patterns, true, &sample_record(), &mut out);
    let expected = "{\n  \"id\": 1,\n  \"name\": \"Acme\",\n  \"industry\": \"Retail\",\n  \
                    \"revenue\": 123.45,\n  \"employees\": 10,\n  \"city\": \"Rome\",\n  \
                    \"state\": \"RM\",\n  \"country\": \"IT\"\n}";
    assert_eq!(String::from_utf8(out).unwrap(), expected);
}

#[test]
fn json_escapes_quote_backslash_newline() {
    let patterns = JsonPatterns::new(false);
    let mut rec = sample_record();
    rec.name = b"A\"B\\C\nD".to_vec();
    let mut out: Vec<u8> = Vec::new();
    write_location_json(&patterns, false, &rec, &mut out);
    let text = String::from_utf8(out).unwrap();
    assert!(text.contains("\"name\":\"A\\\"B\\\\C\\nD\""));
    // The escaped field still parses back to the original bytes.
    let parsed: serde_json::Value = serde_json::from_str(&text).unwrap();
    assert_eq!(parsed["name"].as_str().unwrap(), "A\"B\\C\nD");
}

#[test]
fn csv_record_bytes_exact() {
    let mut out: Vec<u8> = Vec::new();
    write_location_csv(&sample_record(), &mut out);
    assert_eq!(String::from_utf8(out).unwrap(), "1,Acme,Retail,123.45,10,Rome,RM,IT\n");
}

#[test]
fn encoding_is_deterministic() {
    let patterns = JsonPatterns::new(false);
    let mut a: Vec<u8> = Vec::new();
    let mut b: Vec<u8> = Vec::new();
    write_location_json(&patterns, false, &sample_record(), &mut a);
    write_location_json(&patterns, false, &sample_record(), &mut b);
    assert_eq!(a, b);
    let mut c: Vec<u8> = Vec::new();
    let mut d: Vec<u8> = Vec::new();
    write_location_csv(&sample_record(), &mut c);
    write_location_csv(&sample_record(), &mut d);
    assert_eq!(c, d);
}

#[test]
fn integer_rendering() {
    let mut out: Vec<u8> = Vec::new();
    append_u64(&mut out, 0);
    assert_eq!(out, b"0");
    out.clear();
    append_u64(&mut out, 9070);
    assert_eq!(out, b"9070");
    out.clear();
    append_u64(&mut out, u64::MAX);
    assert_eq!(out, b"18446744073709551615");
}

#[test]
fn revenue_rendering_drops_trailing_zeros() {
    let mut out: Vec<u8> = Vec::new();
    append_money(&mut out, 10000000);
    assert_eq!(out, b"100000");
    out.clear();
    append_money(&mut out, 12340);
    assert_eq!(out, b"123.4");
    out.clear();
    append_money(&mut out, 12345);
    assert_eq!(out, b"123.45");
    out.clear();
    append_money(&mut out, 105);
    assert_eq!(out, b"1.05");
}

#[test]
fn strip_commas_removes_every_comma() {
    assert_eq!(strip_commas_exec(b"a,b,,c"), b"abc");
    assert_eq!(strip_commas_exec(b",,"), b"");
    assert_eq!(strip_commas_exec(b"plain"), b"plain");
}
