use fast_json_gen::dict::DataPools;
use fast_json_gen::format::OutputFormat;
use fast_json_gen::pipeline::render_response;
use fast_json_gen::record::synthesize;
use fast_json_gen::text::append_money;

const CSV_HEADER: &str = "id,name,industry,revenue,employees,city,state,country\n";

fn table(prefix: &str, len: usize) -> Vec<Vec<u8>> {
    (0..len).map(|i| format!("{}{}", prefix, i).into_bytes()).collect()
}

fn sample_pools() -> DataPools {
    // Industries carry commas on purpose: synthesis must strip them.
    let industries: Vec<Vec<u8>> =
        (0..120).map(|i| format!("Ind,ustry{}", i).into_bytes()).collect();
    DataPools::new(
        table("Name", 120),
        industries,
        table("City", 120),
        table("State", 120),
        table("Country", 7),
    )
    .unwrap()
}

#[test]
fn dictionary_rejects_short_tables() {
    assert!(DataPools::new(table("N", 5), table("I", 120), table("C", 120), table("S", 120),
        table("K", 7)).is_none());
    assert!(DataPools::new(table("N", 120), table("I", 120), table("C", 120), table("S", 120),
        table("K", 2)).is_none());
}

#[test]
fn dictionary_rejects_bad_entries() {
    let mut names = table("N", 120);
    names[3] = b"bad\nentry".to_vec();
    assert!(DataPools::new(names, table("I", 120), table("C", 120), table("S", 120),
        table("K", 7)).is_none());

    let mut industries = table("I", 120);
    industries[0] = vec![b'x'; 1025];
    assert!(DataPools::new(table("N", 120), industries, table("C", 120), table("S", 120),
        table("K", 7)).is_none());
}

#[test]
fn synthesis_is_deterministic_and_in_range() {
    let pools = sample_pools();
    let a = synthesize(7, 42, &pools);
    let b = synthesize(7, 42, &pools);
    assert_eq!(a.id, 42);
    assert_eq!(a.id, b.id);
    assert_eq!(a.name, b.name);
    assert_eq!(a.industry, b.industry);
    assert_eq!(a.revenue_cents, b.revenue_cents);
    assert_eq!(a.employees, b.employees);
    assert_eq!(a.city, b.city);
    assert_eq!(a.state, b.state);
    assert_eq!(a.country, b.country);
    assert!((10..10000).contains(&a.employees));
    assert!((10_000_000..10_000_000_000).contains(&a.revenue_cents));
    // The industry entry had its comma stripped at synthesis.
    assert!(!a.industry.contains(&b','));
    assert!(a.industry.starts_with(b"Industry"));
}

#[test]
fn empty_request_csv_is_header_only() {
    let pools = sample_pools();
    let out = render_response(5, OutputFormat::CSV, false, 0, 1, &pools);
    assert_eq!(String::from_utf8(out).unwrap(), CSV_HEADER);
}

#[test]
fn empty_request_json_is_bare_array() {
    let pools = sample_pools();
    let out = render_response(5, OutputFormat::JSON, false, 0, 3, &pools);
    assert_eq!(String::from_utf8(out).unwrap(), "[]");
    let out = render_response(5, OutputFormat::JSON, true, 0, 3, &pools);
    assert_eq!(String::from_utf8(out).unwrap(), "[\n]\n");
}

#[test]
fn small_csv_request_meets_budget_with_matching_first_row() {
    let pools = sample_pools();
    let out = render_response(7, OutputFormat::CSV, false, 200, 1, &pools);
    let text = String::from_utf8(out).unwrap();
    assert!(text.starts_with(CSV_HEADER));
    let body_len = text.len() - CSV_HEADER.len();
    assert!(body_len >= 200);
    assert!(body_len < 200 + 16384);
    // Every data row is full: the body ends with its newline.
    assert!(text.ends_with('\n'));

    // The first row carries exactly the record synthesized at the
    // shard's base offset.
    let first_row = text.lines().nth(1).unwrap();
    let fields: Vec<&str> = first_row.split(',').collect();
    assert_eq!(fields.len(), 8);
    let rec = synthesize(7, 0, &pools);
    let mut revenue: Vec<u8> = Vec::new();
    append_money(&mut revenue, rec.revenue_cents);
    assert_eq!(fields[0], "0");
    assert_eq!(fields[1].as_bytes(), rec.name.as_slice());
    assert_eq!(fields[2].as_bytes(), rec.industry.as_slice());
    assert_eq!(fields[3].as_bytes(), revenue.as_slice());
    assert_eq!(fields[4], rec.employees.to_string());
    assert_eq!(fields[5].as_bytes(), rec.city.as_slice());
    assert_eq!(fields[6].as_bytes(), rec.state.as_slice());
    assert_eq!(fields[7].as_bytes(), rec.country.as_slice());
}

#[test]
fn identical_requests_produce_identical_bytes() {
    let pools = sample_pools();
    let a = render_response(99, OutputFormat::JSON, false, 3000, 3, &pools);
    let b = render_response(99, OutputFormat::JSON, false, 3000, 3, &pools);
    assert_eq!(a, b);
    let c = render_response(99, OutputFormat::CSV, false, 3000, 3, &pools);
    let d = render_response(99, OutputFormat::CSV, false, 3000, 3, &pools);
    assert_eq!(c, d);
}

#[test]
fn different_seeds_differ() {
    let pools = sample_pools();
    let a = render_response(1, OutputFormat::JSON, false, 1000, 2, &pools);
    let b = render_response(2, OutputFormat::JSON, false, 1000, 2, &pools);
    assert_ne!(a, b);
}

#[test]
fn record_ids_are_unique_across_shards() {
    let pools = sample_pools();
    let out = render_response(3, OutputFormat::CSV, false, 5000, 4, &pools);
    let text = String::from_utf8(out).unwrap();
    let mut ids: Vec<u64> = text
        .lines()
        .skip(1)
        .map(|row| row.split(',').next().unwrap().parse().unwrap())
        .collect();
    let rows = ids.len();
    assert!(rows > 0);
    ids.sort();
    ids.dedup();
    assert_eq!(ids.len(), rows);
}

#[test]
fn delivered_bytes_meet_budget_without_a_chunk_of_overshoot() {
    let pools = sample_pools();
    let workers = 4u64;
    let target = 10000usize;
    let out = render_response(11, OutputFormat::CSV, false, target as u64, workers, &pools);
    let body_len = out.len() - CSV_HEADER.len();
    assert!(body_len >= target);
    assert!(body_len < target + (workers as usize) * 16384);
}

#[test]
fn more_workers_than_bytes_still_meets_the_budget() {
    let pools = sample_pools();
    let out = render_response(13, OutputFormat::CSV, false, 10, 4, &pools);
    let text = String::from_utf8(out).unwrap();
    assert!(text.starts_with(CSV_HEADER));
    let body_len = text.len() - CSV_HEADER.len();
    assert!(body_len >= 10);
    assert!(body_len < 10 + 4 * 16384);
}

#[test]
fn pretty_flag_leaves_csv_untouched() {
    let pools = sample_pools();
    let plain = render_response(17, OutputFormat::CSV, false, 500, 2, &pools);
    let pretty = render_response(17, OutputFormat::CSV, true, 500, 2, &pools);
    assert_eq!(plain, pretty);
}

#[test]
fn json_output_parses_with_the_eight_fields_in_order() {
    let pools = sample_pools();
    let out = render_response(21, OutputFormat::JSON, false, 2000, 2, &pools);
    let text = String::from_utf8(out).unwrap();
    let parsed: serde_json::Value = serde_json::from_str(&text).unwrap();
    let records = parsed.as_array().unwrap();
    assert!(records.len() > 0);
    for rec in records {
        let obj = rec.as_object().unwrap();
        assert_eq!(obj.len(), 8);
        assert!(obj["id"].is_u64());
        assert!(obj["name"].is_string());
        assert!(obj["industry"].is_string());
        assert!(obj["revenue"].is_number());
        assert!(obj["employees"].is_u64());
        assert!(obj["city"].is_string());
        assert!(obj["state"].is_string());
        assert!(obj["country"].is_string());
    }
    // The documented field order, checked on the raw bytes of each object.
    for object_text in text.split('{').skip(1) {
        let keys = ["\"id\"", "\"name\"", "\"industry\"", "\"revenue\"", "\"employees\"",
            "\"city\"", "\"state\"", "\"country\""];
        let mut last: usize = 0;
        for key in keys {
            let at = object_text.find(key).unwrap();
            assert!(at >= last);
            last = at;
        }
    }
}

#[test]
fn pretty_json_parses_to_the_same_records() {
    let pools = sample_pools();
    let compact = render_response(31, OutputFormat::JSON, false, 1500, 2, &pools);
    let pretty = render_response(31, OutputFormat::JSON, true, 1500, 2, &pools);
    let a: serde_json::Value = serde_json::from_slice(&compact).unwrap();
    let b: serde_json::Value = serde_json::from_slice(&pretty).unwrap();
    // Same seed, same shard layout: the first record is the same record,
    // whatever the whitespace around it.
    let a = a.as_array().unwrap();
    let b = b.as_array().unwrap();
    assert!(a.len() > 0 && b.len() > 0);
    assert_eq!(a[0], b[0]);
}

#[test]
fn csv_rows_parse_with_the_documented_header() {
    let pools = sample_pools();
    let out = render_response(41, OutputFormat::CSV, false, 3000, 2, &pools);
    let text = String::from_utf8(out).unwrap();
    let mut lines = text.lines();
    assert_eq!(lines.next().unwrap(), CSV_HEADER.trim_end());
    let mut rows = 0usize;
    for row in lines {
        assert_eq!(row.split(',').count(), 8);
        rows += 1;
    }
    assert!(rows > 0);
}
