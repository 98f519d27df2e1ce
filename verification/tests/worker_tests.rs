use fast_json_gen::dict::DataPools;
use fast_json_gen::format::OutputFormat;
use fast_json_gen::pipeline::{consumer_append, lead_len_exec, write_footer, write_header};
use fast_json_gen::shard::{split_budget, StreamGenerator};
use std::sync::mpsc::{sync_channel, TryRecvError, TrySendError};

fn table(prefix: &str, len: usize) -> Vec<Vec<u8>> {
    (0..len).map(|i| format!("{}{}", prefix, i).into_bytes()).collect()
}

fn pools() -> DataPools {
    DataPools::new(
        table("Name", 100),
        table("Industry", 100),
        table("City", 100),
        table("State", 100),
        table("Country", 5),
    )
    .unwrap()
}

#[test]
fn split_budget_sums_to_target_with_remainder_on_last() {
    let shards = split_budget(10, 3);
    assert_eq!(shards.len(), 3);
    assert_eq!(shards[0].byte_budget, 3);
    assert_eq!(shards[1].byte_budget, 3);
    assert_eq!(shards[2].byte_budget, 4);
    assert_eq!(shards[0].id_base, 0);
    assert_eq!(shards[1].id_base, 3);
    assert_eq!(shards[2].id_base, 6);
    let total: u64 = shards.iter().map(|s| s.byte_budget).sum();
    assert_eq!(total, 10);
}

#[test]
fn split_budget_single_worker_takes_all() {
    let shards = split_budget(12345, 1);
    assert_eq!(shards.len(), 1);
    assert_eq!(shards[0].id_base, 0);
    assert_eq!(shards[0].byte_budget, 12345);
}

#[test]
fn worker_emits_until_budget_then_stops() {
    let pools = pools();
    let mut gen = StreamGenerator::new(7, false, OutputFormat::CSV, 500, 0);
    let mut total: usize = 0;
    let mut chunks: usize = 0;
    while let Some(chunk) = gen.generate_chunk(&pools) {
        assert!(chunk.len() > 0);
        total += chunk.len();
        chunks += 1;
        assert!(chunks < 1000);
    }
    assert!(total >= 500);
    assert!(total < 500 + 16384);
    // Once done, the worker stays done.
    assert!(gen.generate_chunk(&pools).is_none());
}

#[test]
fn worker_with_zero_budget_emits_nothing() {
    let pools = pools();
    let mut gen = StreamGenerator::new(7, false, OutputFormat::JSON, 0, 0);
    assert!(gen.generate_chunk(&pools).is_none());
}

#[test]
fn worker_micro_chunks_are_bounded() {
    let pools = pools();
    let mut gen = StreamGenerator::new(3, true, OutputFormat::JSON, 200000, 0);
    while let Some(chunk) = gen.generate_chunk(&pools) {
        // A chunk stops growing once it reaches the target size, so it
        // never exceeds it by more than one record.
        assert!(chunk.len() < 16384 + 12288);
    }
}

#[test]
fn estimate_objects_per_chunk_by_format() {
    let json = StreamGenerator::new(1, false, OutputFormat::JSON, 1500, 0);
    assert_eq!(json.estimate_objects_per_chunk(), 10);
    let pretty = StreamGenerator::new(1, true, OutputFormat::JSON, 1500, 0);
    assert_eq!(pretty.estimate_objects_per_chunk(), 7);
    let csv = StreamGenerator::new(1, false, OutputFormat::CSV, 1500, 0);
    assert_eq!(csv.estimate_objects_per_chunk(), 15);
}

#[test]
fn consumer_framing_strips_only_the_first_lead() {
    assert_eq!(lead_len_exec(OutputFormat::JSON, false), 1);
    assert_eq!(lead_len_exec(OutputFormat::JSON, true), 2);
    assert_eq!(lead_len_exec(OutputFormat::CSV, false), 0);

    let mut out: Vec<u8> = Vec::new();
    write_header(OutputFormat::JSON, false, &mut out);
    let first = b",{\"a\":1}".to_vec();
    let second = b",{\"b\":2}".to_vec();
    consumer_append(&mut out, &first, true, OutputFormat::JSON, false);
    consumer_append(&mut out, &second, false, OutputFormat::JSON, false);
    write_footer(OutputFormat::JSON, false, true, &mut out);
    assert_eq!(String::from_utf8(out).unwrap(), "[{\"a\":1},{\"b\":2}]");

    let mut csv: Vec<u8> = Vec::new();
    write_header(OutputFormat::CSV, false, &mut csv);
    consumer_append(&mut csv, &b"1,x\n".to_vec(), true, OutputFormat::CSV, false);
    write_footer(OutputFormat::CSV, false, true, &mut csv);
    assert_eq!(
        String::from_utf8(csv).unwrap(),
        "id,name,industry,revenue,employees,city,state,country\n1,x\n"
    );
}

#[test]
fn bounded_channel_applies_backpressure_and_closes() {
    // The pipeline moves chunks through a queue bounded in chunk count.
    // A consumer that stops reading fills the queue: further sends would
    // block, which `try_send` reports as `Full` rather than dropping.
    let (tx, rx) = sync_channel::<Vec<u8>>(2);
    tx.try_send(vec![1u8]).unwrap();
    tx.try_send(vec![2u8]).unwrap();
    match tx.try_send(vec![3u8]) {
        Err(TrySendError::Full(_)) => {},
        _ => panic!("a full queue must hold the producer back"),
    }
    // Reading again frees a slot and the producer proceeds.
    assert_eq!(rx.recv().unwrap(), vec![1u8]);
    tx.try_send(vec![3u8]).unwrap();
    // A consumer that goes away closes the queue; the producer observes
    // that on its next send and can stop instead of blocking forever.
    drop(rx);
    match tx.try_send(vec![4u8]) {
        Err(TrySendError::Disconnected(_)) => {},
        _ => panic!("a closed queue must fail sends fast"),
    }
}

#[test]
fn closed_producers_leave_consumer_drained() {
    let (tx, rx) = sync_channel::<Vec<u8>>(4);
    tx.try_send(vec![9u8]).unwrap();
    drop(tx);
    assert_eq!(rx.recv().unwrap(), vec![9u8]);
    // After the producers finish, the queue reports completion rather
    // than blocking.
    match rx.try_recv() {
        Err(TryRecvError::Disconnected) => {},
        other => panic!("expected a closed, drained queue, got {:?}", other),
    }
}
