//! Stream assembly: format framing around the shards' chunks, and a
//! sequential driver that renders one whole response.  In a concurrent
//! deployment the chunks of different shards reach the consumer in
//! arrival order through a bounded channel; the consumer writes the
//! header, strips the leading separator from the first chunk, passes
//! chunks through, and closes with the footer.  The driver here drains
//! the shards one after another, which is one such arrival order, and
//! pins the response down to the byte.

use crate::dict::{DataPools, DataPoolsView};
use crate::encode::lead_len;
use crate::format::OutputFormat;
use crate::shard::{
    lemma_csv_stream_lines, lemma_stream_lead, lemma_stream_len_mono, shard_stream, spec_shards,
    split_budget, sum_budgets, well_partitioned, Shard, StreamGenerator, MAX_BUDGET_BYTES,
    OPTIMAL_CHUNK_SIZE,
};
use crate::text::{append_bytes, append_lit, ascii_seq, count_byte, lemma_count_byte_app};
use vstd::prelude::*;

verus! {

/// The bytes written before the first chunk: the CSV header line, or the
/// opening bracket of the JSON array.
pub open spec fn header_bytes(format: OutputFormat, pretty: bool) -> Seq<u8> {
    match format {
        OutputFormat::CSV => ascii_seq("id,name,industry,revenue,employees,city,state,country\n"@),
        OutputFormat::JSON => if pretty {
            ascii_seq("[\n"@)
        } else {
            ascii_seq("["@)
        },
    }
}

/// The bytes written after the last chunk: nothing for CSV, the closing
/// bracket for JSON.
pub open spec fn footer_bytes(format: OutputFormat, pretty: bool, any_records: bool) -> Seq<u8> {
    match format {
        OutputFormat::CSV => Seq::empty(),
        OutputFormat::JSON => if pretty {
            if any_records {
                ascii_seq("\n]\n"@)
            } else {
                ascii_seq("]\n"@)
            }
        } else {
            ascii_seq("]"@)
        },
    }
}

/// Writes the format header.
pub fn write_header(format: OutputFormat, pretty: bool, out: &mut Vec<u8>)
    ensures
        final(out)@ == old(out)@ + header_bytes(format, pretty),
{
    match format {
        OutputFormat::CSV => {
            proof {
                reveal_strlit("id,name,industry,revenue,employees,city,state,country\n");
            }
            append_lit(out, "id,name,industry,revenue,employees,city,state,country\n");
        },
        OutputFormat::JSON => {
            if pretty {
                proof {
                    reveal_strlit("[\n");
                }
                append_lit(out, "[\n");
            } else {
                proof {
                    reveal_strlit("[");
                }
                append_lit(out, "[");
            }
        },
    }
}

/// Writes the format footer.
pub fn write_footer(format: OutputFormat, pretty: bool, any_records: bool, out: &mut Vec<u8>)
    ensures
        final(out)@ == old(out)@ + footer_bytes(format, pretty, any_records),
{
    match format {
        OutputFormat::CSV => {
            proof {
                assert(final(out)@ =~= old(out)@ + footer_bytes(format, pretty, any_records));
            }
        },
        OutputFormat::JSON => {
            if pretty {
                if any_records {
                    proof {
                        reveal_strlit("\n]\n");
                    }
                    append_lit(out, "\n]\n");
                } else {
                    proof {
                        reveal_strlit("]\n");
                    }
                    append_lit(out, "]\n");
                }
            } else {
                proof {
                    reveal_strlit("]");
                }
                append_lit(out, "]");
            }
        },
    }
}

/// How many bytes the consumer strips from the front of the stream's
/// first chunk.
pub fn lead_len_exec(format: OutputFormat, pretty: bool) -> (r: usize)
    ensures
        r == lead_len(format, pretty),
{
    match format {
        OutputFormat::CSV => 0,
        OutputFormat::JSON => {
            proof {
                reveal_strlit(",");
                reveal_strlit(",\n");
            }
            if pretty {
                2
            } else {
                1
            }
        },
    }
}

/// The consumer's treatment of one arriving chunk: the first chunk of
/// the stream loses its leading separator, all others pass through.
pub fn consumer_append(
    out: &mut Vec<u8>,
    chunk: &Vec<u8>,
    is_first: bool,
    format: OutputFormat,
    pretty: bool,
)
    requires
        is_first ==> chunk@.len() >= lead_len(format, pretty),
    ensures
        final(out)@ == old(out)@ + if is_first {
            chunk@.skip(lead_len(format, pretty) as int)
        } else {
            chunk@
        },
{
    if is_first {
        let l: usize = lead_len_exec(format, pretty);
        let s: &[u8] = chunk.as_slice();
        let rest: &[u8] = &s[l..s.len()];
        append_bytes(out, rest);
        proof {
            assert(final(out)@ =~= old(out)@ + chunk@.skip(lead_len(format, pretty) as int));
        }
    } else {
        append_bytes(out, chunk.as_slice());
    }
}

/// Gap still to cover between a stream prefix's length and the budget.
pub open spec fn budget_gap(len: int, budget: int) -> int {
    if len >= budget {
        0
    } else {
        budget - len
    }
}

/// The number of records a shard emits: counting up from `n`, the first
/// record count whose stream meets the byte budget.
pub open spec fn count_from(
    seed: u64,
    d: DataPoolsView,
    format: OutputFormat,
    pretty: bool,
    id_base: u64,
    budget: u64,
    n: nat,
) -> nat
    decreases budget_gap(shard_stream(seed, d, format, pretty, id_base, n).len() as int, budget as int),
    via count_from_decreases
{
    if shard_stream(seed, d, format, pretty, id_base, n).len() >= budget {
        n
    } else {
        count_from(seed, d, format, pretty, id_base, budget, n + 1)
    }
}

#[via_fn]
proof fn count_from_decreases(
    seed: u64,
    d: DataPoolsView,
    format: OutputFormat,
    pretty: bool,
    id_base: u64,
    budget: u64,
    n: nat,
) {
    if shard_stream(seed, d, format, pretty, id_base, n).len() < budget {
        lemma_stream_len_mono(seed, d, format, pretty, id_base, n, n + 1);
    }
}

/// How many records the shard based at `id_base` emits for `budget`
/// bytes: the least count whose stream meets the budget.
pub open spec fn shard_record_count(
    seed: u64,
    d: DataPoolsView,
    format: OutputFormat,
    pretty: bool,
    id_base: u64,
    budget: u64,
) -> nat {
    count_from(seed, d, format, pretty, id_base, budget, 0)
}

proof fn lemma_count_from_eq(
    seed: u64,
    d: DataPoolsView,
    format: OutputFormat,
    pretty: bool,
    id_base: u64,
    budget: u64,
    nfinal: nat,
    k: nat,
)
    requires
        k <= nfinal,
        shard_stream(seed, d, format, pretty, id_base, nfinal).len() >= budget,
        nfinal > 0 ==> shard_stream(seed, d, format, pretty, id_base, (nfinal - 1) as nat).len()
            < budget,
    ensures
        count_from(seed, d, format, pretty, id_base, budget, k) == nfinal,
    decreases nfinal - k,
{
    if k < nfinal {
        lemma_stream_len_mono(seed, d, format, pretty, id_base, k, (nfinal - 1) as nat);
        lemma_count_from_eq(seed, d, format, pretty, id_base, budget, nfinal, k + 1);
    }
}

/// A worker that ran to completion emitted exactly the shard's record
/// count: its stream meets the budget, and no shorter stream does.
pub proof fn lemma_count_eq(
    seed: u64,
    d: DataPoolsView,
    format: OutputFormat,
    pretty: bool,
    id_base: u64,
    budget: u64,
    nfinal: nat,
)
    requires
        shard_stream(seed, d, format, pretty, id_base, nfinal).len() >= budget,
        nfinal > 0 ==> shard_stream(seed, d, format, pretty, id_base, (nfinal - 1) as nat).len()
            < budget,
    ensures
        shard_record_count(seed, d, format, pretty, id_base, budget) == nfinal,
{
    lemma_count_from_eq(seed, d, format, pretty, id_base, budget, nfinal, 0);
}

/// What one shard contributes to the stream: its record pieces up to its
/// record count.
pub open spec fn shard_output(
    seed: u64,
    d: DataPoolsView,
    format: OutputFormat,
    pretty: bool,
    shard: Shard,
) -> Seq<u8> {
    shard_stream(
        seed,
        d,
        format,
        pretty,
        shard.id_base,
        shard_record_count(seed, d, format, pretty, shard.id_base, shard.byte_budget),
    )
}

/// The shards' outputs, one after the other in shard order.
pub open spec fn shards_output(
    seed: u64,
    d: DataPoolsView,
    format: OutputFormat,
    pretty: bool,
    shards: Seq<Shard>,
) -> Seq<u8>
    decreases shards.len(),
{
    if shards.len() == 0 {
        Seq::empty()
    } else {
        shards_output(seed, d, format, pretty, shards.drop_last()) + shard_output(
            seed,
            d,
            format,
            pretty,
            shards.last(),
        )
    }
}

/// A non-empty stream of shard outputs is longer than the leading
/// separator the consumer strips.
pub proof fn lemma_shards_output_min(
    seed: u64,
    d: DataPoolsView,
    format: OutputFormat,
    pretty: bool,
    shards: Seq<Shard>,
)
    ensures
        shards_output(seed, d, format, pretty, shards).len() == 0 || shards_output(
            seed,
            d,
            format,
            pretty,
            shards,
        ).len() > lead_len(format, pretty),
    decreases shards.len(),
{
    if shards.len() > 0 {
        lemma_shards_output_min(seed, d, format, pretty, shards.drop_last());
        let cnt = shard_record_count(
            seed,
            d,
            format,
            pretty,
            shards.last().id_base,
            shards.last().byte_budget,
        );
        if cnt >= 1 {
            lemma_stream_lead(seed, d, format, pretty, shards.last().id_base, cnt);
        }
    }
}

/// How many records a request generates, over all its shards.
pub open spec fn total_records(
    seed: u64,
    d: DataPoolsView,
    format: OutputFormat,
    pretty: bool,
    shards: Seq<Shard>,
) -> nat
    decreases shards.len(),
{
    if shards.len() == 0 {
        0
    } else {
        total_records(seed, d, format, pretty, shards.drop_last()) + shard_record_count(
            seed,
            d,
            format,
            pretty,
            shards.last().id_base,
            shards.last().byte_budget,
        )
    }
}

/// A CSV body parses into exactly as many rows as records were
/// generated: whatever the shards and budgets, it holds one newline per
/// record, each row's own terminator.
pub proof fn lemma_csv_body_lines(
    seed: u64,
    d: DataPoolsView,
    pretty: bool,
    shards: Seq<Shard>,
)
    requires
        d.wf(),
    ensures
        count_byte(shards_output(seed, d, OutputFormat::CSV, pretty, shards), 10) == total_records(
            seed,
            d,
            OutputFormat::CSV,
            pretty,
            shards,
        ),
    decreases shards.len(),
{
    if shards.len() == 0 {
        assert(count_byte(Seq::<u8>::empty(), 10) == 0);
    } else {
        lemma_csv_body_lines(seed, d, pretty, shards.drop_last());
        lemma_csv_stream_lines(
            seed,
            d,
            pretty,
            shards.last().id_base,
            shard_record_count(
                seed,
                d,
                OutputFormat::CSV,
                pretty,
                shards.last().id_base,
                shards.last().byte_budget,
            ),
        );
        lemma_count_byte_app(
            shards_output(seed, d, OutputFormat::CSV, pretty, shards.drop_last()),
            shard_output(seed, d, OutputFormat::CSV, pretty, shards.last()),
            10,
        );
    }
}

/// The full response of one request, determined by the request alone:
/// the header, the shards' outputs with the first leading separator
/// stripped, and the footer.  Two requests with the same arguments
/// produce the same bytes.
pub open spec fn response_bytes(
    seed: u64,
    d: DataPoolsView,
    format: OutputFormat,
    pretty: bool,
    target: u64,
    workers: u64,
) -> Seq<u8> {
    let body = shards_output(seed, d, format, pretty, spec_shards(target, workers));
    if body.len() > 0 {
        header_bytes(format, pretty) + body.skip(lead_len(format, pretty) as int) + footer_bytes(
            format,
            pretty,
            true,
        )
    } else {
        header_bytes(format, pretty) + body + footer_bytes(format, pretty, false)
    }
}

/// Renders one whole response in a single thread: splits the byte budget
/// across the shards, drains each shard's micro-chunks in order, and
/// frames the stream.  The result is exactly `response_bytes`, and the
/// generated data (framing aside) meets the requested size without
/// falling short and without overshooting by a micro-chunk per worker.
pub fn render_response(
    seed: u64,
    format: OutputFormat,
    pretty: bool,
    target_bytes: u64,
    workers: u64,
    pools: &DataPools,
) -> (r: Vec<u8>)
    requires
        pools@.wf(),
        1 <= workers,
        target_bytes <= MAX_BUDGET_BYTES,
    ensures
        r@ == response_bytes(seed, pools@, format, pretty, target_bytes, workers),
        shards_output(seed, pools@, format, pretty, spec_shards(target_bytes, workers)).len()
            >= target_bytes,
        shards_output(seed, pools@, format, pretty, spec_shards(target_bytes, workers)).len()
            < target_bytes + workers * OPTIMAL_CHUNK_SIZE,
{
    let shards: Vec<Shard> = split_budget(target_bytes, workers);
    let n: usize = shards.len();
    let mut body: Vec<u8> = Vec::new();
    let mut i: usize = 0;
    while i < n
        invariant
            pools@.wf(),
            n == shards@.len(),
            i <= n,
            1 <= workers,
            shards@ == spec_shards(target_bytes, workers),
            sum_budgets(shards@) == target_bytes,
            forall|k: int|
                0 <= k < shards@.len() ==> (#[trigger] shards@[k]).byte_budget <= target_bytes
                    && shards@[k].id_base + shards@[k].byte_budget <= target_bytes,
            target_bytes <= MAX_BUDGET_BYTES,
            body@ == shards_output(seed, pools@, format, pretty, shards@.take(i as int)),
            body@.len() >= sum_budgets(shards@.take(i as int)),
            body@.len() <= sum_budgets(shards@.take(i as int)) + (i as int) * (
            OPTIMAL_CHUNK_SIZE - 1),
        decreases n - i,
    {
        let budget: u64 = shards[i].byte_budget;
        let base: u64 = shards[i].id_base;
        let mut gen = StreamGenerator::new(seed, pretty, format, budget, base);
        loop
            invariant
                pools@.wf(),
                gen.wf(pools@),
                gen.seed == seed,
                gen.pretty == pretty,
                gen.format == format,
                gen.chunk_size == budget,
                gen.id_base == base,
                body@ == shards_output(seed, pools@, format, pretty, shards@.take(i as int))
                    + shard_stream(seed, pools@, format, pretty, base, gen.records_done as nat),
            ensures
                gen.finished(),
                gen.wf(pools@),
                gen.seed == seed,
                gen.pretty == pretty,
                gen.format == format,
                gen.chunk_size == budget,
                gen.id_base == base,
                body@ == shards_output(seed, pools@, format, pretty, shards@.take(i as int))
                    + shard_stream(seed, pools@, format, pretty, base, gen.records_done as nat),
            decreases gen.remaining_budget(),
        {
            match gen.generate_chunk(pools) {
                Some(c) => {
                    append_bytes(&mut body, c.as_slice());
                },
                None => {
                    break ;
                },
            }
        }
        proof {
            lemma_count_eq(
                seed,
                pools@,
                format,
                pretty,
                base,
                budget,
                gen.records_done as nat,
            );
            assert(shards@.take(i + 1).drop_last() =~= shards@.take(i as int));
            assert(shards@.take(i + 1).last() == shards@[i as int]);
            assert(body@ =~= shards_output(seed, pools@, format, pretty, shards@.take(i + 1)));
            assert(sum_budgets(shards@.take(i + 1)) == sum_budgets(shards@.take(i as int))
                + budget);
            assert(shard_stream(seed, pools@, format, pretty, base, gen.records_done as nat).len()
                == gen.bytes_generated);
            assert((i + 1) * (OPTIMAL_CHUNK_SIZE - 1) == i * (OPTIMAL_CHUNK_SIZE - 1) + (
            OPTIMAL_CHUNK_SIZE - 1)) by (nonlinear_arith);
        }
        i = i + 1;
    }
    proof {
        assert(shards@.take(n as int) =~= shards@);
    }
    let mut out: Vec<u8> = Vec::new();
    write_header(format, pretty, &mut out);
    if body.len() > 0 {
        proof {
            lemma_shards_output_min(seed, pools@, format, pretty, shards@);
        }
        consumer_append(&mut out, &body, true, format, pretty);
        write_footer(format, pretty, true, &mut out);
    } else {
        write_footer(format, pretty, false, &mut out);
    }
    proof {
        assert(out@ =~= response_bytes(seed, pools@, format, pretty, target_bytes, workers));
    }
    out
}

} // verus!
