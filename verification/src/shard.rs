//! Shard workers and budget partitioning.  A request's byte budget is
//! split across workers; each worker owns a contiguous byte budget and id
//! range and turns it into a stream of bounded micro-chunks.  Within a
//! shard, ids grow monotonically from the shard's base; a shard finishes
//! the record that crosses its budget and then stops, so it overshoots by
//! less than one record and never undershoots.

use crate::dict::{DataPools, DataPoolsView};
use crate::encode::{
    csv_record_bytes, json_lead, json_record_bytes, lead_len, lemma_csv_record_one_line,
    lemma_record_bytes_len, write_location_csv, write_location_json, JsonPatterns,
    MAX_RECORD_BYTES,
};
use crate::format::OutputFormat;
use crate::record::{synth_record, synthesize};
use crate::text::{append_lit, count_byte, lemma_count_byte_app};
use vstd::arithmetic::div_mod::{lemma_fundamental_div_mod, lemma_mod_bound};
use vstd::arithmetic::mul::lemma_mul_inequality;
use vstd::prelude::*;

verus! {

/// Target size of one micro-chunk, the unit of backpressure.
pub const OPTIMAL_CHUNK_SIZE: u64 = 16384;

/// Hard cap on records per micro-chunk.
pub const MAX_RECORDS_PER_CHUNK: u64 = 256;

/// Bound on one emitted record piece, leading separator included.
pub const MAX_PIECE_BYTES: u64 = 12288;

/// Largest byte budget a single shard may carry, leaving headroom so
/// that finishing the record that crosses the budget cannot overflow the
/// byte counter.
pub const MAX_BUDGET_BYTES: u64 = u64::MAX - 65536;

/// What a shard emits for the record at `offset`: for JSON, a leading
/// separator and the object; for CSV, the self-terminated line.
pub open spec fn record_piece(
    seed: u64,
    d: DataPoolsView,
    format: OutputFormat,
    pretty: bool,
    offset: u64,
) -> Seq<u8> {
    match format {
        OutputFormat::JSON => json_lead(pretty) + json_record_bytes(
            synth_record(seed, offset, d),
            pretty,
        ),
        OutputFormat::CSV => csv_record_bytes(synth_record(seed, offset, d)),
    }
}

/// The first `n` record pieces of the shard based at `id_base`, in id
/// order.
pub open spec fn shard_stream(
    seed: u64,
    d: DataPoolsView,
    format: OutputFormat,
    pretty: bool,
    id_base: u64,
    n: nat,
) -> Seq<u8>
    decreases n,
{
    if n == 0 {
        Seq::empty()
    } else {
        shard_stream(seed, d, format, pretty, id_base, (n - 1) as nat) + record_piece(
            seed,
            d,
            format,
            pretty,
            (id_base + n - 1) as u64,
        )
    }
}

/// Every record piece is strictly longer than the leading separator the
/// consumer may strip; in particular it holds at least one byte.
pub proof fn lemma_piece_pos(
    seed: u64,
    d: DataPoolsView,
    format: OutputFormat,
    pretty: bool,
    offset: u64,
)
    ensures
        record_piece(seed, d, format, pretty, offset).len() > lead_len(format, pretty),
{
    reveal_strlit(",");
    reveal_strlit(",\n");
    reveal_strlit("{\"id\":");
    reveal_strlit("{\n  \"id\": ");
}

/// A shard's stream holds at least one byte per record.
pub proof fn lemma_stream_len_ge(
    seed: u64,
    d: DataPoolsView,
    format: OutputFormat,
    pretty: bool,
    id_base: u64,
    n: nat,
)
    ensures
        shard_stream(seed, d, format, pretty, id_base, n).len() >= n,
    decreases n,
{
    if n > 0 {
        lemma_stream_len_ge(seed, d, format, pretty, id_base, (n - 1) as nat);
        lemma_piece_pos(seed, d, format, pretty, (id_base + n - 1) as u64);
    }
}

/// A longer prefix of a shard's stream is longer, by at least one byte
/// per additional record.
pub proof fn lemma_stream_len_mono(
    seed: u64,
    d: DataPoolsView,
    format: OutputFormat,
    pretty: bool,
    id_base: u64,
    m: nat,
    n: nat,
)
    requires
        m <= n,
    ensures
        shard_stream(seed, d, format, pretty, id_base, n).len() >= shard_stream(
            seed,
            d,
            format,
            pretty,
            id_base,
            m,
        ).len() + (n - m),
    decreases n,
{
    if m < n {
        lemma_stream_len_mono(seed, d, format, pretty, id_base, m, (n - 1) as nat);
        lemma_piece_pos(seed, d, format, pretty, (id_base + n - 1) as u64);
    }
}

/// A CSV shard stream of `n` records holds exactly `n` newlines: every
/// record is one row, so the row count of the output equals the number
/// of generated records.
pub proof fn lemma_csv_stream_lines(
    seed: u64,
    d: DataPoolsView,
    pretty: bool,
    id_base: u64,
    n: nat,
)
    requires
        d.wf(),
    ensures
        count_byte(shard_stream(seed, d, OutputFormat::CSV, pretty, id_base, n), 10) == n,
    decreases n,
{
    if n == 0 {
        assert(count_byte(Seq::<u8>::empty(), 10) == 0);
    } else {
        lemma_csv_stream_lines(seed, d, pretty, id_base, (n - 1) as nat);
        lemma_csv_record_one_line(seed, (id_base + n - 1) as u64, d);
        lemma_count_byte_app(
            shard_stream(seed, d, OutputFormat::CSV, pretty, id_base, (n - 1) as nat),
            record_piece(seed, d, OutputFormat::CSV, pretty, (id_base + n - 1) as u64),
            10,
        );
    }
}

/// A shard stream with at least one record is longer than the leading
/// separator the consumer may strip.
pub proof fn lemma_stream_lead(
    seed: u64,
    d: DataPoolsView,
    format: OutputFormat,
    pretty: bool,
    id_base: u64,
    n: nat,
)
    requires
        n >= 1,
    ensures
        shard_stream(seed, d, format, pretty, id_base, n).len() > lead_len(format, pretty),
{
    lemma_piece_pos(seed, d, format, pretty, id_base);
    lemma_stream_len_mono(seed, d, format, pretty, id_base, 1, n);
    assert(shard_stream(seed, d, format, pretty, id_base, 0) =~= Seq::<u8>::empty());
    assert(shard_stream(seed, d, format, pretty, id_base, 1) =~= record_piece(
        seed,
        d,
        format,
        pretty,
        id_base,
    ));
}

/// One worker: owns a byte budget and an id range, and renders records
/// into micro-chunks until the budget is met.
pub struct StreamGenerator {
    pub seed: u64,
    pub pretty: bool,
    pub format: OutputFormat,
    pub json_patterns: JsonPatterns,
    pub bytes_generated: u64,
    pub chunk_size: u64,
    pub id_base: u64,
    pub records_done: u64,
}

impl StreamGenerator {
    /// The worker's accounting invariant: the byte counter is exactly
    /// the length of the stream of records emitted so far, every record
    /// was started only while the budget was unmet, and the counter can
    /// overshoot the budget by less than one record piece.
    pub open spec fn wf(self, d: DataPoolsView) -> bool {
        &&& self.json_patterns.wf(self.pretty)
        &&& self.chunk_size <= MAX_BUDGET_BYTES
        &&& self.id_base + self.chunk_size <= u64::MAX
        &&& self.records_done <= self.chunk_size
        &&& self.bytes_generated == shard_stream(
            self.seed,
            d,
            self.format,
            self.pretty,
            self.id_base,
            self.records_done as nat,
        ).len()
        &&& self.records_done > 0 ==> shard_stream(
            self.seed,
            d,
            self.format,
            self.pretty,
            self.id_base,
            (self.records_done - 1) as nat,
        ).len() < self.chunk_size
        &&& self.bytes_generated <= self.chunk_size + MAX_PIECE_BYTES
    }

    /// True when the shard's budget is met and it will emit no more.
    pub open spec fn finished(self) -> bool {
        self.bytes_generated >= self.chunk_size
    }

    /// A fresh worker for one shard of a request.
    pub fn new(
        seed: u64,
        pretty: bool,
        format: OutputFormat,
        chunk_size: u64,
        id_base: u64,
    ) -> (r: StreamGenerator)
        requires
            chunk_size <= MAX_BUDGET_BYTES,
            id_base + chunk_size <= u64::MAX,
        ensures
            forall|d: DataPoolsView| r.wf(d),
            r.seed == seed,
            r.pretty == pretty,
            r.format == format,
            r.chunk_size == chunk_size,
            r.id_base == id_base,
            r.records_done == 0,
            r.bytes_generated == 0,
    {
        StreamGenerator {
            seed,
            pretty,
            format,
            json_patterns: JsonPatterns::new(pretty),
            bytes_generated: 0,
            chunk_size,
            id_base,
            records_done: 0,
        }
    }

    /// How many records roughly fit one shard budget, by the format's
    /// typical record size.
    pub fn estimate_objects_per_chunk(&self) -> (r: u64)
        ensures
            r == self.chunk_size / (match self.format {
                OutputFormat::JSON => if self.pretty {
                    200u64
                } else {
                    150u64
                },
                OutputFormat::CSV => 100u64,
            }),
    {
        let avg_object_size: u64 = match self.format {
            OutputFormat::JSON => if self.pretty {
                200
            } else {
                150
            },
            OutputFormat::CSV => 100,
        };
        self.chunk_size / avg_object_size
    }

    /// Spec-side measure of how far the shard still is from its budget.
    pub open spec fn remaining_budget(self) -> int {
        if self.bytes_generated >= self.chunk_size {
            0
        } else {
            self.chunk_size - self.bytes_generated
        }
    }

    /// Renders the next micro-chunk, or reports the shard done.  A chunk
    /// is a contiguous run of record pieces continuing exactly where the
    /// previous chunk ended; it is returned only while the budget is
    /// unmet, and it is never empty.
    #[verifier::rlimit(100)]
    pub fn generate_chunk(&mut self, pools: &DataPools) -> (r: Option<Vec<u8>>)
        requires
            pools@.wf(),
            old(self).wf(pools@),
        ensures
            final(self).wf(pools@),
            final(self).seed == old(self).seed,
            final(self).pretty == old(self).pretty,
            final(self).format == old(self).format,
            final(self).id_base == old(self).id_base,
            final(self).chunk_size == old(self).chunk_size,
            match r {
                None => *final(self) == *old(self) && old(self).finished(),
                Some(c) => {
                    &&& !old(self).finished()
                    &&& final(self).records_done > old(self).records_done
                    &&& shard_stream(
                        old(self).seed,
                        pools@,
                        old(self).format,
                        old(self).pretty,
                        old(self).id_base,
                        final(self).records_done as nat,
                    ) == shard_stream(
                        old(self).seed,
                        pools@,
                        old(self).format,
                        old(self).pretty,
                        old(self).id_base,
                        old(self).records_done as nat,
                    ) + c@
                    &&& final(self).bytes_generated == old(self).bytes_generated + c@.len()
                    &&& c@.len() > 0
                },
            },
    {
        if self.bytes_generated >= self.chunk_size {
            return None;
        }
        let mut buffer: Vec<u8> = Vec::new();
        let mut recs_in_chunk: u64 = 0;
        while self.bytes_generated < self.chunk_size && (buffer.len() as u64) < OPTIMAL_CHUNK_SIZE
            && recs_in_chunk < MAX_RECORDS_PER_CHUNK
            invariant
                pools@.wf(),
                self.seed == old(self).seed,
                self.pretty == old(self).pretty,
                self.format == old(self).format,
                self.id_base == old(self).id_base,
                self.chunk_size == old(self).chunk_size,
                self.json_patterns == old(self).json_patterns,
                self.wf(pools@),
                old(self).records_done <= self.records_done,
                old(self).bytes_generated < old(self).chunk_size,
                shard_stream(
                    self.seed,
                    pools@,
                    self.format,
                    self.pretty,
                    self.id_base,
                    self.records_done as nat,
                ) == shard_stream(
                    self.seed,
                    pools@,
                    self.format,
                    self.pretty,
                    self.id_base,
                    old(self).records_done as nat,
                ) + buffer@,
                self.bytes_generated == old(self).bytes_generated + buffer@.len(),
                recs_in_chunk == self.records_done - old(self).records_done,
            decreases self.remaining_budget(),
        {
            proof {
                lemma_stream_len_ge(
                    self.seed,
                    pools@,
                    self.format,
                    self.pretty,
                    self.id_base,
                    self.records_done as nat,
                );
            }
            let offset: u64 = self.id_base + self.records_done;
            let rec = synthesize(self.seed, offset, pools);
            let start_len: usize = buffer.len();
            match self.format {
                OutputFormat::JSON => {
                    if self.pretty {
                        proof {
                            reveal_strlit(",\n");
                        }
                        append_lit(&mut buffer, ",\n");
                    } else {
                        proof {
                            reveal_strlit(",");
                        }
                        append_lit(&mut buffer, ",");
                    }
                    write_location_json(&self.json_patterns, self.pretty, &rec, &mut buffer);
                },
                OutputFormat::CSV => {
                    write_location_csv(&rec, &mut buffer);
                },
            }
            let written: usize = buffer.len() - start_len;
            proof {
                reveal_strlit(",");
                reveal_strlit(",\n");
                lemma_record_bytes_len(rec@, self.pretty);
                assert(buffer@ =~= buffer@.subrange(0, start_len as int) + record_piece(
                    self.seed,
                    pools@,
                    self.format,
                    self.pretty,
                    offset,
                ));
                assert(written <= MAX_PIECE_BYTES);
                assert(shard_stream(
                    self.seed,
                    pools@,
                    self.format,
                    self.pretty,
                    self.id_base,
                    (self.records_done + 1) as nat,
                ) =~= shard_stream(
                    self.seed,
                    pools@,
                    self.format,
                    self.pretty,
                    self.id_base,
                    self.records_done as nat,
                ) + record_piece(self.seed, pools@, self.format, self.pretty, offset));
            }
            self.bytes_generated = self.bytes_generated + written as u64;
            self.records_done = self.records_done + 1;
            recs_in_chunk = recs_in_chunk + 1;
            proof {
                assert(shard_stream(
                    self.seed,
                    pools@,
                    self.format,
                    self.pretty,
                    self.id_base,
                    self.records_done as nat,
                ) =~= shard_stream(
                    self.seed,
                    pools@,
                    self.format,
                    self.pretty,
                    self.id_base,
                    old(self).records_done as nat,
                ) + buffer@);
            }
        }
        proof {
            lemma_stream_len_mono(
                self.seed,
                pools@,
                self.format,
                self.pretty,
                self.id_base,
                old(self).records_done as nat,
                self.records_done as nat,
            );
        }
        Some(buffer)
    }
}

/// One partition of a request: a contiguous id range rooted at `id_base`
/// and a byte budget.
pub struct Shard {
    pub id_base: u64,
    pub byte_budget: u64,
}

/// The bytes each shard of a request may produce, summed over a prefix.
pub open spec fn sum_budgets(s: Seq<Shard>) -> int
    decreases s.len(),
{
    if s.len() == 0 {
        0
    } else {
        sum_budgets(s.drop_last()) + s.last().byte_budget
    }
}

/// Sum of a sequence of byte counts.
pub open spec fn sum_totals(s: Seq<int>) -> int
    decreases s.len(),
{
    if s.len() == 0 {
        0
    } else {
        sum_totals(s.drop_last()) + s.last()
    }
}

/// The shards of a request, laid out back to back: each but the last
/// carries `target / workers` bytes, the last also carries the remainder.
pub open spec fn spec_shards(target: u64, workers: u64) -> Seq<Shard> {
    let per = target as int / workers as int;
    Seq::new(
        workers as nat,
        |k: int|
            Shard {
                id_base: (k * per) as u64,
                byte_budget: if k < workers - 1 {
                    per as u64
                } else {
                    (target - (workers - 1) * per) as u64
                },
            },
    )
}

/// The shape `split_budget` produces: `workers` shards, each but the
/// last carrying `target / workers` bytes, the last also carrying the
/// remainder, and id bases laid out as the running sum of budgets.
pub open spec fn well_partitioned(shards: Seq<Shard>, target: u64, workers: u64) -> bool {
    let per = target as int / workers as int;
    &&& workers >= 1
    &&& shards.len() == workers
    &&& forall|k: int|
        0 <= k < workers ==> (#[trigger] shards[k]).id_base == k * per
    &&& forall|k: int|
        0 <= k < workers - 1 ==> (#[trigger] shards[k]).byte_budget == per
    &&& shards[workers - 1].byte_budget == target - (workers - 1) * per
}

/// Splits a request's byte budget into one shard per worker.  Budgets
/// sum exactly to the target, the remainder of the division going to the
/// last shard, and shard id ranges are laid out back to back.
pub fn split_budget(target: u64, workers: u64) -> (r: Vec<Shard>)
    requires
        1 <= workers,
        target <= MAX_BUDGET_BYTES,
    ensures
        well_partitioned(r@, target, workers),
        r@ == spec_shards(target, workers),
        sum_budgets(r@) == target,
        forall|k: int|
            0 <= k < r@.len() ==> (#[trigger] r@[k]).byte_budget <= target && r@[k].id_base
                + r@[k].byte_budget <= target,
{
    let per: u64 = target / workers;
    proof {
        lemma_fundamental_div_mod(target as int, workers as int);
        lemma_mod_bound(target as int, workers as int);
    }
    let mut shards: Vec<Shard> = Vec::new();
    let mut i: u64 = 0;
    let mut base: u64 = 0;
    while i < workers - 1
        invariant
            workers >= 1,
            i <= workers - 1,
            per == target as int / workers as int,
            workers * per <= target,
            base == i * per,
            base <= target,
            shards@.len() == i,
            forall|k: int|
                0 <= k < i ==> (#[trigger] shards@[k]).id_base == k * per && shards@[k].byte_budget
                    == per,
            sum_budgets(shards@) == base,
        decreases workers - i,
    {
        proof {
            assert((i + 1) * per == i * per + per) by (nonlinear_arith);
            lemma_mul_inequality(i + 1, workers as int, per as int);
            assert(sum_budgets(shards@.push(Shard { id_base: base, byte_budget: per }))
                == sum_budgets(shards@) + per) by {
                assert(shards@.push(Shard { id_base: base, byte_budget: per }).drop_last()
                    =~= shards@);
            }
        }
        shards.push(Shard { id_base: base, byte_budget: per });
        base = base + per;
        i = i + 1;
    }
    proof {
        assert(base == (workers - 1) * per);
        lemma_mul_inequality(workers - 1, workers as int, per as int);
    }
    let last_budget: u64 = target - base;
    proof {
        assert(sum_budgets(shards@.push(Shard { id_base: base, byte_budget: last_budget }))
            == sum_budgets(shards@) + last_budget) by {
            assert(shards@.push(Shard { id_base: base, byte_budget: last_budget }).drop_last()
                =~= shards@);
        }
    }
    shards.push(Shard { id_base: base, byte_budget: last_budget });
    proof {
        assert forall|k: int|
            0 <= k < shards@.len() implies (#[trigger] shards@[k]).byte_budget <= target
            && shards@[k].id_base + shards@[k].byte_budget <= target by {
            assert((k + 1) * per == k * per + per) by (nonlinear_arith);
            lemma_mul_inequality(k + 1, workers as int, per as int);
            lemma_mul_inequality(k, workers as int, per as int);
            lemma_mul_inequality(1, workers as int, per as int);
        }
        assert forall|k: int|
            0 <= k < shards@.len() implies shards@[k] == spec_shards(target, workers)[k] by {
            lemma_mul_inequality(k, workers as int, per as int);
        }
        assert(shards@ =~= spec_shards(target, workers));
    }
    shards
}

/// Uniqueness of record ids: within a shard, ids grow one by one from
/// the shard's base, and shard id ranges never overlap, so two distinct
/// records of a completed request can never share an id, however many
/// records each shard actually emits within its budget.
pub proof fn lemma_record_ids_unique(
    shards: Seq<Shard>,
    target: u64,
    workers: u64,
    i: int,
    j: int,
    a: u64,
    b: u64,
)
    requires
        well_partitioned(shards, target, workers),
        0 <= i <= j < shards.len(),
        a < shards[i].byte_budget,
        b < shards[j].byte_budget,
        i != j || a != b,
    ensures
        shards[i].id_base + a != shards[j].id_base + b,
{
    if i < j {
        let per = target as int / workers as int;
        assert((i + 1) * per == i * per + per) by (nonlinear_arith);
        lemma_mul_inequality(i + 1, j, per);
        assert(shards[i].id_base + a < (i + 1) * per);
        assert((i + 1) * per <= j * per);
    }
}

/// Bounded overshoot, never undershoot: when every shard delivers at
/// least its budget but overshoots it by less than one micro-chunk, the
/// total delivered lies in `[target, target + workers × micro-chunk)`.
pub proof fn lemma_total_bytes_bounded(
    shards: Seq<Shard>,
    totals: Seq<int>,
    target: u64,
    workers: u64,
)
    requires
        well_partitioned(shards, target, workers),
        sum_budgets(shards) == target,
        totals.len() == shards.len(),
        forall|k: int|
            0 <= k < totals.len() ==> shards[k].byte_budget <= #[trigger] totals[k] < shards[k].byte_budget
                + OPTIMAL_CHUNK_SIZE,
    ensures
        target <= sum_totals(totals) < target + workers * OPTIMAL_CHUNK_SIZE,
{
    lemma_sum_totals_bounds(shards, totals);
}

proof fn lemma_sum_totals_bounds(shards: Seq<Shard>, totals: Seq<int>)
    requires
        totals.len() == shards.len(),
        forall|k: int|
            0 <= k < totals.len() ==> shards[k].byte_budget <= #[trigger] totals[k] < shards[k].byte_budget
                + OPTIMAL_CHUNK_SIZE,
    ensures
        sum_budgets(shards) <= sum_totals(totals) <= sum_budgets(shards) + totals.len() * (
        OPTIMAL_CHUNK_SIZE - 1),
    decreases totals.len(),
{
    if totals.len() > 0 {
        assert(forall|k: int|
            0 <= k < totals.drop_last().len() ==> shards.drop_last()[k].byte_budget
                <= #[trigger] totals.drop_last()[k] < shards.drop_last()[k].byte_budget
                + OPTIMAL_CHUNK_SIZE);
        lemma_sum_totals_bounds(shards.drop_last(), totals.drop_last());
    }
}

} // verus!
