//! Reproducible per-record randomness.  Each record derives its own
//! random stream from the request seed and the record's offset, so shards
//! can synthesize records in any order, in parallel, without shared
//! generator state, and two runs with the same seed agree byte for byte.

use rand::Rng;
use rand::SeedableRng;
use rand_chacha::ChaCha8Rng;
use vstd::prelude::*;

verus! {

/// The four raw draws a record is built from, as a function of the
/// request seed and the record offset alone: the categorical table index,
/// the revenue in hundredths, the employee count, and the country table
/// index.
pub uninterp spec fn record_draws(seed: u64, offset: u64) -> (u64, u64, u32, u64);

/// Relies on `rand_chacha::ChaCha8Rng` and `rand::Rng::gen_range`.
/// ChaCha8 is a deterministic stream cipher: `seed_from_u64` expands the
/// seed by a fixed arithmetic recipe, and `set_stream` selects an
/// independent stream of the same cipher, so the four draws below depend
/// on `seed` and `offset` alone.  `gen_range(lo..hi)` returns a value in
/// `[lo, hi)`.
#[verifier::external_body]
pub(crate) fn draw_record(seed: u64, offset: u64) -> (r: (u64, u64, u32, u64))
    ensures
        r == record_draws(seed, offset),
        r.0 < 100,
        10000000 <= r.1 < 10000000000,
        10 <= r.2 < 10000,
        r.3 < 5,
{
    let mut rng = ChaCha8Rng::seed_from_u64(seed);
    rng.set_stream(offset);
    let category = rng.gen_range(0u64..100);
    let revenue_cents = rng.gen_range(10000000u64..10000000000);
    let employees = rng.gen_range(10u32..10000);
    let country = rng.gen_range(0u64..5);
    (category, revenue_cents, employees, country)
}

} // verus!
