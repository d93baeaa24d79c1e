//! What a worker does and counts: the units of work, the private batch of
//! finished units, and the sum of all workers' counters.
use vstd::prelude::*;

verus! {

/// The sum of per-thread counters.
pub open spec fn total_of(counts: Seq<u64>) -> nat
    decreases counts.len(),
{
    if counts.len() == 0 {
        0
    } else {
        total_of(counts.drop_last()) + counts.last() as nat
    }
}

/// The sum of the first counters is no larger than the sum of all.
pub proof fn lemma_total_prefix(counts: Seq<u64>, k: int)
    requires
        0 <= k <= counts.len(),
    ensures
        total_of(counts.take(k)) <= total_of(counts),
    decreases counts.len() - k,
{
    if k == counts.len() {
        assert(counts.take(k) == counts);
    } else {
        lemma_total_prefix(counts, k + 1);
        assert(counts.take(k + 1).drop_last() == counts.take(k));
    }
}

/// A counter that does not shrink does not shrink the sum.
pub proof fn lemma_total_monotone(before: Seq<u64>, after: Seq<u64>)
    requires
        before.len() == after.len(),
        forall|i: int| 0 <= i < before.len() ==> before[i] <= after[i],
    ensures
        total_of(before) <= total_of(after),
    decreases before.len(),
{
    if before.len() > 0 {
        lemma_total_monotone(before.drop_last(), after.drop_last());
    }
}

/// The sum of counters is no more than the largest counter times their
/// number.
pub proof fn lemma_total_bound(counts: Seq<u64>)
    ensures
        total_of(counts) <= counts.len() * u64::MAX,
    decreases counts.len(),
{
    if counts.len() > 0 {
        lemma_total_bound(counts.drop_last());
    }
}

/// The sum of as many counters as a machine can hold fits in 128 bits.
pub proof fn lemma_total_fits(counts: Seq<u64>)
    requires
        counts.len() <= usize::MAX,
    ensures
        total_of(counts) <= u128::MAX,
        total_of(counts) as u128 == total_of(counts),
{
    lemma_total_bound(counts);
    assert(counts.len() <= u64::MAX);
    assert(counts.len() * u64::MAX <= u64::MAX * u64::MAX) by (nonlinear_arith)
        requires
            counts.len() <= u64::MAX,
    ;
}

/// The sum of the counters. The sum of 64-bit counters always fits in 128
/// bits, whatever they hold and however many they are.
pub fn total_count(counts: &Vec<u64>) -> (total: u128)
    ensures
        total == total_of(counts@),
{
    let mut sum: u128 = 0;
    let mut i: usize = 0;
    while i < counts.len()
        invariant
            i <= counts@.len(),
            sum == total_of(counts@.take(i as int)),
        decreases counts@.len() - i,
    {
        proof {
            assert(counts@.take(i + 1).drop_last() == counts@.take(i as int));
            lemma_total_bound(counts@.take(i as int));
            assert(sum <= i * u64::MAX);
            assert(i <= usize::MAX <= u64::MAX);
        }
        sum = sum + counts[i] as u128;
        i += 1;
    }
    assert(counts@.take(i as int) == counts@);
    sum
}

/// What the published counters hold once the workers' results are copied
/// in: each slot that has a result takes it, the others keep what they had.
pub open spec fn published(before: Seq<u64>, results: Seq<u64>) -> Seq<u64> {
    Seq::new(
        before.len(),
        |i: int|
            if i < results.len() {
                results[i]
            } else {
                before[i]
            },
    )
}

/// Once the results of as many workers as there are slots are published,
/// the first slots hold the results, each in its own place, and their sum is
/// the sum of the results.
pub proof fn lemma_published_total(before: Seq<u64>, results: Seq<u64>)
    requires
        results.len() <= before.len(),
    ensures
        published(before, results).len() == before.len(),
        published(before, results).take(results.len() as int) == results,
        total_of(published(before, results).take(results.len() as int)) == total_of(results),
{
    assert(published(before, results).take(results.len() as int) =~= results);
}

/// Publishes what the workers counted, after the last of them has returned:
/// copies each result into its slot of `op_counts` and gives the sum of all
/// results.
pub fn gather_counts(results: &Vec<u64>, op_counts: &mut Vec<u64>) -> (total: u128)
    ensures
        total == total_of(results@),
        final(op_counts)@ == published(old(op_counts)@, results@),
{
    let ghost before = op_counts@;
    let mut i: usize = 0;
    while i < results.len() && i < op_counts.len()
        invariant
            op_counts@.len() == before.len(),
            i <= results@.len(),
            i <= before.len(),
            forall|j: int| 0 <= j < i ==> op_counts@[j] == results@[j],
            forall|j: int| i <= j < before.len() ==> op_counts@[j] == before[j],
        decreases results@.len() - i,
    {
        op_counts.set(i, results[i]);
        i += 1;
    }
    assert(op_counts@ =~= published(before, results@));
    total_count(results)
}

/// Whether a worker goes on to another unit of work: only while no stop was
/// requested and the run's duration has not passed.
pub open spec fn keeps_working(stop_requested: bool, elapsed_nanos: u128, duration_secs: u32) -> bool {
    !stop_requested && elapsed_nanos < duration_secs as nat * 1_000_000_000
}

/// Decides whether a worker goes on to another unit of work.
pub fn keep_working(stop_requested: bool, elapsed_nanos: u128, duration_secs: u32) -> (r: bool)
    ensures
        r == keeps_working(stop_requested, elapsed_nanos, duration_secs),
{
    !stop_requested && elapsed_nanos < (duration_secs as u128) * 1_000_000_000
}

/// A worker's count after one more unit: one more where the unit finished,
/// and nothing where it met a fault or the count is at its limit already.
pub open spec fn count_after(count: u64, finished: bool) -> Option<u64> {
    if finished && count < u64::MAX {
        Some((count + 1) as u64)
    } else {
        None
    }
}

/// Decides how a worker goes on after a unit. A unit that finished is
/// counted and the worker goes on with the count given. After a fault the
/// worker stops, and what it had counted stands.
pub fn next_count(count: u64, finished: bool) -> (next: Option<u64>)
    ensures
        next == count_after(count, finished),
{
    if finished && count < u64::MAX {
        Some(count + 1)
    } else {
        None
    }
}

/// The most units a worker counts privately before it adds them to its
/// shared counter.
pub const FLUSH_INTERVAL: u64 = 100_000;

/// A worker's private count of finished units that its shared counter does
/// not hold yet.
pub struct UnitBatch {
    pending: u64,
}

impl View for UnitBatch {
    type V = nat;

    closed spec fn view(&self) -> nat {
        self.pending as nat
    }
}

impl UnitBatch {
    /// Fewer units are pending than the flush interval.
    pub open spec fn wf(&self) -> bool {
        self@ < FLUSH_INTERVAL
    }

    /// The number of units that an `Option` of a flush adds to the shared
    /// counter.
    pub open spec fn flushed(step: Option<u64>) -> nat {
        match step {
            Some(n) => n as nat,
            None => 0,
        }
    }

    /// A batch with nothing pending.
    pub fn new() -> (b: Self)
        ensures
            b@ == 0,
            b.wf(),
    {
        UnitBatch { pending: 0 }
    }

    /// Counts one finished unit. Gives the number of units to add to the
    /// shared counter now, which is the whole flush interval once that many
    /// are pending, and `None` before.
    pub fn record(&mut self) -> (step: Option<u64>)
        requires
            old(self).wf(),
        ensures
            final(self).wf(),
            final(self)@ + Self::flushed(step) == old(self)@ + 1,
            step is Some <==> old(self)@ + 1 == FLUSH_INTERVAL,
            step is Some ==> final(self)@ == 0,
    {
        self.pending = self.pending + 1;
        if self.pending >= FLUSH_INTERVAL {
            let n = self.pending;
            self.pending = 0;
            Some(n)
        } else {
            None
        }
    }

    /// Ends the worker's count: gives what is still pending, to be added to
    /// the shared counter before the worker returns, and `None` where nothing
    /// is.
    pub fn drain(&mut self) -> (step: Option<u64>)
        requires
            old(self).wf(),
        ensures
            final(self)@ == 0,
            final(self).wf(),
            Self::flushed(step) == old(self)@,
            step is Some <==> old(self)@ > 0,
    {
        if self.pending > 0 {
            let n = self.pending;
            self.pending = 0;
            Some(n)
        } else {
            None
        }
    }
}

/// The value a spinning unit ends with after multiplying by the factors
/// `1 ^ seed` up to `(steps) ^ seed`, wrapping at 64 bits.
pub open spec fn spin_value(seed: u64, steps: nat) -> u64
    decreases steps,
{
    if steps == 0 {
        1
    } else {
        ((spin_value(seed, (steps - 1) as nat) as nat * ((steps as u64) ^ seed) as nat) % 0x1_0000_0000_0000_0000) as u64
    }
}

/// One unit of the processor workload: 999 wrapping multiplications seeded
/// by the worker's number.
pub fn spin_unit(seed: u64) -> (acc: u64)
    ensures
        acc == spin_value(seed, 999),
{
    let mut acc: u64 = 1;
    let mut i: u64 = 1;
    while i < 1000
        invariant
            1 <= i <= 1000,
            acc == spin_value(seed, (i - 1) as nat),
        decreases 1000 - i,
    {
        acc = acc.wrapping_mul(i ^ seed);
        i += 1;
    }
    acc
}

/// Why a worker gave up in the middle of a run.
#[derive(Clone, Copy, Debug, PartialEq, Eq, Structural)]
pub enum WorkerFault {
    /// A block could not be compressed.
    Compress,
    /// A compressed block could not be restored.
    Decompress,
}

/// The bytes, if any, as plain values.
pub open spec fn bytes_view(bytes: Option<Vec<u8>>) -> Option<Seq<u8>> {
    match bytes {
        Some(v) => Some(v@),
        None => None,
    }
}

/// The zlib stream that compressing `block` at the default level gives, or
/// `None` where the encoder reports an error.
pub uninterp spec fn zlib_compressed(block: Seq<u8>) -> Option<Seq<u8>>;

/// The bytes that decoding the zlib stream `stream` to its end gives, or
/// `None` where the decoder reports an error.
pub uninterp spec fn zlib_restored(stream: Seq<u8>) -> Option<Seq<u8>>;

/// Compresses `block` with `flate2::write::ZlibEncoder` at the default level:
/// writes all of it and finishes the stream.
///
/// Trusted: what comes out depends on the block alone.
#[verifier::external_body]
pub(crate) fn zlib_compress(block: &Vec<u8>) -> (r: Option<Vec<u8>>)
    ensures
        bytes_view(r) == zlib_compressed(block@),
{
    let mut encoder = flate2::write::ZlibEncoder::new(Vec::new(), flate2::Compression::default());
    match std::io::Write::write_all(&mut encoder, block) {
        Ok(()) => encoder.finish().ok(),
        Err(_) => None,
    }
}

/// Decodes `stream` with `flate2::read::ZlibDecoder`, reading to the end.
///
/// Trusted: what comes out depends on the stream alone.
#[verifier::external_body]
pub(crate) fn zlib_restore(stream: &Vec<u8>) -> (r: Option<Vec<u8>>)
    ensures
        bytes_view(r) == zlib_restored(stream@),
{
    let mut decoder = flate2::read::ZlibDecoder::new(&stream[..]);
    let mut out = Vec::new();
    match std::io::Read::read_to_end(&mut decoder, &mut out) {
        Ok(_) => Some(out),
        Err(_) => None,
    }
}

/// What one compression unit on `block` comes to: the restored bytes, or the
/// step that failed.
pub open spec fn round_trip_of(block: Seq<u8>) -> Result<Seq<u8>, WorkerFault> {
    match zlib_compressed(block) {
        None => Err(WorkerFault::Compress),
        Some(stream) => match zlib_restored(stream) {
            None => Err(WorkerFault::Decompress),
            Some(bytes) => Ok(bytes),
        },
    }
}

/// The outcome of a unit as plain values.
pub open spec fn outcome_view(r: Result<Vec<u8>, WorkerFault>) -> Result<Seq<u8>, WorkerFault> {
    match r {
        Ok(v) => Ok(v@),
        Err(e) => Err(e),
    }
}

/// One unit of the compression workload: compresses `block` and restores it
/// in full. A failure of either step is a fault of the worker.
pub fn compression_round_trip(block: &Vec<u8>) -> (r: Result<Vec<u8>, WorkerFault>)
    ensures
        outcome_view(r) == round_trip_of(block@),
{
    match zlib_compress(block) {
        None => Err(WorkerFault::Compress),
        Some(stream) => match zlib_restore(&stream) {
            None => Err(WorkerFault::Decompress),
            Some(bytes) => Ok(bytes),
        },
    }
}

/// A number below `bound`, drawn with `rand::Rng::gen_range` from the
/// thread's generator.
///
/// Trusted: the number drawn lies in the range asked for.
#[verifier::external_body]
pub(crate) fn random_below(bound: usize) -> (i: usize)
    requires
        bound > 0,
    ensures
        i < bound,
{
    rand::Rng::gen_range(&mut rand::thread_rng(), 0..bound)
}

/// A byte drawn with `rand::Rng::gen` from the thread's generator. Nothing
/// is claimed of it.
#[verifier::external_body]
pub(crate) fn random_byte() -> u8 {
    rand::Rng::gen(&mut rand::thread_rng())
}

/// A block of `size` bytes filled with `rand::Rng::try_fill` from the
/// thread's generator, or `None` where the generator reports an error.
///
/// Trusted: a block that comes back has the size asked for.
#[verifier::external_body]
pub(crate) fn random_fill(size: usize) -> (r: Option<Vec<u8>>)
    ensures
        r matches Some(v) ==> v@.len() == size,
{
    let mut data = vec![0u8; size];
    match rand::Rng::try_fill(&mut rand::thread_rng(), &mut data[..]) {
        Ok(()) => Some(data),
        Err(_) => None,
    }
}

/// A block of `size` random bytes, or `None` where none could be made: what
/// a compression worker works on for the whole run, and what a storage run
/// writes.
pub fn random_block(size: usize) -> (r: Option<Vec<u8>>)
    ensures
        r matches Some(v) ==> v@.len() == size,
{
    random_fill(size)
}

/// The smallest disambiguating number a log's name carries.
pub const HASH_MIN: u16 = 1000;

/// The largest disambiguating number a log's name carries.
pub const HASH_MAX: u16 = 9998;

/// The disambiguating number for the offset `drawn` above the smallest.
pub fn disambiguator_from(drawn: usize) -> (hash: u16)
    requires
        drawn <= HASH_MAX - HASH_MIN,
    ensures
        hash == HASH_MIN + drawn,
        HASH_MIN <= hash <= HASH_MAX,
{
    HASH_MIN + drawn as u16
}

/// Draws the number that keeps the names of two runs begun in one second
/// apart: four digits, never above 9998.
pub fn new_disambiguator() -> (hash: u16)
    ensures
        HASH_MIN <= hash <= HASH_MAX,
{
    let drawn = random_below((HASH_MAX - HASH_MIN) as usize + 1);
    disambiguator_from(drawn)
}

/// One unit of the memory workload on given positions: writes `value` at
/// `write_at`, then reads the byte at `read_at`.
pub fn ram_access(buffer: &mut Vec<u8>, write_at: usize, value: u8, read_at: usize) -> (read: u8)
    requires
        write_at < old(buffer)@.len(),
        read_at < old(buffer)@.len(),
    ensures
        final(buffer)@ == old(buffer)@.update(write_at as int, value),
        read == final(buffer)@[read_at as int],
{
    buffer.set(write_at, value);
    buffer[read_at]
}

/// One unit of the memory workload: writes a random byte at a random
/// position of `buffer`, then reads from a random position. At most one byte
/// of the buffer changes.
pub fn ram_access_unit(buffer: &mut Vec<u8>) -> (read: u8)
    requires
        old(buffer)@.len() > 0,
    ensures
        exists|at: int, value: u8|
            0 <= at < old(buffer)@.len() && final(buffer)@ == #[trigger] old(buffer)@.update(
                at,
                value,
            ),
        final(buffer)@.contains(read),
{
    let n = buffer.len();
    let write_at = random_below(n);
    let value = random_byte();
    let read_at = random_below(n);
    let read = ram_access(buffer, write_at, value, read_at);
    assert(buffer@ == old(buffer)@.update(write_at as int, value));
    read
}

} // verus!
