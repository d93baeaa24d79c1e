//! The rows of logs: written one per sample or per thread, and read back
//! line by line, passing over what is no row.
use crate::text::{
    decimal_digits, free_of, joined, lemma_digits_free, lemma_joined_push,
    lemma_joined_split, lemma_parse_decimal_digits, lemma_split_concat, lemma_split_cons,
    lemma_split_nonempty, lemma_split_single, parse_decimal, parse_unsigned, pieces, push_decimal,
    push_decimal_wide, range_is, ranges_within, split_on, split_ranges, text_view, texts_view,
    to_chars,
};
use crate::worker::{total_count, total_of};
use vstd::prelude::*;
use vstd::string::*;

verus! {

/// The two phases of a storage run.
#[derive(Clone, Copy, Debug, PartialEq, Eq, Structural)]
pub enum StorageOp {
    Write,
    Read,
}

impl StorageOp {
    /// The word that stands for the phase in a log row.
    pub open spec fn word_text(self) -> Seq<char> {
        match self {
            StorageOp::Write => "write"@,
            StorageOp::Read => "read"@,
        }
    }

    /// The word that stands for the phase in a log row.
    pub fn word(self) -> (w: &'static str)
        ensures
            w@ == self.word_text(),
    {
        match self {
            StorageOp::Write => "write",
            StorageOp::Read => "read",
        }
    }
}

/// The lines of a log as plain values; `None` stands for a line that could
/// not be read.
pub open spec fn lines_view(lines: Seq<Option<String>>) -> Seq<Option<Seq<char>>> {
    Seq::new(lines.len(), |i: int| text_view(lines[i]))
}

/// What a row of a storage log holds: the phase and the text of its
/// throughput. A row has exactly three fields, the second `write` or `read`.
pub open spec fn storage_sample_of(line: Seq<char>) -> Option<(StorageOp, Seq<char>)> {
    let parts = split_on(line, ',');
    if parts.len() != 3 {
        None
    } else if parts[1] == "write"@ {
        Some((StorageOp::Write, parts[2]))
    } else if parts[1] == "read"@ {
        Some((StorageOp::Read, parts[2]))
    } else {
        None
    }
}

/// The throughput texts of the rows of one phase, in the order of the log.
/// The first line is the header; a line that could not be read or is no row
/// is passed over.
pub open spec fn storage_values(lines: Seq<Option<Seq<char>>>, op: StorageOp) -> Seq<Seq<char>>
    decreases lines.len(),
{
    if lines.len() <= 1 {
        Seq::empty()
    } else {
        let before = storage_values(lines.drop_last(), op);
        match lines.last() {
            None => before,
            Some(line) => match storage_sample_of(line) {
                None => before,
                Some((o, value)) => if o == op {
                    before.push(value)
                } else {
                    before
                },
            },
        }
    }
}

/// Reads one row of a storage log.
pub fn read_storage_row(line: &str) -> (r: Option<(StorageOp, String)>)
    ensures
        match r {
            Some((op, value)) => storage_sample_of(line@) == Some((op, value@)),
            None => storage_sample_of(line@) is None,
        },
{
    let chars = to_chars(line);
    let ranges = split_ranges(&chars, 0, chars.len(), ',');
    assert(chars@.subrange(0, chars@.len() as int) == chars@);
    if ranges.len() != 3 {
        return None;
    }
    let ghost parts = pieces(chars@, ranges@);
    proof {
        assert(ranges@[1].0 <= ranges@[1].1 && ranges@[1].1 <= chars@.len());
        assert(ranges@[2].0 <= ranges@[2].1 && ranges@[2].1 <= chars@.len());
        assert(parts[1] == chars@.subrange(ranges@[1].0 as int, ranges@[1].1 as int));
        assert(parts[2] == chars@.subrange(ranges@[2].0 as int, ranges@[2].1 as int));
    }
    let write = to_chars("write");
    let read = to_chars("read");
    let (a, b) = ranges[1];
    let op = if range_is(&chars, a, b, &write) {
        StorageOp::Write
    } else if range_is(&chars, a, b, &read) {
        StorageOp::Read
    } else {
        return None;
    };
    let value = String::from_str(line.substring_char(ranges[2].0, ranges[2].1));
    Some((op, value))
}

/// Reads a storage run's log: gives the throughput texts of its write rows
/// and of its read rows, each in the order of the log.
pub fn analyze_storage_stress_csv(lines: &Vec<Option<String>>) -> (r: (Vec<String>, Vec<String>))
    ensures
        texts_view(r.0@) == storage_values(lines_view(lines@), StorageOp::Write),
        texts_view(r.1@) == storage_values(lines_view(lines@), StorageOp::Read),
{
    let mut writes: Vec<String> = Vec::new();
    let mut reads: Vec<String> = Vec::new();
    let ghost all = lines_view(lines@);
    if lines.len() == 0 {
        assert(texts_view(writes@) =~= storage_values(all, StorageOp::Write));
        assert(texts_view(reads@) =~= storage_values(all, StorageOp::Read));
        return (writes, reads);
    }
    let mut i: usize = 1;
    assert(texts_view(writes@) =~= storage_values(all.take(1), StorageOp::Write));
    assert(texts_view(reads@) =~= storage_values(all.take(1), StorageOp::Read));
    while i < lines.len()
        invariant
            1 <= i <= lines@.len(),
            all == lines_view(lines@),
            texts_view(writes@) == storage_values(all.take(i as int), StorageOp::Write),
            texts_view(reads@) == storage_values(all.take(i as int), StorageOp::Read),
        decreases lines@.len() - i,
    {
        proof {
            assert(all.take(i + 1).drop_last() =~= all.take(i as int));
            assert(all.take(i + 1).last() == text_view(lines@[i as int]));
        }
        let ghost old_writes = writes@;
        let ghost old_reads = reads@;
        match &lines[i] {
            None => {},
            Some(line) => match read_storage_row(line.as_str()) {
                None => {},
                Some((op, value)) => match op {
                    StorageOp::Write => {
                        writes.push(value);
                        assert(texts_view(writes@) =~= texts_view(old_writes).push(value@));
                    },
                    StorageOp::Read => {
                        reads.push(value);
                        assert(texts_view(reads@) =~= texts_view(old_reads).push(value@));
                    },
                },
            },
        }
        i += 1;
    }
    assert(all.take(i as int) =~= all);
    (writes, reads)
}

/// The largest thread number a row of a processor log may carry.
pub open spec fn max_thread() -> nat {
    (usize::MAX - 1) as nat
}

/// What a row of a processor log holds: the thread's number and the text of
/// its rate. A row has exactly three fields, the second a thread number.
pub open spec fn cpu_sample_of(line: Seq<char>) -> Option<(usize, Seq<char>)> {
    let parts = split_on(line, ',');
    if parts.len() != 3 {
        None
    } else {
        match parse_unsigned(parts[1], max_thread()) {
            Some(thread) => Some((thread as usize, parts[2])),
            None => None,
        }
    }
}

/// The rows of a processor log, in order. The first line is the header; a
/// line that could not be read or is no row is passed over.
pub open spec fn cpu_samples(lines: Seq<Option<Seq<char>>>) -> Seq<(usize, Seq<char>)>
    decreases lines.len(),
{
    if lines.len() <= 1 {
        Seq::empty()
    } else {
        let before = cpu_samples(lines.drop_last());
        match lines.last() {
            None => before,
            Some(line) => match cpu_sample_of(line) {
                None => before,
                Some(sample) => before.push(sample),
            },
        }
    }
}

/// Rows of a processor log as plain values.
pub open spec fn samples_view(rows: Seq<(usize, String)>) -> Seq<(usize, Seq<char>)> {
    Seq::new(rows.len(), |i: int| (rows[i].0, rows[i].1@))
}

/// Reads one row of a processor log.
pub fn read_cpu_row(line: &str) -> (r: Option<(usize, String)>)
    ensures
        match r {
            Some((thread, value)) => cpu_sample_of(line@) == Some((thread, value@)),
            None => cpu_sample_of(line@) is None,
        },
{
    let chars = to_chars(line);
    let ranges = split_ranges(&chars, 0, chars.len(), ',');
    assert(chars@.subrange(0, chars@.len() as int) == chars@);
    if ranges.len() != 3 {
        return None;
    }
    let ghost parts = pieces(chars@, ranges@);
    proof {
        assert(ranges@[1].0 <= ranges@[1].1 && ranges@[1].1 <= chars@.len());
        assert(ranges@[2].0 <= ranges@[2].1 && ranges@[2].1 <= chars@.len());
        assert(parts[1] == chars@.subrange(ranges@[1].0 as int, ranges@[1].1 as int));
        assert(parts[2] == chars@.subrange(ranges@[2].0 as int, ranges@[2].1 as int));
    }
    let (a, b) = ranges[1];
    match parse_decimal(&chars, a, b, (usize::MAX - 1) as u64) {
        None => None,
        Some(thread) => {
            let value = String::from_str(line.substring_char(ranges[2].0, ranges[2].1));
            Some((thread as usize, value))
        },
    }
}

/// Reads a processor run's log: gives each row's thread number and the text
/// of its rate, in the order of the log.
pub fn analyze_cpu_stress_csv(lines: &Vec<Option<String>>) -> (rows: Vec<(usize, String)>)
    ensures
        samples_view(rows@) == cpu_samples(lines_view(lines@)),
{
    let mut rows: Vec<(usize, String)> = Vec::new();
    let ghost all = lines_view(lines@);
    if lines.len() == 0 {
        assert(samples_view(rows@) =~= cpu_samples(all));
        return rows;
    }
    let mut i: usize = 1;
    assert(samples_view(rows@) =~= cpu_samples(all.take(1)));
    while i < lines.len()
        invariant
            1 <= i <= lines@.len(),
            all == lines_view(lines@),
            samples_view(rows@) == cpu_samples(all.take(i as int)),
        decreases lines@.len() - i,
    {
        proof {
            assert(all.take(i + 1).drop_last() =~= all.take(i as int));
            assert(all.take(i + 1).last() == text_view(lines@[i as int]));
        }
        let ghost old_rows = rows@;
        match &lines[i] {
            None => {},
            Some(line) => match read_cpu_row(line.as_str()) {
                None => {},
                Some((thread, value)) => {
                    rows.push((thread, value));
                    assert(samples_view(rows@) =~= samples_view(old_rows).push((thread, value@)));
                },
            },
        }
        i += 1;
    }
    assert(all.take(i as int) =~= all);
    rows
}

/// The number of per-thread lists the rows call for: one more than the
/// largest thread number among them, and none where there is no row.
pub open spec fn slots_needed<T>(rows: Seq<(usize, T)>) -> nat
    decreases rows.len(),
{
    if rows.len() == 0 {
        0
    } else {
        let before = slots_needed(rows.drop_last());
        if before > rows.last().0 {
            before
        } else {
            rows.last().0 as nat + 1
        }
    }
}

/// The values of the rows of one thread, in order.
pub open spec fn values_of_thread<T>(rows: Seq<(usize, T)>, thread: int) -> Seq<T>
    decreases rows.len(),
{
    if rows.len() == 0 {
        Seq::empty()
    } else if rows.last().0 == thread {
        values_of_thread(rows.drop_last(), thread).push(rows.last().1)
    } else {
        values_of_thread(rows.drop_last(), thread)
    }
}

/// A thread whose number is beyond the lists called for has no rows.
pub proof fn lemma_no_rows_beyond<T>(rows: Seq<(usize, T)>, thread: int)
    requires
        thread >= slots_needed(rows),
    ensures
        values_of_thread(rows, thread) == Seq::<T>::empty(),
    decreases rows.len(),
{
    if rows.len() > 0 {
        lemma_no_rows_beyond(rows.drop_last(), thread);
    }
}

/// Sorts the values of rows into one list per thread, each in the order of
/// the rows. There are as many lists as the largest thread number calls for,
/// and a thread without rows has an empty one.
pub fn group_by_thread<T>(rows: Vec<(usize, T)>) -> (groups: Vec<Vec<T>>)
    requires
        forall|i: int| 0 <= i < rows@.len() ==> (#[trigger] rows@[i]).0 < usize::MAX,
    ensures
        groups@.len() == slots_needed(rows@),
        forall|t: int| 0 <= t < groups@.len() ==> (#[trigger] groups@[t])@ == values_of_thread(rows@, t),
{
    let mut groups: Vec<Vec<T>> = Vec::new();
    let ghost all = rows@;
    for row in it: rows.into_iter()
        invariant
            it.seq() == all,
            forall|i: int| 0 <= i < all.len() ==> (#[trigger] all[i]).0 < usize::MAX,
            groups@.len() == slots_needed(all.take(it.index() as int)),
            forall|t: int|
                0 <= t < groups@.len() ==> (#[trigger] groups@[t])@ == values_of_thread(
                    all.take(it.index() as int),
                    t,
                ),
    {
        let ghost k = it.index() as int;
        let ghost seen = all.take(k);
        let ghost next = all.take(k + 1);
        proof {
            assert(next.drop_last() =~= seen);
            assert(next.last() == all[k]);
            assert(all[k] == row);
        }
        let (thread, value) = row;
        while groups.len() <= thread
            invariant
                thread < usize::MAX,
                groups@.len() >= slots_needed(seen),
                groups@.len() <= slots_needed(next),
                slots_needed(next) == if slots_needed(seen) > thread {
                    slots_needed(seen)
                } else {
                    thread as nat + 1
                },
                forall|t: int|
                    0 <= t < groups@.len() ==> (#[trigger] groups@[t])@ == values_of_thread(
                        seen,
                        t,
                    ),
            decreases usize::MAX - groups@.len(),
        {
            proof {
                lemma_no_rows_beyond(seen, groups@.len() as int);
            }
            groups.push(Vec::new());
        }
        groups[thread].push(value);
    }
    assert(all.take(all.len() as int) =~= all);
    groups
}

/// One row of a summary log: the workload's name, its parameters, a thread
/// number and the thread's count of operations.
pub type SummaryEntry = (Seq<char>, Seq<char>, usize, u64);

/// The number `s` reads as, if it is one and no larger than `max`; zero
/// otherwise.
pub open spec fn number_or_zero(s: Seq<char>, max: nat) -> nat {
    match parse_unsigned(s, max) {
        Some(n) => n,
        None => 0,
    }
}

/// What a row of a summary log holds. A row has at least six fields: the
/// second is the workload, the last two are the thread and its count, each
/// zero where the field is no number, and the parameters are what stands
/// between the workload and the last three fields, commas included.
pub open spec fn summary_entry_of(line: Seq<char>) -> Option<SummaryEntry> {
    let parts = split_on(line, ',');
    let n = parts.len() as int;
    if n < 6 {
        None
    } else {
        Some(
            (
                parts[1],
                joined(parts.subrange(2, n - 3), ','),
                number_or_zero(parts[n - 2], usize::MAX as nat) as usize,
                number_or_zero(parts[n - 1], u64::MAX as nat) as u64,
            ),
        )
    }
}

/// The rows of a summary log, in order. The first line is the header; a line
/// that is no row is passed over.
pub open spec fn summary_entries(lines: Seq<Option<Seq<char>>>) -> Seq<SummaryEntry>
    decreases lines.len(),
{
    if lines.len() <= 1 {
        Seq::empty()
    } else {
        let before = summary_entries(lines.drop_last());
        match lines.last() {
            None => before,
            Some(line) => match summary_entry_of(line) {
                None => before,
                Some(entry) => before.push(entry),
            },
        }
    }
}

/// Every line of the log could be read.
pub open spec fn all_read(lines: Seq<Option<Seq<char>>>) -> bool {
    forall|i: int| 0 <= i < lines.len() ==> (#[trigger] lines[i]) is Some
}

/// The per-thread counts of the rows.
pub open spec fn entry_counts(entries: Seq<SummaryEntry>) -> Seq<u64> {
    Seq::new(entries.len(), |i: int| entries[i].3)
}

/// The thread numbers of the rows, each with its count.
pub open spec fn entry_threads(entries: Seq<SummaryEntry>) -> Seq<(usize, u64)> {
    Seq::new(entries.len(), |i: int| (entries[i].2, entries[i].3))
}

/// What a summary log comes to: the workload and parameters of its last row
/// (empty where it has none), the sum of its per-thread counts, and the
/// threads with their counts in order. `None` where a line could not be read.
pub open spec fn summary_of(lines: Seq<Option<Seq<char>>>) -> Option<
    (Seq<char>, Seq<char>, u128, Seq<(usize, u64)>),
> {
    let entries = summary_entries(lines);
    if !all_read(lines) {
        None
    } else {
        Some(
            (
                if entries.len() > 0 {
                    entries.last().0
                } else {
                    Seq::empty()
                },
                if entries.len() > 0 {
                    entries.last().1
                } else {
                    Seq::empty()
                },
                total_of(entry_counts(entries)) as u128,
                entry_threads(entries),
            ),
        )
    }
}

/// Reads one row of a summary log.
pub fn read_summary_row(line: &str) -> (r: Option<(String, String, usize, u64)>)
    ensures
        match r {
            Some((workload, params, thread, count)) => summary_entry_of(line@) == Some(
                (workload@, params@, thread, count),
            ),
            None => summary_entry_of(line@) is None,
        },
{
    let chars = to_chars(line);
    let ranges = split_ranges(&chars, 0, chars.len(), ',');
    assert(chars@.subrange(0, chars@.len() as int) == chars@);
    let n: usize = ranges.len();
    if n < 6 {
        return None;
    }
    let ghost parts = pieces(chars@, ranges@);
    proof {
        reveal_strlit(",");
        assert(ranges@[1].0 <= ranges@[1].1 && ranges@[1].1 <= chars@.len());
        assert(ranges@[2].0 <= ranges@[2].1 && ranges@[2].1 <= chars@.len());
        assert(ranges@[n - 2].0 <= ranges@[n - 2].1 && ranges@[n - 2].1 <= chars@.len());
        assert(ranges@[n - 1].0 <= ranges@[n - 1].1 && ranges@[n - 1].1 <= chars@.len());
        assert(parts[1] == chars@.subrange(ranges@[1].0 as int, ranges@[1].1 as int));
        assert(parts[2] == chars@.subrange(ranges@[2].0 as int, ranges@[2].1 as int));
        assert(parts[n - 2] == chars@.subrange(
            ranges@[n - 2].0 as int,
            ranges@[n - 2].1 as int,
        ));
        assert(parts[n - 1] == chars@.subrange(
            ranges@[n - 1].0 as int,
            ranges@[n - 1].1 as int,
        ));
    }
    let workload = String::from_str(line.substring_char(ranges[1].0, ranges[1].1));
    let mut params = String::from_str(line.substring_char(ranges[2].0, ranges[2].1));
    let mut k: usize = 3;
    proof {
        assert(parts.subrange(2, 3) =~= seq![parts[2]]);
    }
    while k < n - 3
        invariant
            6 <= n == ranges@.len(),
            3 <= k <= n - 3,
            chars@ == line@,
            ranges_within(ranges@, chars@.len()),
            parts == pieces(chars@, ranges@),
            ","@ == seq![','],
            params@ == joined(parts.subrange(2, k as int), ','),
        decreases n - k,
    {
        proof {
            assert(ranges@[k as int].0 <= ranges@[k as int].1 && ranges@[k as int].1
                <= chars@.len());
            assert(parts[k as int] == chars@.subrange(
                ranges@[k as int].0 as int,
                ranges@[k as int].1 as int,
            ));
            lemma_joined_push(parts.subrange(2, k as int), parts[k as int], ',');
            assert(parts.subrange(2, k as int).push(parts[k as int]) =~= parts.subrange(2, k + 1));
        }
        params.append(",");
        params.append(line.substring_char(ranges[k].0, ranges[k].1));
        k += 1;
    }
    let thread: usize = match parse_decimal(
        &chars,
        ranges[n - 2].0,
        ranges[n - 2].1,
        usize::MAX as u64,
    ) {
        Some(v) => v as usize,
        None => 0,
    };
    let count: u64 = match parse_decimal(&chars, ranges[n - 1].0, ranges[n - 1].1, u64::MAX) {
        Some(v) => v,
        None => 0,
    };
    Some((workload, params, thread, count))
}

/// Reads a selectable run's summary log: gives the workload and parameters
/// of its last row, the sum of the per-thread counts, and each thread with
/// its count. Fails where a line could not be read.
pub fn analyze_selectable_stress_csv(lines: &Vec<Option<String>>) -> (r: Option<
    (String, String, u128, Vec<(usize, u64)>),
>)
    ensures
        match r {
            Some((workload, params, total, threads)) => summary_of(lines_view(lines@)) == Some(
                (workload@, params@, total, threads@),
            ),
            None => summary_of(lines_view(lines@)) is None,
        },
{
    let ghost all = lines_view(lines@);
    let mut workload = String::new();
    let mut params = String::new();
    let mut threads: Vec<(usize, u64)> = Vec::new();
    let mut counts: Vec<u64> = Vec::new();
    let mut i: usize = 0;
    assert(all.take(0) =~= Seq::<Option<Seq<char>>>::empty());
    while i < lines.len()
        invariant
            i <= lines@.len(),
            all == lines_view(lines@),
            forall|j: int| 0 <= j < i ==> (#[trigger] all[j]) is Some,
            threads@ == entry_threads(summary_entries(all.take(i as int))),
            counts@ == entry_counts(summary_entries(all.take(i as int))),
            summary_entries(all.take(i as int)).len() > 0 ==> workload@ == summary_entries(
                all.take(i as int),
            ).last().0 && params@ == summary_entries(all.take(i as int)).last().1,
            summary_entries(all.take(i as int)).len() == 0 ==> workload@ == Seq::<char>::empty()
                && params@ == Seq::<char>::empty(),
        decreases lines@.len() - i,
    {
        proof {
            assert(all.take(i + 1).drop_last() =~= all.take(i as int));
            assert(all.take(i + 1).last() == text_view(lines@[i as int]));
            assert(all[i as int] == text_view(lines@[i as int]));
        }
        let ghost before = summary_entries(all.take(i as int));
        match &lines[i] {
            None => {
                assert(!all_read(all));
                return None;
            },
            Some(line) => {
                if i > 0 {
                    match read_summary_row(line.as_str()) {
                        None => {},
                        Some((w, p, thread, count)) => {
                            workload = w;
                            params = p;
                            threads.push((thread, count));
                            counts.push(count);
                            proof {
                                let entry = (workload@, params@, thread, count);
                                assert(summary_entries(all.take(i + 1)) == before.push(entry));
                                assert(threads@ =~= entry_threads(before.push(entry)));
                                assert(counts@ =~= entry_counts(before.push(entry)));
                            }
                        },
                    }
                } else {
                    assert(summary_entries(all.take(1)) =~= Seq::<SummaryEntry>::empty());
                }
            },
        }
        i += 1;
    }
    assert(all.take(i as int) =~= all);
    assert(all_read(all));
    let total = total_count(&counts);
    Some((workload, params, total, threads))
}

/// The header of a storage run's log.
pub fn storage_header() -> (h: &'static str)
    ensures
        h@ == "timestamp,operation,mbps"@,
{
    "timestamp,operation,mbps"
}

/// The header of a processor run's log.
pub fn cpu_header() -> (h: &'static str)
    ensures
        h@ == "timestamp,thread,iterations_per_sec"@,
{
    "timestamp,thread,iterations_per_sec"
}

/// The header of a selectable run's summary log.
pub fn summary_header() -> (h: &'static str)
    ensures
        h@ == "timestamp,workload,params,total_ops,thread,thread_ops"@,
{
    "timestamp,workload,params,total_ops,thread,thread_ops"
}

/// A row of three fields.
pub open spec fn row_text(first: Seq<char>, second: Seq<char>, third: Seq<char>) -> Seq<char> {
    first + seq![','] + second + seq![','] + third
}

/// Writes a row of three fields.
fn three_fields(first: &str, second: &str, third: &str) -> (out: String)
    ensures
        out@ == row_text(first@, second@, third@),
{
    proof {
        reveal_strlit(",");
    }
    let mut out = String::from_str(first);
    out.append(",");
    out.append(second);
    out.append(",");
    out.append(third);
    assert(","@ =~= seq![',']);
    out
}

/// Writes a row of a storage run's log: when the sample was taken, the phase
/// and the throughput in megabytes per second, as text.
pub fn storage_row(timestamp: &str, op: StorageOp, rate: &str) -> (out: String)
    ensures
        out@ == row_text(timestamp@, op.word_text(), rate@),
{
    three_fields(timestamp, op.word(), rate)
}

/// Writes a row of a processor run's log: when the sample was taken, the
/// thread's number and its rate in units per second, as text.
pub fn cpu_row(timestamp: &str, thread: usize, rate: &str) -> (out: String)
    ensures
        out@ == row_text(timestamp@, decimal_digits(thread as nat), rate@),
{
    let mut number = String::new();
    push_decimal(&mut number, thread as u64);
    assert(number@ =~= decimal_digits(thread as nat));
    three_fields(timestamp, number.as_str(), rate)
}

/// A row of a summary log.
pub open spec fn summary_row_text(
    date: Seq<char>,
    label: Seq<char>,
    params: Seq<char>,
    total: u128,
    thread: usize,
    count: u64,
) -> Seq<char> {
    date + seq![','] + label + seq![','] + params + seq![','] + decimal_digits(total as nat)
        + seq![','] + decimal_digits(thread as nat) + seq![','] + decimal_digits(count as nat)
}

/// Writes a row of a selectable run's summary log: when the run began, the
/// workload's name, its parameters, the run's total, then one thread's number
/// and count.
pub fn summary_row(
    date: &str,
    label: &str,
    params: &str,
    total: u128,
    thread: usize,
    count: u64,
) -> (out: String)
    ensures
        out@ == summary_row_text(date@, label@, params@, total, thread, count),
{
    proof {
        reveal_strlit(",");
    }
    let mut out = String::from_str(date);
    out.append(",");
    out.append(label);
    out.append(",");
    out.append(params);
    out.append(",");
    push_decimal_wide(&mut out, total);
    out.append(",");
    push_decimal(&mut out, thread as u64);
    out.append(",");
    push_decimal(&mut out, count);
    assert(","@ =~= seq![',']);
    assert(out@ =~= summary_row_text(date@, label@, params@, total, thread, count));
    out
}

/// Writes the rows of a selectable run's summary log, one per thread in the
/// order of the counters.
pub fn summary_rows(date: &str, label: &str, params: &str, total: u128, counts: &Vec<u64>) -> (rows:
    Vec<String>)
    ensures
        rows@.len() == counts@.len(),
        forall|i: int|
            0 <= i < rows@.len() ==> (#[trigger] rows@[i])@ == summary_row_text(
                date@,
                label@,
                params@,
                total,
                i as usize,
                counts@[i],
            ),
{
    let mut rows: Vec<String> = Vec::new();
    let mut i: usize = 0;
    while i < counts.len()
        invariant
            i <= counts@.len(),
            rows@.len() == i,
            forall|j: int|
                0 <= j < i ==> (#[trigger] rows@[j])@ == summary_row_text(
                    date@,
                    label@,
                    params@,
                    total,
                    j as usize,
                    counts@[j],
                ),
        decreases counts@.len() - i,
    {
        rows.push(summary_row(date, label, params, total, i, counts[i]));
        i += 1;
    }
    rows
}

/// A row of three fields, the first two without a comma, splits into them.
pub proof fn lemma_row_fields(first: Seq<char>, second: Seq<char>, third: Seq<char>)
    requires
        free_of(first, ','),
        free_of(second, ','),
        free_of(third, ','),
    ensures
        split_on(row_text(first, second, third), ',') == seq![first, second, third],
{
    lemma_split_single(third, ',');
    lemma_split_cons(second, third, ',');
    lemma_split_cons(first, second + seq![','] + third, ',');
    assert(row_text(first, second, third) =~= first + seq![','] + (second + seq![','] + third));
    assert(seq![first] + (seq![second] + seq![third]) =~= seq![first, second, third]);
}

/// A storage row reads back as the phase and the throughput text it was
/// written from.
pub proof fn storage_row_round_trip(timestamp: Seq<char>, op: StorageOp, rate: Seq<char>)
    requires
        free_of(timestamp, ','),
        free_of(rate, ','),
    ensures
        storage_sample_of(row_text(timestamp, op.word_text(), rate)) == Some((op, rate)),
{
    reveal_strlit("write");
    reveal_strlit("read");
    assert("write"@.len() != "read"@.len());
    lemma_row_fields(timestamp, op.word_text(), rate);
}

/// A processor row reads back as the thread and the rate text it was written
/// from.
pub proof fn cpu_row_round_trip(timestamp: Seq<char>, thread: usize, rate: Seq<char>)
    requires
        free_of(timestamp, ','),
        free_of(rate, ','),
        thread < usize::MAX,
    ensures
        cpu_sample_of(row_text(timestamp, decimal_digits(thread as nat), rate)) == Some(
            (thread, rate),
        ),
{
    let digits = decimal_digits(thread as nat);
    lemma_digits_free(thread as nat, ',');
    lemma_row_fields(timestamp, digits, rate);
    lemma_parse_decimal_digits(thread as nat, max_thread());
}

/// A summary row reads back as the workload, the parameters, the thread and
/// the count it was written from, whatever the parameters hold.
pub proof fn summary_row_round_trip(
    date: Seq<char>,
    label: Seq<char>,
    params: Seq<char>,
    total: u128,
    thread: usize,
    count: u64,
)
    requires
        free_of(date, ','),
        free_of(label, ','),
    ensures
        summary_entry_of(summary_row_text(date, label, params, total, thread, count)) == Some(
            (label, params, thread, count),
        ),
{
    let t = decimal_digits(total as nat);
    let h = decimal_digits(thread as nat);
    let c = decimal_digits(count as nat);
    lemma_digits_free(total as nat, ',');
    lemma_digits_free(thread as nat, ',');
    lemma_digits_free(count as nat, ',');
    lemma_row_fields(t, h, c);
    let tail = row_text(t, h, c);
    let inner = params + seq![','] + tail;
    lemma_split_concat(params, tail, ',');
    lemma_split_nonempty(params, ',');
    lemma_split_cons(label, inner, ',');
    lemma_split_cons(date, label + seq![','] + inner, ',');
    let line = summary_row_text(date, label, params, total, thread, count);
    assert(line =~= date + seq![','] + (label + seq![','] + inner));
    let middle = split_on(params, ',');
    let parts = split_on(line, ',');
    assert(parts =~= seq![date, label] + middle + seq![t, h, c]);
    let n = parts.len() as int;
    assert(n == middle.len() + 5);
    assert(parts.subrange(2, n - 3) =~= middle);
    lemma_joined_split(params, ',');
    assert(parts[1] == label);
    assert(parts[n - 2] == h);
    assert(parts[n - 1] == c);
    lemma_parse_decimal_digits(thread as nat, usize::MAX as nat);
    lemma_parse_decimal_digits(count as nat, u64::MAX as nat);
}

/// The lines of a summary log as a run writes it: the header, then one row
/// per thread in the order of the counters.
pub open spec fn summary_log_text(
    date: Seq<char>,
    label: Seq<char>,
    params: Seq<char>,
    total: u128,
    counts: Seq<u64>,
) -> Seq<Option<Seq<char>>> {
    Seq::new(
        counts.len() + 1,
        |i: int|
            if i == 0 {
                Some("timestamp,workload,params,total_ops,thread,thread_ops"@)
            } else {
                Some(summary_row_text(date, label, params, total, (i - 1) as usize, counts[i - 1]))
            },
    )
}

/// The rows that a written summary log reads as: one per thread, each with
/// the workload, the parameters, the thread's number and its count.
pub open spec fn written_entries(
    label: Seq<char>,
    params: Seq<char>,
    counts: Seq<u64>,
) -> Seq<SummaryEntry> {
    Seq::new(counts.len(), |i: int| (label, params, i as usize, counts[i]))
}

/// The first rows of a written summary log read as the first threads' rows.
pub proof fn lemma_written_entries(
    date: Seq<char>,
    label: Seq<char>,
    params: Seq<char>,
    total: u128,
    counts: Seq<u64>,
    k: int,
)
    requires
        free_of(date, ','),
        free_of(label, ','),
        counts.len() <= usize::MAX,
        0 <= k <= counts.len(),
    ensures
        summary_entries(summary_log_text(date, label, params, total, counts).take(k + 1))
            == written_entries(label, params, counts.take(k)),
    decreases k,
{
    let log = summary_log_text(date, label, params, total, counts);
    let lines = log.take(k + 1);
    if k == 0 {
        assert(written_entries(label, params, counts.take(0)) =~= Seq::<SummaryEntry>::empty());
    } else {
        lemma_written_entries(date, label, params, total, counts, k - 1);
        assert(lines.drop_last() =~= log.take(k));
        assert(lines.last() == log[k]);
        summary_row_round_trip(date, label, params, total, (k - 1) as usize, counts[k - 1]);
        assert(written_entries(label, params, counts.take(k - 1)).push(
            (label, params, (k - 1) as usize, counts[k - 1]),
        ) =~= written_entries(label, params, counts.take(k)));
    }
}

/// A summary log reads back as what it was written from: the workload, the
/// parameters, each thread with its count, and as total the sum of the
/// counts.
pub proof fn summary_log_round_trip(
    date: Seq<char>,
    label: Seq<char>,
    params: Seq<char>,
    total: u128,
    counts: Seq<u64>,
)
    requires
        free_of(date, ','),
        free_of(label, ','),
        0 < counts.len() <= usize::MAX,
    ensures
        summary_of(summary_log_text(date, label, params, total, counts)) == Some(
            (
                label,
                params,
                total_of(counts) as u128,
                Seq::new(counts.len(), |i: int| (i as usize, counts[i])),
            ),
        ),
{
    let log = summary_log_text(date, label, params, total, counts);
    lemma_written_entries(date, label, params, total, counts, counts.len() as int);
    assert(log.take(counts.len() as int + 1) =~= log);
    assert(counts.take(counts.len() as int) =~= counts);
    let entries = written_entries(label, params, counts);
    assert(entry_counts(entries) =~= counts);
    assert(entry_threads(entries) =~= Seq::new(counts.len(), |i: int| (i as usize, counts[i])));
    assert(entries.last() == (label, params, (counts.len() - 1) as usize, counts.last()));
}

/// Reading one storage log twice gives the same throughput texts both times.
pub proof fn storage_analysis_repeatable(
    lines: Seq<Option<String>>,
    first: (Vec<String>, Vec<String>),
    second: (Vec<String>, Vec<String>),
)
    requires
        texts_view(first.0@) == storage_values(lines_view(lines), StorageOp::Write),
        texts_view(first.1@) == storage_values(lines_view(lines), StorageOp::Read),
        texts_view(second.0@) == storage_values(lines_view(lines), StorageOp::Write),
        texts_view(second.1@) == storage_values(lines_view(lines), StorageOp::Read),
    ensures
        texts_view(first.0@) == texts_view(second.0@),
        texts_view(first.1@) == texts_view(second.1@),
{
}

/// Reading one processor log twice gives the same rows both times.
pub proof fn cpu_analysis_repeatable(
    lines: Seq<Option<String>>,
    first: Vec<(usize, String)>,
    second: Vec<(usize, String)>,
)
    requires
        samples_view(first@) == cpu_samples(lines_view(lines)),
        samples_view(second@) == cpu_samples(lines_view(lines)),
    ensures
        samples_view(first@) == samples_view(second@),
{
}

/// Reading one summary log twice gives the same workload, parameters, total
/// and per-thread counts both times, or fails both times.
pub proof fn summary_analysis_repeatable(
    lines: Seq<Option<String>>,
    first: Option<(String, String, u128, Vec<(usize, u64)>)>,
    second: Option<(String, String, u128, Vec<(usize, u64)>)>,
)
    requires
        first matches Some(t) ==> summary_of(lines_view(lines)) == Some((t.0@, t.1@, t.2, t.3@)),
        first is None ==> summary_of(lines_view(lines)) is None,
        second matches Some(t) ==> summary_of(lines_view(lines)) == Some((t.0@, t.1@, t.2, t.3@)),
        second is None ==> summary_of(lines_view(lines)) is None,
    ensures
        first is Some <==> second is Some,
        first matches Some(a) ==> second matches Some(b) && a.0@ == b.0@ && a.1@ == b.1@ && a.2
            == b.2 && a.3@ == b.3@,
{
}

} // verus!
