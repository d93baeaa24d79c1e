//! The kinds of workload and the parameters of their runs.
use crate::config::{Config, ConfigError};
use crate::log_name::{
    cpu_stress_log_name, cpu_stress_name_text, lemma_plain_tokens, lemma_sized_tokens,
    lemma_tagged_free, log_name_text, plain_selectable_log_name, read_back,
    selectable_name_round_trip, selectable_stress_fields, sized_selectable_log_name,
    storage_stress_log_name, storage_stress_name_text, tagged,
};
use crate::text::{decimal_digits, free_of, push_decimal};
use crate::timestamp::{display_text, timestamp_of};
use vstd::prelude::*;
use vstd::string::*;

verus! {

/// The processor-bound workloads a run can be made of.
#[derive(Clone, Copy, PartialEq, Eq, Debug, Structural)]
pub enum CpuWorkloadKind {
    TightLoop,
    MatrixMultiplication,
    Compression,
    RandomMemoryAccess,
}

impl CpuWorkloadKind {
    /// Every kind, in the order a chooser lists them.
    pub open spec fn all_kinds() -> Seq<CpuWorkloadKind> {
        seq![
            CpuWorkloadKind::TightLoop,
            CpuWorkloadKind::MatrixMultiplication,
            CpuWorkloadKind::Compression,
            CpuWorkloadKind::RandomMemoryAccess,
        ]
    }

    /// The name a reader sees for the kind.
    pub open spec fn label_text(self) -> Seq<char> {
        match self {
            CpuWorkloadKind::TightLoop => "Tight Loop"@,
            CpuWorkloadKind::MatrixMultiplication => "Matrix Multiplication"@,
            CpuWorkloadKind::Compression => "Compression"@,
            CpuWorkloadKind::RandomMemoryAccess => "Random Memory Access"@,
        }
    }

    /// The word that stands for the kind in a log's name.
    pub open spec fn token_text(self) -> Seq<char> {
        match self {
            CpuWorkloadKind::TightLoop => "tightloop"@,
            CpuWorkloadKind::MatrixMultiplication => "matrix"@,
            CpuWorkloadKind::Compression => "compression"@,
            CpuWorkloadKind::RandomMemoryAccess => "ram"@,
        }
    }

    /// The word that stands for the kind in a log's name.
    pub fn token(self) -> (word: &'static str)
        ensures
            word@ == self.token_text(),
    {
        match self {
            CpuWorkloadKind::TightLoop => "tightloop",
            CpuWorkloadKind::MatrixMultiplication => "matrix",
            CpuWorkloadKind::Compression => "compression",
            CpuWorkloadKind::RandomMemoryAccess => "ram",
        }
    }

    /// No kind's word holds an underscore, and no two kinds share a word.
    pub proof fn lemma_tokens(a: CpuWorkloadKind, b: CpuWorkloadKind)
        ensures
            free_of(a.token_text(), '_'),
            a.token_text() == b.token_text() ==> a == b,
    {
        reveal_strlit("tightloop");
        reveal_strlit("matrix");
        reveal_strlit("compression");
        reveal_strlit("ram");
        assert(a.token_text().len() == b.token_text().len() ==> a == b);
    }

    /// Every kind, in the order a chooser lists them.
    pub fn all() -> (kinds: &'static [CpuWorkloadKind])
        ensures
            kinds@ == Self::all_kinds(),
    {
        let kinds: &'static [CpuWorkloadKind] = &[
            CpuWorkloadKind::TightLoop,
            CpuWorkloadKind::MatrixMultiplication,
            CpuWorkloadKind::Compression,
            CpuWorkloadKind::RandomMemoryAccess,
        ];
        assert(kinds@ =~= Self::all_kinds());
        kinds
    }

    /// The name a reader sees for the kind.
    pub fn label(self) -> (name: &'static str)
        ensures
            name@ == self.label_text(),
    {
        match self {
            CpuWorkloadKind::TightLoop => "Tight Loop",
            CpuWorkloadKind::MatrixMultiplication => "Matrix Multiplication",
            CpuWorkloadKind::Compression => "Compression",
            CpuWorkloadKind::RandomMemoryAccess => "Random Memory Access",
        }
    }
}

/// `key=value`, the value in base ten.
pub open spec fn param_text(key: Seq<char>, value: nat) -> Seq<char> {
    key + seq!['='] + decimal_digits(value)
}

/// Appends `key=value` to `out`.
fn push_param(out: &mut String, key: &str, value: u64)
    ensures
        final(out)@ == old(out)@ + param_text(key@, value as nat),
{
    proof {
        reveal_strlit("=");
    }
    out.append(key);
    out.append("=");
    push_decimal(out, value);
    assert("="@ =~= seq!['=']);
    assert(final(out)@ =~= old(out)@ + param_text(key@, value as nat));
}

/// The tags of the tokens in a selectable run's log name hold no underscore.
proof fn lemma_tags_free()
    ensures
        free_of("size"@, '_'),
        free_of("block"@, '_'),
        free_of("buf"@, '_'),
        free_of("threads"@, '_'),
        free_of("dur"@, '_'),
{
    reveal_strlit("size");
    reveal_strlit("block");
    reveal_strlit("buf");
    reveal_strlit("threads");
    reveal_strlit("dur");
}

/// The parameters of a matrix-multiplication run.
#[derive(Clone, Copy, Debug, PartialEq, Eq, Structural)]
pub struct MatrixStressConfig {
    pub matrix_size: usize,
    pub duration_secs: u32,
    pub threads: usize,
}

impl MatrixStressConfig {
    /// The parameter tokens of the run's log name.
    pub open spec fn name_tokens(self) -> Seq<Seq<char>> {
        seq![
            tagged("size"@, self.matrix_size as nat),
            tagged("threads"@, self.threads as nat),
            tagged("dur"@, self.duration_secs as nat),
        ]
    }

    /// The name of the log of a run that began at `date`.
    pub open spec fn name_text(self, date: Seq<char>) -> Seq<char> {
        log_name_text(
            "selectable_"@,
            CpuWorkloadKind::MatrixMultiplication.token_text(),
            date,
            self.name_tokens(),
        )
    }

    /// The parameters as a log row shows them.
    pub open spec fn params_text(self) -> Seq<char> {
        param_text("size"@, self.matrix_size as nat) + seq![','] + param_text(
            "threads"@,
            self.threads as nat,
        ) + seq![','] + param_text("dur"@, self.duration_secs as nat)
    }

    /// The parameters as the tunables give them.
    pub fn from_config(config: &Config) -> (c: Self)
        ensures
            c.matrix_size == config.matrix_size,
            c.duration_secs == config.matrix_duration_secs,
            c.threads == config.matrix_threads,
    {
        Self {
            matrix_size: config.matrix_size,
            duration_secs: config.matrix_duration_secs,
            threads: config.matrix_threads,
        }
    }

    /// The number of cells of one operand matrix: the size squared. Turned
    /// down as invalid where that number does not fit the machine.
    pub fn operand_len(&self) -> (r: Result<usize, ConfigError>)
        ensures
            r == if self.matrix_size * self.matrix_size <= usize::MAX {
                Ok::<usize, ConfigError>((self.matrix_size * self.matrix_size) as usize)
            } else {
                Err(ConfigError::Invalid)
            },
    {
        match self.matrix_size.checked_mul(self.matrix_size) {
            Some(n) => Ok(n),
            None => Err(ConfigError::Invalid),
        }
    }

    /// Whether a run can start with these parameters: the operand matrices
    /// must fit the machine.
    pub fn check(&self) -> (r: Result<(), ConfigError>)
        ensures
            r is Ok <==> self.matrix_size * self.matrix_size <= usize::MAX,
            r is Err ==> r == Err::<(), ConfigError>(ConfigError::Invalid),
    {
        match self.operand_len() {
            Ok(_) => Ok(()),
            Err(e) => Err(e),
        }
    }

    /// Names the log of a run with these parameters that began at `date`.
    pub fn log_name(&self, date: &str) -> (out: String)
        ensures
            out@ == self.name_text(date@),
    {
        sized_selectable_log_name(
            CpuWorkloadKind::MatrixMultiplication.token(),
            date,
            "size",
            self.matrix_size,
            self.threads,
            self.duration_secs,
        )
    }

    /// Writes the parameters as a log row shows them.
    pub fn params(&self) -> (out: String)
        ensures
            out@ == self.params_text(),
    {
        proof {
            reveal_strlit(",");
        }
        let mut out = String::new();
        push_param(&mut out, "size", self.matrix_size as u64);
        out.append(",");
        push_param(&mut out, "threads", self.threads as u64);
        out.append(",");
        push_param(&mut out, "dur", self.duration_secs as u64);
        assert(","@ =~= seq![',']);
        assert(out@ =~= self.params_text());
        out
    }

    /// The log's name reads back as the matrix kind, the size where it fits in
    /// 32 bits, and the duration, whenever its date reads as a moment.
    pub proof fn name_round_trip(self, day: Seq<char>, time: Seq<char>)
        requires
            free_of(day, '_'),
            free_of(time, '_'),
        ensures
            selectable_stress_fields(self.name_text(day + seq!['_'] + time)) == match timestamp_of(
                day + seq!['_'] + time,
            ) {
                Some(ts) => Some(
                    (
                        display_text(ts),
                        day + seq!['_'] + time,
                        CpuWorkloadKind::MatrixMultiplication.token_text(),
                        read_back(self.matrix_size as nat),
                        Some(self.duration_secs),
                    ),
                ),
                None => None,
            },
    {
        let kind = CpuWorkloadKind::MatrixMultiplication;
        CpuWorkloadKind::lemma_tokens(kind, kind);
        lemma_tags_free();
        lemma_tagged_free("size"@, self.matrix_size as nat);
        lemma_tagged_free("threads"@, self.threads as nat);
        lemma_tagged_free("dur"@, self.duration_secs as nat);
        selectable_name_round_trip(kind.token_text(), day, time, self.name_tokens());
        reveal_strlit("size");
        reveal_strlit("matrix");
        reveal_strlit("compression");
        reveal_strlit("ram");
        assert("matrix"@.len() == 6 && "compression"@.len() == 11 && "ram"@.len() == 3);
        lemma_sized_tokens(
            "size"@,
            self.matrix_size as nat,
            self.threads as nat,
            self.duration_secs,
        );
    }
}

/// A matrix-multiplication workload.
#[derive(Clone, Copy, Debug, PartialEq, Eq, Structural)]
pub struct MatrixStress {
    pub config: MatrixStressConfig,
}

impl MatrixStress {
    /// The workload with the parameters the tunables give it.
    pub fn from_config(config: &Config) -> (w: Self)
        ensures
            w.config.matrix_size == config.matrix_size,
            w.config.duration_secs == config.matrix_duration_secs,
            w.config.threads == config.matrix_threads,
    {
        Self { config: MatrixStressConfig::from_config(config) }
    }
}

/// The parameters of a compression run.
#[derive(Clone, Copy, Debug, PartialEq, Eq, Structural)]
pub struct CompressionStressConfig {
    pub block_size: usize,
    pub duration_secs: u32,
    pub threads: usize,
}

impl CompressionStressConfig {
    /// The parameter tokens of the run's log name.
    pub open spec fn name_tokens(self) -> Seq<Seq<char>> {
        seq![
            tagged("block"@, self.block_size as nat),
            tagged("threads"@, self.threads as nat),
            tagged("dur"@, self.duration_secs as nat),
        ]
    }

    /// The name of the log of a run that began at `date`.
    pub open spec fn name_text(self, date: Seq<char>) -> Seq<char> {
        log_name_text(
            "selectable_"@,
            CpuWorkloadKind::Compression.token_text(),
            date,
            self.name_tokens(),
        )
    }

    /// The parameters as a log row shows them.
    pub open spec fn params_text(self) -> Seq<char> {
        param_text("block"@, self.block_size as nat) + seq![','] + param_text(
            "threads"@,
            self.threads as nat,
        ) + seq![','] + param_text("dur"@, self.duration_secs as nat)
    }

    /// The parameters as the tunables give them.
    pub fn from_config(config: &Config) -> (c: Self)
        ensures
            c.block_size == config.compression_block_size,
            c.duration_secs == config.compression_duration_secs,
            c.threads == config.compression_threads,
    {
        Self {
            block_size: config.compression_block_size,
            duration_secs: config.compression_duration_secs,
            threads: config.compression_threads,
        }
    }

    /// Names the log of a run with these parameters that began at `date`.
    pub fn log_name(&self, date: &str) -> (out: String)
        ensures
            out@ == self.name_text(date@),
    {
        sized_selectable_log_name(
            CpuWorkloadKind::Compression.token(),
            date,
            "block",
            self.block_size,
            self.threads,
            self.duration_secs,
        )
    }

    /// Writes the parameters as a log row shows them.
    pub fn params(&self) -> (out: String)
        ensures
            out@ == self.params_text(),
    {
        proof {
            reveal_strlit(",");
        }
        let mut out = String::new();
        push_param(&mut out, "block", self.block_size as u64);
        out.append(",");
        push_param(&mut out, "threads", self.threads as u64);
        out.append(",");
        push_param(&mut out, "dur", self.duration_secs as u64);
        assert(","@ =~= seq![',']);
        assert(out@ =~= self.params_text());
        out
    }

    /// The log's name reads back as the compression kind, the size where it fits in
    /// 32 bits, and the duration, whenever its date reads as a moment.
    pub proof fn name_round_trip(self, day: Seq<char>, time: Seq<char>)
        requires
            free_of(day, '_'),
            free_of(time, '_'),
        ensures
            selectable_stress_fields(self.name_text(day + seq!['_'] + time)) == match timestamp_of(
                day + seq!['_'] + time,
            ) {
                Some(ts) => Some(
                    (
                        display_text(ts),
                        day + seq!['_'] + time,
                        CpuWorkloadKind::Compression.token_text(),
                        read_back(self.block_size as nat),
                        Some(self.duration_secs),
                    ),
                ),
                None => None,
            },
    {
        let kind = CpuWorkloadKind::Compression;
        CpuWorkloadKind::lemma_tokens(kind, kind);
        lemma_tags_free();
        lemma_tagged_free("block"@, self.block_size as nat);
        lemma_tagged_free("threads"@, self.threads as nat);
        lemma_tagged_free("dur"@, self.duration_secs as nat);
        selectable_name_round_trip(kind.token_text(), day, time, self.name_tokens());
        reveal_strlit("block");
        reveal_strlit("matrix");
        reveal_strlit("compression");
        reveal_strlit("ram");
        assert("matrix"@.len() == 6 && "compression"@.len() == 11 && "ram"@.len() == 3);
        lemma_sized_tokens(
            "block"@,
            self.block_size as nat,
            self.threads as nat,
            self.duration_secs,
        );
    }
}

/// A compression round-trip workload.
#[derive(Clone, Copy, Debug, PartialEq, Eq, Structural)]
pub struct CompressionStress {
    pub config: CompressionStressConfig,
}

impl CompressionStress {
    /// The workload with the parameters the tunables give it.
    pub fn from_config(config: &Config) -> (w: Self)
        ensures
            w.config.block_size == config.compression_block_size,
            w.config.duration_secs == config.compression_duration_secs,
            w.config.threads == config.compression_threads,
    {
        Self { config: CompressionStressConfig::from_config(config) }
    }
}

/// The parameters of a random-memory-access run.
#[derive(Clone, Copy, Debug, PartialEq, Eq, Structural)]
pub struct RamStressConfig {
    pub buffer_size: usize,
    pub duration_secs: u32,
    pub threads: usize,
}

impl RamStressConfig {
    /// The parameter tokens of the run's log name.
    pub open spec fn name_tokens(self) -> Seq<Seq<char>> {
        seq![
            tagged("buf"@, self.buffer_size as nat),
            tagged("threads"@, self.threads as nat),
            tagged("dur"@, self.duration_secs as nat),
        ]
    }

    /// The name of the log of a run that began at `date`.
    pub open spec fn name_text(self, date: Seq<char>) -> Seq<char> {
        log_name_text(
            "selectable_"@,
            CpuWorkloadKind::RandomMemoryAccess.token_text(),
            date,
            self.name_tokens(),
        )
    }

    /// The parameters as a log row shows them.
    pub open spec fn params_text(self) -> Seq<char> {
        param_text("buf"@, self.buffer_size as nat) + seq![','] + param_text(
            "threads"@,
            self.threads as nat,
        ) + seq![','] + param_text("dur"@, self.duration_secs as nat)
    }

    /// The parameters as the tunables give them.
    pub fn from_config(config: &Config) -> (c: Self)
        ensures
            c.buffer_size == config.ram_buffer_size,
            c.duration_secs == config.ram_duration_secs,
            c.threads == config.ram_threads,
    {
        Self {
            buffer_size: config.ram_buffer_size,
            duration_secs: config.ram_duration_secs,
            threads: config.ram_threads,
        }
    }

    /// Whether a run can start with these parameters: the buffer must hold
    /// one byte at least.
    pub fn check(&self) -> (r: Result<(), ConfigError>)
        ensures
            r is Ok <==> self.buffer_size >= 1,
            r is Err ==> r == Err::<(), ConfigError>(ConfigError::Invalid),
    {
        if self.buffer_size >= 1 {
            Ok(())
        } else {
            Err(ConfigError::Invalid)
        }
    }

    /// Names the log of a run with these parameters that began at `date`.
    pub fn log_name(&self, date: &str) -> (out: String)
        ensures
            out@ == self.name_text(date@),
    {
        sized_selectable_log_name(
            CpuWorkloadKind::RandomMemoryAccess.token(),
            date,
            "buf",
            self.buffer_size,
            self.threads,
            self.duration_secs,
        )
    }

    /// Writes the parameters as a log row shows them.
    pub fn params(&self) -> (out: String)
        ensures
            out@ == self.params_text(),
    {
        proof {
            reveal_strlit(",");
        }
        let mut out = String::new();
        push_param(&mut out, "buf", self.buffer_size as u64);
        out.append(",");
        push_param(&mut out, "threads", self.threads as u64);
        out.append(",");
        push_param(&mut out, "dur", self.duration_secs as u64);
        assert(","@ =~= seq![',']);
        assert(out@ =~= self.params_text());
        out
    }

    /// The log's name reads back as the memory kind, the size where it fits in
    /// 32 bits, and the duration, whenever its date reads as a moment.
    pub proof fn name_round_trip(self, day: Seq<char>, time: Seq<char>)
        requires
            free_of(day, '_'),
            free_of(time, '_'),
        ensures
            selectable_stress_fields(self.name_text(day + seq!['_'] + time)) == match timestamp_of(
                day + seq!['_'] + time,
            ) {
                Some(ts) => Some(
                    (
                        display_text(ts),
                        day + seq!['_'] + time,
                        CpuWorkloadKind::RandomMemoryAccess.token_text(),
                        read_back(self.buffer_size as nat),
                        Some(self.duration_secs),
                    ),
                ),
                None => None,
            },
    {
        let kind = CpuWorkloadKind::RandomMemoryAccess;
        CpuWorkloadKind::lemma_tokens(kind, kind);
        lemma_tags_free();
        lemma_tagged_free("buf"@, self.buffer_size as nat);
        lemma_tagged_free("threads"@, self.threads as nat);
        lemma_tagged_free("dur"@, self.duration_secs as nat);
        selectable_name_round_trip(kind.token_text(), day, time, self.name_tokens());
        reveal_strlit("buf");
        reveal_strlit("matrix");
        reveal_strlit("compression");
        reveal_strlit("ram");
        assert("matrix"@.len() == 6 && "compression"@.len() == 11 && "ram"@.len() == 3);
        lemma_sized_tokens(
            "buf"@,
            self.buffer_size as nat,
            self.threads as nat,
            self.duration_secs,
        );
    }
}

/// A random-memory-access workload.
#[derive(Clone, Copy, Debug, PartialEq, Eq, Structural)]
pub struct RamStress {
    pub config: RamStressConfig,
}

impl RamStress {
    /// The workload with the parameters the tunables give it.
    pub fn from_config(config: &Config) -> (w: Self)
        ensures
            w.config.buffer_size == config.ram_buffer_size,
            w.config.duration_secs == config.ram_duration_secs,
            w.config.threads == config.ram_threads,
    {
        Self { config: RamStressConfig::from_config(config) }
    }
}

/// The parameters of a tight-loop run.
#[derive(Clone, Copy, Debug, PartialEq, Eq, Structural)]
pub struct TightLoopStressConfig {
    pub duration_secs: u32,
    pub threads: usize,
}

impl TightLoopStressConfig {
    /// The parameter tokens of the run's log name.
    pub open spec fn name_tokens(self) -> Seq<Seq<char>> {
        seq![tagged("threads"@, self.threads as nat), tagged("dur"@, self.duration_secs as nat)]
    }

    /// The name of the log of a run that began at `date`.
    pub open spec fn name_text(self, date: Seq<char>) -> Seq<char> {
        log_name_text(
            "selectable_"@,
            CpuWorkloadKind::TightLoop.token_text(),
            date,
            self.name_tokens(),
        )
    }

    /// The parameters as a log row shows them.
    pub open spec fn params_text(self) -> Seq<char> {
        param_text("threads"@, self.threads as nat) + seq![','] + param_text(
            "dur"@,
            self.duration_secs as nat,
        )
    }

    /// The parameters as the tunables give them.
    pub fn from_config(config: &Config) -> (c: Self)
        ensures
            c.duration_secs == config.tightloop_duration_secs,
            c.threads == config.tightloop_threads,
    {
        Self { duration_secs: config.tightloop_duration_secs, threads: config.tightloop_threads }
    }

    /// Names the log of a run with these parameters that began at `date`.
    pub fn log_name(&self, date: &str) -> (out: String)
        ensures
            out@ == self.name_text(date@),
    {
        plain_selectable_log_name(
            CpuWorkloadKind::TightLoop.token(),
            date,
            self.threads,
            self.duration_secs,
        )
    }

    /// Writes the parameters as a log row shows them.
    pub fn params(&self) -> (out: String)
        ensures
            out@ == self.params_text(),
    {
        proof {
            reveal_strlit(",");
        }
        let mut out = String::new();
        push_param(&mut out, "threads", self.threads as u64);
        out.append(",");
        push_param(&mut out, "dur", self.duration_secs as u64);
        assert(","@ =~= seq![',']);
        assert(out@ =~= self.params_text());
        out
    }

    /// The log's name reads back as the tight-loop kind, no size, and the
    /// duration, whenever its date reads as a moment.
    pub proof fn name_round_trip(self, day: Seq<char>, time: Seq<char>)
        requires
            free_of(day, '_'),
            free_of(time, '_'),
        ensures
            selectable_stress_fields(self.name_text(day + seq!['_'] + time)) == match timestamp_of(
                day + seq!['_'] + time,
            ) {
                Some(ts) => Some(
                    (
                        display_text(ts),
                        day + seq!['_'] + time,
                        CpuWorkloadKind::TightLoop.token_text(),
                        None::<u32>,
                        Some(self.duration_secs),
                    ),
                ),
                None => None,
            },
    {
        let kind = CpuWorkloadKind::TightLoop;
        CpuWorkloadKind::lemma_tokens(kind, kind);
        lemma_tags_free();
        lemma_tagged_free("threads"@, self.threads as nat);
        lemma_tagged_free("dur"@, self.duration_secs as nat);
        selectable_name_round_trip(kind.token_text(), day, time, self.name_tokens());
        reveal_strlit("tightloop");
        reveal_strlit("matrix");
        reveal_strlit("compression");
        reveal_strlit("ram");
        assert("tightloop"@.len() == 9);
        assert("matrix"@.len() == 6 && "compression"@.len() == 11 && "ram"@.len() == 3);
        lemma_plain_tokens(self.threads as nat, self.duration_secs);
    }
}

/// A tight-loop workload: the unit of work is the count itself.
#[derive(Clone, Copy, Debug, PartialEq, Eq, Structural)]
pub struct TightLoopStress {
    pub config: TightLoopStressConfig,
}

impl TightLoopStress {
    /// The workload with the parameters the tunables give it.
    pub fn from_config(config: &Config) -> (w: Self)
        ensures
            w.config.duration_secs == config.tightloop_duration_secs,
            w.config.threads == config.tightloop_threads,
    {
        Self { config: TightLoopStressConfig::from_config(config) }
    }
}

/// The parameters of a storage run.
#[derive(Clone, Copy, Debug, PartialEq, Eq, Structural)]
pub struct StorageStressConfig {
    pub duration_secs: u32,
    /// The size of the chunks written and read, in megabytes.
    pub buffer_mb: u32,
}

impl Default for StorageStressConfig {
    /// Twenty seconds in chunks of eight megabytes.
    fn default() -> (c: Self)
        ensures
            c == (StorageStressConfig { duration_secs: 20, buffer_mb: 8 }),
    {
        StorageStressConfig { duration_secs: 20, buffer_mb: 8 }
    }
}

impl StorageStressConfig {
    /// The parameters as the tunables give them.
    pub fn from_config(config: &Config) -> (c: Self)
        ensures
            c.duration_secs == config.storage_duration_secs,
            c.buffer_mb == config.storage_buffer_mb,
    {
        Self { duration_secs: config.storage_duration_secs, buffer_mb: config.storage_buffer_mb }
    }

    /// Names the log of a run with these parameters that began at `date` and
    /// carries the disambiguating number `hash`.
    pub fn log_name(&self, hash: u16, date: &str) -> (out: String)
        ensures
            out@ == storage_stress_name_text(hash, date@, self.buffer_mb, self.duration_secs),
    {
        storage_stress_log_name(hash, date, self.buffer_mb, self.duration_secs)
    }
}

/// The parameters of a processor run.
#[derive(Clone, Copy, Debug, PartialEq, Eq, Structural)]
pub struct CpuStressConfig {
    /// The duration of the run in seconds.
    pub cycle_secs: u32,
    /// The number of units a worker does between two looks at the stop
    /// signal.
    pub intensity: u32,
    /// Whether workers yield now and then to keep the machine responsive.
    pub safe_stress: bool,
}

impl Default for CpuStressConfig {
    /// Ten seconds at an intensity of ten thousand, yielding.
    fn default() -> (c: Self)
        ensures
            c == (CpuStressConfig { cycle_secs: 10, intensity: 10_000, safe_stress: true }),
    {
        CpuStressConfig { cycle_secs: 10, intensity: 10_000, safe_stress: true }
    }
}

impl CpuStressConfig {
    /// Names the log of a run with these parameters that began at `date` and
    /// carries the disambiguating number `hash`.
    pub fn log_name(&self, hash: u16, date: &str) -> (out: String)
        ensures
            out@ == cpu_stress_name_text(hash, date@, self.intensity, self.cycle_secs),
    {
        cpu_stress_log_name(hash, date, self.intensity, self.cycle_secs)
    }
}

} // verus!
