use stressor::config::{
    size_setting, threads_setting, u32_setting, Config, ConfigError, Settings,
};
use stressor::log_name::parse_selectable_stress_filename;
use stressor::monitor::{Tab, CPU_USAGE_HISTORY_LEN};
use stressor::workload::{
    CompressionStress, CompressionStressConfig, CpuStressConfig, CpuWorkloadKind, MatrixStress,
    MatrixStressConfig, RamStress, RamStressConfig, StorageStressConfig, TightLoopStress,
    TightLoopStressConfig,
};

fn settings() -> Settings {
    Settings {
        cpu_history_len: Some(60),
        cpu_usage_history_len: Some(100),
        matrix_size: Some(128),
        matrix_duration_secs: Some(10),
        matrix_threads: Some("4".to_string()),
        ram_buffer_size: Some(1_048_576),
        ram_duration_secs: Some(11),
        ram_threads: Some("auto".to_string()),
        compression_block_size: Some(65_536),
        compression_duration_secs: Some(12),
        compression_threads: Some("2".to_string()),
        tightloop_duration_secs: Some(13),
        tightloop_threads: Some("8".to_string()),
        storage_duration_secs: Some(20),
        storage_buffer_mb: Some(8),
    }
}

fn config() -> Config {
    Config::from_settings(&settings(), 6).unwrap()
}

#[test]
fn settings_are_coerced() {
    assert_eq!(
        config(),
        Config {
            cpu_history_len: 60,
            cpu_usage_history_len: 100,
            matrix_size: 128,
            matrix_duration_secs: 10,
            matrix_threads: 4,
            ram_buffer_size: 1_048_576,
            ram_duration_secs: 11,
            ram_threads: 6,
            compression_block_size: 65_536,
            compression_duration_secs: 12,
            compression_threads: 2,
            tightloop_duration_secs: 13,
            tightloop_threads: 8,
            storage_duration_secs: 20,
            storage_buffer_mb: 8,
        }
    );
}

#[test]
fn the_first_unusable_setting_decides_the_error() {
    let mut s = settings();
    s.storage_buffer_mb = None;
    assert_eq!(Config::from_settings(&s, 1), Err(ConfigError::Missing));
    s.matrix_threads = Some("many".to_string());
    assert_eq!(Config::from_settings(&s, 1), Err(ConfigError::Invalid));
    s.cpu_history_len = None;
    assert_eq!(Config::from_settings(&s, 1), Err(ConfigError::Missing));
    let mut s = settings();
    s.tightloop_duration_secs = Some(-1);
    assert_eq!(Config::from_settings(&s, 1), Err(ConfigError::Invalid));
}

#[test]
fn auto_stands_for_the_cores_of_the_machine() {
    let resolved = Config::resolve(&settings()).unwrap();
    assert!(resolved.ram_threads >= 1);
    assert_eq!(resolved.matrix_threads, 4);
    let mut s = settings();
    s.ram_threads = None;
    assert_eq!(Config::resolve(&s), Err(ConfigError::Missing));
}

#[test]
fn sizes_are_coerced() {
    assert_eq!(size_setting(Some(0)), Ok(0));
    assert_eq!(size_setting(Some(4096)), Ok(4096));
    assert_eq!(size_setting(Some(i64::MAX)), Ok(i64::MAX as usize));
    assert_eq!(size_setting(Some(-1)), Err(ConfigError::Invalid));
    assert_eq!(size_setting(None), Err(ConfigError::Missing));
}

#[test]
fn seconds_are_coerced() {
    assert_eq!(u32_setting(Some(0)), Ok(0));
    assert_eq!(u32_setting(Some(300)), Ok(300));
    assert_eq!(u32_setting(Some(4294967295)), Ok(u32::MAX));
    assert_eq!(u32_setting(Some(4294967296)), Err(ConfigError::Invalid));
    assert_eq!(u32_setting(Some(-5)), Err(ConfigError::Invalid));
    assert_eq!(u32_setting(None), Err(ConfigError::Missing));
}

#[test]
fn thread_counts_are_resolved() {
    assert_eq!(threads_setting(Some("auto"), 12), Ok(12));
    assert_eq!(threads_setting(Some("3"), 12), Ok(3));
    assert_eq!(threads_setting(Some("0"), 12), Ok(0));
    assert_eq!(threads_setting(Some("+3"), 12), Ok(3));
    assert_eq!(threads_setting(Some("Auto"), 12), Err(ConfigError::Invalid));
    assert_eq!(threads_setting(Some("auto "), 12), Err(ConfigError::Invalid));
    assert_eq!(threads_setting(Some(""), 12), Err(ConfigError::Invalid));
    assert_eq!(threads_setting(Some("-1"), 12), Err(ConfigError::Invalid));
    assert_eq!(
        threads_setting(Some("99999999999999999999999999"), 12),
        Err(ConfigError::Invalid)
    );
    assert_eq!(threads_setting(None, 12), Err(ConfigError::Missing));
}

#[test]
fn workloads_take_their_parameters_from_the_config() {
    let c = config();
    let m = MatrixStressConfig::from_config(&c);
    assert_eq!((m.matrix_size, m.duration_secs, m.threads), (128, 10, 4));
    assert_eq!(MatrixStress::from_config(&c).config, m);
    let r = RamStressConfig::from_config(&c);
    assert_eq!((r.buffer_size, r.duration_secs, r.threads), (1_048_576, 11, 6));
    assert_eq!(RamStress::from_config(&c).config, r);
    let z = CompressionStressConfig::from_config(&c);
    assert_eq!((z.block_size, z.duration_secs, z.threads), (65_536, 12, 2));
    assert_eq!(CompressionStress::from_config(&c).config, z);
    let t = TightLoopStressConfig::from_config(&c);
    assert_eq!((t.duration_secs, t.threads), (13, 8));
    assert_eq!(TightLoopStress::from_config(&c).config, t);
    let s = StorageStressConfig::from_config(&c);
    assert_eq!((s.duration_secs, s.buffer_mb), (20, 8));
}

#[test]
fn runs_have_defaults() {
    assert_eq!(
        StorageStressConfig::default(),
        StorageStressConfig { duration_secs: 20, buffer_mb: 8 }
    );
    assert_eq!(
        CpuStressConfig::default(),
        CpuStressConfig { cycle_secs: 10, intensity: 10_000, safe_stress: true }
    );
    assert_eq!(Tab::default(), Tab::SystemInfo);
    assert_eq!(CPU_USAGE_HISTORY_LEN, 100);
}

#[test]
fn kinds_are_listed_and_labelled() {
    assert_eq!(
        CpuWorkloadKind::all(),
        &[
            CpuWorkloadKind::TightLoop,
            CpuWorkloadKind::MatrixMultiplication,
            CpuWorkloadKind::Compression,
            CpuWorkloadKind::RandomMemoryAccess,
        ]
    );
    assert_eq!(CpuWorkloadKind::TightLoop.label(), "Tight Loop");
    assert_eq!(CpuWorkloadKind::MatrixMultiplication.label(), "Matrix Multiplication");
    assert_eq!(CpuWorkloadKind::Compression.label(), "Compression");
    assert_eq!(CpuWorkloadKind::RandomMemoryAccess.label(), "Random Memory Access");
    assert_eq!(CpuWorkloadKind::TightLoop.token(), "tightloop");
    assert_eq!(CpuWorkloadKind::MatrixMultiplication.token(), "matrix");
    assert_eq!(CpuWorkloadKind::Compression.token(), "compression");
    assert_eq!(CpuWorkloadKind::RandomMemoryAccess.token(), "ram");
}

#[test]
fn workloads_name_their_logs() {
    let c = config();
    let date = "20240615_101112";
    assert_eq!(
        MatrixStressConfig::from_config(&c).log_name(date),
        "selectable_matrix_20240615_101112_size128_threads4_dur10.csv"
    );
    assert_eq!(
        CompressionStressConfig::from_config(&c).log_name(date),
        "selectable_compression_20240615_101112_block65536_threads2_dur12.csv"
    );
    assert_eq!(
        RamStressConfig::from_config(&c).log_name(date),
        "selectable_ram_20240615_101112_buf1048576_threads6_dur11.csv"
    );
    assert_eq!(
        TightLoopStressConfig::from_config(&c).log_name(date),
        "selectable_tightloop_20240615_101112_threads8_dur13.csv"
    );
    assert_eq!(
        StorageStressConfig::from_config(&c).log_name(1234, date),
        "storage_stress_1234_20240615_101112_buf8_dur20.csv"
    );
    assert_eq!(
        CpuStressConfig::default().log_name(5678, date),
        "cpu_stress_5678_20240615_101112_int10000_dur10.csv"
    );
}

#[test]
fn workloads_write_their_parameters() {
    let c = config();
    assert_eq!(MatrixStressConfig::from_config(&c).params(), "size=128,threads=4,dur=10");
    assert_eq!(
        CompressionStressConfig::from_config(&c).params(),
        "block=65536,threads=2,dur=12"
    );
    assert_eq!(RamStressConfig::from_config(&c).params(), "buf=1048576,threads=6,dur=11");
    assert_eq!(TightLoopStressConfig::from_config(&c).params(), "threads=8,dur=13");
}

#[test]
fn a_selectable_name_gives_back_kind_size_and_duration() {
    let c = config();
    let date = "20240615_101112";
    let names = [
        (
            CpuWorkloadKind::MatrixMultiplication,
            MatrixStressConfig::from_config(&c).log_name(date),
            Some(128),
            10,
        ),
        (
            CpuWorkloadKind::Compression,
            CompressionStressConfig::from_config(&c).log_name(date),
            Some(65_536),
            12,
        ),
        (
            CpuWorkloadKind::RandomMemoryAccess,
            RamStressConfig::from_config(&c).log_name(date),
            Some(1_048_576),
            11,
        ),
        (CpuWorkloadKind::TightLoop, TightLoopStressConfig::from_config(&c).log_name(date), None, 13),
    ];
    for (kind, name, size, duration) in names {
        let parsed = parse_selectable_stress_filename(&name).unwrap();
        assert_eq!(parsed.0, "June 15, 2024: 10:11:12");
        assert_eq!(parsed.1, date);
        assert_eq!(parsed.2, kind.token());
        assert_eq!(parsed.3, size);
        assert_eq!(parsed.4, Some(duration));
    }
}

#[test]
fn a_size_beyond_thirty_two_bits_is_not_read_back() {
    let big = MatrixStressConfig { matrix_size: 4_294_967_296, duration_secs: 3, threads: 1 };
    let parsed = parse_selectable_stress_filename(&big.log_name("20240615_101112")).unwrap();
    assert_eq!((parsed.3, parsed.4), (None, Some(3)));
    let edge = MatrixStressConfig { matrix_size: 4_294_967_295, duration_secs: 3, threads: 1 };
    let parsed = parse_selectable_stress_filename(&edge.log_name("20240615_101112")).unwrap();
    assert_eq!((parsed.3, parsed.4), (Some(u32::MAX), Some(3)));
}

#[test]
fn a_memory_run_needs_a_buffer() {
    let mut r = RamStressConfig { buffer_size: 1, duration_secs: 1, threads: 1 };
    assert_eq!(r.check(), Ok(()));
    r.buffer_size = 0;
    assert_eq!(r.check(), Err(ConfigError::Invalid));
    r.buffer_size = usize::MAX;
    assert_eq!(r.check(), Ok(()));
}

#[test]
fn a_matrix_run_needs_operands_that_fit() {
    let mut m = MatrixStressConfig { matrix_size: 128, duration_secs: 1, threads: 1 };
    assert_eq!(m.operand_len(), Ok(16_384));
    assert_eq!(m.check(), Ok(()));
    m.matrix_size = 0;
    assert_eq!(m.operand_len(), Ok(0));
    m.matrix_size = usize::MAX;
    assert_eq!(m.operand_len(), Err(ConfigError::Invalid));
    assert_eq!(m.check(), Err(ConfigError::Invalid));
    m.matrix_size = 1 << (usize::BITS / 2);
    assert_eq!(m.check(), Err(ConfigError::Invalid));
    m.matrix_size -= 1;
    assert_eq!(m.check(), Ok(()));
}
