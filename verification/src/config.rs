//! The tunables of the workloads and how they are coerced from settings as
//! they were read.
use crate::text::{parse_decimal, parse_unsigned, range_is, text_view, to_chars};
use vstd::prelude::*;
use vstd::string::*;

verus! {

/// Why a tunable could not be used to start a run.
#[derive(Clone, Copy, Debug, PartialEq, Eq, Structural)]
pub enum ConfigError {
    /// The setting is absent.
    Missing,
    /// The setting is present but is not a number the tunable can take.
    Invalid,
}

/// The tunables of the monitor and of every workload.
#[derive(Clone, Copy, Debug, PartialEq, Eq, Structural)]
pub struct Config {
    pub cpu_history_len: usize,
    pub cpu_usage_history_len: usize,
    pub matrix_size: usize,
    pub matrix_duration_secs: u32,
    pub matrix_threads: usize,
    pub ram_buffer_size: usize,
    pub ram_duration_secs: u32,
    pub ram_threads: usize,
    pub compression_block_size: usize,
    pub compression_duration_secs: u32,
    pub compression_threads: usize,
    pub tightloop_duration_secs: u32,
    pub tightloop_threads: usize,
    pub storage_duration_secs: u32,
    pub storage_buffer_mb: u32,
}

/// What a size or length setting stands for.
pub open spec fn size_of_setting(value: Option<i64>) -> Result<usize, ConfigError> {
    match value {
        None => Err(ConfigError::Missing),
        Some(v) => if 0 <= v <= usize::MAX {
            Ok(v as usize)
        } else {
            Err(ConfigError::Invalid)
        },
    }
}

/// What a setting in whole seconds or megabytes stands for.
pub open spec fn u32_of_setting(value: Option<i64>) -> Result<u32, ConfigError> {
    match value {
        None => Err(ConfigError::Missing),
        Some(v) => if 0 <= v <= u32::MAX {
            Ok(v as u32)
        } else {
            Err(ConfigError::Invalid)
        },
    }
}

/// What a thread-count setting stands for on a machine with `cores` logical
/// cores: `auto` is one thread per core, anything else must be a number.
pub open spec fn threads_of_setting(value: Option<Seq<char>>, cores: usize) -> Result<
    usize,
    ConfigError,
> {
    match value {
        None => Err(ConfigError::Missing),
        Some(text) => if text == "auto"@ {
            Ok(cores)
        } else {
            match parse_unsigned(text, usize::MAX as nat) {
                Some(n) => Ok(n as usize),
                None => Err(ConfigError::Invalid),
            }
        },
    }
}

/// Coerces a size or length setting.
pub fn size_setting(value: Option<i64>) -> (r: Result<usize, ConfigError>)
    ensures
        r == size_of_setting(value),
{
    match value {
        None => Err(ConfigError::Missing),
        Some(v) => {
            if v < 0 {
                Err(ConfigError::Invalid)
            } else if v as u64 > usize::MAX as u64 {
                Err(ConfigError::Invalid)
            } else {
                Ok(v as usize)
            }
        },
    }
}

/// Coerces a setting in whole seconds or megabytes.
pub fn u32_setting(value: Option<i64>) -> (r: Result<u32, ConfigError>)
    ensures
        r == u32_of_setting(value),
{
    match value {
        None => Err(ConfigError::Missing),
        Some(v) => {
            if v < 0 || v > 0xffff_ffff {
                Err(ConfigError::Invalid)
            } else {
                Ok(v as u32)
            }
        },
    }
}

/// Resolves a thread-count setting on a machine with `cores` logical cores.
pub fn threads_setting(value: Option<&str>, cores: usize) -> (r: Result<usize, ConfigError>)
    ensures
        r == threads_of_setting(
            match value {
                Some(s) => Some(s@),
                None => None,
            },
            cores,
        ),
{
    match value {
        None => Err(ConfigError::Missing),
        Some(s) => {
            let chars = to_chars(s);
            let auto = to_chars("auto");
            assert(chars@.subrange(0, chars@.len() as int) == chars@);
            if range_is(&chars, 0, chars.len(), &auto) {
                Ok(cores)
            } else {
                match parse_decimal(&chars, 0, chars.len(), usize::MAX as u64) {
                    Some(n) => Ok(n as usize),
                    None => Err(ConfigError::Invalid),
                }
            }
        },
    }
}

/// The number of logical cores that `num_cpus::get` reports.
///
/// Trusted: the count is at least one, whatever the machine.
#[verifier::external_body]
pub(crate) fn logical_cores() -> (n: usize)
    ensures
        n >= 1,
{
    num_cpus::get()
}

/// The settings as they were read, before any is coerced: numbers where a
/// number was found, text for the thread counts, `None` where a key is absent.
#[derive(Clone, Debug)]
pub struct Settings {
    pub cpu_history_len: Option<i64>,
    pub cpu_usage_history_len: Option<i64>,
    pub matrix_size: Option<i64>,
    pub matrix_duration_secs: Option<i64>,
    pub matrix_threads: Option<String>,
    pub ram_buffer_size: Option<i64>,
    pub ram_duration_secs: Option<i64>,
    pub ram_threads: Option<String>,
    pub compression_block_size: Option<i64>,
    pub compression_duration_secs: Option<i64>,
    pub compression_threads: Option<String>,
    pub tightloop_duration_secs: Option<i64>,
    pub tightloop_threads: Option<String>,
    pub storage_duration_secs: Option<i64>,
    pub storage_buffer_mb: Option<i64>,
}

/// A setting that holds text, borrowed.
fn as_text(value: &Option<String>) -> (r: Option<&str>)
    ensures
        match r {
            Some(s) => text_view(*value) == Some(s@),
            None => text_view(*value) is None,
        },
{
    match value {
        Some(s) => Some(s.as_str()),
        None => None,
    }
}

impl Settings {
    /// The first setting, in the order of the fields, that cannot be used,
    /// with the reason; `None` where every setting can.
    pub open spec fn first_error(self, cores: usize) -> Option<ConfigError> {
        if size_of_setting(self.cpu_history_len) is Err {
            Some(size_of_setting(self.cpu_history_len)->Err_0)
        } else if size_of_setting(self.cpu_usage_history_len) is Err {
            Some(size_of_setting(self.cpu_usage_history_len)->Err_0)
        } else if size_of_setting(self.matrix_size) is Err {
            Some(size_of_setting(self.matrix_size)->Err_0)
        } else if u32_of_setting(self.matrix_duration_secs) is Err {
            Some(u32_of_setting(self.matrix_duration_secs)->Err_0)
        } else if threads_of_setting(text_view(self.matrix_threads), cores) is Err {
            Some(threads_of_setting(text_view(self.matrix_threads), cores)->Err_0)
        } else if size_of_setting(self.ram_buffer_size) is Err {
            Some(size_of_setting(self.ram_buffer_size)->Err_0)
        } else if u32_of_setting(self.ram_duration_secs) is Err {
            Some(u32_of_setting(self.ram_duration_secs)->Err_0)
        } else if threads_of_setting(text_view(self.ram_threads), cores) is Err {
            Some(threads_of_setting(text_view(self.ram_threads), cores)->Err_0)
        } else if size_of_setting(self.compression_block_size) is Err {
            Some(size_of_setting(self.compression_block_size)->Err_0)
        } else if u32_of_setting(self.compression_duration_secs) is Err {
            Some(u32_of_setting(self.compression_duration_secs)->Err_0)
        } else if threads_of_setting(text_view(self.compression_threads), cores) is Err {
            Some(threads_of_setting(text_view(self.compression_threads), cores)->Err_0)
        } else if u32_of_setting(self.tightloop_duration_secs) is Err {
            Some(u32_of_setting(self.tightloop_duration_secs)->Err_0)
        } else if threads_of_setting(text_view(self.tightloop_threads), cores) is Err {
            Some(threads_of_setting(text_view(self.tightloop_threads), cores)->Err_0)
        } else if u32_of_setting(self.storage_duration_secs) is Err {
            Some(u32_of_setting(self.storage_duration_secs)->Err_0)
        } else if u32_of_setting(self.storage_buffer_mb) is Err {
            Some(u32_of_setting(self.storage_buffer_mb)->Err_0)
        } else {
            None
        }
    }

    /// The tunables these settings stand for on a machine with `cores`
    /// logical cores, or the reason the first unusable one gives.
    pub open spec fn config(self, cores: usize) -> Result<Config, ConfigError> {
        match self.first_error(cores) {
            Some(e) => Err(e),
            None => Ok(
                Config {
                    cpu_history_len: size_of_setting(self.cpu_history_len)->Ok_0,
                    cpu_usage_history_len: size_of_setting(self.cpu_usage_history_len)->Ok_0,
                    matrix_size: size_of_setting(self.matrix_size)->Ok_0,
                    matrix_duration_secs: u32_of_setting(self.matrix_duration_secs)->Ok_0,
                    matrix_threads: threads_of_setting(text_view(self.matrix_threads), cores)->Ok_0,
                    ram_buffer_size: size_of_setting(self.ram_buffer_size)->Ok_0,
                    ram_duration_secs: u32_of_setting(self.ram_duration_secs)->Ok_0,
                    ram_threads: threads_of_setting(text_view(self.ram_threads), cores)->Ok_0,
                    compression_block_size: size_of_setting(self.compression_block_size)->Ok_0,
                    compression_duration_secs: u32_of_setting(self.compression_duration_secs)->Ok_0,
                    compression_threads: threads_of_setting(text_view(self.compression_threads), cores)->Ok_0,
                    tightloop_duration_secs: u32_of_setting(self.tightloop_duration_secs)->Ok_0,
                    tightloop_threads: threads_of_setting(text_view(self.tightloop_threads), cores)->Ok_0,
                    storage_duration_secs: u32_of_setting(self.storage_duration_secs)->Ok_0,
                    storage_buffer_mb: u32_of_setting(self.storage_buffer_mb)->Ok_0,
                },
            ),
        }
    }
}

impl Config {
    /// Coerces every setting, for a machine with `cores` logical cores. The
    /// first setting that is missing or invalid, in the order of the fields,
    /// decides the error.
    pub fn from_settings(settings: &Settings, cores: usize) -> (r: Result<Config, ConfigError>)
        ensures
            r == settings.config(cores),
    {
        let cpu_history_len = match size_setting(settings.cpu_history_len) {
            Ok(v) => v,
            Err(e) => {
                return Err(e);
            },
        };
        let cpu_usage_history_len = match size_setting(settings.cpu_usage_history_len) {
            Ok(v) => v,
            Err(e) => {
                return Err(e);
            },
        };
        let matrix_size = match size_setting(settings.matrix_size) {
            Ok(v) => v,
            Err(e) => {
                return Err(e);
            },
        };
        let matrix_duration_secs = match u32_setting(settings.matrix_duration_secs) {
            Ok(v) => v,
            Err(e) => {
                return Err(e);
            },
        };
        let matrix_threads = match threads_setting(as_text(&settings.matrix_threads), cores) {
            Ok(v) => v,
            Err(e) => {
                return Err(e);
            },
        };
        let ram_buffer_size = match size_setting(settings.ram_buffer_size) {
            Ok(v) => v,
            Err(e) => {
                return Err(e);
            },
        };
        let ram_duration_secs = match u32_setting(settings.ram_duration_secs) {
            Ok(v) => v,
            Err(e) => {
                return Err(e);
            },
        };
        let ram_threads = match threads_setting(as_text(&settings.ram_threads), cores) {
            Ok(v) => v,
            Err(e) => {
                return Err(e);
            },
        };
        let compression_block_size = match size_setting(settings.compression_block_size) {
            Ok(v) => v,
            Err(e) => {
                return Err(e);
            },
        };
        let compression_duration_secs = match u32_setting(settings.compression_duration_secs) {
            Ok(v) => v,
            Err(e) => {
                return Err(e);
            },
        };
        let compression_threads = match threads_setting(as_text(&settings.compression_threads), cores) {
            Ok(v) => v,
            Err(e) => {
                return Err(e);
            },
        };
        let tightloop_duration_secs = match u32_setting(settings.tightloop_duration_secs) {
            Ok(v) => v,
            Err(e) => {
                return Err(e);
            },
        };
        let tightloop_threads = match threads_setting(as_text(&settings.tightloop_threads), cores) {
            Ok(v) => v,
            Err(e) => {
                return Err(e);
            },
        };
        let storage_duration_secs = match u32_setting(settings.storage_duration_secs) {
            Ok(v) => v,
            Err(e) => {
                return Err(e);
            },
        };
        let storage_buffer_mb = match u32_setting(settings.storage_buffer_mb) {
            Ok(v) => v,
            Err(e) => {
                return Err(e);
            },
        };
        Ok(
            Config {
                cpu_history_len,
                cpu_usage_history_len,
                matrix_size,
                matrix_duration_secs,
                matrix_threads,
                ram_buffer_size,
                ram_duration_secs,
                ram_threads,
                compression_block_size,
                compression_duration_secs,
                compression_threads,
                tightloop_duration_secs,
                tightloop_threads,
                storage_duration_secs,
                storage_buffer_mb,
            },
        )
    }

    /// Coerces every setting for the machine at hand, where `auto` stands for
    /// as many threads as it has logical cores.
    pub fn resolve(settings: &Settings) -> (r: Result<Config, ConfigError>)
        ensures
            exists|cores: usize| cores >= 1 && r == #[trigger] settings.config(cores),
    {
        let cores = logical_cores();
        Config::from_settings(settings, cores)
    }
}

} // verus!
