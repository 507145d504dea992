use vstd::prelude::*;
use crate::error::{Error, ErrorView};

verus! {

/// What a copy operation does when one of its entries fails.
#[derive(Debug, Clone, Copy, PartialEq, Eq, Structural)]
pub enum ErrorStrategy {
    /// Abort the whole request on the first failure.
    Raise,
    /// Attempt the failing entry again, up to the retry count, then abort.
    Retry,
    /// Record the failure and go on with the other entries.
    Ignore,
}

impl Default for ErrorStrategy {
    fn default() -> (r: Self)
        ensures
            r == ErrorStrategy::Raise,
    {
        ErrorStrategy::Raise
    }
}

/// How much the engine reports.
#[derive(Debug, Clone, Copy, PartialEq, Eq, Structural)]
pub enum LogLevel {
    Off,
    Error,
    Warning,
    Info,
    Debug,
}

impl Default for LogLevel {
    fn default() -> (r: Self)
        ensures
            r == LogLevel::Error,
    {
        LogLevel::Error
    }
}

/// The default buffer size for large files and network transfers: 8 MiB.
pub const DEFAULT_BUFFER_SIZE: usize = 0x80_0000;
/// Files under this size use the small buffer tier by default: 1 MiB.
pub const DEFAULT_SMALL_FILE_LIMIT: u64 = 0x10_0000;
/// Files of at least this size use the large buffer tier by default: 8 MiB.
pub const DEFAULT_LARGE_FILE_LIMIT: u64 = 0x80_0000;
/// Bytes between two progress reports by default: 1 MiB.
pub const DEFAULT_PROGRESS_INTERVAL: u64 = 0x10_0000;
/// The highest compression level.
pub const MAX_COMPRESSION_LEVEL: u32 = 9;

/// The policy of one copy request. It is a plain value: a request takes a
/// copy of it when it begins and never sees later changes.
#[derive(Debug, Clone, Copy, PartialEq, Eq, Structural)]
pub struct Config {
    /// Number of worker threads.
    pub thread_count: usize,
    /// Compression level for network transfers, 0 to 9.
    pub compression_level: u32,
    /// Buffer size of the large tier and of network transfers, in bytes.
    pub buffer_size: usize,
    /// What to do when an entry fails.
    pub error_strategy: ErrorStrategy,
    /// Further attempts of a failing entry under `ErrorStrategy::Retry`.
    pub retry_count: u32,
    /// Pause between two attempts, in milliseconds.
    pub retry_delay_ms: u64,
    /// Verbosity.
    pub log_level: LogLevel,
    /// Whether timestamps and attributes are copied.
    pub preserve_metadata: bool,
    /// Whether symbolic links are followed.
    pub follow_symlinks: bool,
    /// Whether an existing destination directory is accepted.
    pub dirs_exist_ok: bool,
    /// Files under this size use the small buffer tier.
    pub small_file_limit: u64,
    /// Files of at least this size use the large buffer tier.
    pub large_file_limit: u64,
    /// Bytes between two progress reports.
    pub progress_interval: u64,
}

/// Relies on num_cpus::get: the number of logical CPUs available to this
/// process, which its documentation says is always at least one.
#[verifier::external_body]
fn available_cpus() -> (r: usize)
    ensures
        r >= 1,
{
    num_cpus::get()
}

/// Whether `c` holds the default policy; the thread count is the number of
/// available processors, which is at least one.
pub open spec fn is_default(c: Config) -> bool {
    &&& c.thread_count >= 1
    &&& c.compression_level == 0
    &&& c.buffer_size == DEFAULT_BUFFER_SIZE
    &&& c.error_strategy == ErrorStrategy::Raise
    &&& c.retry_count == 3
    &&& c.retry_delay_ms == 1000
    &&& c.log_level == LogLevel::Error
    &&& c.preserve_metadata
    &&& !c.follow_symlinks
    &&& !c.dirs_exist_ok
    &&& c.small_file_limit == DEFAULT_SMALL_FILE_LIMIT
    &&& c.large_file_limit == DEFAULT_LARGE_FILE_LIMIT
    &&& c.progress_interval == DEFAULT_PROGRESS_INTERVAL
}

impl Default for Config {
    fn default() -> (r: Self)
        ensures
            is_default(r),
    {
        Config {
            thread_count: available_cpus(),
            compression_level: 0,
            buffer_size: DEFAULT_BUFFER_SIZE,
            error_strategy: ErrorStrategy::Raise,
            retry_count: 3,
            retry_delay_ms: 1000,
            log_level: LogLevel::Error,
            preserve_metadata: true,
            follow_symlinks: false,
            dirs_exist_ok: false,
            small_file_limit: DEFAULT_SMALL_FILE_LIMIT,
            large_file_limit: DEFAULT_LARGE_FILE_LIMIT,
            progress_interval: DEFAULT_PROGRESS_INTERVAL,
        }
    }
}

/// Whether a policy can be used: at least one thread, a compression level
/// of at most 9, a non-empty buffer and ordered tier limits.
pub open spec fn config_valid(c: Config) -> bool {
    &&& c.thread_count >= 1
    &&& c.compression_level <= MAX_COMPRESSION_LEVEL
    &&& c.buffer_size > 0
    &&& c.small_file_limit <= c.large_file_limit
    &&& c.progress_interval > 0
}

impl Config {
    /// The default policy.
    pub fn new() -> (r: Self)
        ensures
            is_default(r),
    {
        Config::default()
    }

    /// Checks the policy; a configuration error names what is wrong.
    pub fn validate(&self) -> (r: Result<(), Error>)
        ensures
            r is Ok <==> config_valid(*self),
            r matches Err(e) ==> e@ is Configuration,
    {
        if self.thread_count == 0 {
            Err(Error::Configuration(String::from_str("thread count must be at least 1")))
        } else if self.compression_level > MAX_COMPRESSION_LEVEL {
            Err(Error::Configuration(String::from_str("compression level must be between 0 and 9")))
        } else if self.buffer_size == 0 {
            Err(Error::Configuration(String::from_str("buffer size must not be zero")))
        } else if self.small_file_limit > self.large_file_limit {
            Err(Error::Configuration(String::from_str("small file limit exceeds large file limit")))
        } else if self.progress_interval == 0 {
            Err(Error::Configuration(String::from_str("progress interval must not be zero")))
        } else {
            Ok(())
        }
    }

    pub fn with_thread_count(self, thread_count: usize) -> (r: Self)
        ensures
            r == (Config { thread_count, ..self }),
    {
        Config { thread_count, ..self }
    }

    pub fn with_compression_level(self, compression_level: u32) -> (r: Self)
        ensures
            r == (Config { compression_level, ..self }),
    {
        Config { compression_level, ..self }
    }

    pub fn with_buffer_size(self, buffer_size: usize) -> (r: Self)
        ensures
            r == (Config { buffer_size, ..self }),
    {
        Config { buffer_size, ..self }
    }

    pub fn with_error_strategy(self, error_strategy: ErrorStrategy) -> (r: Self)
        ensures
            r == (Config { error_strategy, ..self }),
    {
        Config { error_strategy, ..self }
    }

    pub fn with_retry_count(self, retry_count: u32) -> (r: Self)
        ensures
            r == (Config { retry_count, ..self }),
    {
        Config { retry_count, ..self }
    }

    /// Sets the pause between attempts, in milliseconds.
    pub fn with_retry_delay(self, retry_delay_ms: u64) -> (r: Self)
        ensures
            r == (Config { retry_delay_ms, ..self }),
    {
        Config { retry_delay_ms, ..self }
    }

    pub fn with_log_level(self, log_level: LogLevel) -> (r: Self)
        ensures
            r == (Config { log_level, ..self }),
    {
        Config { log_level, ..self }
    }

    pub fn with_preserve_metadata(self, preserve_metadata: bool) -> (r: Self)
        ensures
            r == (Config { preserve_metadata, ..self }),
    {
        Config { preserve_metadata, ..self }
    }

    pub fn with_follow_symlinks(self, follow_symlinks: bool) -> (r: Self)
        ensures
            r == (Config { follow_symlinks, ..self }),
    {
        Config { follow_symlinks, ..self }
    }

    pub fn with_dirs_exist_ok(self, dirs_exist_ok: bool) -> (r: Self)
        ensures
            r == (Config { dirs_exist_ok, ..self }),
    {
        Config { dirs_exist_ok, ..self }
    }

    /// Sets the byte count between two progress reports.
    pub fn with_progress_interval(self, progress_interval: u64) -> (r: Self)
        ensures
            r == (Config { progress_interval, ..self }),
    {
        Config { progress_interval, ..self }
    }

    /// Sets the limits of the buffer tiers.
    pub fn with_file_size_limits(self, small_file_limit: u64, large_file_limit: u64) -> (r: Self)
        ensures
            r == (Config { small_file_limit, large_file_limit, ..self }),
    {
        Config { small_file_limit, large_file_limit, ..self }
    }
}

/// The process-wide default policy. The caller keeps one and may replace it
/// before any request; each request takes a snapshot of it.
#[derive(Debug, Clone, Copy, PartialEq, Eq, Structural)]
pub struct GlobalConfig {
    pub current: Config,
}

impl GlobalConfig {
    /// Holds the default policy.
    pub fn new() -> (r: Self)
        ensures
            is_default(r.current),
    {
        GlobalConfig { current: Config::default() }
    }
}

/// A snapshot of the process-wide policy.
pub fn global_config(store: &GlobalConfig) -> (r: Config)
    ensures
        r == store.current,
{
    store.current
}

/// Replaces the process-wide policy.
pub fn set_global_config(store: &mut GlobalConfig, config: Config)
    ensures
        final(store).current == config,
{
    store.current = config;
}

/// Puts the default policy back.
pub fn reset_global_config(store: &mut GlobalConfig)
    ensures
        is_default(final(store).current),
{
    store.current = Config::default();
}

} // verus!
