use vstd::prelude::*;
use crate::config::Config;

verus! {

/// The buffer size class of a file, chosen by its size.
#[derive(Debug, Clone, Copy, PartialEq, Eq, Structural)]
pub enum BufferTier {
    Small,
    Medium,
    Large,
}

/// The buffer of the small tier: 64 KiB.
pub const SMALL_BUFFER_SIZE: usize = 0x1_0000;
/// The buffer of the medium tier: 1 MiB.
pub const MEDIUM_BUFFER_SIZE: usize = 0x10_0000;

/// The tier of a file of `size` bytes under `c`: small under the small file
/// limit, large from the large file limit on, medium in between.
pub open spec fn tier_of(size: u64, c: Config) -> BufferTier {
    if size < c.small_file_limit {
        BufferTier::Small
    } else if size < c.large_file_limit {
        BufferTier::Medium
    } else {
        BufferTier::Large
    }
}

/// The buffer size of a tier: fixed for the small and medium tiers, the
/// configured buffer size for the large one.
pub open spec fn tier_size(t: BufferTier, c: Config) -> usize {
    match t {
        BufferTier::Small => SMALL_BUFFER_SIZE,
        BufferTier::Medium => MEDIUM_BUFFER_SIZE,
        BufferTier::Large => c.buffer_size,
    }
}

/// The tier of a file of `size` bytes.
pub fn buffer_tier(size: u64, config: &Config) -> (r: BufferTier)
    ensures
        r == tier_of(size, *config),
{
    if size < config.small_file_limit {
        BufferTier::Small
    } else if size < config.large_file_limit {
        BufferTier::Medium
    } else {
        BufferTier::Large
    }
}

/// The buffer size for a file of `size` bytes.
pub fn buffer_size_for(size: u64, config: &Config) -> (r: usize)
    ensures
        r == tier_size(tier_of(size, *config), *config),
{
    match buffer_tier(size, config) {
        BufferTier::Small => SMALL_BUFFER_SIZE,
        BufferTier::Medium => MEDIUM_BUFFER_SIZE,
        BufferTier::Large => config.buffer_size,
    }
}

/// The data transfer of one file: how far it got, the buffer it uses, and
/// when progress was last reported.
#[derive(Debug, Clone, Copy, PartialEq, Eq, Structural)]
pub struct FileTransfer {
    pub size: u64,
    pub done: u64,
    pub buffer_size: usize,
    pub reported: u64,
    pub interval: u64,
}

impl FileTransfer {
    pub open spec fn wf(&self) -> bool {
        &&& self.done <= self.size
        &&& self.reported <= self.done
        &&& self.buffer_size > 0
        &&& self.interval > 0
    }

    /// The transfer of a file of `size` bytes, with the buffer of its tier.
    pub fn new(size: u64, config: &Config) -> (r: FileTransfer)
        requires
            config.buffer_size > 0,
            config.progress_interval > 0,
        ensures
            r.wf(),
            r.size == size,
            r.done == 0,
            r.reported == 0,
            r.buffer_size == tier_size(tier_of(size, *config), *config),
            r.interval == config.progress_interval,
    {
        FileTransfer {
            size,
            done: 0,
            buffer_size: buffer_size_for(size, config),
            reported: 0,
            interval: config.progress_interval,
        }
    }

    /// Whether every byte was transferred.
    pub fn is_complete(&self) -> (r: bool)
        ensures
            r == (self.done == self.size),
    {
        self.done == self.size
    }

    /// The length of the next chunk: a full buffer, or what is left.
    pub fn next_chunk(&self) -> (r: usize)
        requires
            self.wf(),
        ensures
            r as int == if self.size - self.done < self.buffer_size { self.size - self.done } else { self.buffer_size as int },
    {
        let left = self.size - self.done;
        if left < self.buffer_size as u64 {
            left as usize
        } else {
            self.buffer_size
        }
    }

    /// Records that `n` more bytes were written, and says whether progress
    /// is to be reported now: once the transfer completes, and otherwise
    /// only after at least one interval of bytes since the last report.
    pub fn advance(&mut self, n: u64) -> (report: bool)
        requires
            old(self).wf(),
            n <= old(self).size - old(self).done,
        ensures
            final(self).wf(),
            final(self).size == old(self).size,
            final(self).buffer_size == old(self).buffer_size,
            final(self).interval == old(self).interval,
            final(self).done == old(self).done + n,
            report == (final(self).done == final(self).size
                || final(self).done - old(self).reported >= old(self).interval),
            report ==> final(self).reported == final(self).done,
            !report ==> final(self).reported == old(self).reported,
    {
        self.done = self.done + n;
        let report = self.done == self.size || self.done - self.reported >= self.interval;
        if report {
            self.reported = self.done;
        }
        report
    }
}

} // verus!
