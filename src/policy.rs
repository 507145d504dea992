use vstd::prelude::*;
use crate::config::{Config, ErrorStrategy};
use crate::error::{Error, ErrorView};
use crate::path::FsPath;

verus! {

/// A failed entry of a request: its position, its path and why it failed.
#[derive(Debug, Clone, PartialEq, Eq)]
pub struct FailureRecord {
    pub item: u64,
    pub path: FsPath,
    pub error: Error,
}

/// The totals of one request.
#[derive(Debug, Clone, PartialEq, Eq)]
pub struct TransferResult {
    /// Bytes of the files that were copied; a failed attempt adds nothing.
    pub bytes_transferred: u64,
    pub files_copied: u64,
    pub dirs_created: u64,
    /// The entries that failed under `ErrorStrategy::Ignore`, in order.
    pub errors: Vec<FailureRecord>,
}

/// What the caller does after reporting an entry.
#[derive(Debug, Clone, PartialEq, Eq)]
pub enum Decision {
    /// Go on with the next entry.
    Continue,
    /// Wait this many milliseconds, then attempt the same entry again.
    RetryAfter(u64),
    /// Stop the request with this error.
    Abort(Error),
}

/// How an entry completed.
#[derive(Debug, Clone, Copy, PartialEq, Eq, Structural)]
pub enum Completed {
    /// A file was copied, with this many bytes.
    File(u64),
    /// A directory was created or already stood.
    Directory,
    /// A link was recreated, or the entry was left out by policy.
    Other,
}

/// What follows a failed attempt.
pub enum Step {
    Continue,
    Retry,
    Abort,
}

/// What follows the `attempts`-th failed attempt of one entry.
pub open spec fn failure_step(strategy: ErrorStrategy, retry_count: u32, attempts: int) -> Step {
    match strategy {
        ErrorStrategy::Raise => Step::Abort,
        ErrorStrategy::Retry => if attempts <= retry_count { Step::Retry } else { Step::Abort },
        ErrorStrategy::Ignore => Step::Continue,
    }
}

/// A request's progress as Verus sees it.
pub struct RunState {
    /// Entries finished so far; the current entry's position.
    pub item: int,
    /// Failed attempts of the current entry.
    pub attempts: int,
    pub bytes: int,
    pub files: int,
    pub dirs: int,
    /// Positions of the entries recorded as failed.
    pub failed: Seq<int>,
    pub aborted: bool,
}

pub open spec fn initial_state() -> RunState {
    RunState { item: 0, attempts: 0, bytes: 0, files: 0, dirs: 0, failed: Seq::empty(), aborted: false }
}

/// The state after the current entry completed.
pub open spec fn after_success(s: RunState, c: Completed) -> RunState {
    RunState {
        item: s.item + 1,
        attempts: 0,
        bytes: s.bytes + match c { Completed::File(n) => n as int, _ => 0 },
        files: s.files + if c is File { 1int } else { 0 },
        dirs: s.dirs + if c is Directory { 1int } else { 0 },
        ..s
    }
}

/// The state after an attempt of the current entry failed.
pub open spec fn after_failure(s: RunState, strategy: ErrorStrategy, retry_count: u32) -> RunState {
    let a = s.attempts + 1;
    match failure_step(strategy, retry_count, a) {
        Step::Continue => RunState { item: s.item + 1, attempts: 0, failed: s.failed.push(s.item), ..s },
        Step::Retry => RunState { attempts: a, ..s },
        Step::Abort => RunState { attempts: a, aborted: true, ..s },
    }
}

pub open spec fn failed_items(errors: Seq<FailureRecord>) -> Seq<int> {
    errors.map_values(|f: FailureRecord| f.item as int)
}

/// One request in progress: the policy it started with, and its totals.
pub struct CopyRun {
    pub config: Config,
    pub result: TransferResult,
    pub item: u64,
    pub attempts: u64,
    pub aborted: bool,
}

impl CopyRun {
    pub open spec fn state(&self) -> RunState {
        RunState {
            item: self.item as int,
            attempts: self.attempts as int,
            bytes: self.result.bytes_transferred as int,
            files: self.result.files_copied as int,
            dirs: self.result.dirs_created as int,
            failed: failed_items(self.result.errors@),
            aborted: self.aborted,
        }
    }

    /// Failed attempts stay within the retry budget while the run goes on.
    pub open spec fn wf(&self) -> bool {
        !self.aborted ==> self.attempts <= self.config.retry_count
    }

    /// Starts a request under a snapshot of `config`.
    pub fn new(config: Config) -> (r: CopyRun)
        ensures
            r.wf(),
            r.config == config,
            r.state() == initial_state(),
    {
        let r = CopyRun {
            config,
            result: TransferResult { bytes_transferred: 0, files_copied: 0, dirs_created: 0, errors: Vec::new() },
            item: 0,
            attempts: 0,
            aborted: false,
        };
        assert(failed_items(r.result.errors@) =~= Seq::<int>::empty());
        r
    }

    /// Whether the totals can take one more completed entry of this kind.
    pub open spec fn has_room(&self, c: Completed) -> bool {
        &&& self.item < u64::MAX
        &&& self.result.files_copied < u64::MAX
        &&& self.result.dirs_created < u64::MAX
        &&& match c {
            Completed::File(n) => self.result.bytes_transferred + n <= u64::MAX,
            _ => true,
        }
    }

    /// Whether the totals can take one more completed entry of this kind.
    pub fn can_record(&self, c: Completed) -> (r: bool)
        ensures
            r == self.has_room(c),
    {
        let fits = match c {
            Completed::File(n) => n <= u64::MAX - self.result.bytes_transferred,
            _ => true,
        };
        fits && self.item < u64::MAX && self.result.files_copied < u64::MAX && self.result.dirs_created < u64::MAX
    }

    /// Records that the current entry completed; the next entry begins.
    pub fn on_success(&mut self, c: Completed)
        requires
            old(self).wf(),
            !old(self).aborted,
            old(self).has_room(c),
        ensures
            final(self).wf(),
            final(self).config == old(self).config,
            final(self).state() == after_success(old(self).state(), c),
            final(self).result.errors@ == old(self).result.errors@,
    {
        match c {
            Completed::File(n) => {
                self.result.bytes_transferred = self.result.bytes_transferred + n;
                self.result.files_copied = self.result.files_copied + 1;
            },
            Completed::Directory => {
                self.result.dirs_created = self.result.dirs_created + 1;
            },
            Completed::Other => {},
        }
        self.item = self.item + 1;
        self.attempts = 0;
    }

    /// Records that an attempt of the current entry failed, and says what
    /// follows under the request's error strategy: under `Raise` the request
    /// stops; under `Retry` the entry is attempted again until the retry
    /// count is spent, then the request stops; under `Ignore` the failure is
    /// recorded and the next entry begins.
    pub fn on_failure(&mut self, path: FsPath, error: Error) -> (d: Decision)
        requires
            old(self).wf(),
            !old(self).aborted,
            old(self).item < u64::MAX,
        ensures
            final(self).wf(),
            final(self).config == old(self).config,
            final(self).state() == after_failure(old(self).state(), old(self).config.error_strategy, old(self).config.retry_count),
            match failure_step(old(self).config.error_strategy, old(self).config.retry_count, old(self).attempts + 1) {
                Step::Continue => d == Decision::Continue
                    && final(self).result.errors@ == old(self).result.errors@.push(
                        FailureRecord { item: old(self).item, path, error }),
                Step::Retry => d == Decision::RetryAfter(old(self).config.retry_delay_ms)
                    && final(self).result.errors@ == old(self).result.errors@,
                Step::Abort => d == Decision::Abort(error)
                    && final(self).result.errors@ == old(self).result.errors@,
            },
    {
        let a = self.attempts + 1;
        match self.config.error_strategy {
            ErrorStrategy::Raise => {
                self.attempts = a;
                self.aborted = true;
                Decision::Abort(error)
            },
            ErrorStrategy::Retry => {
                if a <= self.config.retry_count as u64 {
                    self.attempts = a;
                    Decision::RetryAfter(self.config.retry_delay_ms)
                } else {
                    self.attempts = a;
                    self.aborted = true;
                    Decision::Abort(error)
                }
            },
            ErrorStrategy::Ignore => {
                let ghost before = self.result.errors@;
                self.result.errors.push(FailureRecord { item: self.item, path, error });
                assert(failed_items(self.result.errors@) =~= failed_items(before).push(self.item as int));
                self.item = self.item + 1;
                self.attempts = 0;
                Decision::Continue
            },
        }
    }

    /// Cancels the request between entries: nothing further is attempted,
    /// and what was copied so far stays counted.
    pub fn cancel(&mut self) -> (e: Error)
        requires
            old(self).wf(),
        ensures
            final(self).wf(),
            final(self).aborted,
            final(self).config == old(self).config,
            final(self).state() == (RunState { aborted: true, ..old(self).state() }),
            final(self).result == old(self).result,
            e@ is Interrupted,
    {
        self.aborted = true;
        Error::Interrupted(String::from_str("request cancelled"))
    }

    /// The totals of the request.
    pub fn finish(self) -> (r: TransferResult)
        ensures
            r == self.result,
    {
        self.result
    }
}

/// The state after `k` failed attempts of a fresh entry.
pub open spec fn repeated_failures(strategy: ErrorStrategy, retry_count: u32, k: nat) -> RunState
    decreases k,
{
    if k == 0 {
        initial_state()
    } else {
        after_failure(repeated_failures(strategy, retry_count, (k - 1) as nat), strategy, retry_count)
    }
}

/// Under `Retry` with retry count `n`, an entry that always fails is
/// attempted exactly `n + 1` times: the first `n` failures each lead to a
/// new attempt, and the failure of attempt `n + 1` stops the request.
pub proof fn lemma_retry_exhaustion(retry_count: u32, k: nat)
    requires
        1 <= k <= retry_count + 1,
    ensures
        repeated_failures(ErrorStrategy::Retry, retry_count, k).attempts == k,
        k <= retry_count ==> !repeated_failures(ErrorStrategy::Retry, retry_count, k).aborted,
        k == retry_count + 1 ==> repeated_failures(ErrorStrategy::Retry, retry_count, k).aborted,
        failure_step(ErrorStrategy::Retry, retry_count, k as int) == if k <= retry_count { Step::Retry } else { Step::Abort },
    decreases k,
{
    let prev = repeated_failures(ErrorStrategy::Retry, retry_count, (k - 1) as nat);
    assert(repeated_failures(ErrorStrategy::Retry, retry_count, k) == after_failure(prev, ErrorStrategy::Retry, retry_count));
    if k > 1 {
        lemma_retry_exhaustion(retry_count, (k - 1) as nat);
    } else {
        assert(prev == initial_state());
    }
}

/// The state after a run under `Ignore` in which entry `i` completed with
/// `outcomes[i]` bytes, or failed where that is none.
pub open spec fn ignore_run(outcomes: Seq<Option<u64>>, retry_count: u32) -> RunState
    decreases outcomes.len(),
{
    if outcomes.len() == 0 {
        initial_state()
    } else {
        let s = ignore_run(outcomes.drop_last(), retry_count);
        match outcomes.last() {
            Some(n) => after_success(s, Completed::File(n)),
            None => after_failure(s, ErrorStrategy::Ignore, retry_count),
        }
    }
}

/// The positions of the failed entries.
pub open spec fn failing_positions(outcomes: Seq<Option<u64>>) -> Seq<int>
    decreases outcomes.len(),
{
    if outcomes.len() == 0 {
        Seq::empty()
    } else {
        let prev = failing_positions(outcomes.drop_last());
        if outcomes.last() is None { prev.push(outcomes.len() - 1) } else { prev }
    }
}

/// The number of entries that completed.
pub open spec fn successes(outcomes: Seq<Option<u64>>) -> int
    decreases outcomes.len(),
{
    if outcomes.len() == 0 {
        0
    } else {
        successes(outcomes.drop_last()) + if outcomes.last() is Some { 1int } else { 0 }
    }
}

/// The bytes of the entries that completed.
pub open spec fn success_bytes(outcomes: Seq<Option<u64>>) -> int
    decreases outcomes.len(),
{
    if outcomes.len() == 0 {
        0
    } else {
        success_bytes(outcomes.drop_last()) + match outcomes.last() { Some(n) => n as int, None => 0 }
    }
}

/// Under `Ignore`, a failed entry affects no other: every entry is
/// finished, the run never stops, exactly the failed entries are recorded
/// (once each, in order), and the totals are those of the entries that
/// completed.
pub proof fn lemma_error_isolation(outcomes: Seq<Option<u64>>, retry_count: u32)
    ensures
        ignore_run(outcomes, retry_count).item == outcomes.len(),
        !ignore_run(outcomes, retry_count).aborted,
        ignore_run(outcomes, retry_count).attempts == 0,
        ignore_run(outcomes, retry_count).failed == failing_positions(outcomes),
        ignore_run(outcomes, retry_count).files == successes(outcomes),
        ignore_run(outcomes, retry_count).bytes == success_bytes(outcomes),
    decreases outcomes.len(),
{
    if outcomes.len() > 0 {
        lemma_error_isolation(outcomes.drop_last(), retry_count);
    }
}

} // verus!
