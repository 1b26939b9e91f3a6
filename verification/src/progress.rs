//! Bookkeeping of the progress reports of a download or repair: the
//! trailing window behind the transfer speed, what the last report said,
//! how a download ended, and the text of durations and repair summaries.
use vstd::prelude::*;
use crate::settings::strings_view;
use crate::text::{append_u64, decimal};

verus! {

/// Time from `t` to `now` in nanoseconds, zero where `t` is later (as
/// `Instant::duration_since` saturates).
pub open spec fn elapsed(now: u64, t: u64) -> int {
    if now >= t { now - t } else { 0 }
}

/// Elapsed time below which no speed is estimated: a fifth of a second.
pub const MIN_SPEED_WINDOW_NANOS: u64 = 200_000_000u64;

/// A trailing window of (time in nanoseconds, cumulative bytes) samples from
/// which a recent transfer speed is estimated.
pub struct SpeedTracker {
    samples: Vec<(u64, i64)>,
    window: u64,
}

/// The abstract value of a speed tracker.
pub struct SpeedView {
    pub samples: Seq<(u64, i64)>,
    pub window: u64,
}

impl View for SpeedTracker {
    type V = SpeedView;

    closed spec fn view(&self) -> SpeedView {
        SpeedView { samples: self.samples@, window: self.window }
    }
}

/// `k` leading samples of `s` are the ones that fall out of the window at
/// time `now`: each of them is older than the window, and either one sample
/// is left or the next one is within the window.
pub open spec fn evicted(s: Seq<(u64, i64)>, now: u64, window: u64, k: int) -> bool {
    &&& 0 <= k < s.len()
    &&& forall|j: int| 0 <= j < k ==> elapsed(now, (#[trigger] s[j]).0) > window
    &&& (k == s.len() - 1 || elapsed(now, s[k].0) <= window)
}

impl SpeedTracker {
    /// A tracker with no samples that averages over `window_nanos`.
    pub fn new(window_nanos: u64) -> (r: SpeedTracker)
        ensures
            r@.samples.len() == 0,
            r@.window == window_nanos,
    {
        SpeedTracker { samples: Vec::new(), window: window_nanos }
    }

    /// Records that `bytes` had been transferred at time `now`, drops the
    /// leading samples older than the window (always keeping one), and gives
    /// the bytes gained and the time passed since the oldest sample left, or
    /// `None` while that time is under a fifth of a second.
    pub fn sample(&mut self, now: u64, bytes: i64) -> (r: Option<(i128, u64)>)
        ensures
            final(self)@.window == old(self)@.window,
            exists|k: int|
                #[trigger] evicted(old(self)@.samples.push((now, bytes)), now, old(self)@.window, k)
                    && final(self)@.samples == old(self)@.samples.push((now, bytes)).skip(k),
            final(self)@.samples.len() >= 1,
            final(self)@.samples.last() == (now, bytes),
            r == if elapsed(now, final(self)@.samples[0].0) < MIN_SPEED_WINDOW_NANOS {
                None::<(i128, u64)>
            } else {
                Some(
                    (
                        (bytes - final(self)@.samples[0].1) as i128,
                        elapsed(now, final(self)@.samples[0].0) as u64,
                    ),
                )
            },
    {
        let ghost pushed = self@.samples.push((now, bytes));
        self.samples.push((now, bytes));
        let ghost mut k: int = 0;
        while self.samples.len() > 1 && now.saturating_sub(self.samples[0].0) > self.window
            invariant
                0 <= k < pushed.len(),
                self.samples@ == pushed.skip(k),
                self.window == old(self)@.window,
                forall|j: int| 0 <= j < k ==> elapsed(now, (#[trigger] pushed[j]).0) > self.window,
            decreases self.samples@.len(),
        {
            assert(pushed[k].0 == self.samples@[0].0);
            self.samples.remove(0);
            proof {
                k = k + 1;
                assert(self.samples@ =~= pushed.skip(k));
            }
        }
        proof {
            assert(evicted(pushed, now, old(self)@.window, k)) by {
                if k < pushed.len() - 1 {
                    assert(pushed[k].0 == self.samples@[0].0);
                }
            }
            assert(self.samples@.last() == pushed.last());
        }
        let (t0, b0) = self.samples[0];
        let e = now.saturating_sub(t0);
        if e < MIN_SPEED_WINDOW_NANOS {
            None
        } else {
            Some(((bytes as i128) - (b0 as i128), e))
        }
    }
}

/// What the progress reports of a download have said so far.
pub struct DownloadTracker {
    pub total_size: i64,
    pub last_progress: i64,
    pub printed_total: bool,
}

impl DownloadTracker {
    /// A tracker before any report.
    pub fn new() -> (r: DownloadTracker)
        ensures
            r.total_size == 0,
            r.last_progress == 0,
            !r.printed_total,
    {
        DownloadTracker { total_size: 0, last_progress: 0, printed_total: false }
    }

    /// Takes in a report of `progress` bytes of `total`; answers whether this
    /// is the first report (the one after which the total size is shown).
    pub fn record(&mut self, progress: i64, total: i64) -> (first: bool)
        ensures
            final(self).total_size == total,
            final(self).last_progress == progress,
            final(self).printed_total,
            first == !old(self).printed_total,
    {
        self.total_size = total;
        self.last_progress = progress;
        let first = !self.printed_total;
        self.printed_total = true;
        first
    }

    /// Whether the last report reached the total.
    pub fn is_complete(&self) -> (r: bool)
        ensures
            r == (self.last_progress >= self.total_size),
    {
        self.last_progress >= self.total_size
    }
}

/// The bytes still to come: what the total exceeds the progress by, and
/// zero where it does not.
pub fn remaining_bytes(total: i64, progress: i64) -> (r: i128)
    ensures
        r == if total - progress > 0 { total - progress } else { 0 },
{
    let d = (total as i128) - (progress as i128);
    if d > 0 {
        d
    } else {
        0
    }
}

/// How the background download task ended.
#[derive(Clone, Copy, Debug, PartialEq, Eq, Structural)]
pub enum TaskEnd {
    /// It returned without an error.
    Finished,
    /// It stopped because the user cancelled it.
    Cancelled,
    /// It returned an error.
    Failed,
    /// It panicked or was aborted.
    Aborted,
}

/// What a download came to.
#[derive(Clone, Copy, Debug, PartialEq, Eq, Structural)]
pub enum DownloadOutcome {
    /// Every byte arrived.
    Complete,
    /// The task finished short of the total.
    Incomplete,
    /// The user cancelled it.
    Cancelled,
    /// The task failed with an error (passed on to the caller).
    Failed,
    /// The task itself broke off.
    Aborted,
}

/// What a download came to, from how its task ended and the last report.
pub fn download_outcome(end: TaskEnd, tracker: &DownloadTracker) -> (r: DownloadOutcome)
    ensures
        r == match end {
            TaskEnd::Finished => if tracker.last_progress >= tracker.total_size {
                DownloadOutcome::Complete
            } else {
                DownloadOutcome::Incomplete
            },
            TaskEnd::Cancelled => DownloadOutcome::Cancelled,
            TaskEnd::Failed => DownloadOutcome::Failed,
            TaskEnd::Aborted => DownloadOutcome::Aborted,
        },
{
    match end {
        TaskEnd::Finished => {
            if tracker.is_complete() {
                DownloadOutcome::Complete
            } else {
                DownloadOutcome::Incomplete
            }
        },
        TaskEnd::Cancelled => DownloadOutcome::Cancelled,
        TaskEnd::Failed => DownloadOutcome::Failed,
        TaskEnd::Aborted => DownloadOutcome::Aborted,
    }
}

/// Whether the game entry is to be recorded as fully downloaded: only a
/// download that got every byte is; cancelled and broken-off ones are
/// recorded as incomplete, and a failed one is not recorded.
pub fn marks_complete(outcome: DownloadOutcome) -> (r: Option<bool>)
    ensures
        r == match outcome {
            DownloadOutcome::Complete => Some(true),
            DownloadOutcome::Failed => None::<bool>,
            _ => Some(false),
        },
{
    match outcome {
        DownloadOutcome::Complete => Some(true),
        DownloadOutcome::Failed => None,
        _ => Some(false),
    }
}

/// What the progress reports of a verify-and-repair have said so far.
pub struct RepairTracker {
    pub total_size: i64,
    pub last_verified: i64,
    pub printed_total: bool,
}

impl RepairTracker {
    /// A tracker before any report.
    pub fn new() -> (r: RepairTracker)
        ensures
            r.total_size == 0,
            r.last_verified == 0,
            !r.printed_total,
    {
        RepairTracker { total_size: 0, last_verified: 0, printed_total: false }
    }

    /// Takes in a verification report; answers whether it is the first.
    pub fn on_verifying(&mut self, verified: i64, total: i64) -> (first: bool)
        ensures
            final(self).total_size == total,
            final(self).last_verified == verified,
            final(self).printed_total,
            first == !old(self).printed_total,
    {
        self.total_size = total;
        self.last_verified = verified;
        let first = !self.printed_total;
        self.printed_total = true;
        first
    }

    /// The progress that a repair report stands for: the bytes last verified
    /// plus the bytes downloaded in this session.
    pub fn on_downloading(&self, downloaded: i64) -> (combined: i64)
        requires
            i64::MIN <= self.last_verified + downloaded <= i64::MAX,
        ensures
            combined == self.last_verified + downloaded,
    {
        self.last_verified + downloaded
    }
}

/// A duration of whole seconds as minutes and seconds ("3m 7s"), or seconds
/// alone ("42s") under a minute.
pub fn format_minutes_seconds(total_secs: u64) -> (r: String)
    ensures
        r@ == if total_secs / 60 > 0 {
            decimal((total_secs / 60) as int) + "m "@ + decimal((total_secs % 60) as int) + "s"@
        } else {
            decimal((total_secs % 60) as int) + "s"@
        },
{
    let m = total_secs / 60;
    let s = total_secs % 60;
    let mut r = String::new();
    if m > 0 {
        append_u64(&mut r, m);
        r.append("m ");
    }
    append_u64(&mut r, s);
    r.append("s");
    proof {
        if m > 0 {
            assert(r@ =~= decimal(m as int) + "m "@ + decimal(s as int) + "s"@);
        } else {
            assert(r@ =~= decimal(s as int) + "s"@);
        }
    }
    r
}

/// How many repaired files a summary names before it only counts the rest.
pub const SHOWN_REPAIRED_FILES: usize = 10usize;

/// The lines of a repair summary about the repaired files.
pub open spec fn repaired_lines(files: Seq<Seq<char>>) -> Seq<Seq<char>> {
    if files.len() == 0 {
        seq!["No files needed repair."@]
    } else {
        let shown = if files.len() > 10 { 10 } else { files.len() as int };
        seq!["Repaired files ("@ + decimal(files.len() as int) + "):"@] + Seq::new(
            shown as nat,
            |i: int| "  - "@ + files[i],
        ) + if files.len() > 10 {
            seq!["  + "@ + decimal(files.len() - 10) + " more"@]
        } else {
            Seq::empty()
        }
    }
}

/// The lines of a repair summary about the repaired files: none needed
/// repair, or their count, the first ten, and how many more there are.
pub fn repaired_file_lines(files: &Vec<String>) -> (r: Vec<String>)
    ensures
        strings_view(r@) == repaired_lines(strings_view(files@)),
{
    let ghost fv = strings_view(files@);
    let mut r: Vec<String> = Vec::new();
    if files.len() == 0 {
        r.push(String::from_str("No files needed repair."));
        assert(strings_view(r@) =~= repaired_lines(fv));
        return r;
    }
    let mut head = String::from_str("Repaired files (");
    append_u64(&mut head, files.len() as u64);
    head.append("):");
    r.push(head);
    let shown: usize = if files.len() > SHOWN_REPAIRED_FILES { SHOWN_REPAIRED_FILES } else { files.len() };
    let mut i: usize = 0;
    while i < shown
        invariant
            fv == strings_view(files@),
            shown <= files@.len(),
            i <= shown,
            r@.len() == i + 1,
            r@[0]@ == "Repaired files ("@ + decimal(files@.len() as int) + "):"@,
            forall|k: int| 0 <= k < i ==> (#[trigger] r@[k + 1])@ == "  - "@ + files@[k]@,
        decreases shown - i,
    {
        let mut line = String::from_str("  - ");
        line.append(files[i].as_str());
        r.push(line);
        i = i + 1;
    }
    if files.len() > SHOWN_REPAIRED_FILES {
        let mut more = String::from_str("  + ");
        append_u64(&mut more, (files.len() - SHOWN_REPAIRED_FILES) as u64);
        more.append(" more");
        r.push(more);
    }
    proof {
        let want = repaired_lines(fv);
        assert forall|k: int| 0 <= k < r@.len() implies strings_view(r@)[k] == want[k] by {
            if 1 <= k <= shown {
                assert(r@[(k - 1) + 1]@ == "  - "@ + files@[k - 1]@);
            }
        }
        assert(strings_view(r@) =~= want);
    }
    r
}

} // verus!
