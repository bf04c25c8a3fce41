//! The download queue service core: the bounded FIFO of pending requests
//! served by a single background worker, the outcome states a transfer
//! publishes, and the per-transfer progress tracker whose reports are
//! non-decreasing percentages ending in a terminal state.
use crate::pathstr::last_component;
use crate::pathstr::last_component_of;
use crate::pathstr::push_char;
use vstd::arithmetic::div_mod::lemma_div_is_ordered;
use vstd::prelude::*;

verus! {

/// Rounded integer percentage of `done` out of `total`, clamped to 100.
pub open spec fn spec_percent(done: u64, total: u64) -> int
    recommends
        total > 0,
{
    if done >= total {
        100
    } else {
        (done * 100 + total / 2) / (total as int)
    }
}

/// Progress percentage for a transfer that has written `done` of `total`
/// bytes: rounds to the nearest whole percent and never exceeds 100, even
/// when a stream delivers more bytes than the declared total.
pub fn percent_complete(done: u64, total: u64) -> (r: u8)
    requires
        total > 0,
    ensures
        r as int == spec_percent(done, total),
        r <= 100,
{
    if done >= total {
        100
    } else {
        let wide: u128 = ((done as u128) * 100 + (total as u128) / 2) / (total as u128);
        proof {
            let d = done as int;
            let t = total as int;
            assert(d * 100 + t / 2 < 101 * t) by (nonlinear_arith)
                requires
                    0 <= d < t,
            ;
            assert((d * 100 + t / 2) / t < 101) by (nonlinear_arith)
                requires
                    t > 0,
                    0 <= d,
                    d * 100 + t / 2 < 101 * t,
            ;
        }
        wide as u8
    }
}

/// The observable state of one download request. `InProgress`, once
/// superseded, is never shown again; the four other variants are terminal.
#[derive(Debug, Clone)]
pub enum ModDownloadResult {
    /// The transfer failed; carries the reason.
    Failed(String),
    /// Percentage of the declared total written so far.
    InProgress(u8),
    /// The transfer finished; carries the destination file path.
    Completed(String),
    /// The request was abandoned before completion.
    Cancelled,
    /// The request can never be serviced; carries the reason.
    CannotComplete(String),
}

impl ModDownloadResult {
    /// A terminal outcome admits no further transitions.
    pub open spec fn is_terminal(self) -> bool {
        !(self is InProgress)
    }
}

/// A single pending fetch request: the target URL and the caller's
/// identifier. The sending half of the progress channel stays with the
/// unverified runtime that owns the network.
#[derive(Debug, Clone)]
pub struct QueuedDownload {
    pub mod_id: String,
    pub url: String,
}

/// The bounded FIFO of pending downloads feeding exactly one background
/// worker: requests are served in arrival order, one at a time.
pub struct DownloadQueue {
    items: Vec<QueuedDownload>,
    capacity: usize,
}

impl DownloadQueue {
    /// The pending requests, oldest first.
    pub closed spec fn pending(self) -> Seq<QueuedDownload> {
        self.items@
    }

    /// The most requests the queue ever holds.
    pub closed spec fn cap(self) -> nat {
        self.capacity as nat
    }

    /// The queue never exceeds its capacity.
    pub closed spec fn wf(self) -> bool {
        self.items@.len() <= self.capacity
    }

    /// An empty queue with the given capacity.
    pub fn new(capacity: usize) -> (r: DownloadQueue)
        ensures
            r.wf(),
            r.pending() == Seq::<QueuedDownload>::empty(),
            r.cap() == capacity as nat,
    {
        let r = DownloadQueue { items: Vec::new(), capacity };
        proof {
            assert(r.pending() =~= Seq::<QueuedDownload>::empty());
        }
        r
    }

    /// How many requests are pending.
    pub fn len(&self) -> (n: usize)
        ensures
            n == self.pending().len(),
    {
        self.items.len()
    }

    /// Accepts a request unless the queue is full. An accepted request goes
    /// to the back: earlier requests are served first.
    pub fn enqueue(&mut self, d: QueuedDownload) -> (ok: bool)
        requires
            old(self).wf(),
        ensures
            final(self).wf(),
            final(self).cap() == old(self).cap(),
            ok == (old(self).pending().len() < old(self).cap()),
            ok ==> final(self).pending() == old(self).pending().push(d),
            !ok ==> final(self).pending() == old(self).pending(),
    {
        if self.items.len() < self.capacity {
            self.items.push(d);
            true
        } else {
            false
        }
    }

    /// Hands out the oldest pending request, if any: strict FIFO service.
    pub fn dequeue(&mut self) -> (r: Option<QueuedDownload>)
        requires
            old(self).wf(),
        ensures
            final(self).wf(),
            final(self).cap() == old(self).cap(),
            match r {
                Some(d) => old(self).pending().len() > 0 && d == old(self).pending()[0]
                    && final(self).pending() == old(self).pending().skip(1),
                None => old(self).pending().len() == 0
                    && final(self).pending() == old(self).pending(),
            },
    {
        if self.items.len() == 0 {
            None
        } else {
            let d = self.items.remove(0);
            proof {
                assert(final(self).pending() =~= old(self).pending().skip(1));
            }
            Some(d)
        }
    }
}


/// The percentage reported for a transfer never decreases as bytes arrive.
pub proof fn lemma_percent_monotone(d1: u64, d2: u64, t: u64)
    requires
        d1 <= d2,
        t > 0,
    ensures
        spec_percent(d1, t) <= spec_percent(d2, t),
{
    if d1 < t && d2 < t {
        lemma_div_is_ordered(d1 * 100 + t / 2, d2 * 100 + t / 2, t as int);
    } else if d1 < t {
        lemma_div_is_ordered(d1 * 100 + t / 2, (t - 1) * 100 + t / 2, t as int);
        assert(((t - 1) * 100 + t / 2) / (t as int) <= 100) by (nonlinear_arith)
            requires
                t > 0,
        ;
    }
}

/// The percentage carried by a progress report; zero for any other report.
pub open spec fn pct_of(r: ModDownloadResult) -> int {
    match r {
        ModDownloadResult::InProgress(p) => p as int,
        _ => 0,
    }
}

/// Progress state of the background worker for one transfer, recording what
/// it has published to the request's observation channel. Reports carry
/// percentages only when the response declared a total length; the final
/// report of a transfer is always a terminal outcome.
pub struct DownloadWorker {
    total: Option<u64>,
    downloaded: u64,
    done: bool,
    published: Ghost<Seq<ModDownloadResult>>,
}

impl DownloadWorker {
    /// The declared content length, when one is known and positive.
    pub closed spec fn total(self) -> Option<u64> {
        self.total
    }

    /// Bytes written to the destination file so far.
    pub closed spec fn bytes_downloaded(self) -> u64 {
        self.downloaded
    }

    /// Everything published so far for this request, oldest first.
    pub closed spec fn published(self) -> Seq<ModDownloadResult> {
        self.published@
    }

    /// Whether a terminal outcome has been published.
    pub closed spec fn is_done(self) -> bool {
        self.done
    }

    /// Every report before the last is a progress percentage; percentages
    /// are bounded by 100 and non-decreasing; a terminal outcome, once
    /// published, stands last and closes the transfer.
    pub closed spec fn wf(self) -> bool {
        &&& (self.total matches Some(t) ==> t > 0)
        &&& forall|k: int|
            0 <= k < self.published@.len() ==> pct_of(#[trigger] self.published@[k]) <= 100
        &&& forall|k: int|
            0 <= k < self.published@.len() - 1 ==> (#[trigger] self.published@[k]) is InProgress
        &&& (self.done <==> (self.published@.len() > 0 && self.published@.last().is_terminal()))
        &&& ((!self.done && self.total is Some) ==> forall|k: int|
            0 <= k < self.published@.len() ==> pct_of(#[trigger] self.published@[k])
                <= spec_percent(self.downloaded, self.total.unwrap()))
        &&& forall|k: int, l: int|
            0 <= k < l < self.published@.len() ==> (((#[trigger] self.published@[k]) is InProgress
                && (#[trigger] self.published@[l]) is InProgress) ==> pct_of(self.published@[k])
                <= pct_of(self.published@[l]))
    }

    /// Begins tracking a transfer. A declared length of zero counts as
    /// unknown: no percentage can be computed from it.
    pub fn start(content_length: Option<u64>) -> (w: DownloadWorker)
        ensures
            w.wf(),
            !w.is_done(),
            w.published() == Seq::<ModDownloadResult>::empty(),
            w.bytes_downloaded() == 0,
            w.total() == (match content_length {
                Some(t) => if t > 0 {
                    Some(t)
                } else {
                    None::<u64>
                },
                None => None::<u64>,
            }),
    {
        let total = match content_length {
            Some(t) => if t > 0 {
                Some(t)
            } else {
                None
            },
            None => None,
        };
        DownloadWorker { total, downloaded: 0, done: false, published: Ghost(Seq::empty()) }
    }

    /// Accounts for one chunk written to the destination file. When the
    /// response declared a total, returns the progress report to publish:
    /// the rounded percentage of the new byte count, which never decreases
    /// and never exceeds 100. With no declared total nothing is published.
    pub fn on_chunk(&mut self, len: u64) -> (r: Option<ModDownloadResult>)
        requires
            old(self).wf(),
            !old(self).is_done(),
            old(self).bytes_downloaded() + len <= u64::MAX,
        ensures
            final(self).wf(),
            !final(self).is_done(),
            final(self).total() == old(self).total(),
            final(self).bytes_downloaded() == old(self).bytes_downloaded() + len,
            match old(self).total() {
                Some(t) => r == Some(
                    ModDownloadResult::InProgress(
                        spec_percent((old(self).bytes_downloaded() + len) as u64, t) as u8,
                    ),
                ) && final(self).published() == old(self).published().push(r.unwrap()),
                None => r is None && final(self).published() == old(self).published(),
            },
    {
        self.downloaded = self.downloaded + len;
        match self.total {
            Some(t) => {
                let pct = percent_complete(self.downloaded, t);
                let report = ModDownloadResult::InProgress(pct);
                proof {
                    lemma_percent_monotone(old(self).bytes_downloaded(), self.downloaded, t);
                    self.published@ = self.published@.push(report);
                    assert(self.published@.drop_last() =~= old(self).published());
                    assert forall|k: int|
                        0 <= k < self.published@.len() implies pct_of(
                        #[trigger] self.published@[k],
                    ) <= spec_percent(self.downloaded, t) by {
                        if k < self.published@.len() - 1 {
                            assert(self.published@[k] == old(self).published()[k]);
                        }
                    }
                }
                Some(report)
            },
            None => None,
        }
    }

    /// Publishes the terminal outcome of a finished transfer: `Completed`
    /// with the destination path. It is the last report ever published.
    pub fn on_complete(&mut self, dest_path: String) -> (r: ModDownloadResult)
        requires
            old(self).wf(),
            !old(self).is_done(),
        ensures
            final(self).wf(),
            final(self).is_done(),
            r == ModDownloadResult::Completed(dest_path),
            final(self).published() == old(self).published().push(r),
            final(self).published().last() == r,
    {
        let report = ModDownloadResult::Completed(dest_path);
        proof {
            self.published@ = self.published@.push(report);
            assert(self.published@.drop_last() =~= old(self).published());
        }
        self.done = true;
        report
    }

    /// Publishes the terminal outcome of a failed transfer: `Failed` with
    /// the reason. It is the last report ever published.
    pub fn on_failure(&mut self, message: String) -> (r: ModDownloadResult)
        requires
            old(self).wf(),
            !old(self).is_done(),
        ensures
            final(self).wf(),
            final(self).is_done(),
            r == ModDownloadResult::Failed(message),
            final(self).published() == old(self).published().push(r),
            final(self).published().last() == r,
    {
        let report = ModDownloadResult::Failed(message);
        proof {
            self.published@ = self.published@.push(report);
            assert(self.published@.drop_last() =~= old(self).published());
        }
        self.done = true;
        report
    }
}

/// What a transfer publishes over its lifetime: every progress report is a
/// percentage bounded by 100, the percentages never decrease, and a terminal
/// outcome can only stand last. A transfer closed by `on_complete` thus ends
/// with `Completed` after a non-decreasing run of percentages.
pub proof fn lemma_progress_history(w: DownloadWorker)
    requires
        w.wf(),
    ensures
        forall|k: int| 0 <= k < w.published().len() ==> pct_of(#[trigger] w.published()[k]) <= 100,
        forall|k: int, l: int|
            0 <= k < l < w.published().len() ==> (((#[trigger] w.published()[k]) is InProgress && (
            #[trigger] w.published()[l]) is InProgress) ==> pct_of(w.published()[k]) <= pct_of(
                w.published()[l],
            )),
        forall|k: int| 0 <= k < w.published().len() - 1 ==> (#[trigger] w.published()[k])
            is InProgress,
        w.is_done() <==> (w.published().len() > 0 && w.published().last().is_terminal()),
{
}


/// The prefix of a URL before its query or fragment part.
pub open spec fn spec_cut_query(u: Seq<char>) -> Seq<char>
    decreases u.len(),
{
    if u.len() == 0 {
        Seq::empty()
    } else if u[0] == '?' || u[0] == '#' {
        Seq::empty()
    } else {
        seq![u[0]] + spec_cut_query(u.skip(1))
    }
}

/// The file name a download is stored under: the last path segment of the
/// resolved URL, or a fixed fallback when the URL ends in a separator or
/// has no path.
pub open spec fn spec_dest_file_name(u: Seq<char>) -> Seq<char> {
    if last_component(spec_cut_query(u)).len() == 0 {
        "unknown.zip"@
    } else {
        last_component(spec_cut_query(u))
    }
}

/// Returns the URL up to its query or fragment part.
fn cut_at_query(u: &str) -> (r: String)
    ensures
        r@ == spec_cut_query(u@),
{
    let n = u.unicode_len();
    let mut out = String::new();
    let mut i: usize = 0;
    proof {
        assert(u@.skip(0) =~= u@);
        assert(u@.take(0) =~= Seq::<char>::empty());
    }
    while i < n
        invariant
            n == u@.len(),
            i <= n,
            out@ == u@.take(i as int),
            spec_cut_query(u@) == out@ + spec_cut_query(u@.skip(i as int)),
        decreases n - i,
    {
        let c = u.get_char(i);
        proof {
            assert(u@.skip(i as int)[0] == u@[i as int]);
            assert(u@.skip(i as int).skip(1) =~= u@.skip(i + 1));
        }
        if c == '?' || c == '#' {
            proof {
                assert(spec_cut_query(u@.skip(i as int)) =~= Seq::<char>::empty());
                assert(spec_cut_query(u@) =~= out@);
            }
            return out;
        }
        push_char(&mut out, c);
        proof {
            assert(u@.take(i + 1) =~= u@.take(i as int).push(u@[i as int]));
            assert(out@ + spec_cut_query(u@.skip(i + 1)) =~= u@.take(i as int) + (seq![u@[i as int]]
                + spec_cut_query(u@.skip(i + 1))));
        }
        i += 1;
    }
    proof {
        assert(u@.skip(n as int).len() == 0);
        assert(spec_cut_query(u@) =~= out@);
    }
    out
}

/// Chooses the destination file name for a response from its resolved URL:
/// the last path segment when it is non-empty, else the fixed fallback name.
pub fn dest_file_name(resolved_url: &str) -> (r: String)
    ensures
        r@ == spec_dest_file_name(resolved_url@),
{
    let cut = cut_at_query(resolved_url);
    let seg = last_component_of(cut.as_str());
    if seg.as_str().unicode_len() == 0 {
        String::from_str("unknown.zip")
    } else {
        seg
    }
}

} // verus!
