//! The transfer engine's decisions and bookkeeping for one download.
//!
//! A [`Transfer`] tracks one run: the shared byte counter, the cancel
//! verdict, the first worker error, the event stream (as ghost state,
//! see [`crate::events`]), and a model of the files the run touches.
//! The host process performs the actual requests and writes, and calls
//! in here for every decision: what to send, what to record, what to
//! publish, and how the run ends. Terminal disposition prioritizes
//! cancellation over error over incompleteness over success.

use vstd::prelude::*;
use vstd::string::StringExecFns;
use crate::errors::{spec_message, DownloadError};
use crate::events::{is_terminal, rec_of, total_of, wf_log, Event};
use crate::payloads::{CanceledPayload, CompletedPayload, FailedPayload, ProgressPayload, StartedPayload};
use crate::text::{dec_chars, u64_to_string};

verus! {

/// How often the single-stream path publishes progress, in milliseconds.
pub const STREAM_TICK_MS: u64 = 400;

/// How often the segmented run's reporter publishes progress, in
/// milliseconds.
pub const REPORTER_TICK_MS: u64 = 500;

/// A transfer runs single-stream when the length is unknown, ranges are
/// unsupported, or one worker was asked for.
pub fn use_single_stream(total: Option<u64>, accept_ranges: bool, n: u64) -> (r: bool)
    ensures
        r == (total is None || !accept_ranges || n == 1),
{
    total.is_none() || !accept_ranges || n == 1
}

/// Mint a download id from a millisecond timestamp.
pub fn make_download_id(millis: u64) -> (r: String)
    ensures
        r@ == "dl-"@ + dec_chars(millis as int),
{
    let mut s = "dl-".to_owned();
    let n = u64_to_string(millis);
    s.append(n.as_str());
    s
}

/// Render the `Range` header value for an inclusive byte interval.
pub fn make_range_header(start: u64, end: u64) -> (r: String)
    ensures
        r@ == "bytes="@ + dec_chars(start as int) + "-"@ + dec_chars(end as int),
{
    let mut s = "bytes=".to_owned();
    let a = u64_to_string(start);
    s.append(a.as_str());
    s.append("-");
    let b = u64_to_string(end);
    s.append(b.as_str());
    s
}

/// A 2xx status.
pub fn status_is_success(status: u16) -> (r: bool)
    ensures
        r == (200 <= status <= 299),
{
    200 <= status && status <= 299
}

/// A status a ranged request may answer with: 2xx or 206.
pub fn range_status_ok(status: u16) -> (r: bool)
    ensures
        r == (200 <= status <= 299 || status == 206),
{
    (200 <= status && status <= 299) || status == 206
}

/// Throughput in bytes per second from a byte delta and elapsed
/// milliseconds (an empty interval counts as one millisecond), saturated.
pub open spec fn spec_speed(delta: u64, elapsed_ms: u64) -> u64 {
    let e: int = if elapsed_ms == 0 {
        1
    } else {
        elapsed_ms as int
    };
    let v: int = delta * 1000 / e;
    if v > u64::MAX {
        u64::MAX
    } else {
        v as u64
    }
}

/// Compute a throughput snapshot value.
pub fn compute_speed(delta: u64, elapsed_ms: u64) -> (r: u64)
    ensures
        r == spec_speed(delta, elapsed_ms),
{
    let e: u64 = if elapsed_ms == 0 {
        1
    } else {
        elapsed_ms
    };
    let v: u128 = (delta as u128) * 1000 / (e as u128);
    if v > u64::MAX as u128 {
        u64::MAX
    } else {
        v as u64
    }
}

/// Has at least `interval_ms` passed since `last_ms`?
pub fn cadence_due(now_ms: u64, last_ms: u64, interval_ms: u64) -> (r: bool)
    requires
        last_ms <= now_ms,
    ensures
        r == (now_ms - last_ms >= interval_ms),
{
    now_ms - last_ms >= interval_ms
}

/// How a run ended, what to publish, and what to do with the files.
pub enum Terminal {
    /// Remove any file at `dest`, rename `temp` to `dest`, publish.
    Completed { payload: CompletedPayload },
    /// Publish; remove `temp` only when `remove_temp` says so.
    Failed { payload: FailedPayload, remove_temp: bool },
    /// Publish; `temp` stays for a later resume.
    Canceled { payload: CanceledPayload },
}

/// Pushing a non-`started` record onto a live well-formed stream keeps
/// it well-formed.
proof fn lemma_push_event(s: Seq<Event>, e: Event, cap: u64)
    requires
        wf_log(s),
        s.len() > 0,
        !is_terminal(s.last()),
        !(e is Started),
        forall|i: int| 0 <= i < s.len() && (#[trigger] s[i]) is Progress ==> rec_of(s[i]) <= cap,
        e is Progress ==> rec_of(e) >= cap,
        e is Progress && total_of(e) > 0 ==> rec_of(e) <= total_of(e),
    ensures
        wf_log(s.push(e)),
{
    let s2 = s.push(e);
    assert forall|i: int| 0 <= i < s2.len() implies ((#[trigger] s2[i]) is Started <==> i
        == 0) by {
        if i < s.len() {
            assert(s2[i] == s[i]);
        } else {
            assert(s2[i] == e);
        }
    }
    assert forall|i: int| 0 <= i < s2.len() - 1 implies !is_terminal(#[trigger] s2[i]) by {
        assert(s2[i] == s[i]);
        if i < s.len() - 1 {
        } else {
            assert(s[i] == s.last());
        }
    }
    assert forall|i: int, j: int|
        0 <= i <= j < s2.len() && (#[trigger] s2[i]) is Progress && (#[trigger] s2[j]) is Progress
        implies rec_of(s2[i]) <= rec_of(s2[j]) by {
        if j < s.len() {
            assert(s2[i] == s[i] && s2[j] == s[j]);
        } else if i < s.len() {
            assert(s2[i] == s[i] && s2[j] == e);
        }
    }
    assert forall|i: int|
        0 <= i < s2.len() && (#[trigger] s2[i]) is Progress && total_of(s2[i]) > 0 implies rec_of(
        s2[i],
    ) <= total_of(s2[i]) by {
        if i < s.len() {
            assert(s2[i] == s[i]);
        }
    }
}

/// After a deletion removes the working and destination files, neither
/// path exists on the modeled disk.
pub proof fn lemma_delete_removes_files(disk: Map<Seq<char>, u64>, temp: Seq<char>, dest: Seq<char>)
    ensures
        !disk.remove(temp).remove(dest).contains_key(temp),
        !disk.remove(temp).remove(dest).contains_key(dest),
{
}

/// One download run: counters, verdicts, event stream and file model.
pub struct Transfer {
    id: String,
    temp: String,
    dest: String,
    total: u64,
    total_known: bool,
    segmented: bool,
    prepared: bool,
    counter: u64,
    last_bytes: u64,
    last_tick_ms: u64,
    canceled: bool,
    first_error: Option<DownloadError>,
    done: bool,
    events: Ghost<Seq<Event>>,
    disk: Ghost<Map<Seq<char>, u64>>,
}

impl Transfer {
    /// The run's id.
    pub closed spec fn id_sv(&self) -> Seq<char> {
        self.id@
    }

    /// The working path.
    pub closed spec fn temp_sv(&self) -> Seq<char> {
        self.temp@
    }

    /// The destination path.
    pub closed spec fn dest_sv(&self) -> Seq<char> {
        self.dest@
    }

    /// The advertised size, when known.
    pub closed spec fn total_opt(&self) -> Option<u64> {
        if self.total_known {
            Some(self.total)
        } else {
            None
        }
    }

    /// Bytes recorded so far.
    pub closed spec fn bytes_recorded(&self) -> u64 {
        self.counter
    }

    /// Bytes reported by the latest snapshot.
    pub closed spec fn snapshot_bytes(&self) -> u64 {
        self.last_bytes
    }

    /// When the latest snapshot was taken.
    pub closed spec fn snapshot_ms(&self) -> u64 {
        self.last_tick_ms
    }

    /// Whether cancellation has been observed.
    pub closed spec fn cancel_seen(&self) -> bool {
        self.canceled
    }

    /// The first error reported, if any.
    pub closed spec fn error_seen(&self) -> Option<DownloadError> {
        self.first_error
    }

    /// Whether a terminal record has been published.
    pub closed spec fn is_done(&self) -> bool {
        self.done
    }

    /// Whether the run's working file has been set up.
    pub closed spec fn is_prepared(&self) -> bool {
        self.prepared
    }

    /// Whether the run tiles the interval over several workers.
    pub closed spec fn is_segmented(&self) -> bool {
        self.segmented
    }

    /// The event stream so far.
    pub closed spec fn events(&self) -> Seq<Event> {
        self.events@
    }

    /// The model of the files this run touches: path to byte length.
    pub closed spec fn disk(&self) -> Map<Seq<char>, u64> {
        self.disk@
    }

    /// The run's internal invariant.
    pub closed spec fn inv(&self) -> bool {
        &&& wf_log(self.events@)
        &&& self.events@.len() > 0
        &&& self.done <==> is_terminal(self.events@.last())
        &&& forall|i: int|
            0 <= i < self.events@.len() && (#[trigger] self.events@[i]) is Progress ==> rec_of(
                self.events@[i],
            ) <= self.counter
        &&& forall|i: int|
            0 <= i < self.events@.len() && (#[trigger] self.events@[i]) is Progress ==> total_of(
                self.events@[i],
            ) == if self.total_known {
                self.total
            } else {
                0u64
            }
        &&& self.last_bytes <= self.counter
        &&& (self.total_known ==> self.counter <= self.total)
        &&& (!self.total_known ==> self.total == 0)
        &&& (self.segmented ==> self.total_known && 1 <= self.total && self.prepared)
        &&& (self.prepared && self.segmented ==> self.disk@.contains_key(self.temp@)
            && self.disk@[self.temp@] == self.total)
        &&& (self.prepared && !self.segmented ==> self.disk@.contains_key(self.temp@)
            && self.disk@[self.temp@] == self.counter)
        &&& self.temp@ != self.dest@
    }

    /// Begin a run: record `started` and hand back its payload.
    pub fn new(
        id: String,
        url: String,
        file_name: String,
        dest_dir: String,
        temp: String,
        dest: String,
        total: Option<u64>,
    ) -> (r: (Transfer, StartedPayload))
        requires
            temp@ != dest@,
        ensures
            r.0.inv(),
            r.0.events() =~= seq![Event::Started { total }],
            r.0.id_sv() == id@,
            r.0.temp_sv() == temp@,
            r.0.dest_sv() == dest@,
            r.0.total_opt() == total,
            r.0.bytes_recorded() == 0,
            r.0.snapshot_bytes() == 0,
            r.0.snapshot_ms() == 0,
            !r.0.cancel_seen(),
            r.0.error_seen() is None,
            !r.0.is_done(),
            !r.0.is_prepared(),
            !r.0.is_segmented(),
            r.0.disk() =~= Map::<Seq<char>, u64>::empty(),
            r.1.id@ == id@,
            r.1.url == url,
            r.1.file_name == file_name,
            r.1.dest_dir == dest_dir,
            r.1.total == total,
    {
        let (known, tv): (bool, u64) = match total {
            Some(t) => (true, t),
            None => (false, 0),
        };
        let payload = StartedPayload { id: id.clone(), url, file_name, dest_dir, total };
        let ghost ev0: Seq<Event> = seq![Event::Started { total }];
        let t = Transfer {
            id,
            temp,
            dest,
            total: tv,
            total_known: known,
            segmented: false,
            prepared: false,
            counter: 0,
            last_bytes: 0,
            last_tick_ms: 0,
            canceled: false,
            first_error: None,
            done: false,
            events: Ghost(ev0),
            disk: Ghost(Map::empty()),
        };
        (t, payload)
    }

    /// Set up the single-stream path: `temp` opened empty.
    pub fn prepare_single(&mut self)
        requires
            old(self).inv(),
            !old(self).is_done(),
            !old(self).is_prepared(),
            old(self).bytes_recorded() == 0,
        ensures
            final(self).inv(),
            final(self).is_prepared(),
            !final(self).is_segmented(),
            final(self).disk() =~= old(self).disk().insert(old(self).temp_sv(), 0),
            final(self).events() == old(self).events(),
            final(self).bytes_recorded() == old(self).bytes_recorded(),
            final(self).snapshot_bytes() == old(self).snapshot_bytes(),
            final(self).snapshot_ms() == old(self).snapshot_ms(),
            final(self).cancel_seen() == old(self).cancel_seen(),
            final(self).error_seen() == old(self).error_seen(),
            !final(self).is_done(),
            final(self).id_sv() == old(self).id_sv(),
            final(self).temp_sv() == old(self).temp_sv(),
            final(self).dest_sv() == old(self).dest_sv(),
            final(self).total_opt() == old(self).total_opt(),
    {
        self.prepared = true;
        self.disk = Ghost(self.disk@.insert(self.temp@, 0));
    }

    /// Set up a tiled run: `temp` pre-allocated to `total`, the counter
    /// seeded with the bytes already on disk (0 for a fresh transfer).
    pub fn prepare_segmented(&mut self, start_from: u64)
        requires
            old(self).inv(),
            !old(self).is_done(),
            !old(self).is_prepared(),
            old(self).bytes_recorded() == 0,
            old(self).total_opt() is Some,
            1 <= old(self).total_opt()->0,
            start_from <= old(self).total_opt()->0,
        ensures
            final(self).inv(),
            final(self).is_prepared(),
            final(self).is_segmented(),
            final(self).disk() =~= old(self).disk().insert(
                old(self).temp_sv(),
                old(self).total_opt()->0,
            ),
            final(self).events() == old(self).events(),
            final(self).bytes_recorded() == start_from,
            final(self).snapshot_bytes() == start_from,
            final(self).snapshot_ms() == old(self).snapshot_ms(),
            final(self).cancel_seen() == old(self).cancel_seen(),
            final(self).error_seen() == old(self).error_seen(),
            !final(self).is_done(),
            final(self).id_sv() == old(self).id_sv(),
            final(self).temp_sv() == old(self).temp_sv(),
            final(self).dest_sv() == old(self).dest_sv(),
            final(self).total_opt() == old(self).total_opt(),
    {
        self.prepared = true;
        self.segmented = true;
        self.counter = start_from;
        self.last_bytes = start_from;
        self.disk = Ghost(self.disk@.insert(self.temp@, self.total));
    }

    /// Note the cancel flag's value; once seen set, it stays set.
    pub fn observe_cancel(&mut self, flag: bool)
        requires
            old(self).inv(),
        ensures
            final(self).inv(),
            final(self).cancel_seen() == (old(self).cancel_seen() || flag),
            final(self).events() == old(self).events(),
            final(self).disk() == old(self).disk(),
            final(self).bytes_recorded() == old(self).bytes_recorded(),
            final(self).snapshot_bytes() == old(self).snapshot_bytes(),
            final(self).snapshot_ms() == old(self).snapshot_ms(),
            final(self).error_seen() == old(self).error_seen(),
            final(self).is_done() == old(self).is_done(),
            final(self).is_prepared() == old(self).is_prepared(),
            final(self).is_segmented() == old(self).is_segmented(),
            final(self).id_sv() == old(self).id_sv(),
            final(self).temp_sv() == old(self).temp_sv(),
            final(self).dest_sv() == old(self).dest_sv(),
            final(self).total_opt() == old(self).total_opt(),
    {
        if flag {
            self.canceled = true;
        }
    }

    /// Keep the first error reported; later ones are dropped.
    pub fn report_error(&mut self, message: String)
        requires
            old(self).inv(),
        ensures
            final(self).inv(),
            final(self).error_seen() == match old(self).error_seen() {
                Some(e) => Some(e),
                None => Some(DownloadError::Worker { message }),
            },
            final(self).events() == old(self).events(),
            final(self).disk() == old(self).disk(),
            final(self).bytes_recorded() == old(self).bytes_recorded(),
            final(self).snapshot_bytes() == old(self).snapshot_bytes(),
            final(self).snapshot_ms() == old(self).snapshot_ms(),
            final(self).cancel_seen() == old(self).cancel_seen(),
            final(self).is_done() == old(self).is_done(),
            final(self).is_prepared() == old(self).is_prepared(),
            final(self).is_segmented() == old(self).is_segmented(),
            final(self).id_sv() == old(self).id_sv(),
            final(self).temp_sv() == old(self).temp_sv(),
            final(self).dest_sv() == old(self).dest_sv(),
            final(self).total_opt() == old(self).total_opt(),
    {
        if self.first_error.is_none() {
            self.first_error = Some(DownloadError::Worker { message });
        }
    }

    /// Record bytes written to `temp`. For a known total the caller
    /// records no more than the advertised size: workers request ranges
    /// that tile it.
    pub fn record_chunk(&mut self, len: u64)
        requires
            old(self).inv(),
            !old(self).is_done(),
            old(self).is_prepared(),
            old(self).bytes_recorded() + len <= u64::MAX,
            old(self).total_opt() is Some ==> old(self).bytes_recorded() + len <= old(
                self,
            ).total_opt()->0,
        ensures
            final(self).inv(),
            final(self).bytes_recorded() == old(self).bytes_recorded() + len,
            final(self).events() == old(self).events(),
            final(self).disk() =~= if old(self).is_segmented() {
                old(self).disk()
            } else {
                old(self).disk().insert(
                    old(self).temp_sv(),
                    (old(self).bytes_recorded() + len) as u64,
                )
            },
            final(self).snapshot_bytes() == old(self).snapshot_bytes(),
            final(self).snapshot_ms() == old(self).snapshot_ms(),
            final(self).cancel_seen() == old(self).cancel_seen(),
            final(self).error_seen() == old(self).error_seen(),
            final(self).is_done() == old(self).is_done(),
            final(self).is_prepared() == old(self).is_prepared(),
            final(self).is_segmented() == old(self).is_segmented(),
            final(self).id_sv() == old(self).id_sv(),
            final(self).temp_sv() == old(self).temp_sv(),
            final(self).dest_sv() == old(self).dest_sv(),
            final(self).total_opt() == old(self).total_opt(),
    {
        self.counter = self.counter + len;
        if !self.segmented {
            self.disk = Ghost(self.disk@.insert(self.temp@, self.counter));
        }
    }

    /// Publish a throughput snapshot for the bytes recorded so far.
    pub fn tick(&mut self, now_ms: u64) -> (p: ProgressPayload)
        requires
            old(self).inv(),
            !old(self).is_done(),
            old(self).snapshot_ms() <= now_ms,
        ensures
            final(self).inv(),
            p.id@ == old(self).id_sv(),
            p.received == old(self).bytes_recorded(),
            p.total == match old(self).total_opt() {
                Some(t) => t,
                None => 0u64,
            },
            p.speed == spec_speed(
                (old(self).bytes_recorded() - old(self).snapshot_bytes()) as u64,
                (now_ms - old(self).snapshot_ms()) as u64,
            ),
            final(self).events() =~= old(self).events().push(
                Event::Progress { received: p.received, total: p.total, speed: p.speed },
            ),
            final(self).snapshot_bytes() == old(self).bytes_recorded(),
            final(self).snapshot_ms() == now_ms,
            final(self).bytes_recorded() == old(self).bytes_recorded(),
            final(self).disk() == old(self).disk(),
            final(self).cancel_seen() == old(self).cancel_seen(),
            final(self).error_seen() == old(self).error_seen(),
            !final(self).is_done(),
            final(self).is_prepared() == old(self).is_prepared(),
            final(self).is_segmented() == old(self).is_segmented(),
            final(self).id_sv() == old(self).id_sv(),
            final(self).temp_sv() == old(self).temp_sv(),
            final(self).dest_sv() == old(self).dest_sv(),
            final(self).total_opt() == old(self).total_opt(),
    {
        let delta = self.counter - self.last_bytes;
        let elapsed = now_ms - self.last_tick_ms;
        let speed = compute_speed(delta, elapsed);
        let total_field: u64 = if self.total_known {
            self.total
        } else {
            0
        };
        let p = ProgressPayload {
            id: self.id.clone(),
            received: self.counter,
            total: total_field,
            speed,
        };
        let ghost ev = Event::Progress { received: self.counter, total: total_field, speed };
        proof {
            lemma_push_event(self.events@, ev, self.counter);
        }
        self.events = Ghost(self.events@.push(ev));
        self.last_bytes = self.counter;
        self.last_tick_ms = now_ms;
        p
    }

    /// End the run with the given failure now, before or regardless of
    /// the usual disposition: used when a response status is unusable or
    /// the advertised size is zero. The working file is dropped exactly
    /// for the content failures (zero advertised size, nothing
    /// received).
    pub fn fail_now(&mut self, e: DownloadError) -> (r: Terminal)
        requires
            old(self).inv(),
            !old(self).is_done(),
        ensures
            final(self).inv(),
            final(self).is_done(),
            final(self).events() =~= old(self).events().push(Event::Failed),
            r matches Terminal::Failed { payload, remove_temp } && payload.id@ == old(self).id_sv()
                && payload.error@ == spec_message(e) && remove_temp == (e is EmptyContent
                || e is NoData),
            final(self).disk() =~= if e is EmptyContent || e is NoData {
                old(self).disk().remove(old(self).temp_sv())
            } else {
                old(self).disk()
            },
            final(self).id_sv() == old(self).id_sv(),
            final(self).temp_sv() == old(self).temp_sv(),
            final(self).dest_sv() == old(self).dest_sv(),
    {
        let remove_temp = match &e {
            DownloadError::EmptyContent => true,
            DownloadError::NoData => true,
            _ => false,
        };
        let payload = FailedPayload { id: self.id.clone(), error: e.message() };
        proof {
            lemma_push_event(self.events@, Event::Failed, self.counter);
        }
        self.events = Ghost(self.events@.push(Event::Failed));
        self.done = true;
        self.prepared = false;
        self.segmented = false;
        if remove_temp {
            self.disk = Ghost(self.disk@.remove(self.temp@));
        }
        Terminal::Failed { payload, remove_temp }
    }

    /// End the run by the standard disposition: cancellation wins, then
    /// the first error, then (for a tiled run) incompleteness, then (for
    /// a single stream) an empty body; otherwise the run succeeded, the
    /// working file is promoted to the destination, and — for a tiled
    /// run — the destination holds exactly the advertised bytes while
    /// `temp` is gone.
    pub fn finish(&mut self) -> (r: Terminal)
        requires
            old(self).inv(),
            !old(self).is_done(),
            old(self).is_prepared(),
        ensures
            final(self).inv(),
            final(self).is_done(),
            final(self).id_sv() == old(self).id_sv(),
            final(self).temp_sv() == old(self).temp_sv(),
            final(self).dest_sv() == old(self).dest_sv(),
            old(self).cancel_seen() ==> {
                &&& r matches Terminal::Canceled { payload } && payload.id@ == old(self).id_sv()
                &&& final(self).events() =~= old(self).events().push(Event::Canceled)
                &&& final(self).disk() == old(self).disk()
            },
            !old(self).cancel_seen() && old(self).error_seen() is Some ==> {
                &&& r matches Terminal::Failed { payload, remove_temp }
                    && payload.id@ == old(self).id_sv()
                    && payload.error@ == spec_message(old(self).error_seen()->0)
                    && !remove_temp
                &&& final(self).events() =~= old(self).events().push(Event::Failed)
                &&& final(self).disk() == old(self).disk()
            },
            !old(self).cancel_seen() && old(self).error_seen() is None && old(self).is_segmented()
                && old(self).bytes_recorded() < old(self).total_opt()->0 ==> {
                &&& r matches Terminal::Failed { payload, remove_temp }
                    && payload.id@ == old(self).id_sv()
                    && payload.error@ == spec_message(
                        (DownloadError::Incomplete {
                            got: old(self).bytes_recorded(),
                            total: old(self).total_opt()->0,
                        }),
                    )
                    && !remove_temp
                &&& final(self).events() =~= old(self).events().push(Event::Failed)
                &&& final(self).disk() == old(self).disk()
            },
            !old(self).cancel_seen() && old(self).error_seen() is None && !old(self).is_segmented()
                && old(self).bytes_recorded() == 0 ==> {
                &&& r matches Terminal::Failed { payload, remove_temp }
                    && payload.id@ == old(self).id_sv()
                    && payload.error@ == spec_message(DownloadError::NoData)
                    && remove_temp
                &&& final(self).events() =~= old(self).events().push(Event::Failed)
                &&& final(self).disk() =~= old(self).disk().remove(old(self).temp_sv())
            },
            !old(self).cancel_seen() && old(self).error_seen() is None
                && (old(self).is_segmented() ==> old(self).bytes_recorded() >= old(self).total_opt()->0)
                && (!old(self).is_segmented() ==> old(self).bytes_recorded() > 0) ==> {
                &&& r matches Terminal::Completed { payload }
                    && payload.id@ == old(self).id_sv()
                    && payload.path@ == old(self).dest_sv()
                &&& final(self).events() =~= old(self).events().push(Event::Completed)
                &&& final(self).disk() =~= old(self).disk().remove(old(self).temp_sv()).insert(
                    old(self).dest_sv(),
                    old(self).disk()[old(self).temp_sv()],
                )
                &&& !final(self).disk().contains_key(old(self).temp_sv())
                &&& old(self).is_segmented() ==> final(self).disk()[old(self).dest_sv()]
                    == old(self).total_opt()->0
            },
    {
        if self.canceled {
            let payload = CanceledPayload { id: self.id.clone() };
            proof {
                lemma_push_event(self.events@, Event::Canceled, self.counter);
            }
            self.events = Ghost(self.events@.push(Event::Canceled));
            self.done = true;
            self.prepared = false;
            self.segmented = false;
            return Terminal::Canceled { payload };
        }
        let err: Option<DownloadError> = match &self.first_error {
            Some(e) => Some(e.clone()),
            None => None,
        };
        match err {
            Some(e) => {
                let payload = FailedPayload { id: self.id.clone(), error: e.message() };
                proof {
                    lemma_push_event(self.events@, Event::Failed, self.counter);
                }
                self.events = Ghost(self.events@.push(Event::Failed));
                self.done = true;
                self.prepared = false;
                self.segmented = false;
                return Terminal::Failed { payload, remove_temp: false };
            },
            None => {},
        }
        if self.segmented && self.counter < self.total {
            let e = DownloadError::Incomplete { got: self.counter, total: self.total };
            let payload = FailedPayload { id: self.id.clone(), error: e.message() };
            proof {
                lemma_push_event(self.events@, Event::Failed, self.counter);
            }
            self.events = Ghost(self.events@.push(Event::Failed));
            self.done = true;
            self.prepared = false;
            self.segmented = false;
            return Terminal::Failed { payload, remove_temp: false };
        }
        if !self.segmented && self.counter == 0 {
            let payload = FailedPayload {
                id: self.id.clone(),
                error: DownloadError::NoData.message(),
            };
            proof {
                lemma_push_event(self.events@, Event::Failed, self.counter);
            }
            self.events = Ghost(self.events@.push(Event::Failed));
            self.done = true;
            self.prepared = false;
            self.segmented = false;
            self.disk = Ghost(self.disk@.remove(self.temp@));
            return Terminal::Failed { payload, remove_temp: true };
        }
        let payload = CompletedPayload { id: self.id.clone(), path: self.dest.clone() };
        proof {
            lemma_push_event(self.events@, Event::Completed, self.counter);
        }
        self.events = Ghost(self.events@.push(Event::Completed));
        self.done = true;
        let ghost old_len = self.disk@[self.temp@];
        self.disk = Ghost(self.disk@.remove(self.temp@).insert(self.dest@, old_len));
        self.prepared = false;
        self.segmented = false;
        Terminal::Completed { payload }
    }
}

/// A live run's event stream is well formed, so the stream laws apply
/// to it.
pub proof fn lemma_transfer_stream_wf(t: &Transfer)
    requires
        t.inv(),
    ensures
        wf_log(t.events()),
{
}

} // verus!
