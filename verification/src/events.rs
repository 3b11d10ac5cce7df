//! The model of one download's event stream.
//!
//! A run publishes `started` first, then any number of `progress`
//! records, and ends with exactly one of `completed`, `failed` or
//! `canceled`. The engine keeps this stream as ghost state; the proofs
//! here state the ordering guarantees the stream obeys.

use vstd::prelude::*;

verus! {

/// One record of a run's event stream.
pub enum Event {
    /// The transfer began; the advertised size, when known.
    Started { total: Option<u64> },
    /// A throughput snapshot.
    Progress { received: u64, total: u64, speed: u64 },
    /// The transfer reached its destination file.
    Completed,
    /// The transfer failed.
    Failed,
    /// The user canceled the transfer.
    Canceled,
}

/// A record that ends the run.
pub open spec fn is_terminal(e: Event) -> bool {
    e is Completed || e is Failed || e is Canceled
}

/// The byte count a progress record reports.
pub open spec fn rec_of(e: Event) -> u64 {
    match e {
        Event::Progress { received, .. } => received,
        _ => 0,
    }
}

/// The total a progress record reports (0 when unknown).
pub open spec fn total_of(e: Event) -> u64 {
    match e {
        Event::Progress { total, .. } => total,
        _ => 0,
    }
}

/// A well-formed stream: `started` stands first and only first, a
/// terminal record can stand only last, and progress counts never
/// decrease nor pass a known total.
pub open spec fn wf_log(s: Seq<Event>) -> bool {
    &&& forall|i: int| 0 <= i < s.len() ==> ((#[trigger] s[i]) is Started <==> i == 0)
    &&& forall|i: int| 0 <= i < s.len() - 1 ==> !is_terminal(#[trigger] s[i])
    &&& forall|i: int, j: int|
        0 <= i <= j < s.len() && (#[trigger] s[i]) is Progress && (#[trigger] s[j]) is Progress
            ==> rec_of(s[i]) <= rec_of(s[j])
    &&& forall|i: int|
        0 <= i < s.len() && (#[trigger] s[i]) is Progress && total_of(s[i]) > 0 ==> rec_of(s[i])
            <= total_of(s[i])
}

/// In a well-formed stream the `started` record comes before anything
/// else, and at most one terminal record is published: whichever of
/// `completed`, `failed` and `canceled` ends the run stands alone, at
/// the end.
pub proof fn lemma_event_order(s: Seq<Event>)
    requires
        wf_log(s),
    ensures
        s.len() > 0 ==> s[0] is Started,
        forall|i: int, j: int|
            0 <= i < s.len() && 0 <= j < s.len() && is_terminal(#[trigger] s[i]) && is_terminal(
                #[trigger] s[j],
            ) ==> i == j,
{
    assert forall|i: int, j: int|
        0 <= i < s.len() && 0 <= j < s.len() && is_terminal(#[trigger] s[i]) && is_terminal(
            #[trigger] s[j],
        ) implies i == j by {
        assert(i == s.len() - 1);
        assert(j == s.len() - 1);
    }
}

/// In a well-formed stream the byte counts of progress records never
/// decrease, and never exceed a known total.
pub proof fn lemma_progress_monotone(s: Seq<Event>)
    requires
        wf_log(s),
    ensures
        forall|i: int, j: int|
            0 <= i <= j < s.len() && (#[trigger] s[i]) is Progress && (#[trigger] s[j]) is Progress
                ==> rec_of(s[i]) <= rec_of(s[j]),
        forall|i: int|
            0 <= i < s.len() && (#[trigger] s[i]) is Progress && total_of(s[i]) > 0 ==> rec_of(
                s[i],
            ) <= total_of(s[i]),
{
}

} // verus!
