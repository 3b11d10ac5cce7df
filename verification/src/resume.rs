//! Continuing a previously registered download from its partial file.
//!
//! Resumption requires a registered id, range support and a known total.
//! A partial file already holding the advertised bytes is promoted by a
//! rename alone — no request is issued. Otherwise the tail `[cur, total)`
//! is tiled over the workers, taking the prefix as intact; its integrity
//! is not re-verified.

use vstd::prelude::*;
use crate::errors::DownloadError;
use crate::plan::{
    clamp_workers, plan_tail_segments, spec_chunk, spec_clamp_workers, wf_segments, Segment,
};
use crate::state::{AppState, DownloadMeta};

verus! {

/// The worker count a resumption uses when the caller names none.
pub const RESUME_DEFAULT_WORKERS: u8 = 4;

/// What a resumption amounts to.
#[derive(Debug)]
pub enum ResumeAction {
    /// The partial file already holds everything: rename it to `dest`
    /// and report completion, without any request.
    Promote { temp: String, dest: String },
    /// Transfer the tail: run one worker per segment against the
    /// registered URL, writing into the partial file.
    Run { meta: DownloadMeta, cur: u64, segments: Vec<Segment> },
}

/// Decide how to continue download `id` whose partial file holds `cur`
/// bytes, with up to `threads` workers (clamped). On promotion both
/// registry entries are dropped; on a run a fresh, unset cancel flag is
/// registered.
pub fn resume_download(state: &mut AppState, id: &String, threads: u8, cur: u64) -> (r: Result<
    ResumeAction,
    DownloadError,
>)
    requires
        old(state).wf(),
    ensures
        final(state).wf(),
        !old(state).metas_map().contains_key(id@) ==> {
            &&& r matches Err(e) && e == DownloadError::UnknownId
            &&& final(state).metas_map() == old(state).metas_map()
            &&& final(state).cancels_map() == old(state).cancels_map()
        },
        old(state).metas_map().contains_key(id@) && !old(state).metas_map()[id@].accept_ranges
            ==> {
            &&& r matches Err(e) && e == DownloadError::NoRangeSupport
            &&& final(state).metas_map() == old(state).metas_map()
            &&& final(state).cancels_map() == old(state).cancels_map()
        },
        old(state).metas_map().contains_key(id@) && old(state).metas_map()[id@].accept_ranges
            && old(state).metas_map()[id@].total is None ==> {
            &&& r matches Err(e) && e == DownloadError::UnknownTotal
            &&& final(state).metas_map() == old(state).metas_map()
            &&& final(state).cancels_map() == old(state).cancels_map()
        },
        old(state).metas_map().contains_key(id@) && old(state).metas_map()[id@].accept_ranges
            && old(state).metas_map()[id@].total is Some && cur >= old(
            state,
        ).metas_map()[id@].total->0 ==> {
            &&& r matches Ok(a) && a matches ResumeAction::Promote { temp, dest } && temp == old(
                state,
            ).metas_map()[id@].temp && dest == old(state).metas_map()[id@].dest
            &&& final(state).metas_map() =~= old(state).metas_map().remove(id@)
            &&& final(state).cancels_map() =~= old(state).cancels_map().remove(id@)
        },
        old(state).metas_map().contains_key(id@) && old(state).metas_map()[id@].accept_ranges
            && old(state).metas_map()[id@].total is Some && cur < old(
            state,
        ).metas_map()[id@].total->0 ==> {
            &&& r matches Ok(a) && a matches ResumeAction::Run { meta, cur: c, segments } && meta
                == old(state).metas_map()[id@] && c == cur && wf_segments(
                segments@,
                cur as int,
                old(state).metas_map()[id@].total->0 as int,
                spec_chunk(
                    (old(state).metas_map()[id@].total->0 - cur) as int,
                    spec_clamp_workers(threads) as int,
                ),
            ) && segments@.len() <= spec_clamp_workers(threads)
            &&& final(state).metas_map() == old(state).metas_map()
            &&& final(state).cancels_map() =~= old(state).cancels_map().insert(id@, false)
        },
{
    let meta = match state.get_meta(id) {
        Some(m) => m,
        None => {
            return Err(DownloadError::UnknownId);
        },
    };
    if !meta.accept_ranges {
        return Err(DownloadError::NoRangeSupport);
    }
    let total = match meta.total {
        Some(t) => t,
        None => {
            return Err(DownloadError::UnknownTotal);
        },
    };
    if cur >= total {
        state.drop_entries(id);
        return Ok(ResumeAction::Promote { temp: meta.temp, dest: meta.dest });
    }
    let n = clamp_workers(threads);
    let segments = plan_tail_segments(cur, total, n);
    state.insert_cancel(id.clone());
    Ok(ResumeAction::Run { meta, cur, segments })
}

} // verus!
