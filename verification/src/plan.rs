//! Worker-count clamping and segmentation of the byte interval.
//!
//! A segmented transfer splits `[0, total)` into at most 32 disjoint,
//! contiguous, inclusive byte ranges of `ceil(total / n)` bytes each
//! (the last one shorter when `n` does not divide `total`). Resuming
//! tiles only the tail `[cur, total)` in the same way, taking the prefix
//! `[0, cur)` as already written.

use vstd::prelude::*;
use vstd::arithmetic::div_mod::{
    lemma_basic_div, lemma_div_is_ordered, lemma_div_multiples_vanish_fancy,
    lemma_fundamental_div_mod, lemma_remainder_lower, lemma_remainder_upper,
};
use vstd::arithmetic::mul::{lemma_mul_inequality, lemma_mul_strict_inequality};

verus! {

/// Least number of workers a caller may request.
pub const MIN_WORKERS: u64 = 1;

/// Greatest number of workers a caller may request.
pub const MAX_WORKERS: u64 = 32;

/// The requested worker count, clamped to `[MIN_WORKERS, MAX_WORKERS]`.
pub open spec fn spec_clamp_workers(threads: u8) -> u64 {
    if (threads as u64) < MIN_WORKERS {
        MIN_WORKERS
    } else if (threads as u64) > MAX_WORKERS {
        MAX_WORKERS
    } else {
        threads as u64
    }
}

/// Clamp the caller's requested worker count to `[1, 32]`.
pub fn clamp_workers(threads: u8) -> (n: u64)
    ensures
        n == spec_clamp_workers(threads),
        MIN_WORKERS <= n <= MAX_WORKERS,
{
    if threads < 1 {
        1
    } else if threads > 32 {
        32
    } else {
        threads as u64
    }
}

/// One worker's assigned inclusive byte range.
#[derive(Clone, Copy, PartialEq, Eq, Structural, Debug)]
pub struct Segment {
    pub start: u64,
    pub end: u64,
}

/// Bytes per segment: the remaining length divided by the worker count,
/// rounded up.
pub open spec fn spec_chunk(rem: int, n: int) -> int
    recommends
        1 <= n,
{
    (rem + n - 1) / n
}

/// `b` lies inside segment `s`.
pub open spec fn seg_contains(s: Segment, b: int) -> bool {
    s.start <= b <= s.end
}

/// Some segment of the list contains byte `b`.
pub open spec fn covered_by(segs: Seq<Segment>, b: int) -> bool {
    exists|i: int| 0 <= i < segs.len() && seg_contains(#[trigger] segs[i], b)
}

/// The shape of a planned segment list: starting at `cur`, consecutive
/// ranges of `chunk` bytes each, the last clipped to `total - 1`, and
/// enough of them to reach `total`.
pub open spec fn wf_segments(segs: Seq<Segment>, cur: int, total: int, chunk: int) -> bool {
    &&& 1 <= chunk
    &&& 1 <= segs.len()
    &&& forall|i: int| 0 <= i < segs.len() ==> (#[trigger] segs[i]).start == cur + i * chunk
    &&& forall|i: int| 0 <= i < segs.len() ==> (#[trigger] segs[i]).start < total
    &&& forall|i: int|
        0 <= i < segs.len() ==> (#[trigger] segs[i]).end == if cur + i * chunk + chunk - 1 < total
            - 1 {
            cur + i * chunk + chunk - 1
        } else {
            total - 1
        }
    &&& cur + segs.len() * chunk >= total
}

/// Tile the tail `[cur, total)` with up to `n` contiguous segments of
/// `ceil((total - cur) / n)` bytes each.
pub fn plan_tail_segments(cur: u64, total: u64, n: u64) -> (segs: Vec<Segment>)
    requires
        cur < total,
        MIN_WORKERS <= n <= MAX_WORKERS,
    ensures
        wf_segments(segs@, cur as int, total as int, spec_chunk((total - cur) as int, n as int)),
        segs@.len() <= n,
{
    let rem: u64 = total - cur;
    proof {
        lemma_chunk_is_ceil(rem as int, n as int);
    }
    let chunk: u64 = rem / n + (if rem % n == 0 { 0 } else { 1 });
    proof {
        assert(chunk as int == spec_chunk(rem as int, n as int));
    }
    let ghost gchunk: int = chunk as int;
    let mut segs: Vec<Segment> = Vec::new();
    let mut start: u64 = cur;
    let mut i: u64 = 0;
    while i < n && start < total
        invariant
            cur < total,
            MIN_WORKERS <= n <= MAX_WORKERS,
            1 <= gchunk,
            gchunk == spec_chunk((total - cur) as int, n as int),
            chunk as int == gchunk,
            i <= n,
            segs@.len() == i,
            start as int == cur as int + i as int * gchunk,
            forall|j: int|
                0 <= j < segs@.len() ==> (#[trigger] segs@[j]).start == cur as int + j * gchunk,
            forall|j: int| 0 <= j < segs@.len() ==> (#[trigger] segs@[j]).start < total,
            forall|j: int|
                0 <= j < segs@.len() ==> (#[trigger] segs@[j]).end == if cur as int + j * gchunk
                    + gchunk - 1 < total as int - 1 {
                    cur as int + j * gchunk + gchunk - 1
                } else {
                    total as int - 1
                },
        decreases n - i,
    {
        let tail: u64 = (total - 1) - start;
        let end: u64 = if chunk - 1 <= tail {
            start + (chunk - 1)
        } else {
            total - 1
        };
        proof {
            assert((i + 1) as int * gchunk == i as int * gchunk + gchunk) by (nonlinear_arith);
        }
        segs.push(Segment { start, end });
        i = i + 1;
        if end == total - 1 {
            proof {
                // The pushed segment reaches the last byte, so the plan covers the tail.
                assert(cur as int + segs@.len() as int * gchunk >= total as int);
            }
            return segs;
        }
        start = end + 1;
    }
    proof {
        if i == n {
            lemma_ceil_times_divisor_covers((total - cur) as int, n as int);
            assert(cur as int + n as int * gchunk >= total as int);
        } else {
            // The loop stopped because start reached total.
            assert(cur as int + i as int * gchunk >= total as int);
        }
    }
    segs
}

/// Tile the whole interval `[0, total)` for a fresh segmented transfer.
pub fn plan_segments(total: u64, n: u64) -> (segs: Vec<Segment>)
    requires
        1 <= total,
        MIN_WORKERS <= n <= MAX_WORKERS,
    ensures
        wf_segments(segs@, 0, total as int, spec_chunk(total as int, n as int)),
        segs@.len() <= n,
{
    plan_tail_segments(0, total, n)
}

/// `rem / n` rounded up equals `(rem + n - 1) / n`.
proof fn lemma_chunk_is_ceil(rem: int, n: int)
    requires
        1 <= rem,
        1 <= n,
    ensures
        rem / n + (if rem % n == 0 { 0int } else { 1int }) == spec_chunk(rem, n),
        1 <= spec_chunk(rem, n) <= rem,
{
    let q = rem / n;
    let r = rem % n;
    lemma_fundamental_div_mod(rem, n);
    assert(rem == n * q + r);
    if r == 0 {
        assert((n * q + (n - 1)) / n == q) by {
            lemma_div_multiples_vanish_fancy(q, n - 1, n);
        }
        assert(rem + n - 1 == n * q + (n - 1));
    } else {
        assert(rem + n - 1 == n * (q + 1) + (r - 1)) by (nonlinear_arith)
            requires
                rem == n * q + r,
        ;
        assert((n * (q + 1) + (r - 1)) / n == q + 1) by {
            lemma_div_multiples_vanish_fancy(q + 1, r - 1, n);
        }
    }
    // 1 <= ceil
    assert(1 <= spec_chunk(rem, n)) by {
        lemma_div_is_ordered(n, rem + n - 1, n);
        assert(n / n == 1) by {
            lemma_div_multiples_vanish_fancy(1, 0, n);
            assert(n * 1 + 0 == n) by (nonlinear_arith);
        }
    }
    // ceil <= rem
    assert(spec_chunk(rem, n) <= rem) by {
        if q == rem / n {
            assert(q * n <= rem) by {
                lemma_remainder_lower(rem, n);
                assert(rem / n * n == n * (rem / n)) by (nonlinear_arith);
            }
            assert(q + 1 <= rem || r == 0) by (nonlinear_arith)
                requires
                    rem == n * q + r,
                    0 <= r < n,
                    1 <= n,
                    1 <= rem,
            ;
        }
    }
}

/// `n` segments of `ceil(rem / n)` bytes reach at least `rem` bytes.
proof fn lemma_ceil_times_divisor_covers(rem: int, n: int)
    requires
        1 <= rem,
        1 <= n,
    ensures
        n * spec_chunk(rem, n) >= rem,
{
    let c = spec_chunk(rem, n);
    lemma_fundamental_div_mod(rem + n - 1, n);
    assert(rem + n - 1 == n * c + (rem + n - 1) % n);
    assert((rem + n - 1) % n < n) by {
        lemma_remainder_upper(rem + n - 1, n);
        lemma_fundamental_div_mod(rem + n - 1, n);
    }
    assert(n * c >= rem + n - 1 - (n - 1));
}

/// The planned segments partition the tail: every byte of `[cur, total)`
/// lies in some segment, every segment lies inside `[cur, total)`, and
/// distinct segments never overlap.
pub proof fn lemma_segments_partition(segs: Seq<Segment>, cur: int, total: int, chunk: int)
    requires
        0 <= cur < total,
        wf_segments(segs, cur, total, chunk),
    ensures
        forall|b: int| cur <= b < total ==> #[trigger] covered_by(segs, b),
        forall|i: int|
            0 <= i < segs.len() ==> cur <= (#[trigger] segs[i]).start && segs[i].end < total,
        forall|i: int, j: int|
            0 <= i < j < segs.len() ==> (#[trigger] segs[i]).end < (#[trigger] segs[j]).start,
{
    let len = segs.len() as int;
    // Each segment lies inside [cur, total).
    assert forall|i: int| 0 <= i < len implies cur <= (#[trigger] segs[i]).start && segs[i].end
        < total by {
        assert(0 * chunk == 0) by (nonlinear_arith);
        lemma_mul_inequality(0, i, chunk);
        assert(i * chunk == chunk * i) by (nonlinear_arith);
    }
    // Distinct segments never overlap.
    assert forall|i: int, j: int| 0 <= i < j < len implies (#[trigger] segs[i]).end < (
    #[trigger] segs[j]).start by {
        assert((i + 1) * chunk <= j * chunk) by {
            lemma_mul_inequality(i + 1, j, chunk);
        }
        assert((i + 1) * chunk == i * chunk + chunk) by (nonlinear_arith);
    }
    // Every byte of the tail is covered.
    assert forall|b: int| cur <= b < total implies #[trigger] covered_by(segs, b) by {
        let off = b - cur;
        let i = off / chunk;
        assert(0 <= i) by {
            lemma_div_is_ordered(0, off, chunk);
            lemma_basic_div(0, chunk);
        }
        assert(i * chunk <= off) by {
            lemma_remainder_lower(off, chunk);
            assert(off / chunk * chunk == i * chunk);
        }
        assert(off < (i + 1) * chunk) by {
            lemma_remainder_upper(off, chunk);
            assert(off / chunk * chunk == i * chunk);
            assert((i + 1) * chunk == i * chunk + chunk) by (nonlinear_arith);
        }
        assert(i < len) by {
            // off < len * chunk, so off / chunk < len
            assert(off < len * chunk);
            if i >= len {
                lemma_mul_inequality(len, i, chunk);
                assert(len * chunk <= i * chunk);
            }
        }
        assert(segs[i].start == cur + i * chunk);
        assert(segs[i].start <= b);
        assert((i + 1) * chunk == i * chunk + chunk) by (nonlinear_arith);
        assert(b <= cur + i * chunk + chunk - 1);
        assert(b <= total - 1);
        assert(seg_contains(segs[i], b));
    }
}

} // verus!
