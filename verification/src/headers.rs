//! Decoding of `Content-Disposition` file names.
//!
//! A header value is split on `;`; a part `filename*=` carries an RFC 5987
//! extended value whose percent-encoded tail follows a `''` separator, and
//! a part `filename=` carries a plain, possibly quoted, name. The extended
//! form wins when both are present. Percent decoding maps `%HH` to one
//! byte and `+` to a space; if the decoded bytes are not valid UTF-8 the
//! encoded text stands unchanged.
//!
//! Contracts here speak of the UTF-8 bytes of the strings involved.

use vstd::prelude::*;
use vstd::utf8::{decode_utf8, encode_utf8, encode_utf8_decode_utf8, valid_utf8};
use crate::text::{copy_range, string_from_utf8, utf8_check};

verus! {

/// Value of an ASCII hex digit, upper or lower case.
pub open spec fn hex_val(b: u8) -> Option<u8> {
    if 48 <= b <= 57 {
        Some((b - 48) as u8)
    } else if 97 <= b <= 102 {
        Some((b - 97 + 10) as u8)
    } else if 65 <= b <= 70 {
        Some((b - 65 + 10) as u8)
    } else {
        None
    }
}

/// Read one hex digit.
pub fn from_hex(b: u8) -> (r: Option<u8>)
    ensures
        r == hex_val(b),
{
    if 48 <= b && b <= 57 {
        Some(b - 48)
    } else if 97 <= b && b <= 102 {
        Some(b - 97 + 10)
    } else if 65 <= b && b <= 70 {
        Some(b - 65 + 10)
    } else {
        None
    }
}

/// A `%HH` escape stands at the head of `s` with at least one byte after
/// it, as the decoder requires.
pub open spec fn head_is_escape(s: Seq<u8>) -> bool {
    &&& s.len() >= 3
    &&& s[0] == 37
    &&& hex_val(s[1]) is Some
    &&& hex_val(s[2]) is Some
}

/// Percent-decode: `%HH` becomes one byte, `+` a space, all else stands.
pub open spec fn pct_decode(s: Seq<u8>) -> Seq<u8>
    decreases s.len(),
{
    if s.len() == 0 {
        Seq::empty()
    } else if head_is_escape(s) {
        seq![(hex_val(s[1])->0 * 16 + hex_val(s[2])->0) as u8] + pct_decode(s.skip(3))
    } else if s[0] == 43 {
        seq![32u8] + pct_decode(s.skip(1))
    } else {
        seq![s[0]] + pct_decode(s.skip(1))
    }
}

/// Percent-decode a byte string.
pub fn percent_decode_bytes(s: &[u8]) -> (out: Vec<u8>)
    ensures
        out@ == pct_decode(s@),
{
    let mut out: Vec<u8> = Vec::new();
    let mut i: usize = 0;
    proof {
        assert(s@.skip(0) =~= s@);
    }
    while i < s.len()
        invariant
            0 <= i <= s@.len(),
            pct_decode(s@) =~= out@ + pct_decode(s@.skip(i as int)),
        decreases s@.len() - i,
    {
        let ghost rest = s@.skip(i as int);
        proof {
            assert(rest.len() == s@.len() - i);
            assert(rest[0] == s@[i as int]);
        }
        if s[i] == 37 && s.len() - i > 2 {
            proof {
                assert(rest[1] == s@[i + 1]);
                assert(rest[2] == s@[i + 2]);
            }
            let h = from_hex(s[i + 1]);
            let l = from_hex(s[i + 2]);
            match (h, l) {
                (Some(hv), Some(lv)) => {
                    proof {
                        assert(head_is_escape(rest));
                        assert(rest.skip(3) =~= s@.skip(i + 3));
                    }
                    out.push(hv * 16 + lv);
                    i = i + 3;
                    continue ;
                },
                _ => {},
            }
        }
        proof {
            assert(!head_is_escape(rest));
            assert(rest.skip(1) =~= s@.skip(i + 1));
        }
        if s[i] == 43 {
            out.push(32);
        } else {
            out.push(s[i]);
        }
        i = i + 1;
    }
    proof {
        assert(s@.skip(i as int) =~= Seq::<u8>::empty());
        assert(pct_decode(s@) =~= out@);
    }
    out
}

/// The percent-decoded reading of a character string: the decoded bytes
/// when they are valid UTF-8, the input unchanged otherwise.
pub open spec fn spec_percent_decode(sv: Seq<char>) -> Seq<char> {
    let d = pct_decode(encode_utf8(sv));
    if valid_utf8(d) {
        decode_utf8(d)
    } else {
        sv
    }
}

/// Percent-decode a string, keeping it unchanged when the decoded bytes
/// are not valid UTF-8.
pub fn percent_decode_simple(s: &str) -> (r: String)
    ensures
        r@ == spec_percent_decode(s@),
{
    let bytes: &[u8] = s.as_bytes();
    let out = percent_decode_bytes(bytes);
    match string_from_utf8(out) {
        Some(t) => {
            proof {
                encode_utf8_decode_utf8(t@);
            }
            t
        },
        None => s.to_owned(),
    }
}

/// ASCII whitespace, as trimming understands it.
pub open spec fn is_space(b: u8) -> bool {
    b == 32 || 9 <= b <= 13
}

/// Drop leading whitespace.
pub open spec fn trim_start(s: Seq<u8>) -> Seq<u8>
    decreases s.len(),
{
    if s.len() > 0 && is_space(s[0]) {
        trim_start(s.drop_first())
    } else {
        s
    }
}

/// Drop trailing whitespace.
pub open spec fn trim_end(s: Seq<u8>) -> Seq<u8>
    decreases s.len(),
{
    if s.len() > 0 && is_space(s.last()) {
        trim_end(s.drop_last())
    } else {
        s
    }
}

/// Drop whitespace from both ends.
pub open spec fn trim_spec(s: Seq<u8>) -> Seq<u8> {
    trim_end(trim_start(s))
}

/// Drop leading double quotes.
pub open spec fn quotes_start(s: Seq<u8>) -> Seq<u8>
    decreases s.len(),
{
    if s.len() > 0 && s[0] == 34 {
        quotes_start(s.drop_first())
    } else {
        s
    }
}

/// Drop trailing double quotes.
pub open spec fn quotes_end(s: Seq<u8>) -> Seq<u8>
    decreases s.len(),
{
    if s.len() > 0 && s.last() == 34 {
        quotes_end(s.drop_last())
    } else {
        s
    }
}

/// Drop double quotes from both ends.
pub open spec fn trim_quotes(s: Seq<u8>) -> Seq<u8> {
    quotes_end(quotes_start(s))
}

/// `p` is a prefix of `s`.
pub open spec fn is_prefix(p: Seq<u8>, s: Seq<u8>) -> bool {
    p.len() <= s.len() && s.take(p.len() as int) == p
}

/// The bytes of `"filename*="`.
pub open spec fn star_prefix() -> Seq<u8> {
    seq![102u8, 105, 108, 101, 110, 97, 109, 101, 42, 61]
}

/// The bytes of `"filename="`.
pub open spec fn plain_prefix() -> Seq<u8> {
    seq![102u8, 105, 108, 101, 110, 97, 109, 101, 61]
}

/// Index of the first `;`.
pub open spec fn find_semi(s: Seq<u8>) -> Option<int>
    decreases s.len(),
{
    if s.len() == 0 {
        None
    } else if s[0] == 59 {
        Some(0)
    } else {
        match find_semi(s.drop_first()) {
            Some(j) => Some(j + 1),
            None => None,
        }
    }
}

/// Index of the first `''`.
pub open spec fn find_dd(s: Seq<u8>) -> Option<int>
    decreases s.len(),
{
    if s.len() < 2 {
        None
    } else if s[0] == 39 && s[1] == 39 {
        Some(0)
    } else {
        match find_dd(s.drop_first()) {
            Some(j) => Some(j + 1),
            None => None,
        }
    }
}

proof fn lemma_find_semi_none(s: Seq<u8>)
    requires
        forall|k: int| 0 <= k < s.len() ==> s[k] != 59,
    ensures
        find_semi(s) is None,
    decreases s.len(),
{
    if s.len() > 0 {
        lemma_find_semi_none(s.drop_first());
    }
}

proof fn lemma_find_semi_at(s: Seq<u8>, i: int)
    requires
        0 <= i < s.len(),
        s[i] == 59,
        forall|k: int| 0 <= k < i ==> s[k] != 59,
    ensures
        find_semi(s) == Some(i),
    decreases i,
{
    if i > 0 {
        lemma_find_semi_at(s.drop_first(), i - 1);
    }
}

proof fn lemma_find_dd_none(s: Seq<u8>)
    requires
        forall|k: int| 0 <= k < s.len() - 1 ==> !(#[trigger] s[k] == 39 && s[k + 1] == 39),
    ensures
        find_dd(s) is None,
    decreases s.len(),
{
    if s.len() >= 2 {
        lemma_find_dd_none(s.drop_first());
    }
}

proof fn lemma_find_dd_at(s: Seq<u8>, i: int)
    requires
        0 <= i < s.len() - 1,
        s[i] == 39,
        s[i + 1] == 39,
        forall|k: int| 0 <= k < i ==> !(#[trigger] s[k] == 39 && s[k + 1] == 39),
    ensures
        find_dd(s) == Some(i),
    decreases i,
{
    if i > 0 {
        lemma_find_dd_at(s.drop_first(), i - 1);
    }
}

/// Trim ASCII whitespace from both ends.
fn trim_bytes(v: &[u8]) -> (out: Vec<u8>)
    ensures
        out@ == trim_spec(v@),
{
    let mut lo: usize = 0;
    proof {
        assert(v@.skip(0) =~= v@);
    }
    while lo < v.len() && (v[lo] == 32 || (9 <= v[lo] && v[lo] <= 13))
        invariant
            0 <= lo <= v@.len(),
            trim_start(v@) == trim_start(v@.skip(lo as int)),
        decreases v@.len() - lo,
    {
        proof {
            assert(v@.skip(lo as int).drop_first() =~= v@.skip(lo + 1));
        }
        lo = lo + 1;
    }
    proof {
        assert(trim_start(v@) == v@.skip(lo as int));
    }
    let mut hi: usize = v.len();
    while hi > lo && (v[hi - 1] == 32 || (9 <= v[hi - 1] && v[hi - 1] <= 13))
        invariant
            lo <= hi <= v@.len(),
            trim_end(v@.skip(lo as int)) == trim_end(v@.subrange(lo as int, hi as int)),
        decreases hi,
    {
        proof {
            assert(v@.skip(lo as int) =~= v@.subrange(lo as int, v@.len() as int));
            assert(v@.subrange(lo as int, hi as int).drop_last() =~= v@.subrange(
                lo as int,
                hi - 1,
            ));
            assert(v@.subrange(lo as int, hi as int).last() == v@[hi - 1]);
        }
        hi = hi - 1;
    }
    proof {
        assert(v@.skip(lo as int) =~= v@.subrange(lo as int, v@.len() as int));
        assert(trim_end(v@.subrange(lo as int, hi as int)) == v@.subrange(lo as int, hi as int));
        assert(trim_spec(v@) == v@.subrange(lo as int, hi as int));
    }
    copy_range(v, lo, hi)
}

/// Trim double quotes from both ends.
fn trim_quote_bytes(v: &[u8]) -> (out: Vec<u8>)
    ensures
        out@ == trim_quotes(v@),
{
    let mut lo: usize = 0;
    proof {
        assert(v@.skip(0) =~= v@);
    }
    while lo < v.len() && v[lo] == 34
        invariant
            0 <= lo <= v@.len(),
            quotes_start(v@) == quotes_start(v@.skip(lo as int)),
        decreases v@.len() - lo,
    {
        proof {
            assert(v@.skip(lo as int).drop_first() =~= v@.skip(lo + 1));
        }
        lo = lo + 1;
    }
    proof {
        assert(quotes_start(v@) == v@.skip(lo as int));
    }
    let mut hi: usize = v.len();
    while hi > lo && v[hi - 1] == 34
        invariant
            lo <= hi <= v@.len(),
            quotes_end(v@.skip(lo as int)) == quotes_end(v@.subrange(lo as int, hi as int)),
        decreases hi,
    {
        proof {
            assert(v@.skip(lo as int) =~= v@.subrange(lo as int, v@.len() as int));
            assert(v@.subrange(lo as int, hi as int).drop_last() =~= v@.subrange(
                lo as int,
                hi - 1,
            ));
            assert(v@.subrange(lo as int, hi as int).last() == v@[hi - 1]);
        }
        hi = hi - 1;
    }
    proof {
        assert(v@.skip(lo as int) =~= v@.subrange(lo as int, v@.len() as int));
        assert(quotes_end(v@.subrange(lo as int, hi as int)) == v@.subrange(
            lo as int,
            hi as int,
        ));
        assert(trim_quotes(v@) == v@.subrange(lo as int, hi as int));
    }
    copy_range(v, lo, hi)
}

/// The encoded tail of an RFC 5987 extended value: after the first `''`
/// of the unquoted value, or the whole value when no `''` is present.
pub open spec fn star_raw(t: Seq<u8>) -> Seq<u8> {
    let v = trim_quotes(t.skip(10));
    match find_dd(v) {
        Some(p) => v.skip(p + 2),
        None => v,
    }
}

/// The name the extended form resolves to: the percent-decoded tail when
/// that is valid UTF-8, the encoded tail unchanged otherwise.
pub open spec fn star_resolved(t: Seq<u8>) -> Seq<u8> {
    if valid_utf8(pct_decode(star_raw(t))) {
        pct_decode(star_raw(t))
    } else {
        star_raw(t)
    }
}

/// The name the plain form carries: the trimmed value, stripped of one
/// pair of surrounding quotes.
pub open spec fn plain_value(t: Seq<u8>) -> Seq<u8> {
    let v = trim_spec(t.skip(9));
    if v.len() >= 2 && v[0] == 34 && v.last() == 34 {
        v.subrange(1, v.len() - 1)
    } else {
        v
    }
}

/// The head part: up to the first `;`, or the whole input.
pub open spec fn semi_head(s: Seq<u8>) -> Seq<u8> {
    match find_semi(s) {
        Some(p) => s.take(p),
        None => s,
    }
}

/// Walk the `;`-separated parts, keeping the last extended-form and the
/// last plain-form name seen so far.
pub open spec fn cd_fold(s: Seq<u8>, star: Option<Seq<u8>>, plain: Option<Seq<u8>>) -> (
    Option<Seq<u8>>,
    Option<Seq<u8>>,
)
    decreases s.len(),
{
    let t = trim_spec(semi_head(s));
    let star2 = if is_prefix(star_prefix(), t) {
        Some(star_resolved(t))
    } else {
        star
    };
    let plain2 = if !is_prefix(star_prefix(), t) && is_prefix(plain_prefix(), t) {
        Some(plain_value(t))
    } else {
        plain
    };
    match find_semi(s) {
        Some(p) => if 0 <= p < s.len() {
            cd_fold(s.skip(p + 1), star2, plain2)
        } else {
            (star2, plain2)
        },
        None => (star2, plain2),
    }
}

/// The file name a `Content-Disposition` value yields: the extended form
/// when one is present, else the plain form.
pub open spec fn spec_cd_filename(cd: Seq<u8>) -> Option<Seq<u8>> {
    let folded = cd_fold(cd, None, None);
    if folded.0 is Some {
        folded.0
    } else {
        folded.1
    }
}

/// The extended form wins: whenever the walk over the parts found a
/// `filename*=` value, that value is the answer, whatever `filename=`
/// said.
pub proof fn lemma_star_wins(cd: Seq<u8>)
    requires
        cd_fold(cd, None, None).0 is Some,
    ensures
        spec_cd_filename(cd) == cd_fold(cd, None, None).0,
{
}

/// The bytes of `"attachment; filename*=UTF-8''"`.
pub open spec fn rfc5987_prefix() -> Seq<u8> {
    seq![
        97u8, 116, 116, 97, 99, 104, 109, 101, 110, 116, 59, 32, 102, 105, 108, 101, 110, 97,
        109, 101, 42, 61, 85, 84, 70, 45, 56, 39, 39,
    ]
}

/// Filename round-trip: a header of the RFC 5987 shape
/// `attachment; filename*=UTF-8''<encoded>` yields exactly the
/// percent-decoded bytes of `<encoded>` — the encoded text itself when
/// decoding does not leave valid UTF-8 — provided the encoded text
/// carries no `;`, no `"` and no whitespace, as a percent-encoded value
/// never does.
pub proof fn lemma_rfc5987_round_trip(enc: Seq<u8>)
    requires
        forall|i: int|
            0 <= i < enc.len() ==> !is_space(#[trigger] enc[i]) && enc[i] != 59 && enc[i] != 34,
    ensures
        spec_cd_filename(rfc5987_prefix() + enc) == Some(
            if valid_utf8(pct_decode(enc)) {
                pct_decode(enc)
            } else {
                enc
            },
        ),
{
    let cd = rfc5987_prefix() + enc;
    assert(cd.len() == 29 + enc.len());
    // The one `;` splits after `attachment`.
    assert(cd[10] == 59);
    assert forall|k: int| 0 <= k < 10 implies cd[k] != 59 by {
        assert(cd[k] == rfc5987_prefix()[k]);
    }
    lemma_find_semi_at(cd, 10);
    let attach = cd.take(10);
    assert(attach =~= seq![97u8, 116, 116, 97, 99, 104, 109, 101, 110, 116]);
    assert(semi_head(cd) == attach);
    // `attachment` is already trimmed and names no file.
    assert(trim_start(attach) == attach);
    assert(trim_end(attach) == attach);
    assert(trim_spec(attach) == attach);
    assert(!is_prefix(star_prefix(), attach)) by {
        if is_prefix(star_prefix(), attach) {
            assert(attach.take(10)[0] == attach[0]);
        }
    }
    assert(!is_prefix(plain_prefix(), attach)) by {
        if is_prefix(plain_prefix(), attach) {
            assert(attach.take(9)[0] == attach[0]);
        }
    }
    let rest = cd.skip(11);
    assert(cd_fold(cd, None, None) == cd_fold(rest, None, None));
    // The remainder holds no further `;`.
    assert forall|k: int| 0 <= k < rest.len() implies rest[k] != 59 by {
        assert(rest[k] == cd[11 + k]);
        if k < 18 {
            assert(cd[11 + k] == rfc5987_prefix()[11 + k]);
        } else {
            assert(cd[11 + k] == enc[k - 18]);
        }
    }
    lemma_find_semi_none(rest);
    assert(semi_head(rest) == rest);
    // Trimming drops the one leading space.
    let fseg = cd.skip(12);
    assert(rest[0] == 32);
    assert(rest.drop_first() =~= fseg);
    assert(fseg.len() == 17 + enc.len());
    assert forall|k: int| 0 <= k < 17 implies fseg[k] == rfc5987_prefix()[12 + k] by {
        assert(fseg[k] == cd[12 + k]);
    }
    assert forall|k: int| 0 <= k < enc.len() implies fseg[17 + k] == enc[k] by {
        assert(fseg[17 + k] == cd[29 + k]);
    }
    assert(trim_start(rest) == trim_start(fseg));
    assert(trim_start(fseg) == fseg);
    assert(trim_end(fseg) == fseg) by {
        if enc.len() > 0 {
            assert(fseg.last() == enc.last());
        } else {
            assert(fseg.last() == fseg[16]);
        }
    }
    assert(trim_spec(rest) == fseg);
    // The part begins `filename*=`; its unquoted value is `UTF-8''<enc>`.
    assert(is_prefix(star_prefix(), fseg)) by {
        assert(fseg.take(10) =~= star_prefix());
    }
    let vv = fseg.skip(10);
    assert(vv.len() == 7 + enc.len());
    assert forall|k: int| 0 <= k < 7 implies vv[k] == rfc5987_prefix()[22 + k] by {
        assert(vv[k] == fseg[10 + k]);
    }
    assert forall|k: int| 0 <= k < enc.len() implies vv[7 + k] == enc[k] by {
        assert(vv[7 + k] == fseg[17 + k]);
    }
    assert(quotes_start(vv) == vv);
    assert(quotes_end(vv) == vv) by {
        if enc.len() > 0 {
            assert(vv.last() == enc.last());
        } else {
            assert(vv.last() == vv[6]);
        }
    }
    assert(trim_quotes(vv) == vv);
    // The first `''` ends the charset field.
    assert(vv[5] == 39 && vv[6] == 39);
    assert forall|k: int| 0 <= k < 5 implies !(#[trigger] vv[k] == 39 && vv[k + 1] == 39) by {
        assert(vv[k] == rfc5987_prefix()[22 + k]);
    }
    lemma_find_dd_at(vv, 5);
    assert(star_raw(fseg) == vv.skip(7));
    assert(vv.skip(7) =~= enc);
    assert(star_resolved(fseg) == if valid_utf8(pct_decode(enc)) {
        pct_decode(enc)
    } else {
        enc
    });
    // The walk ends here, with the extended form found.
    assert(cd_fold(rest, None, None) == (Some(star_resolved(fseg)), None::<Seq<u8>>));
}

/// The byte view of an optional byte vector.
pub open spec fn view_opt(o: Option<Vec<u8>>) -> Option<Seq<u8>> {
    match o {
        Some(v) => Some(v@),
        None => None,
    }
}

/// Does the part begin with `filename*=`?
fn has_star_prefix(seg: &Vec<u8>) -> (b: bool)
    ensures
        b == is_prefix(star_prefix(), seg@),
{
    let r = seg.len() >= 10 && seg[0] == 102 && seg[1] == 105 && seg[2] == 108 && seg[3] == 101
        && seg[4] == 110 && seg[5] == 97 && seg[6] == 109 && seg[7] == 101 && seg[8] == 42
        && seg[9] == 61;
    proof {
        if r {
            assert(seg@.take(10) =~= star_prefix());
        } else if is_prefix(star_prefix(), seg@) {
            assert(seg@.take(10) == star_prefix());
            assert forall|k: int| 0 <= k < 10 implies seg@[k] == star_prefix()[k] by {
                assert(seg@.take(10)[k] == seg@[k]);
            }
        }
    }
    r
}

/// Does the part begin with `filename=`?
fn has_plain_prefix(seg: &Vec<u8>) -> (b: bool)
    ensures
        b == is_prefix(plain_prefix(), seg@),
{
    let r = seg.len() >= 9 && seg[0] == 102 && seg[1] == 105 && seg[2] == 108 && seg[3] == 101
        && seg[4] == 110 && seg[5] == 97 && seg[6] == 109 && seg[7] == 101 && seg[8] == 61;
    proof {
        if r {
            assert(seg@.take(9) =~= plain_prefix());
        } else if is_prefix(plain_prefix(), seg@) {
            assert(seg@.take(9) == plain_prefix());
            assert forall|k: int| 0 <= k < 9 implies seg@[k] == plain_prefix()[k] by {
                assert(seg@.take(9)[k] == seg@[k]);
            }
        }
    }
    r
}

/// Find the first `''`.
fn find_dd_bytes(v: &Vec<u8>) -> (r: Option<usize>)
    ensures
        match r {
            Some(q) => find_dd(v@) == Some(q as int) && q + 1 < v@.len(),
            None => find_dd(v@) is None,
        },
{
    if v.len() < 2 {
        return None;
    }
    let mut q: usize = 0;
    while q < v.len() - 1
        invariant
            v@.len() >= 2,
            0 <= q <= v@.len() - 1,
            forall|k: int| 0 <= k < q ==> !(#[trigger] v@[k] == 39 && v@[k + 1] == 39),
        decreases v@.len() - q,
    {
        if v[q] == 39 && v[q + 1] == 39 {
            proof {
                lemma_find_dd_at(v@, q as int);
            }
            return Some(q);
        }
        q = q + 1;
    }
    proof {
        lemma_find_dd_none(v@);
    }
    None
}

/// Extract a file name from a `Content-Disposition` header value,
/// preferring the RFC 5987 `filename*=` form over plain `filename=`.
pub fn filename_from_cd(cd: &str) -> (r: Option<String>)
    ensures
        match r {
            Some(t) => spec_cd_filename(encode_utf8(cd@)) is Some && encode_utf8(t@)
                == spec_cd_filename(encode_utf8(cd@))->0,
            None => spec_cd_filename(encode_utf8(cd@)) is None || !valid_utf8(
                spec_cd_filename(encode_utf8(cd@))->0,
            ),
        },
{
    let bytes: &[u8] = cd.as_bytes();
    let ghost cdb = bytes@;
    let mut star: Option<Vec<u8>> = None;
    let mut plain: Option<Vec<u8>> = None;
    let mut pos: usize = 0;
    proof {
        assert(cdb.skip(0) =~= cdb);
    }
    loop
        invariant_except_break
            0 <= pos <= cdb.len(),
            bytes@ == cdb,
            cd_fold(cdb, None, None) == cd_fold(
                cdb.skip(pos as int),
                view_opt(star),
                view_opt(plain),
            ),
        ensures
            cd_fold(cdb, None, None) == (view_opt(star), view_opt(plain)),
        decreases cdb.len() - pos,
    {
        let mut j: usize = pos;
        while j < bytes.len() && bytes[j] != 59
            invariant
                pos <= j <= cdb.len(),
                bytes@ == cdb,
                forall|k: int| pos <= k < j ==> cdb[k] != 59,
            decreases cdb.len() - j,
        {
            j = j + 1;
        }
        let ghost rem = cdb.skip(pos as int);
        proof {
            if j == cdb.len() {
                assert forall|k: int| 0 <= k < rem.len() implies rem[k] != 59 by {
                    assert(rem[k] == cdb[pos + k]);
                }
                lemma_find_semi_none(rem);
            } else {
                assert(rem[j - pos as int] == cdb[j as int]);
                assert forall|k: int| 0 <= k < j - pos as int implies rem[k] != 59 by {
                    assert(rem[k] == cdb[pos + k]);
                }
                lemma_find_semi_at(rem, j - pos as int);
            }
            assert(semi_head(rem) =~= cdb.subrange(pos as int, j as int));
        }
        let seg = copy_range(bytes, pos, j);
        let t = trim_bytes(seg.as_slice());
        let ghost tv = t@;
        proof {
            assert(tv == trim_spec(semi_head(rem)));
        }
        let ghost old_star = view_opt(star);
        let ghost old_plain = view_opt(plain);
        if has_star_prefix(&t) {
            let after = copy_range(t.as_slice(), 10, t.len());
            proof {
                assert(after@ =~= tv.skip(10));
            }
            let vq = trim_quote_bytes(after.as_slice());
            let raw = match find_dd_bytes(&vq) {
                Some(q) => {
                    let end = vq.len();
                    let w = copy_range(vq.as_slice(), q + 2, end);
                    proof {
                        assert(w@ =~= trim_quotes(tv.skip(10)).skip(q + 2));
                    }
                    w
                },
                None => vq,
            };
            proof {
                assert(raw@ == star_raw(tv));
            }
            let dec = percent_decode_bytes(raw.as_slice());
            let resolved = if utf8_check(dec.as_slice()) {
                dec
            } else {
                raw
            };
            proof {
                assert(resolved@ == star_resolved(tv));
            }
            star = Some(resolved);
        } else if has_plain_prefix(&t) {
            let after = copy_range(t.as_slice(), 9, t.len());
            proof {
                assert(after@ =~= tv.skip(9));
            }
            let v2 = trim_bytes(after.as_slice());
            let value = if v2.len() >= 2 && v2[0] == 34 && v2[v2.len() - 1] == 34 {
                let w = copy_range(v2.as_slice(), 1, v2.len() - 1);
                proof {
                    assert(w@ =~= trim_spec(tv.skip(9)).subrange(
                        1,
                        trim_spec(tv.skip(9)).len() - 1,
                    ));
                }
                w
            } else {
                v2
            };
            proof {
                assert(value@ == plain_value(tv));
            }
            plain = Some(value);
        }
        proof {
            assert(cd_fold(rem, old_star, old_plain) == if j < cdb.len() {
                cd_fold(rem.skip(j - pos as int + 1), view_opt(star), view_opt(plain))
            } else {
                (view_opt(star), view_opt(plain))
            });
        }
        if j == bytes.len() {
            break ;
        }
        proof {
            assert(rem.skip(j - pos as int + 1) =~= cdb.skip(j + 1));
        }
        pos = j + 1;
    }
    let picked: Option<Vec<u8>> = match star {
        Some(v) => Some(v),
        None => plain,
    };
    match picked {
        Some(v) => {
            match string_from_utf8(v) {
                Some(t) => Some(t),
                None => None,
            }
        },
        None => None,
    }
}

} // verus!
