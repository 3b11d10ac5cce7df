//! Interpreting probe responses: lengths, range support, file names.
//!
//! The network requests themselves (a HEAD, and at need a one-byte ranged
//! GET) are issued by the host process; the functions here turn the header
//! values it read into a length, a range-support verdict, and a file name,
//! exactly as the probe's contract prescribes.

use vstd::prelude::*;
use vstd::utf8::{decode_utf8, encode_utf8, encode_utf8_decode_utf8, encode_utf8_valid_utf8, valid_utf8};
use crate::category::{bs, lower_byte, lower_seq, spec_category, guess_category_by_ext};
use crate::headers::{filename_from_cd, pct_decode, percent_decode_bytes, spec_cd_filename};
use crate::payloads::ProbeResult;
use crate::scan::{find_first_byte, find_last_byte, first_index_of, last_index_of};
use crate::text::{all_dec_digits, dec_value, parse_u64_dec, string_from_utf8};

verus! {

/// The number a digit string denotes, when it is one and fits in a `u64`.
pub open spec fn spec_parse_u64(s: Seq<u8>) -> Option<u64> {
    if s.len() >= 1 && all_dec_digits(s) && dec_value(s) <= u64::MAX {
        Some(dec_value(s) as u64)
    } else {
        None
    }
}

/// Read a `Content-Length` value.
pub fn parse_content_length(v: &str) -> (r: Option<u64>)
    ensures
        r == spec_parse_u64(encode_utf8(v@)),
{
    parse_u64_dec(v.as_bytes())
}

/// The total a `Content-Range` value advertises: the field after the
/// slash, read as a number.
pub open spec fn spec_content_range_total(s: Seq<u8>) -> Option<u64> {
    match first_index_of(s, 47) {
        Some(p) => {
            let rest = s.skip(p + 1);
            let field = match first_index_of(rest, 47) {
                Some(q) => rest.take(q),
                None => rest,
            };
            spec_parse_u64(field)
        },
        None => None,
    }
}

/// Read the total size out of a `Content-Range` value such as
/// `bytes 0-0/12345`.
pub fn content_range_total(cr: &str) -> (r: Option<u64>)
    ensures
        r == spec_content_range_total(encode_utf8(cr@)),
{
    let bytes: &[u8] = cr.as_bytes();
    let n: usize = bytes.len();
    match find_first_byte(bytes, 47) {
        Some(p) => {
            let rest = crate::text::copy_range(bytes, p + 1, n);
            proof {
                assert(rest@ =~= bytes@.skip(p + 1));
            }
            let field = match find_first_byte(rest.as_slice(), 47) {
                Some(q) => {
                    let w = crate::text::copy_range(rest.as_slice(), 0, q);
                    proof {
                        assert(w@ =~= bytes@.skip(p + 1).take(q as int));
                    }
                    w
                },
                None => rest,
            };
            parse_u64_dec(field.as_slice())
        },
        None => None,
    }
}

/// Somewhere in `s` the pattern `p` occurs.
pub open spec fn contains_sub(s: Seq<u8>, p: Seq<u8>) -> bool {
    exists|i: int| 0 <= i <= s.len() - p.len() && #[trigger] s.subrange(i, i + p.len()) == p
}

/// An `Accept-Ranges` value declares byte-range support: lower-cased, it
/// contains `bytes`.
pub open spec fn spec_accept_ranges(v: Seq<u8>) -> bool {
    contains_sub(lower_seq(v), bs("bytes"@))
}

/// Lower-case every byte (ASCII).
fn lower_vec(s: &[u8]) -> (out: Vec<u8>)
    ensures
        out@ == lower_seq(s@),
{
    let mut out: Vec<u8> = Vec::new();
    let mut i: usize = 0;
    while i < s.len()
        invariant
            0 <= i <= s@.len(),
            out@ =~= lower_seq(s@).take(i as int),
        decreases s@.len() - i,
    {
        let b = s[i];
        let lb = if 65 <= b && b <= 90 {
            b + 32
        } else {
            b
        };
        proof {
            assert(lower_seq(s@)[i as int] == lower_byte(s@[i as int]));
            assert(lower_seq(s@).take(i + 1) =~= lower_seq(s@).take(i as int).push(lb));
        }
        out.push(lb);
        i = i + 1;
    }
    proof {
        assert(out@ =~= lower_seq(s@));
    }
    out
}

/// Do `p`'s bytes stand at offset `off` of `a`?
fn matches_at(a: &[u8], off: usize, p: &[u8]) -> (r: bool)
    requires
        off + p@.len() <= a@.len(),
    ensures
        r == (a@.subrange(off as int, off as int + p@.len() as int) == p@),
{
    let alen: usize = a.len();
    let plen: usize = p.len();
    let mut k: usize = 0;
    while k < plen
        invariant
            alen == a@.len(),
            plen == p@.len(),
            off + p@.len() <= a@.len(),
            0 <= k <= p@.len(),
            forall|j: int| 0 <= j < k ==> a@[off + j] == p@[j],
        decreases p@.len() - k,
    {
        if a[off + k] != p[k] {
            proof {
                assert(a@.subrange(off as int, off as int + p@.len() as int)[k as int] == a@[off
                    + k]);
            }
            return false;
        }
        k = k + 1;
    }
    proof {
        assert(a@.subrange(off as int, off as int + p@.len() as int) =~= p@);
    }
    true
}

/// Does the server's `Accept-Ranges` value declare byte-range support?
pub fn accept_ranges_value(v: &str) -> (r: bool)
    ensures
        r == spec_accept_ranges(encode_utf8(v@)),
{
    let low = lower_vec(v.as_bytes());
    let pat: &[u8] = "bytes".as_bytes();
    let n = low.len();
    let m = pat.len();
    if m == 0 {
        proof {
            assert(low@.subrange(0, 0 + bs("bytes"@).len() as int) =~= bs("bytes"@));
            assert(contains_sub(low@, bs("bytes"@)));
        }
        return true;
    }
    if n < m {
        return false;
    }
    let mut i: usize = 0;
    while i <= n - m
        invariant
            low@ == lower_seq(encode_utf8(v@)),
            pat@ == bs("bytes"@),
            n == low@.len(),
            m == pat@.len(),
            1 <= m <= n,
            0 <= i <= n - m + 1,
            forall|j: int|
                0 <= j < i ==> #[trigger] low@.subrange(j, j + pat@.len()) != pat@,
        decreases n - m - i + 1,
    {
        if matches_at(low.as_slice(), i, pat) {
            return true;
        }
        i = i + 1;
    }
    false
}

/// A probe must be followed by a one-byte ranged request when the name
/// has no extension, the name is the placeholder, the length is unknown,
/// or (where range support matters) ranges are not yet known to work.
pub open spec fn spec_needs_range_probe(
    name: Seq<char>,
    total: Option<u64>,
    ar: bool,
    check_ranges: bool,
) -> bool {
    ||| !encode_utf8(name).contains(46)
    ||| name == "download.bin"@
    ||| total is None
    ||| (check_ranges && !ar)
}

/// Decide whether the one-byte ranged request is worth issuing.
pub fn needs_range_probe(name: &String, total: &Option<u64>, ar: bool, check_ranges: bool) -> (r:
    bool)
    ensures
        r == spec_needs_range_probe(name@, *total, ar, check_ranges),
{
    let has_dot = match find_first_byte(name.as_str().as_bytes(), 46) {
        Some(i) => {
            proof {
                assert(encode_utf8(name@).contains(46));
            }
            true
        },
        None => {
            proof {
                assert(!encode_utf8(name@).contains(46));
            }
            false
        },
    };
    let placeholder: String = "download.bin".to_owned();
    !has_dot || name.eq(&placeholder) || total.is_none() || (check_ranges && !ar)
}

/// The view of an optional string argument.
pub open spec fn view_opt_str(o: Option<&String>) -> Option<Seq<char>> {
    match o {
        Some(s) => Some(s@),
        None => None,
    }
}

/// The name after a ranged probe: what its `Content-Disposition` yields,
/// when it yields one, else the name already chosen.
pub open spec fn spec_probe_name(cd: Option<Seq<char>>, name: Seq<char>) -> Seq<char> {
    match cd {
        Some(c) => {
            let f = spec_cd_filename(encode_utf8(c));
            if f is Some && valid_utf8(f->0) {
                decode_utf8(f->0)
            } else {
                name
            }
        },
        None => name,
    }
}

/// The total after a ranged probe: kept when already known, else read
/// from the probe's `Content-Range`.
pub open spec fn spec_probe_total(cr: Option<Seq<char>>, total: Option<u64>) -> Option<u64> {
    if total is Some {
        total
    } else {
        match cr {
            Some(c) => spec_content_range_total(encode_utf8(c)),
            None => None,
        }
    }
}

/// Fold the headers of the one-byte ranged response into what the HEAD
/// request yielded. A `206` status or a `Content-Range` header upgrades
/// the range-support verdict when `upgrade_ranges` asks for it.
pub fn apply_range_probe(
    name: String,
    total: Option<u64>,
    accept_ranges: bool,
    upgrade_ranges: bool,
    cd: Option<&String>,
    cr: Option<&String>,
    got206: bool,
) -> (r: (String, Option<u64>, bool))
    ensures
        r.0@ == spec_probe_name(view_opt_str(cd), name@),
        r.1 == spec_probe_total(view_opt_str(cr), total),
        r.2 == (accept_ranges || (upgrade_ranges && (got206 || cr is Some))),
{
    let new_name = match cd {
        Some(c) => match filename_from_cd(c.as_str()) {
            Some(n) => {
                proof {
                    encode_utf8_valid_utf8(n@);
                    encode_utf8_decode_utf8(n@);
                }
                n
            },
            None => name,
        },
        None => name,
    };
    let new_total = match total {
        Some(t) => Some(t),
        None => match cr {
            Some(c) => content_range_total(c.as_str()),
            None => None,
        },
    };
    let new_ar = accept_ranges || (upgrade_ranges && (got206 || cr.is_some()));
    (new_name, new_total, new_ar)
}

/// The piece of a URL after the last `/` and before the first `?`.
pub open spec fn spec_url_tail(u: Seq<u8>) -> Seq<u8> {
    let a = match last_index_of(u, 47) {
        Some(i) => u.skip(i + 1),
        None => u,
    };
    match first_index_of(a, 63) {
        Some(q) => a.take(q),
        None => a,
    }
}

/// The name a URL falls back to: its tail, percent-decoded; the encoded
/// tail when decoding leaves invalid UTF-8; the URL itself in the
/// (unreachable for well-formed strings) case that even the tail is not
/// valid UTF-8.
pub open spec fn spec_fallback_chars(u: Seq<char>) -> Seq<char> {
    let t = spec_url_tail(encode_utf8(u));
    if valid_utf8(pct_decode(t)) {
        decode_utf8(pct_decode(t))
    } else if valid_utf8(t) {
        decode_utf8(t)
    } else {
        u
    }
}

/// Derive a file name from the URL's last path segment.
pub fn fallback_name_from_url(url: &str) -> (r: String)
    ensures
        r@ == spec_fallback_chars(url@),
{
    let bytes: &[u8] = url.as_bytes();
    let n: usize = bytes.len();
    let after = match find_last_byte(bytes, 47) {
        Some(i) => crate::text::copy_range(bytes, i + 1, n),
        None => crate::text::copy_range(bytes, 0, n),
    };
    proof {
        assert(bytes@.subrange(0, n as int) =~= bytes@);
        assert(after@ =~= match last_index_of(bytes@, 47) {
            Some(i) => bytes@.skip(i + 1),
            None => bytes@,
        });
    }
    let tail = match find_first_byte(after.as_slice(), 63) {
        Some(q) => crate::text::copy_range(after.as_slice(), 0, q),
        None => after,
    };
    proof {
        assert(tail@ =~= spec_url_tail(bytes@));
    }
    let dec = percent_decode_bytes(tail.as_slice());
    match string_from_utf8(dec) {
        Some(s) => {
            proof {
                encode_utf8_decode_utf8(s@);
            }
            return s;
        },
        None => {},
    }
    match string_from_utf8(tail) {
        Some(s) => {
            proof {
                encode_utf8_decode_utf8(s@);
            }
            s
        },
        None => url.to_owned(),
    }
}

/// The name a probe settles on: what `Content-Disposition` yields when it
/// yields one, else the URL's tail; an empty or `/` result becomes
/// `download.bin`.
pub open spec fn spec_choose_filename(cd: Option<Seq<char>>, u: Seq<char>) -> Seq<char> {
    let name = spec_probe_name(cd, spec_fallback_chars(u));
    if name.len() == 0 || name == seq!['/'] {
        "download.bin"@
    } else {
        name
    }
}

/// Settle the output file name from the `Content-Disposition` value, if
/// any, and the URL.
pub fn choose_filename(cd: Option<&String>, url: &str) -> (r: String)
    ensures
        r@ == spec_choose_filename(view_opt_str(cd), url@),
{
    let name: String = match cd {
        Some(c) => match filename_from_cd(c.as_str()) {
            Some(n) => {
                proof {
                    encode_utf8_valid_utf8(n@);
                    encode_utf8_decode_utf8(n@);
                }
                n
            },
            None => fallback_name_from_url(url),
        },
        None => fallback_name_from_url(url),
    };
    if name.as_str().is_empty() {
        return "download.bin".to_owned();
    }
    let is_slash = name.as_str().unicode_len() == 1 && name.as_str().get_char(0) == '/';
    proof {
        if is_slash {
            assert(name@ =~= seq!['/']);
        } else if name@ == seq!['/'] {
            assert(name@.len() == 1);
            assert(name@[0] == '/');
        }
    }
    if is_slash {
        return "download.bin".to_owned();
    }
    name
}

/// Assemble the probe's answer, classifying the chosen name.
pub fn make_probe_result(total: Option<u64>, file_name: String, download_dir: String) -> (r:
    ProbeResult)
    ensures
        r.total == total,
        r.file_name == file_name,
        r.category@ == spec_category(encode_utf8(file_name@)),
        r.download_dir == download_dir,
{
    let category = guess_category_by_ext(file_name.as_str());
    ProbeResult { total, file_name, category, download_dir }
}

} // verus!
