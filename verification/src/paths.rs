//! Planning the destination and working paths of a transfer.
//!
//! The destination is the chosen directory joined with the file name; the
//! working path is the destination with its extension set to `part`
//! (appended when the name has none).

use vstd::prelude::*;
use vstd::string::{StrSliceExecFns, StringExecFns};
use crate::scan::{find_last_char, last_index_of};

verus! {

/// The directory joined with the file name, with a single `/` between.
pub open spec fn spec_join(dir: Seq<char>, name: Seq<char>) -> Seq<char> {
    if dir.len() == 0 {
        name
    } else if dir.last() == '/' {
        dir + name
    } else {
        dir + seq!['/'] + name
    }
}

/// The working path: the extension of the path's final component
/// replaced by `part`, or `.part` appended when it has no extension.
pub open spec fn spec_temp_of(dest: Seq<char>) -> Seq<char> {
    let comp_start: int = match last_index_of(dest, '/') {
        Some(i) => i + 1,
        None => 0,
    };
    match last_index_of(dest, '.') {
        Some(d) => if d > comp_start {
            dest.take(d) + ".part"@
        } else {
            dest + ".part"@
        },
        None => dest + ".part"@,
    }
}

/// Join a directory and a file name into one path.
pub fn join_path(dir: &str, name: &str) -> (r: String)
    ensures
        r@ == spec_join(dir@, name@),
{
    if dir.is_empty() {
        return name.to_owned();
    }
    let n = dir.unicode_len();
    let mut out = dir.to_owned();
    if dir.get_char(n - 1) != '/' {
        proof {
            reveal_strlit("/");
            assert("/"@ =~= seq!['/']);
        }
        out.append("/");
    }
    out.append(name);
    out
}

/// Compute the destination path and its `.part` working path.
pub fn plan_paths(dir: &str, name: &str) -> (r: (String, String))
    ensures
        r.0@ == spec_join(dir@, name@),
        r.1@ == spec_temp_of(spec_join(dir@, name@)),
{
    let dest = join_path(dir, name);
    let dlen: usize = dest.as_str().unicode_len();
    let comp_start: usize = match find_last_char(dest.as_str(), '/') {
        Some(i) => i + 1,
        None => 0,
    };
    let temp = match find_last_char(dest.as_str(), '.') {
        Some(d) => {
            if d > comp_start {
                let stem = dest.as_str().substring_char(0, d);
                let mut t = stem.to_owned();
                t.append(".part");
                t
            } else {
                let mut t = dest.clone();
                t.append(".part");
                t
            }
        },
        None => {
            let mut t = dest.clone();
            t.append(".part");
            t
        },
    };
    (dest, temp)
}

} // verus!
