//! The ways a download can fail, and their user-visible wording.

use vstd::prelude::*;
use vstd::string::StringExecFns;
use crate::text::{dec_chars, u64_to_string};

verus! {

/// Why a download operation stopped short of success.
#[derive(Debug)]
pub enum DownloadError {
    /// No registered download has the given id.
    NotFound,
    /// Resumption was asked for an id the registry does not know.
    UnknownId,
    /// The server does not honor byte ranges, so resuming is impossible.
    NoRangeSupport,
    /// The server never reported a total size, so resuming is impossible.
    UnknownTotal,
    /// The advertised total size is zero.
    EmptyContent,
    /// A single-stream transfer ended without delivering any byte.
    NoData,
    /// The user canceled the transfer.
    Canceled,
    /// All workers finished but fewer bytes than advertised arrived.
    Incomplete { got: u64, total: u64 },
    /// A worker failed; the message comes from the transport layer.
    Worker { message: String },
}

impl Clone for DownloadError {
    /// A clone carries the same case and fields.
    fn clone(&self) -> (r: Self)
        ensures
            r == *self,
    {
        match self {
            DownloadError::NotFound => DownloadError::NotFound,
            DownloadError::UnknownId => DownloadError::UnknownId,
            DownloadError::NoRangeSupport => DownloadError::NoRangeSupport,
            DownloadError::UnknownTotal => DownloadError::UnknownTotal,
            DownloadError::EmptyContent => DownloadError::EmptyContent,
            DownloadError::NoData => DownloadError::NoData,
            DownloadError::Canceled => DownloadError::Canceled,
            DownloadError::Incomplete { got, total } => DownloadError::Incomplete {
                got: *got,
                total: *total,
            },
            DownloadError::Worker { message } => DownloadError::Worker {
                message: message.clone(),
            },
        }
    }
}

/// The wording each failure is reported with.
pub open spec fn spec_message(e: DownloadError) -> Seq<char> {
    match e {
        DownloadError::NotFound => "not found"@,
        DownloadError::UnknownId => "unknown download id"@,
        DownloadError::NoRangeSupport => "server does not support range resuming"@,
        DownloadError::UnknownTotal => "unknown total size; cannot resume"@,
        DownloadError::EmptyContent => "empty content (total size is 0)"@,
        DownloadError::NoData => "no data received"@,
        DownloadError::Canceled => "canceled"@,
        DownloadError::Incomplete { got, total } => "incomplete: "@ + dec_chars(got as int)
            + " < "@ + dec_chars(total as int),
        DownloadError::Worker { message } => message@,
    }
}

impl DownloadError {
    /// Render the failure for an event or a returned error.
    pub fn message(&self) -> (r: String)
        ensures
            r@ == spec_message(*self),
    {
        match self {
            DownloadError::NotFound => "not found".to_owned(),
            DownloadError::UnknownId => "unknown download id".to_owned(),
            DownloadError::NoRangeSupport => "server does not support range resuming".to_owned(),
            DownloadError::UnknownTotal => "unknown total size; cannot resume".to_owned(),
            DownloadError::EmptyContent => "empty content (total size is 0)".to_owned(),
            DownloadError::NoData => "no data received".to_owned(),
            DownloadError::Canceled => "canceled".to_owned(),
            DownloadError::Incomplete { got, total } => {
                let mut s = "incomplete: ".to_owned();
                let g = u64_to_string(*got);
                s.append(g.as_str());
                s.append(" < ");
                let t = u64_to_string(*total);
                s.append(t.as_str());
                s
            },
            DownloadError::Worker { message } => message.clone(),
        }
    }
}

} // verus!
