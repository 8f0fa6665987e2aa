//! Whether a remote file is newer than its local copy, judged from the local
//! modification time and the remote `Last-Modified` header.

use vstd::prelude::*;

verus! {

/// The instant that an HTTP date names, in whole seconds since the Unix
/// epoch, or `None` where the text is no HTTP date.
pub uninterp spec fn http_date_seconds(text: Seq<char>) -> Option<u64>;

/// Calls `httpdate::parse_http_date` and hands back the parsed instant as
/// seconds since the Unix epoch. Nothing is proved of it: the contract only
/// names the result, which depends on the text alone. The instants that the
/// parser yields are whole seconds at or after the epoch.
#[verifier::external_body]
fn parse_http_date(text: &str) -> (seconds: Option<u64>)
    ensures
        seconds == http_date_seconds(text@),
{
    match httpdate::parse_http_date(text) {
        Ok(time) => match time.duration_since(std::time::UNIX_EPOCH) {
            Ok(since_epoch) => Some(since_epoch.as_secs()),
            Err(_) => None,
        },
        Err(_) => None,
    }
}

/// The remote file counts as newer unless both times are known and the local
/// one is not earlier. The local time is in nanoseconds relative to the Unix
/// epoch, the remote one in seconds since it.
pub open spec fn is_newer(local_modified: Option<i128>, remote_seconds: Option<u64>) -> bool {
    match (local_modified, remote_seconds) {
        (Some(local), Some(remote)) => local < remote * 1_000_000_000,
        _ => true,
    }
}

/// Compares a local modification time with a remote one; a time that is
/// missing on either side makes the remote file newer.
pub fn remote_is_newer(local_modified: Option<i128>, remote_seconds: Option<u64>) -> (newer: bool)
    ensures
        newer == is_newer(local_modified, remote_seconds),
{
    match (local_modified, remote_seconds) {
        (Some(local), Some(remote)) => {
            let remote_nanos: i128 = (remote as i128) * 1_000_000_000;
            local < remote_nanos
        },
        _ => true,
    }
}

/// The time that a `Last-Modified` header names, if there is a header and it
/// holds an HTTP date.
pub open spec fn header_seconds(last_modified: Option<&str>) -> Option<u64> {
    match last_modified {
        Some(text) => http_date_seconds(text@),
        None => None,
    }
}

/// Decides whether the remote file is newer than the local copy, given the
/// local modification time, if it could be read, and the text of the remote
/// `Last-Modified` header, if there is one.
pub fn newer_remote(local_modified: Option<i128>, last_modified: Option<&str>) -> (newer: bool)
    ensures
        newer == is_newer(local_modified, header_seconds(last_modified)),
{
    let remote_seconds = match last_modified {
        Some(text) => parse_http_date(text),
        None => None,
    };
    remote_is_newer(local_modified, remote_seconds)
}

} // verus!
