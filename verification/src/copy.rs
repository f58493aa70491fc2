//! The single-file copy's computing half: admission checks, progress
//! arithmetic, and the mapping of native error codes. The native copy call
//! itself is the caller's part.

use vstd::prelude::*;
use crate::error::ZError;

verus! {

/// Progress information for a file copy operation.
#[derive(Debug, Clone, PartialEq)]
pub struct CopyProgress {
    /// Total bytes to copy.
    pub total_bytes: u64,
    /// Bytes copied so far.
    pub bytes_copied: u64,
    /// Source file path.
    pub source: String,
    /// Destination file path.
    pub destination: String,
    /// Current transfer speed in bytes per second.
    pub speed_bps: u64,
    /// Estimated time remaining in seconds.
    pub eta_seconds: Option<u64>,
}

/// The integer completion percentage of a copy: complete when no bytes
/// were expected, rounded to nearest otherwise, capped at 100.
pub open spec fn spec_copy_percentage(p: CopyProgress) -> int {
    if p.total_bytes == 0 {
        100
    } else if p.bytes_copied >= p.total_bytes {
        100
    } else {
        ((p.bytes_copied as int) * 200 + p.total_bytes) / (2 * p.total_bytes as int)
    }
}

impl CopyProgress {
    /// Get the completion percentage as an integer (0 to 100).
    pub fn percentage_int(&self) -> (r: u8)
        ensures
            r == spec_copy_percentage(*self),
            r <= 100,
    {
        if self.total_bytes == 0 {
            100
        } else if self.bytes_copied >= self.total_bytes {
            100
        } else {
            let q: u128 = ((self.bytes_copied as u128) * 200 + (self.total_bytes as u128)) / (2 * (
            self.total_bytes as u128));
            proof {
                let b = self.bytes_copied as int;
                let t = self.total_bytes as int;
                assert(b * 200 + t < (t * 2) * 101) by (nonlinear_arith)
                    requires
                        b < t,
                        t > 0,
                ;
                assert((b * 200 + t) / (2 * t) < 101) by (nonlinear_arith)
                    requires
                        b * 200 + t < (t * 2) * 101,
                        t > 0,
                ;
            }
            q as u8
        }
    }
}

/// The transfer speed the progress callback derives: whole-second rates
/// when at least a second passed, a millisecond-scaled rate after a tenth
/// of a second, and zero before that.
pub open spec fn spec_speed(bytes: u64, elapsed_ms: u64) -> int {
    if elapsed_ms >= 1000 {
        bytes as int / (elapsed_ms as int / 1000)
    } else if elapsed_ms > 100 {
        (bytes as int) * 1000 / (elapsed_ms as int)
    } else {
        0
    }
}

/// Compute the transfer speed in bytes per second, capped at the largest
/// representable rate.
pub fn calculate_speed(bytes: u64, elapsed_ms: u64) -> (r: u64)
    ensures
        elapsed_ms >= 1000 ==> r as int == spec_speed(bytes, elapsed_ms),
        elapsed_ms <= 100 ==> r == 0,
        100 < elapsed_ms < 1000 ==> r as int == crate::report::spec_min_int(
            spec_speed(bytes, elapsed_ms),
            u64::MAX as int,
        ),
{
    if elapsed_ms >= 1000 {
        bytes / (elapsed_ms / 1000)
    } else if elapsed_ms > 100 {
        let q: u128 = ((bytes as u128) * 1000) / (elapsed_ms as u128);
        if q > u64::MAX as u128 {
            u64::MAX
        } else {
            q as u64
        }
    } else {
        0
    }
}

/// The remaining-time estimate: remaining bytes over the speed, absent at
/// zero speed or when the copy is already past its total.
pub open spec fn spec_eta(bytes: u64, total: u64, speed: u64) -> Option<int> {
    if speed > 0 && bytes < total {
        Some((total - bytes) / speed as int)
    } else {
        None
    }
}

/// Compute the estimated seconds remaining.
pub fn calculate_eta(bytes: u64, total: u64, speed: u64) -> (r: Option<u64>)
    ensures
        (match r {
            Some(v) => Some(v as int),
            None => None,
        }) == spec_eta(bytes, total, speed),
{
    if speed > 0 && bytes < total {
        Some((total - bytes) / speed)
    } else {
        None
    }
}

/// Check the preconditions of a copy against the caller's findings about
/// the two paths. `None` admits the copy.
pub fn precopy_check(
    source_exists: bool,
    source_is_file: bool,
    dest_exists: bool,
    overwrite: bool,
    source: &str,
    destination: &str,
) -> (r: Option<ZError>)
    ensures
        !source_exists ==> (r matches Some(e) && e is NotFound && e.spec_path() == Some(source@)),
        source_exists && !source_is_file ==> (r matches Some(e) && e is NotAFile && e.spec_path()
            == Some(source@)),
        source_exists && source_is_file && !overwrite && dest_exists ==> (r matches Some(e)
            && e is AlreadyExists && e.spec_path() == Some(destination@)),
        source_exists && source_is_file && (overwrite || !dest_exists) ==> r is None,
{
    if !source_exists {
        Some(ZError::NotFound { path: source.to_owned() })
    } else if !source_is_file {
        Some(ZError::NotAFile { path: source.to_owned() })
    } else if !overwrite && dest_exists {
        Some(ZError::AlreadyExists { path: destination.to_owned() })
    } else {
        None
    }
}

/// Map a native copy error code to the crate's failure sum: access
/// denied, missing source, an existing destination, a full disk, or the
/// raw code with its message.
pub fn map_copy_error(code: u32, message: String, source: &str, destination: &str) -> (r: ZError)
    ensures
        code == 0x80070005 ==> r is PermissionDenied && r.spec_path() == Some(destination@),
        code == 0x80070002 || code == 0x80070003 ==> r is NotFound && r.spec_path() == Some(
            source@,
        ),
        code == 0x80070050 ==> r is AlreadyExists && r.spec_path() == Some(destination@),
        code == 0x80070070 ==> r is TransferFailed,
        code != 0x80070005 && code != 0x80070002 && code != 0x80070003 && code != 0x80070050
            && code != 0x80070070 ==> (r matches ZError::Windows { code: c, message: m } && c
            == code && m == message),
{
    if code == 0x80070005 {
        ZError::PermissionDenied { path: destination.to_owned() }
    } else if code == 0x80070002 || code == 0x80070003 {
        ZError::NotFound { path: source.to_owned() }
    } else if code == 0x80070050 {
        ZError::AlreadyExists { path: destination.to_owned() }
    } else if code == 0x80070070 {
        ZError::TransferFailed { message: "Disk full".to_owned() }
    } else {
        ZError::Windows { code, message }
    }
}

/// Result of a copy operation for integration with the job system.
#[derive(Debug, Clone, PartialEq)]
pub struct CopyResult {
    /// Source file path.
    pub source: String,
    /// Destination file path.
    pub destination: String,
    /// Bytes copied.
    pub bytes_copied: u64,
    /// Duration of the copy in milliseconds.
    pub duration_ms: u64,
    /// Average speed in bytes per second.
    pub average_speed_bps: u64,
}

} // verus!
