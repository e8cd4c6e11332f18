//! Windows file times and Unix seconds.
use vstd::prelude::*;
use crate::error::{error_of, fails_with, FsError, FsErrorKind, FsErrorView, FsResult};

verus! {

/// The Unix epoch as a Windows file time.
pub const EPOCH: u64 = 116444736000000000;

/// File-time ticks in a second.
pub const TICKS_PER_SECOND: u64 = 10000000;

/// The latest file time.
pub const LAST: u64 = 9223372036854775807;

/// The file time of a Unix time.
pub open spec fn ticks(seconds: int) -> int {
    seconds * TICKS_PER_SECOND + EPOCH
}

/// The file time of a Unix time; zero means that there is none. A time that
/// cannot be represented is not replaced by another one.
pub open spec fn filetime_of(seconds: Option<u64>) -> u64 {
    match seconds {
        Some(value) => if ticks(value as int) <= LAST {
            ticks(value as int) as u64
        } else {
            0
        },
        None => 0,
    }
}

/// Zero means unavailable.
pub fn filetime(seconds: Option<u64>) -> (time: u64)
    ensures
        time == filetime_of(seconds),
{
    match seconds {
        None => 0,
        Some(value) => match value.checked_mul(TICKS_PER_SECOND) {
            None => 0,
            Some(scaled) => match scaled.checked_add(EPOCH) {
                None => 0,
                Some(time) => if time <= LAST {
                    time
                } else {
                    0
                },
            },
        },
    }
}

/// A file time that stands for a Unix time.
pub open spec fn is_unix_time(time: u64) -> bool {
    EPOCH <= time <= LAST
}

/// The error for a time before the Unix epoch or after the last file time.
pub open spec fn out_of_range() -> FsErrorView {
    error_of(
        FsErrorKind::Unsupported,
        "Timestamp is outside the portable provider's Unix time range"@,
    )
}

/// The Unix seconds that a file time stands for; zero stands for none.
pub open spec fn unix_seconds_of(time: u64) -> Result<Option<u64>, FsErrorView> {
    if time == 0 {
        Ok(None)
    } else if is_unix_time(time) {
        Ok(Some(((time - EPOCH) as u64 / TICKS_PER_SECOND) as u64))
    } else {
        Err(out_of_range())
    }
}

/// The Unix seconds of a file time, rounded down; zero means no change.
pub fn unix_seconds(time: u64) -> (seconds: FsResult<Option<u64>>)
    ensures
        match unix_seconds_of(time) {
            Ok(value) => seconds == Ok::<Option<u64>, FsError>(value),
            Err(e) => fails_with(seconds, e),
        },
{
    if time == 0 {
        return Ok(None);
    }
    if time < EPOCH || time > LAST {
        return Err(
            FsError::new(
                FsErrorKind::Unsupported,
                "Timestamp is outside the portable provider's Unix time range",
            ),
        );
    }
    Ok(Some((time - EPOCH) / TICKS_PER_SECOND))
}

/// The error for a time that no provider keeps.
pub open spec fn cannot_set() -> FsErrorView {
    error_of(
        FsErrorKind::Unsupported,
        "This provider cannot set file creation or metadata-change time"@,
    )
}

/// Creation and change times cannot be set; zero asks for no change.
pub fn validate_unsupported_times(created: u64, changed: u64) -> (result: FsResult<()>)
    ensures
        result is Ok <==> created == 0 && changed == 0,
        result is Err ==> fails_with(result, cannot_set()),
{
    if created != 0 || changed != 0 {
        return Err(
            FsError::new(
                FsErrorKind::Unsupported,
                "This provider cannot set file creation or metadata-change time",
            ),
        );
    }
    Ok(())
}

/// A Unix time that can be shown at all comes back from its file time, and so it
/// does from every file time within the same second.
pub proof fn law_seconds_round_trip(seconds: u64, extra: u64)
    requires
        filetime_of(Some(seconds)) != 0,
        extra < TICKS_PER_SECOND,
        filetime_of(Some(seconds)) + extra <= LAST,
    ensures
        ({
            let time = (filetime_of(Some(seconds)) + extra) as u64;
            &&& is_unix_time(time)
            &&& (time - EPOCH) as u64 / TICKS_PER_SECOND == seconds
        }),
{
    assert((seconds * TICKS_PER_SECOND + extra) as int / TICKS_PER_SECOND as int == seconds)
        by (nonlinear_arith)
        requires
            extra < TICKS_PER_SECOND,
            TICKS_PER_SECOND == 10000000,
    ;
}

/// No time is shown where the provider gives none, and every time shown is one
/// that Windows accepts.
pub proof fn law_times_are_not_invented(seconds: Option<u64>)
    ensures
        seconds is None ==> filetime_of(seconds) == 0,
        filetime_of(seconds) == 0 || is_unix_time(filetime_of(seconds)),
{
}

/// A Unix time is shown as the file time so many seconds after the epoch of file
/// times, as far as those reach; beyond that no time is shown.
pub proof fn law_times_are_shown_as_they_are(seconds: u64)
    ensures
        ({
            let time = (seconds + 11_644_473_600) * 10_000_000;
            &&& time <= 9_223_372_036_854_775_807 ==> filetime_of(Some(seconds)) == time
            &&& time > 9_223_372_036_854_775_807 ==> filetime_of(Some(seconds)) == 0
        }),
        is_unix_time(seconds) <==> 116_444_736_000_000_000 <= seconds <= 9_223_372_036_854_775_807,
{
}

/// A file time stands for the Unix second that it falls in, zero for none; one before
/// the Unix epoch or after the last file time is refused, and never bent to fit.
pub proof fn law_file_times_stand_for_seconds(time: u64, seconds: u64, part: u64)
    requires
        part < 10_000_000,
        time == (seconds + 11_644_473_600) * 10_000_000 + part,
        time <= 9_223_372_036_854_775_807,
    ensures
        unix_seconds_of(time) == Ok::<Option<u64>, FsErrorView>(Some(seconds)),
        unix_seconds_of(0) == Ok::<Option<u64>, FsErrorView>(None),
        forall|other: u64|
            0 < other < 116_444_736_000_000_000 || other > 9_223_372_036_854_775_807
                ==> (#[trigger] unix_seconds_of(other) matches Err(e) && e.kind
                == FsErrorKind::Unsupported),
{
    assert(time - EPOCH == seconds * 10_000_000 + part);
}

} // verus!
