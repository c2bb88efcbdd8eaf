//! How long the history and the audit trail are kept.
//!
//! Both are append-only and grow without bound, so both are purged, on windows of their own: the
//! history is operational noise after a few weeks, the audit trail is the record of who changed
//! what.

use vstd::prelude::*;

use crate::text;
use crate::time::Timestamp;

verus! {

/// Days a row of `sync_logs` is kept where nothing else is configured: about one quarter.
pub const DEFAULT_SYNC_LOG_RETENTION_DAYS: i64 = 92;

/// Days a row of `audit_logs` is kept where nothing else is configured: a year.
pub const DEFAULT_AUDIT_LOG_RETENTION_DAYS: i64 = 365;

/// Overrides [`DEFAULT_SYNC_LOG_RETENTION_DAYS`]. `0` disables purging of `sync_logs`.
pub const SYNC_LOG_RETENTION_DAYS_ENV: &'static str = "SYNC_LOG_RETENTION_DAYS";

/// Overrides [`DEFAULT_AUDIT_LOG_RETENTION_DAYS`]. `0` disables purging of `audit_logs`.
pub const AUDIT_LOG_RETENTION_DAYS_ENV: &'static str = "AUDIT_LOG_RETENTION_DAYS";

/// Overrides the interval between sweeps, in seconds.
pub const RETENTION_SWEEP_ENV: &'static str = "LOG_RETENTION_SWEEP_SECONDS";

/// Seconds between sweeps where nothing else is configured.
pub const DEFAULT_SWEEP_SECONDS: u64 = 3_600;

/// Seconds in a day.
pub const SECONDS_PER_DAY: i64 = 86_400;

/// The days that a value configures: the default where there is none, or where it is not a number
/// of days. Keeping rows too long can be undone, deleting them early cannot.
pub open spec fn configured_days(value: Option<Seq<char>>, default_days: i64) -> i64 {
    match value {
        Some(raw) => match text::signed_value(text::trimmed(raw)) {
            Some(days) => if days >= 0 {
                days as i64
            } else {
                default_days
            },
            None => default_days,
        },
        None => default_days,
    }
}

/// Reads a number of days.
pub fn retention_days_from_env(value: Option<&str>, default_days: i64) -> (days: i64)
    ensures
        days == configured_days(text::optional(value), default_days),
{
    match value {
        Some(raw) => match text::parse_signed(text::trim(raw)) {
            Some(days) => if days >= 0 {
                days
            } else {
                default_days
            },
            None => default_days,
        },
        None => default_days,
    }
}

/// The seconds between sweeps that a value configures, at least one.
pub open spec fn configured_sweep(value: Option<Seq<char>>) -> u64 {
    match value {
        Some(raw) => match text::unsigned_value(text::trimmed(raw), u64::MAX as nat) {
            Some(seconds) => if seconds >= 1 {
                seconds as u64
            } else {
                1
            },
            None => DEFAULT_SWEEP_SECONDS,
        },
        None => DEFAULT_SWEEP_SECONDS,
    }
}

/// Reads the interval between sweeps.
pub fn sweep_seconds_from_env(value: Option<&str>) -> (seconds: u64)
    ensures
        seconds == configured_sweep(text::optional(value)),
        seconds >= 1,
{
    match value {
        Some(raw) => match text::parse_unsigned(text::trim(raw), u64::MAX) {
            Some(seconds) => if seconds >= 1 {
                seconds
            } else {
                1
            },
            None => DEFAULT_SWEEP_SECONDS,
        },
        None => DEFAULT_SWEEP_SECONDS,
    }
}

/// What the retention worker does.
#[derive(Clone, Copy, Debug, PartialEq, Eq, Structural)]
pub struct RetentionPlan {
    /// Days a row of `sync_logs` is kept; `0` keeps every row.
    pub sync_log_days: i64,
    /// Days a row of `audit_logs` is kept; `0` keeps every row.
    pub audit_log_days: i64,
    /// Seconds between sweeps.
    pub sweep_seconds: u64,
}

/// What the retention worker does, from the configured values. Nothing where both windows disable
/// purging.
pub fn retention_plan(
    sync_log_value: Option<&str>,
    audit_log_value: Option<&str>,
    sweep_value: Option<&str>,
) -> (r: Option<RetentionPlan>)
    ensures
        ({
            let sync_log_days = configured_days(
                text::optional(sync_log_value),
                DEFAULT_SYNC_LOG_RETENTION_DAYS,
            );
            let audit_log_days = configured_days(
                text::optional(audit_log_value),
                DEFAULT_AUDIT_LOG_RETENTION_DAYS,
            );
            r == if sync_log_days <= 0 && audit_log_days <= 0 {
                None
            } else {
                Some(
                    RetentionPlan {
                        sync_log_days,
                        audit_log_days,
                        sweep_seconds: configured_sweep(text::optional(sweep_value)),
                    },
                )
            }
        }),
{
    let sync_log_days: i64 = retention_days_from_env(
        sync_log_value,
        DEFAULT_SYNC_LOG_RETENTION_DAYS,
    );
    let audit_log_days: i64 = retention_days_from_env(
        audit_log_value,
        DEFAULT_AUDIT_LOG_RETENTION_DAYS,
    );
    if sync_log_days <= 0 && audit_log_days <= 0 {
        return None;
    }
    Some(
        RetentionPlan {
            sync_log_days,
            audit_log_days,
            sweep_seconds: sweep_seconds_from_env(sweep_value),
        },
    )
}

/// Whether the start of a window can be written as a point in time.
pub open spec fn window_fits(retention_days: i64, now: Timestamp) -> bool {
    retention_days > 0 ==> i64::MIN <= now.secs - retention_days * SECONDS_PER_DAY
}

/// The start of the window: rows before it are purged. Nothing where purging is disabled.
pub fn purge_threshold(retention_days: i64, now: Timestamp) -> (r: Option<Timestamp>)
    requires
        window_fits(retention_days, now),
    ensures
        match r {
            Some(threshold) => retention_days > 0 && threshold.secs == now.secs - retention_days
                * SECONDS_PER_DAY && threshold.nanos == now.nanos,
            None => retention_days <= 0,
        },
{
    if retention_days <= 0 {
        return None;
    }
    let secs: i128 = now.secs as i128 - retention_days as i128 * SECONDS_PER_DAY as i128;
    Some(Timestamp { secs: secs as i64, nanos: now.nanos })
}

/// Whether one point in time is before another.
pub open spec fn is_before(a: Timestamp, b: Timestamp) -> bool {
    a.secs < b.secs || (a.secs == b.secs && a.nanos < b.nanos)
}

/// Whether a row of age `timestamp` is past a window.
pub open spec fn is_expired(timestamp: Timestamp, retention_days: i64, now: Timestamp) -> bool {
    retention_days > 0 && is_before(
        timestamp,
        Timestamp { secs: (now.secs - retention_days * SECONDS_PER_DAY) as i64, nanos: now.nanos },
    )
}

/// Whether a row is past a window, and so purged.
pub fn is_purged(timestamp: Timestamp, retention_days: i64, now: Timestamp) -> (b: bool)
    requires
        window_fits(retention_days, now),
    ensures
        b == is_expired(timestamp, retention_days, now),
{
    match purge_threshold(retention_days, now) {
        Some(start) => timestamp.secs < start.secs || (timestamp.secs == start.secs
            && timestamp.nanos < start.nanos),
        None => false,
    }
}

/// A window that is not positive purges nothing, and a longer window never purges a row that a
/// shorter one keeps.
pub proof fn law_longer_windows_keep_more(
    timestamp: Timestamp,
    shorter: i64,
    longer: i64,
    now: Timestamp,
)
    requires
        0 < shorter <= longer,
        window_fits(longer, now),
    ensures
        !is_expired(timestamp, 0, now),
        is_expired(timestamp, longer, now) ==> is_expired(timestamp, shorter, now),
{
    assert(shorter * SECONDS_PER_DAY <= longer * SECONDS_PER_DAY) by (nonlinear_arith)
        requires
            shorter <= longer,
            SECONDS_PER_DAY == 86_400,
    ;
}

/// A number of days that is written out is taken as it is, zero included; a negative one, what is no
/// number and what is not there leave the default.
pub proof fn law_days_are_taken_as_written(
    value: Option<Seq<char>>,
    days: int,
    default_days: i64,
)
    ensures
        value is None ==> configured_days(value, default_days) == default_days,
        value matches Some(raw) ==> text::signed_value(text::trimmed(raw)) is None
            ==> configured_days(value, default_days) == default_days,
        value matches Some(raw) ==> text::trimmed(raw) == text::signed_decimal(days) && 0 <= days
            <= i64::MAX ==> configured_days(value, default_days) == days,
        value matches Some(raw) ==> text::trimmed(raw) == text::signed_decimal(days) && days < 0
            ==> configured_days(value, default_days) == default_days,
        DEFAULT_SYNC_LOG_RETENTION_DAYS == 92,
        DEFAULT_AUDIT_LOG_RETENTION_DAYS == 365,
{
    text::law_signed_numbers_are_read_back(days);
}

/// A number of seconds that is written out is taken as it is, but for zero, which is one; what is no
/// number and what is not there is an hour.
pub proof fn law_sweeps_are_as_written(value: Option<Seq<char>>, seconds: nat)
    ensures
        value is None ==> configured_sweep(value) == 3_600,
        value matches Some(raw) ==> text::unsigned_value(text::trimmed(raw), u64::MAX as nat) is None
            ==> configured_sweep(value) == 3_600,
        value matches Some(raw) ==> text::trimmed(raw) == text::decimal(seconds) && 1 <= seconds
            <= u64::MAX ==> configured_sweep(value) == seconds,
        value matches Some(raw) ==> text::trimmed(raw) == text::decimal(0) ==> configured_sweep(
            value,
        ) == 1,
{
    text::law_unsigned_numbers_are_read_back(seconds, u64::MAX as nat);
    text::law_unsigned_numbers_are_read_back(0, u64::MAX as nat);
}

/// The nanoseconds from the epoch to a point in time.
pub open spec fn nanos_since_epoch(t: Timestamp) -> int {
    t.secs * 1_000_000_000 + t.nanos
}

/// A row is purged exactly where more than the window, to the nanosecond, lies between it and now.
pub proof fn law_rows_are_purged_once_past_the_window(
    timestamp: Timestamp,
    retention_days: i64,
    now: Timestamp,
)
    requires
        window_fits(retention_days, now),
        timestamp.nanos < 1_000_000_000,
        now.nanos < 1_000_000_000,
    ensures
        retention_days <= 0 ==> !is_expired(timestamp, retention_days, now),
        retention_days > 0 ==> (is_expired(timestamp, retention_days, now) <==> nanos_since_epoch(
            now,
        ) - nanos_since_epoch(timestamp) > retention_days * 86_400 * 1_000_000_000),
{
    if retention_days > 0 {
        let start = now.secs - retention_days * SECONDS_PER_DAY;
        assert(retention_days * SECONDS_PER_DAY == retention_days * 86_400);
        assert(i64::MIN <= start <= i64::MAX);
    }
}

} // verus!
