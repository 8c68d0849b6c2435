use ax_exchange_sdk::protocol::time_range::{TimeRangeNs, MAX_HISTORICAL_ORDERS_WINDOW_NS};
use chrono::{DateTime, Utc};

const DAY_NS: u64 = 24 * 60 * 60 * 1_000_000_000;
const WINDOW_NS: u64 = 7 * DAY_NS;
const NOW_NS: u64 = 100 * DAY_NS;

#[test]
fn validate_allows_missing_bounds() {
    let ok = TimeRangeNs {
        start_timestamp_ns: Some(10),
        end_timestamp_ns: None,
    };
    ok.validate().unwrap();
}

#[test]
fn from_datetimes_drops_pre_epoch() {
    let pre_epoch: DateTime<Utc> = "1969-12-31T23:59:59Z".parse().unwrap();
    let post_epoch: DateTime<Utc> = "2024-01-01T00:00:00Z".parse().unwrap();
    let r = TimeRangeNs::from_timestamp_nanos(
        pre_epoch.timestamp_nanos_opt(),
        post_epoch.timestamp_nanos_opt(),
    );
    assert_eq!(r.start_timestamp_ns, None);
    assert_eq!(r.end_timestamp_ns, Some(1_704_067_200_000_000_000));
}

#[test]
fn ensure_window_rejects_missing_bounds() {
    for r in [
        TimeRangeNs::default(),
        TimeRangeNs {
            start_timestamp_ns: Some(NOW_NS - DAY_NS),
            end_timestamp_ns: None,
        },
        TimeRangeNs {
            start_timestamp_ns: None,
            end_timestamp_ns: Some(NOW_NS),
        },
    ] {
        let err = r.ensure_within_max_window(WINDOW_NS).unwrap_err();
        assert!(err.to_string().contains("bounded time range is required"));
    }
}

#[test]
fn ensure_window_rejects_too_wide() {
    let r = TimeRangeNs {
        start_timestamp_ns: Some(NOW_NS - 8 * DAY_NS),
        end_timestamp_ns: Some(NOW_NS),
    };
    let err = r.ensure_within_max_window(WINDOW_NS).unwrap_err();
    assert_eq!(err.to_string(), "time range too wide: maximum 7 days");
}

#[test]
fn ensure_window_accepts_exact_and_within() {
    let exact = TimeRangeNs {
        start_timestamp_ns: Some(NOW_NS - WINDOW_NS),
        end_timestamp_ns: Some(NOW_NS),
    };
    exact.ensure_within_max_window(WINDOW_NS).unwrap();

    let within = TimeRangeNs {
        start_timestamp_ns: Some(NOW_NS - DAY_NS),
        end_timestamp_ns: Some(NOW_NS),
    };
    within.ensure_within_max_window(WINDOW_NS).unwrap();
}

#[test]
fn ensure_window_rejects_end_le_start() {
    let r = TimeRangeNs {
        start_timestamp_ns: Some(NOW_NS),
        end_timestamp_ns: Some(NOW_NS),
    };
    let err = r.ensure_within_max_window(WINDOW_NS).unwrap_err();
    assert_eq!(
        err.to_string(),
        "end_timestamp_ns must be greater than start_timestamp_ns"
    );
}

#[test]
fn validate_rejects_end_le_start() {
    let err = TimeRangeNs {
        start_timestamp_ns: Some(10),
        end_timestamp_ns: Some(10),
    }
    .validate()
    .unwrap_err();
    assert_eq!(
        err.to_string(),
        "end_timestamp_ns must be greater than start_timestamp_ns"
    );
}

#[test]
fn max_historical_window_is_seven_days() {
    assert_eq!(MAX_HISTORICAL_ORDERS_WINDOW_NS, 604_800_000_000_000);
}

#[test]
fn accepted_window_is_also_valid() {
    let r = TimeRangeNs {
        start_timestamp_ns: Some(NOW_NS - DAY_NS),
        end_timestamp_ns: Some(NOW_NS),
    };
    assert!(r.ensure_within_max_window(WINDOW_NS).is_ok());
    assert!(r.validate().is_ok());
}

#[test]
fn too_wide_message_counts_whole_days() {
    let r = TimeRangeNs {
        start_timestamp_ns: Some(0),
        end_timestamp_ns: Some(3 * DAY_NS),
    };
    let err = r.ensure_within_max_window(DAY_NS + DAY_NS / 2).unwrap_err();
    assert_eq!(err, "time range too wide: maximum 1 days");
}

#[test]
fn from_timestamp_nanos_keeps_epoch_and_missing() {
    let r = TimeRangeNs::from_timestamp_nanos(Some(0), None);
    assert_eq!(r.start_timestamp_ns, Some(0));
    assert_eq!(r.end_timestamp_ns, None);
}
