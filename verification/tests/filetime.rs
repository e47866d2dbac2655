use rencfs_winfsp::filetime::{
    checked_filetime, filetime_from_system_time, filetime_from_unix, system_time_from_filetime,
    unix_from_filetime, LAST_TICK, WINDOWS_EPOCH_OFFSET,
};
use std::time::{Duration, UNIX_EPOCH};

#[test]
fn filetime_round_trip_is_stable_to_one_hundred_nanoseconds() {
    let original = UNIX_EPOCH + Duration::new(1_234_567, 890_123_400);
    let round_trip = system_time_from_filetime(filetime_from_system_time(original));
    assert_eq!(original, round_trip);
}

#[test]
fn ticks_are_counted_from_1601() {
    assert_eq!(filetime_from_system_time(UNIX_EPOCH), 116_444_736_000_000_000);
    let time = UNIX_EPOCH + Duration::new(1_000_000_000, 123_456_789);
    assert_eq!(filetime_from_system_time(time), 126_444_736_001_234_567);
    assert_eq!(filetime_from_unix(1_000_000_000, 123_456_789), 126_444_736_001_234_567);
}

#[test]
fn parts_of_a_tick_are_cut_off() {
    let time = UNIX_EPOCH + Duration::new(7, 99);
    assert_eq!(
        system_time_from_filetime(filetime_from_system_time(time)),
        UNIX_EPOCH + Duration::new(7, 0)
    );
    let time = UNIX_EPOCH + Duration::new(7, 199);
    assert_eq!(
        system_time_from_filetime(filetime_from_system_time(time)),
        UNIX_EPOCH + Duration::new(7, 100)
    );
}

#[test]
fn times_before_the_epoch_count_as_the_epoch() {
    let before = UNIX_EPOCH - Duration::new(3, 500);
    assert_eq!(filetime_from_system_time(before), WINDOWS_EPOCH_OFFSET);
    assert_eq!(checked_filetime(before), Some(WINDOWS_EPOCH_OFFSET));
    for tick in [0, 1, WINDOWS_EPOCH_OFFSET - 1, WINDOWS_EPOCH_OFFSET] {
        assert_eq!(system_time_from_filetime(tick), UNIX_EPOCH);
        assert_eq!(unix_from_filetime(tick), (0, 0));
    }
}

#[test]
fn ticks_come_back_from_their_times() {
    let now = 133_000_000_012_345_678;
    for tick in [WINDOWS_EPOCH_OFFSET, WINDOWS_EPOCH_OFFSET + 1, now, LAST_TICK] {
        assert_eq!(filetime_from_system_time(system_time_from_filetime(tick)), tick);
    }
    assert_eq!(unix_from_filetime(WINDOWS_EPOCH_OFFSET + 10_000_001), (1, 100));
    assert_eq!(unix_from_filetime(u64::MAX), (1_833_029_933_770, 955_161_500));
}

#[test]
fn counts_that_do_not_fit_are_found_out() {
    let early = UNIX_EPOCH + Duration::new(1, 0);
    assert_eq!(checked_filetime(early), Some(WINDOWS_EPOCH_OFFSET + 10_000_000));
    let last = UNIX_EPOCH + Duration::new(1_833_029_933_770, 955_161_599);
    assert_eq!(checked_filetime(last), Some(u64::MAX));
    let beyond = UNIX_EPOCH + Duration::new(1_833_029_933_770, 955_161_600);
    assert_eq!(checked_filetime(beyond), None);
    let far_beyond = UNIX_EPOCH + Duration::new(1_833_029_933_771, 0);
    assert_eq!(checked_filetime(far_beyond), None);
}

#[test]
fn later_times_have_no_earlier_ticks() {
    let times = [(0, 0), (0, 99), (0, 100), (0, 999_999_999), (1, 0), (60, 5)];
    for pair in times.windows(2) {
        let (secs, nanos) = pair[0];
        let (later_secs, later_nanos) = pair[1];
        assert!(filetime_from_unix(secs, nanos) <= filetime_from_unix(later_secs, later_nanos));
    }
}

#[test]
fn later_system_times_have_no_earlier_ticks() {
    let times = [
        UNIX_EPOCH - Duration::new(9, 0),
        UNIX_EPOCH - Duration::new(0, 1),
        UNIX_EPOCH,
        UNIX_EPOCH + Duration::new(0, 99),
        UNIX_EPOCH + Duration::new(0, 100),
        UNIX_EPOCH + Duration::new(1, 0),
    ];
    for pair in times.windows(2) {
        assert!(pair[0] < pair[1]);
        assert!(filetime_from_system_time(pair[0]) <= filetime_from_system_time(pair[1]));
    }
}
