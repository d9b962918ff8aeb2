use market_streams::candle::{CandleClock, OrderError, Tick};

#[test]
fn first_quote_opens_the_first_candle() {
    let mut c = CandleClock::new(10);
    assert_eq!(c.current_start(), None);
    assert_eq!(c.last(), None);
    assert_eq!(c.observe(1234), Ok(Tick::Opened));
    assert_eq!(c.current_start(), Some(1234));
    assert_eq!(c.last(), Some(1234));
    assert_eq!(c.duration(), 10);
}

#[test]
fn quotes_within_a_bucket_emit_nothing_until_it_ends() {
    let mut c = CandleClock::new(10);
    assert_eq!(c.observe(0), Ok(Tick::Opened));
    assert_eq!(c.observe(5), Ok(Tick::Joined));
    assert_eq!(c.observe(9), Ok(Tick::Joined));
    assert_eq!(c.observe(10), Ok(Tick::Rolled { closed: 0, opened: 10 }));
    assert_eq!(c.current_start(), Some(10));
    assert_eq!(c.last(), Some(10));
}

#[test]
fn gap_of_two_buckets_skips_one_bucket() {
    let mut c = CandleClock::new(10);
    assert_eq!(c.observe(0), Ok(Tick::Opened));
    assert_eq!(c.observe(20), Ok(Tick::Rolled { closed: 0, opened: 20 }));
    assert_eq!(c.current_start(), Some(20));
    assert_eq!(c.observe(29), Ok(Tick::Joined));
}

#[test]
fn gap_counts_from_the_bucket_start() {
    let mut c = CandleClock::new(10);
    assert_eq!(c.observe(0), Ok(Tick::Opened));
    assert_eq!(c.observe(7), Ok(Tick::Joined));
    assert_eq!(c.observe(27), Ok(Tick::Rolled { closed: 0, opened: 20 }));
    assert_eq!(c.observe(29), Ok(Tick::Joined));
    assert_eq!(c.observe(65), Ok(Tick::Rolled { closed: 20, opened: 60 }));
}

#[test]
fn old_quote_is_an_ordering_error() {
    let mut c = CandleClock::new(10);
    assert_eq!(c.observe(100), Ok(Tick::Opened));
    assert_eq!(c.observe(105), Ok(Tick::Joined));
    assert_eq!(
        c.observe(104),
        Err(OrderError { last: 105, received: 104 })
    );
    assert_eq!(c.last(), Some(105));
    assert_eq!(c.current_start(), Some(100));
    assert_eq!(c.observe(105), Ok(Tick::Joined));
}

#[test]
fn equal_timestamps_are_in_order() {
    let mut c = CandleClock::new(1);
    assert_eq!(c.observe(-5), Ok(Tick::Opened));
    assert_eq!(c.observe(-5), Ok(Tick::Joined));
    assert_eq!(c.observe(-4), Ok(Tick::Rolled { closed: -5, opened: -4 }));
}

#[test]
fn extreme_timestamps_do_not_overflow() {
    let mut c = CandleClock::new(u64::MAX);
    assert_eq!(c.observe(i64::MIN), Ok(Tick::Opened));
    assert_eq!(c.observe(i64::MAX - 1), Ok(Tick::Joined));
    assert_eq!(
        c.observe(i64::MAX),
        Ok(Tick::Rolled { closed: i64::MIN, opened: i64::MAX })
    );
    let mut d = CandleClock::new(3);
    assert_eq!(d.observe(i64::MIN), Ok(Tick::Opened));
    assert_eq!(
        d.observe(i64::MAX - 1),
        Ok(Tick::Rolled { closed: i64::MIN, opened: i64::MAX - 3 })
    );
    assert_eq!(
        d.observe(i64::MAX),
        Ok(Tick::Rolled { closed: i64::MAX - 3, opened: i64::MAX })
    );
}

#[test]
fn quote_two_durations_after_the_last_moves_two_buckets() {
    let mut c = CandleClock::new(10);
    assert_eq!(c.observe(0), Ok(Tick::Opened));
    assert_eq!(c.observe(5), Ok(Tick::Joined));
    assert_eq!(c.observe(25), Ok(Tick::Rolled { closed: 0, opened: 20 }));
    assert_eq!(c.current_start(), Some(20));
}
