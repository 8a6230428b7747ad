use notify_push::metrics::Metrics;

#[test]
fn counters_start_at_zero() {
    let metrics = Metrics::new();
    assert_eq!(metrics.active_connection_count(), 0);
    assert_eq!(metrics.message_count(), 0);
    assert_eq!(Metrics::default(), metrics);
}

#[test]
fn connections_are_counted_in_and_out() {
    let mut metrics = Metrics::new();
    metrics.add_connection();
    metrics.add_connection();
    assert_eq!(metrics.active_connection_count(), 2);
    metrics.remove_connection();
    assert_eq!(metrics.active_connection_count(), 1);
    metrics.remove_connection();
    assert_eq!(metrics.active_connection_count(), 0);
    assert_eq!(metrics.message_count(), 0);
}

#[test]
fn messages_are_counted() {
    let mut metrics = Metrics::new();
    metrics.add_message();
    metrics.add_message();
    metrics.add_message();
    assert_eq!(metrics.message_count(), 3);
    assert_eq!(metrics.active_connection_count(), 0);
}

#[test]
fn connection_counter_wraps_below_zero_and_back() {
    let mut metrics = Metrics::new();
    metrics.remove_connection();
    assert_eq!(metrics.active_connection_count(), u64::MAX);
    metrics.add_connection();
    assert_eq!(metrics.active_connection_count(), 0);
}
