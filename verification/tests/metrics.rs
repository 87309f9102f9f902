use linebot_rs::metrics::LineBotMetrics;
use linebot_rs::metrics::SystemMetrics;

#[test]
fn test_system_metrics_creation() {
    let metrics = SystemMetrics::new(0);
    let uptime = metrics.uptime(50);
    assert!(uptime < 100);
}

#[test]
fn test_line_bot_metrics() {
    let mut metrics = LineBotMetrics::new();

    assert_eq!(metrics.total_users, 0);
    metrics.increment_users();
    assert_eq!(metrics.total_users, 1);

    assert_eq!(metrics.total_messages_sent, 0);
    metrics.increment_messages_sent();
    assert_eq!(metrics.total_messages_sent, 1);

    assert_eq!(metrics.total_messages_received, 0);
    metrics.increment_messages_received();
    assert_eq!(metrics.total_messages_received, 1);
}

#[test]
fn line_bot_metrics_gauges_report_counters() {
    let mut metrics = LineBotMetrics::new();
    metrics.increment_users();
    metrics.increment_users();
    metrics.increment_api_errors();
    let (users, errors) = metrics.update_gauges();
    assert_eq!(users, 2);
    assert_eq!(errors, 1);
}

#[test]
fn system_metrics_uptime_grows_with_clock() {
    let metrics = SystemMetrics::new(100);
    assert_eq!(metrics.uptime(100), 0);
    assert_eq!(metrics.uptime(160), 60);
    // A clock that moved backwards reads as no uptime rather than wrapping.
    assert_eq!(metrics.uptime(40), 0);
}
