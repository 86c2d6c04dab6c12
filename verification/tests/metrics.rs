use bolt_load::metrics::{FileWriterMetrics, MetricsSnapshot, Speed, MIN_SAMPLE_NANOS};

const SECOND: u64 = 1_000_000_000;

fn bytes_per_second(speed: Speed) -> f64 {
    speed.bytes as f64 / (speed.nanos as f64 / SECOND as f64)
}

#[test]
fn test_metrics_new() {
    let metrics = FileWriterMetrics::new();
    assert_eq!(metrics.get_queue_depth(), 0);
    assert_eq!(metrics.get_total_bytes_written(), 0);
}

#[test]
fn test_queue_depth() {
    let mut metrics = FileWriterMetrics::new();
    metrics.set_queue_depth(10);
    assert_eq!(metrics.get_queue_depth(), 10);

    metrics.set_queue_depth(42);
    assert_eq!(metrics.get_queue_depth(), 42);
}

#[test]
fn test_bytes_written() {
    let mut metrics = FileWriterMetrics::new();
    metrics.add_bytes_written(100);
    assert_eq!(metrics.get_total_bytes_written(), 100);

    metrics.add_bytes_written(50);
    assert_eq!(metrics.get_total_bytes_written(), 150);
}

#[test]
fn test_write_speed() {
    let mut metrics = FileWriterMetrics::new();

    // Initial speed should be 0
    let start: u64 = metrics.last_sample_time;
    let speed1 = bytes_per_second(metrics.sample_write_speed_at(start));
    assert_eq!(speed1, 0.0);

    // Write some bytes and let 100 ms pass
    metrics.add_bytes_written(1000);

    let speed2 = bytes_per_second(metrics.sample_write_speed_at(start + SECOND / 10));
    // Speed should be approximately 10000 bytes/sec (1000 bytes / 0.1 sec)
    assert!(speed2 > 5000.0 && speed2 < 15000.0);
    assert_eq!(speed2, 10000.0);
}

#[test]
fn test_snapshot() {
    let mut metrics = FileWriterMetrics::new();
    metrics.set_queue_depth(5);
    metrics.add_bytes_written(200);

    let snapshot = metrics.snapshot();
    assert_eq!(snapshot.queue_depth, 5);
    assert_eq!(snapshot.total_bytes_written, 200);
}

#[test]
fn too_short_an_interval_gives_no_speed() {
    let mut metrics = FileWriterMetrics::new();
    let start: u64 = metrics.last_sample_time;
    metrics.add_bytes_written(1000);
    let speed = metrics.sample_write_speed_at(start + MIN_SAMPLE_NANOS - 1);
    assert_eq!(speed, Speed { bytes: 0, nanos: 1 });
}

#[test]
fn a_second_sample_counts_only_new_bytes() {
    let mut metrics = FileWriterMetrics::new();
    let start: u64 = metrics.last_sample_time;
    metrics.add_bytes_written(1000);
    assert_eq!(
        metrics.sample_write_speed_at(start + SECOND),
        Speed { bytes: 1000, nanos: SECOND }
    );
    assert_eq!(bytes_per_second(metrics.sample_write_speed_at(start + 2 * SECOND)), 0.0);
    metrics.add_bytes_written(1);
    // One byte in four seconds is a quarter of a byte per second
    assert_eq!(bytes_per_second(metrics.sample_write_speed_at(start + 6 * SECOND)), 0.25);
}

#[test]
fn a_snapshot_takes_the_speed_with_it() {
    let mut metrics = FileWriterMetrics::new();
    let start: u64 = metrics.last_sample_time;
    metrics.set_queue_depth(3);
    metrics.add_bytes_written(4000);
    assert_eq!(
        metrics.snapshot_at(start + 2 * SECOND),
        MetricsSnapshot {
            queue_depth: 3,
            total_bytes_written: 4000,
            write_speed: Speed { bytes: 4000, nanos: 2 * SECOND },
        }
    );
}
