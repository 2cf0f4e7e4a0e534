use gpu_share_vm_manager::monitoring::anomaly_detection::AnomalyDetector;
use gpu_share_vm_manager::monitoring::metrics::{
    GPUMetrics, MetricsCollector, MetricsError, ResourceMetrics, calculate_cpu_percent,
    cpu_usage_centipercent, merge_gpu_backends,
};

fn sample_at(timestamp: u64) -> ResourceMetrics {
    ResourceMetrics {
        timestamp,
        cpu_usage_centipercent: 1200,
        memory_usage_mb: 256,
        memory_total_mb: 1024,
        gpu_metrics: None,
    }
}

#[test]
fn retention_prunes_old_samples_and_keeps_the_boundary() {
    // One hour of retention. A sample aged exactly one hour at the next
    // tick is retained; one second older is gone.
    let mut c = MetricsCollector::new(5, 1);
    c.start_collection("vm-1");
    c.record_sample("vm-1", sample_at(1000)).unwrap();
    c.record_sample("vm-1", sample_at(1000 + 3600)).unwrap();
    let got = c.get_metrics("vm-1").unwrap();
    assert_eq!(got.len(), 2);
    assert_eq!(got[0].timestamp, 1000);

    c.record_sample("vm-1", sample_at(1000 + 3601)).unwrap();
    let got = c.get_metrics("vm-1").unwrap();
    assert_eq!(got.len(), 2);
    assert_eq!(got[0].timestamp, 1000 + 3600);
    assert_eq!(got[1].timestamp, 1000 + 3601);
}

#[test]
fn stop_ends_all_appending() {
    let mut c = MetricsCollector::new(5, 24);
    c.start_collection("vm-1");
    c.record_sample("vm-1", sample_at(10)).unwrap();
    c.stop().unwrap();
    assert_eq!(
        c.record_sample("vm-1", sample_at(20)),
        Err(MetricsError::CollectorStopped)
    );
    let got = c.get_metrics("vm-1").unwrap();
    assert_eq!(got.len(), 1);
    assert_eq!(got[0].timestamp, 10);
}

#[test]
fn unknown_entities_are_refused() {
    let mut c = MetricsCollector::new(5, 24);
    assert_eq!(c.record_sample("ghost", sample_at(1)), Err(MetricsError::NoSuchEntity));
    assert_eq!(c.get_metrics("ghost"), Err(MetricsError::NoSuchEntity));
    assert_eq!(c.get_container_metrics("ghost"), Err(MetricsError::NoSuchEntity));
}

#[test]
fn starting_twice_registers_once() {
    let mut c = MetricsCollector::new(5, 24);
    c.start_collection("vm-1");
    c.start_collection("vm-1");
    assert_eq!(c.series.len(), 1);
}

#[test]
fn gpu_backends_are_tried_in_order() {
    let primary = GPUMetrics {
        utilization_centipercent: 5000,
        memory_used_mb: 2048,
        memory_total_mb: 8192,
        temperature_celsius: 61,
        power_usage_milliwatts: 150000,
    };
    let fallback = GPUMetrics { utilization_centipercent: 1, ..primary };
    assert_eq!(merge_gpu_backends(Some(primary), Some(fallback)), Some(primary));
    assert_eq!(merge_gpu_backends(None, Some(fallback)), Some(fallback));
    assert_eq!(merge_gpu_backends(None, None), None);
}

#[test]
fn cpu_usage_formula_is_exact() {
    // Half a second of CPU time over one second of wall clock: 50%.
    assert_eq!(cpu_usage_centipercent(500_000_000, 1), 5000);
    // Two full CPUs' worth over two seconds: 200%.
    assert_eq!(cpu_usage_centipercent(4_000_000_000, 2), 20000);
    assert_eq!(cpu_usage_centipercent(123, 0), 0);
}

#[test]
fn container_cpu_share_is_exact() {
    // A quarter of the system delta on one CPU: 25%.
    assert_eq!(calculate_cpu_percent(25, 100, 1), 2500);
    // The same share counted across four CPUs.
    assert_eq!(calculate_cpu_percent(25, 100, 4), 10000);
    assert_eq!(calculate_cpu_percent(0, 100, 4), 0);
    assert_eq!(calculate_cpu_percent(25, 0, 4), 0);
}

#[test]
fn anomalies_are_flagged_per_threshold() {
    let detector = AnomalyDetector {
        cpu_threshold_centipercent: 9000,
        memory_threshold_centipercent: 8000,
    };
    let calm = ResourceMetrics {
        timestamp: 1,
        cpu_usage_centipercent: 1000,
        memory_usage_mb: 100,
        memory_total_mb: 1000,
        gpu_metrics: None,
    };
    let busy_cpu = ResourceMetrics { timestamp: 2, cpu_usage_centipercent: 9500, ..calm };
    let busy_mem = ResourceMetrics {
        timestamp: 3,
        memory_usage_mb: 900,
        memory_total_mb: 1000,
        ..calm
    };
    let report = detector.analyze_metrics(&vec![calm, busy_cpu, busy_mem]);
    assert_eq!(report.len(), 2);
    assert_eq!(report[0].timestamp, 2);
    assert!(report[0].cpu_anomaly);
    assert!(!report[0].memory_anomaly);
    assert_eq!(report[1].timestamp, 3);
    assert!(!report[1].cpu_anomaly);
    assert!(report[1].memory_anomaly);
}

#[test]
fn cpu_deltas_are_per_entity() {
    let mut c = MetricsCollector::new(5, 24);
    c.start_collection("vm-1");
    c.start_collection("vm-2");
    // First tick sets the baseline counters.
    assert_eq!(c.cpu_usage_for_tick("vm-1", 0, 100).unwrap(), 0);
    // Half a CPU-second over one wall second: 50%, from vm-1's own counters.
    assert_eq!(c.cpu_usage_for_tick("vm-1", 500_000_000, 101).unwrap(), 5000);
    // vm-2's counters are untouched by vm-1's ticks.
    assert_eq!(c.cpu_usage_for_tick("vm-2", 0, 200).unwrap(), 0);
    assert_eq!(c.cpu_usage_for_tick("vm-2", 2_000_000_000, 201).unwrap(), 20000);
    assert_eq!(c.cpu_usage_for_tick("ghost", 1, 1), Err(MetricsError::NoSuchEntity));
}
