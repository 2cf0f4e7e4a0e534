//! Threshold-based anomaly flagging over recorded samples.

use vstd::prelude::*;
use crate::monitoring::metrics::ResourceMetrics;

verus! {

/// One flagged sample: which of its readings crossed a threshold.
#[derive(Debug, Clone, Copy, PartialEq, Eq, Structural)]
pub struct Anomaly {
    pub timestamp: u64,
    pub cpu_anomaly: bool,
    pub memory_anomaly: bool,
}

impl Anomaly {
    /// An anomaly record for the sample at `timestamp`.
    pub fn new(timestamp: u64, cpu_anomaly: bool, memory_anomaly: bool) -> (r: Anomaly)
        ensures
            r == (Anomaly { timestamp, cpu_anomaly, memory_anomaly }),
    {
        Anomaly { timestamp, cpu_anomaly, memory_anomaly }
    }
}

/// Flags samples whose CPU share or memory ratio crosses a threshold;
/// both thresholds are in hundredths of a percent.
#[derive(Debug, Clone, Copy)]
pub struct AnomalyDetector {
    pub cpu_threshold_centipercent: u64,
    pub memory_threshold_centipercent: u64,
}

/// The sample's CPU reading crossed the threshold.
pub open spec fn cpu_anomalous(m: ResourceMetrics, threshold: u64) -> bool {
    m.cpu_usage_centipercent > threshold
}

/// The sample's memory ratio crossed the threshold. With no recorded
/// capacity, any nonzero usage counts as anomalous.
pub open spec fn memory_anomalous(m: ResourceMetrics, threshold: u64) -> bool {
    if m.memory_total_mb == 0 {
        m.memory_usage_mb > 0
    } else {
        (m.memory_usage_mb as int) * 10000 / (m.memory_total_mb as int) > threshold as int
    }
}

/// The anomalies among `s`, in sample order: one record per sample that
/// crossed either threshold.
pub open spec fn anomalies_of(s: Seq<ResourceMetrics>, cpu_thr: u64, mem_thr: u64) -> Seq<Anomaly>
    decreases s.len(),
{
    if s.len() == 0 {
        Seq::empty()
    } else {
        let pre = anomalies_of(s.drop_last(), cpu_thr, mem_thr);
        let m = s.last();
        if cpu_anomalous(m, cpu_thr) || memory_anomalous(m, mem_thr) {
            pre.push(
                Anomaly {
                    timestamp: m.timestamp,
                    cpu_anomaly: cpu_anomalous(m, cpu_thr),
                    memory_anomaly: memory_anomalous(m, mem_thr),
                },
            )
        } else {
            pre
        }
    }
}

impl AnomalyDetector {
    /// Scans the samples and reports every threshold crossing.
    pub fn analyze_metrics(&self, metrics: &Vec<ResourceMetrics>) -> (r: Vec<Anomaly>)
        ensures
            r@ == anomalies_of(
                metrics@,
                self.cpu_threshold_centipercent,
                self.memory_threshold_centipercent,
            ),
    {
        let n = metrics.len();
        let mut r: Vec<Anomaly> = Vec::new();
        let mut i: usize = 0;
        while i < n
            invariant
                n == metrics@.len(),
                i <= n,
                r@ =~= anomalies_of(
                    metrics@.take(i as int),
                    self.cpu_threshold_centipercent,
                    self.memory_threshold_centipercent,
                ),
            decreases n - i,
        {
            let m = metrics[i];
            let cpu_flag = m.cpu_usage_centipercent > self.cpu_threshold_centipercent;
            let mem_flag = if m.memory_total_mb == 0 {
                m.memory_usage_mb > 0
            } else {
                let ratio: u128 = m.memory_usage_mb as u128 * 10000 / m.memory_total_mb as u128;
                ratio > self.memory_threshold_centipercent as u128
            };
            proof {
                assert(metrics@.take(i + 1).drop_last() =~= metrics@.take(i as int));
                assert(cpu_flag == cpu_anomalous(metrics@[i as int], self.cpu_threshold_centipercent));
                assert(mem_flag == memory_anomalous(
                    metrics@[i as int],
                    self.memory_threshold_centipercent,
                ));
            }
            if cpu_flag || mem_flag {
                r.push(Anomaly { timestamp: m.timestamp, cpu_anomaly: cpu_flag, memory_anomaly: mem_flag });
            }
            i = i + 1;
        }
        proof {
            assert(metrics@.take(n as int) =~= metrics@);
        }
        r
    }
}

} // verus!
