//! Metric sampling with bounded retention.
//!
//! The embedding layer runs the periodic loop: each tick it gathers the
//! host-level numbers (and GPU numbers while the device is attached),
//! builds one [`ResourceMetrics`] and hands it to `record_sample`, which
//! appends it to the entity's series and prunes everything older than the
//! retention horizon — pruning is part of the tick, never a separate
//! sweep. A sample exactly at the horizon is retained.
//!
//! Usage-delta state lives inside each series, not in process-wide
//! counters, so concurrent entities cannot corrupt each other's deltas.

use vstd::prelude::*;

verus! {

/// GPU numbers of one sample. Ratios are in hundredths of a percent,
/// power in milliwatts, so samples stay exact integers.
#[derive(Debug, Clone, Copy, PartialEq, Eq, Structural)]
pub struct GPUMetrics {
    pub utilization_centipercent: u64,
    pub memory_used_mb: u64,
    pub memory_total_mb: u64,
    pub temperature_celsius: i32,
    pub power_usage_milliwatts: u64,
}

/// One timestamped sample: host CPU and memory always, GPU numbers only
/// while the entity has an attached passthrough device — a failed GPU
/// read leaves the field absent, never fails the tick.
#[derive(Debug, Clone, Copy, PartialEq, Eq, Structural)]
pub struct ResourceMetrics {
    /// Seconds since the epoch at the tick.
    pub timestamp: u64,
    /// Host CPU usage in hundredths of a percent.
    pub cpu_usage_centipercent: u64,
    pub memory_usage_mb: u64,
    pub memory_total_mb: u64,
    pub gpu_metrics: Option<GPUMetrics>,
}

/// A point-in-time summary of one container.
#[derive(Debug, Clone, Copy, PartialEq, Eq, Structural)]
pub struct ContainerStats {
    pub cpu_usage_centipercent: u64,
    pub memory_usage_kb: u64,
}

/// Why a metrics operation was refused.
#[derive(Debug, Clone, Copy, PartialEq, Eq, Structural)]
pub enum MetricsError {
    /// No series is registered for the entity.
    NoSuchEntity,
    /// The collector was stopped; nothing is appended any more.
    CollectorStopped,
}

/// The append-ordered, time-bounded sample series of one entity, with the
/// entity's own usage-delta state.
#[derive(Debug, Clone)]
pub struct MetricSeries {
    pub entity_id: String,
    pub samples: Vec<ResourceMetrics>,
    /// CPU time at the previous tick, for usage deltas.
    pub last_cpu_time_ns: u64,
    /// Timestamp of the previous tick, for usage deltas.
    pub last_timestamp: u64,
}

/// Mathematical image of a [`MetricSeries`].
#[verifier::ext_equal]
pub ghost struct SeriesV {
    pub entity_id: Seq<char>,
    pub samples: Seq<ResourceMetrics>,
    pub last_cpu_time_ns: u64,
    pub last_timestamp: u64,
}

impl View for MetricSeries {
    type V = SeriesV;

    open spec fn view(&self) -> SeriesV {
        SeriesV {
            entity_id: self.entity_id@,
            samples: self.samples@,
            last_cpu_time_ns: self.last_cpu_time_ns,
            last_timestamp: self.last_timestamp,
        }
    }
}

/// The views of a vector of series.
pub open spec fn all_series_view(s: Seq<MetricSeries>) -> Seq<SeriesV> {
    s.map_values(|t: MetricSeries| t@)
}

/// Whether a series for `id` exists.
pub open spec fn has_series(sv: Seq<SeriesV>, id: Seq<char>) -> bool {
    exists|i: int| 0 <= i < sv.len() && (#[trigger] sv[i]).entity_id == id
}

/// The index of the series for `id` (unique when series are well formed).
pub open spec fn series_idx(sv: Seq<SeriesV>, id: Seq<char>) -> int {
    choose|i: int| 0 <= i < sv.len() && (#[trigger] sv[i]).entity_id == id
}

/// Entity ids are unique across the store.
pub open spec fn wf_series(sv: Seq<SeriesV>) -> bool {
    forall|i: int, j: int|
        0 <= i < j < sv.len() ==> (#[trigger] sv[i]).entity_id != (#[trigger] sv[j]).entity_id
}

/// A sample is retained at time `now` when its age does not exceed the
/// horizon; a sample exactly at the horizon stays.
pub open spec fn retained(m: ResourceMetrics, now: u64, retention_secs: u64) -> bool {
    m.timestamp + retention_secs >= now
}

/// The series after one tick at `now`: the new sample appended, then
/// everything beyond the horizon pruned, order kept.
pub open spec fn spec_tick(
    samples: Seq<ResourceMetrics>,
    sample: ResourceMetrics,
    retention_secs: u64,
) -> Seq<ResourceMetrics> {
    samples.push(sample).filter(|m: ResourceMetrics| retained(m, sample.timestamp, retention_secs))
}

/// Collects resource samples per entity, at a fixed interval, keeping
/// each series no older than the retention horizon.
#[derive(Debug)]
pub struct MetricsCollector {
    pub series: Vec<MetricSeries>,
    pub collection_interval_secs: u64,
    pub history_retention_hours: u64,
    /// Cleared by `stop`: record calls append nothing afterwards.
    pub active: bool,
}

impl MetricsCollector {
    /// Entity ids are unique, and the horizon in seconds fits the
    /// machine's arithmetic.
    pub open spec fn wf(&self) -> bool {
        wf_series(all_series_view(self.series@)) && self.history_retention_hours <= u64::MAX / 3600
    }

    /// The retention horizon in seconds.
    pub open spec fn spec_retention_secs(&self) -> int {
        self.history_retention_hours * 3600
    }

    /// An empty collector sampling every `interval_secs` seconds and
    /// keeping `retention_hours` hours of history.
    pub fn new(interval_secs: u64, retention_hours: u64) -> (r: MetricsCollector)
        requires
            retention_hours <= u64::MAX / 3600,
        ensures
            r.wf(),
            r.series@.len() == 0,
            r.collection_interval_secs == interval_secs,
            r.history_retention_hours == retention_hours,
            r.active,
    {
        MetricsCollector {
            series: Vec::new(),
            collection_interval_secs: interval_secs,
            history_retention_hours: retention_hours,
            active: true,
        }
    }

    /// Index of the series for `entity_id`, if any.
    fn find_series(&self, entity_id: &str) -> (r: Option<usize>)
        requires
            wf_series(all_series_view(self.series@)),
        ensures
            match r {
                Some(i) => i < self.series@.len() && self.series@[i as int]@.entity_id
                    == entity_id@ && i as int == series_idx(
                    all_series_view(self.series@),
                    entity_id@,
                ) && has_series(all_series_view(self.series@), entity_id@),
                None => !has_series(all_series_view(self.series@), entity_id@),
            },
    {
        let ghost sv = all_series_view(self.series@);
        let n = self.series.len();
        let mut i: usize = 0;
        while i < n
            invariant
                n == self.series@.len(),
                i <= n,
                sv == all_series_view(self.series@),
                wf_series(sv),
                forall|k: int| 0 <= k < i ==> (#[trigger] sv[k]).entity_id != entity_id@,
            decreases n - i,
        {
            if crate::utils::str_eq(self.series[i].entity_id.as_str(), entity_id) {
                proof {
                    assert(sv[i as int].entity_id == entity_id@);
                    let c = series_idx(sv, entity_id@);
                    assert(0 <= c < sv.len() && sv[c].entity_id == entity_id@);
                    if c != i as int {
                        assert(false);
                    }
                }
                return Some(i);
            }
            proof {
                assert(sv[i as int] == self.series@[i as int]@);
            }
            i = i + 1;
        }
        proof {
            if has_series(sv, entity_id@) {
                let c = series_idx(sv, entity_id@);
                assert(0 <= c < sv.len() && sv[c].entity_id == entity_id@);
                assert(false);
            }
        }
        None
    }

    /// Begins collection for an entity: registers an empty series. Doing
    /// it again for the same entity changes nothing. The embedding layer
    /// then drives the periodic ticks.
    pub fn start_collection(&mut self, entity_id: &str)
        requires
            old(self).wf(),
        ensures
            final(self).wf(),
            final(self).active == old(self).active,
            final(self).collection_interval_secs == old(self).collection_interval_secs,
            final(self).history_retention_hours == old(self).history_retention_hours,
            ({
                let sv = all_series_view(old(self).series@);
                if has_series(sv, entity_id@) {
                    final(self).series@ == old(self).series@
                } else {
                    all_series_view(final(self).series@) == sv.push(
                        SeriesV {
                            entity_id: entity_id@,
                            samples: Seq::empty(),
                            last_cpu_time_ns: 0,
                            last_timestamp: 0,
                        },
                    )
                }
            }),
    {
        let ghost sv = all_series_view(self.series@);
        if let Some(_) = self.find_series(entity_id) {
            return;
        }
        let fresh = MetricSeries {
            entity_id: entity_id.to_owned(),
            samples: Vec::new(),
            last_cpu_time_ns: 0,
            last_timestamp: 0,
        };
        self.series.push(fresh);
        proof {
            assert(all_series_view(self.series@) =~= sv.push(
                SeriesV {
                    entity_id: entity_id@,
                    samples: Seq::empty(),
                    last_cpu_time_ns: 0,
                    last_timestamp: 0,
                },
            ));
            assert forall|a: int, b: int|
                0 <= a < b < all_series_view(self.series@).len() implies (
            #[trigger] all_series_view(self.series@)[a]).entity_id != (#[trigger] all_series_view(
                self.series@,
            )[b]).entity_id by {
                if b == sv.len() {
                    if all_series_view(self.series@)[a].entity_id == entity_id@ {
                        assert(sv[a].entity_id == entity_id@);
                        assert(has_series(sv, entity_id@));
                    }
                }
            }
        }
    }

    /// Prunes every sample older than the horizon, keeping order.
    fn cleanup_old_metrics(samples: &mut Vec<ResourceMetrics>, now: u64, retention_secs: u64)
        ensures
            final(samples)@ == old(samples)@.filter(
                |m: ResourceMetrics| retained(m, now, retention_secs),
            ),
    {
        let ghost sv = samples@;
        let n = samples.len();
        let mut kept: Vec<ResourceMetrics> = Vec::new();
        let mut i: usize = 0;
        while i < n
            invariant
                n == sv.len(),
                sv == samples@,
                i <= n,
                kept@ =~= sv.take(i as int).filter(
                    |m: ResourceMetrics| retained(m, now, retention_secs),
                ),
            decreases n - i,
        {
            let m = samples[i];
            let keep = m.timestamp >= now || now - m.timestamp <= retention_secs;
            proof {
                assert(keep == retained(sv[i as int], now, retention_secs));
                assert(sv.take(i + 1).drop_last() =~= sv.take(i as int));
                reveal(Seq::filter);
            }
            if keep {
                kept.push(m);
            }
            i = i + 1;
        }
        proof {
            assert(sv.take(n as int) =~= sv);
        }
        *samples = kept;
    }

    /// One tick for `entity_id`: appends the sample, then prunes the
    /// series to the retention horizon, boundary inclusive. Appends
    /// nothing once the collector is stopped, and nothing for an entity
    /// that was never started.
    pub fn record_sample(&mut self, entity_id: &str, sample: ResourceMetrics) -> (r: Result<
        (),
        MetricsError,
    >)
        requires
            old(self).wf(),
        ensures
            final(self).wf(),
            final(self).active == old(self).active,
            final(self).collection_interval_secs == old(self).collection_interval_secs,
            final(self).history_retention_hours == old(self).history_retention_hours,
            ({
                let sv = all_series_view(old(self).series@);
                match r {
                    Ok(()) => {
                        &&& old(self).active
                        &&& has_series(sv, entity_id@)
                        &&& ({
                            let i = series_idx(sv, entity_id@);
                            all_series_view(final(self).series@) == sv.update(
                                i,
                                SeriesV {
                                    samples: spec_tick(
                                        sv[i].samples,
                                        sample,
                                        (old(self).history_retention_hours * 3600) as u64,
                                    ),
                                    ..sv[i]
                                },
                            )
                        })
                    },
                    Err(MetricsError::CollectorStopped) => !old(self).active
                        && final(self).series@ == old(self).series@,
                    Err(MetricsError::NoSuchEntity) => old(self).active && !has_series(
                        sv,
                        entity_id@,
                    ) && final(self).series@ == old(self).series@,
                }
            }),
    {
        let ghost sv = all_series_view(self.series@);
        if !self.active {
            return Err(MetricsError::CollectorStopped);
        }
        let i = match self.find_series(entity_id) {
            Some(i) => i,
            None => {
                return Err(MetricsError::NoSuchEntity);
            },
        };
        let retention_secs = self.history_retention_hours * 3600;
        let now = sample.timestamp;
        self.series[i].samples.push(sample);
        MetricsCollector::cleanup_old_metrics(&mut self.series[i].samples, now, retention_secs);
        proof {
            assert(all_series_view(self.series@) =~= sv.update(
                i as int,
                SeriesV {
                    samples: spec_tick(sv[i as int].samples, sample, retention_secs),
                    ..sv[i as int]
                },
            ));
        }
        Ok(())
    }

    /// One usage-delta step for `entity_id`: the CPU share since the
    /// entity's previous tick, from its own recorded counters — never
    /// from process-wide state, so concurrent entities cannot corrupt
    /// each other's deltas. Updates the entity's counters to this tick.
    pub fn cpu_usage_for_tick(&mut self, entity_id: &str, cpu_time_ns: u64, now: u64) -> (r:
        Result<u64, MetricsError>)
        requires
            old(self).wf(),
        ensures
            final(self).wf(),
            final(self).active == old(self).active,
            final(self).collection_interval_secs == old(self).collection_interval_secs,
            final(self).history_retention_hours == old(self).history_retention_hours,
            ({
                let sv = all_series_view(old(self).series@);
                match r {
                    Ok(usage) => has_series(sv, entity_id@) && ({
                        let i = series_idx(sv, entity_id@);
                        let cpu_delta: u64 = if cpu_time_ns >= sv[i].last_cpu_time_ns {
                            (cpu_time_ns - sv[i].last_cpu_time_ns) as u64
                        } else {
                            0
                        };
                        let time_delta: u64 = if now >= sv[i].last_timestamp {
                            (now - sv[i].last_timestamp) as u64
                        } else {
                            0
                        };
                        &&& usage == (if time_delta > 0 {
                            (cpu_delta * 10000) / (time_delta * 1000000000)
                        } else {
                            0
                        })
                        &&& all_series_view(final(self).series@) == sv.update(
                            i,
                            SeriesV { last_cpu_time_ns: cpu_time_ns, last_timestamp: now, ..sv[i] },
                        )
                    }),
                    Err(MetricsError::NoSuchEntity) => !has_series(sv, entity_id@)
                        && final(self).series@ == old(self).series@,
                    _ => false,
                }
            }),
    {
        let ghost sv = all_series_view(self.series@);
        let i = match self.find_series(entity_id) {
            Some(i) => i,
            None => {
                return Err(MetricsError::NoSuchEntity);
            },
        };
        let last_cpu = self.series[i].last_cpu_time_ns;
        let last_ts = self.series[i].last_timestamp;
        let cpu_delta = if cpu_time_ns >= last_cpu {
            cpu_time_ns - last_cpu
        } else {
            0
        };
        let time_delta = if now >= last_ts {
            now - last_ts
        } else {
            0
        };
        let usage = cpu_usage_centipercent(cpu_delta, time_delta);
        self.series[i].last_cpu_time_ns = cpu_time_ns;
        self.series[i].last_timestamp = now;
        proof {
            assert(all_series_view(self.series@) =~= sv.update(
                i as int,
                SeriesV { last_cpu_time_ns: cpu_time_ns, last_timestamp: now, ..sv[i as int] },
            ));
        }
        Ok(usage)
    }

    /// A snapshot of the entity's series, oldest sample first.
    pub fn get_metrics(&self, entity_id: &str) -> (r: Result<Vec<ResourceMetrics>, MetricsError>)
        requires
            self.wf(),
        ensures
            ({
                let sv = all_series_view(self.series@);
                match r {
                    Ok(samples) => has_series(sv, entity_id@) && samples@ == sv[series_idx(
                        sv,
                        entity_id@,
                    )].samples,
                    Err(MetricsError::NoSuchEntity) => !has_series(sv, entity_id@),
                    _ => false,
                }
            }),
    {
        let i = match self.find_series(entity_id) {
            Some(i) => i,
            None => {
                return Err(MetricsError::NoSuchEntity);
            },
        };
        let n = self.series[i].samples.len();
        let mut out: Vec<ResourceMetrics> = Vec::new();
        let mut k: usize = 0;
        while k < n
            invariant
                i < self.series@.len(),
                n == self.series@[i as int].samples@.len(),
                k <= n,
                out@ =~= self.series@[i as int].samples@.take(k as int),
            decreases n - k,
        {
            out.push(self.series[i].samples[k]);
            k = k + 1;
        }
        proof {
            assert(self.series@[i as int].samples@.take(n as int) =~= self.series@[i as
                int].samples@);
        }
        Ok(out)
    }

    /// A snapshot of the entity's series, oldest sample first.
    pub fn get_container_metrics(&self, container_id: &str) -> (r: Result<
        Vec<ResourceMetrics>,
        MetricsError,
    >)
        requires
            self.wf(),
        ensures
            ({
                let sv = all_series_view(self.series@);
                match r {
                    Ok(samples) => has_series(sv, container_id@) && samples@ == sv[series_idx(
                        sv,
                        container_id@,
                    )].samples,
                    Err(MetricsError::NoSuchEntity) => !has_series(sv, container_id@),
                    _ => false,
                }
            }),
    {
        self.get_metrics(container_id)
    }

    /// Stops the collector: after this returns, no further sample is
    /// appended to any series.
    pub fn stop(&mut self) -> (r: Result<(), MetricsError>)
        ensures
            r is Ok,
            !final(self).active,
            final(self).series@ == old(self).series@,
            final(self).collection_interval_secs == old(self).collection_interval_secs,
            final(self).history_retention_hours == old(self).history_retention_hours,
    {
        self.active = false;
        Ok(())
    }
}

/// The GPU backends are tried in order: the primary vendor tool first,
/// then the raw-file fallback; a tick whose backends all failed simply
/// carries no GPU numbers.
pub fn merge_gpu_backends(primary: Option<GPUMetrics>, fallback: Option<GPUMetrics>) -> (r: Option<
    GPUMetrics,
>)
    ensures
        r == (if primary is Some {
            primary
        } else {
            fallback
        }),
{
    match primary {
        Some(m) => Some(m),
        None => fallback,
    }
}

/// CPU usage in hundredths of a percent, from a CPU-time delta in
/// nanoseconds over a wall-clock delta in seconds; zero when no time has
/// passed.
pub fn cpu_usage_centipercent(cpu_delta_ns: u64, time_delta_secs: u64) -> (r: u64)
    ensures
        r == (if time_delta_secs > 0 {
            (cpu_delta_ns * 10000) / (time_delta_secs * 1000000000)
        } else {
            0
        }),
{
    if time_delta_secs == 0 {
        return 0;
    }
    let num: u128 = cpu_delta_ns as u128 * 10000;
    let den: u128 = time_delta_secs as u128 * 1000000000;
    let q: u128 = num / den;
    proof {
        assert(q * den <= num) by (nonlinear_arith)
            requires
                q == num / den,
                den > 0,
        ;
        assert(q <= u64::MAX) by (nonlinear_arith)
            requires
                q * den <= num,
                num <= (u64::MAX as u128) * 10000,
                den >= 1000000000,
        ;
    }
    q as u64
}

/// Container CPU usage in hundredths of a percent from the runtime's
/// cumulative counters: the container's share of the system delta, scaled
/// by the number of online CPUs; zero when either delta is empty.
pub fn calculate_cpu_percent(cpu_delta: u64, system_delta: u64, online_cpus: u32) -> (r: u64)
    ensures
        r as int == (if cpu_delta > 0 && system_delta > 0 {
            let exact = (cpu_delta as int) * 10000 * (online_cpus as int) / (system_delta as int);
            if exact <= u64::MAX {
                exact
            } else {
                u64::MAX as int
            }
        } else {
            0
        }),
{
    if cpu_delta == 0 || system_delta == 0 {
        return 0;
    }
    proof {
        assert(cpu_delta as int * 10000 * (online_cpus as int) <= u128::MAX) by (nonlinear_arith)
            requires
                cpu_delta <= u64::MAX,
                online_cpus <= u32::MAX,
        ;
    }
    let num: u128 = cpu_delta as u128 * 10000 * online_cpus as u128;
    let den: u128 = system_delta as u128;
    let q: u128 = num / den;
    if q > u64::MAX as u128 {
        u64::MAX
    } else {
        q as u64
    }
}

/// Retention: after a tick at time `now`, no sample older than the
/// horizon remains in the series.
pub proof fn lemma_no_sample_beyond_horizon(
    samples: Seq<ResourceMetrics>,
    sample: ResourceMetrics,
    retention_secs: u64,
    k: int,
)
    requires
        0 <= k < spec_tick(samples, sample, retention_secs).len(),
    ensures
        spec_tick(samples, sample, retention_secs)[k].timestamp + retention_secs
            >= sample.timestamp,
    decreases samples.len(),
{
    lemma_filter_all_retained(
        samples.push(sample),
        sample.timestamp,
        retention_secs,
        k,
    );
}

proof fn lemma_filter_all_retained(s: Seq<ResourceMetrics>, now: u64, retention_secs: u64, k: int)
    requires
        0 <= k < s.filter(|m: ResourceMetrics| retained(m, now, retention_secs)).len(),
    ensures
        retained(s.filter(|m: ResourceMetrics| retained(m, now, retention_secs))[k], now,
            retention_secs),
    decreases s.len(),
{
    reveal(Seq::filter);
    if s.len() > 0 {
        let f = s.filter(|m: ResourceMetrics| retained(m, now, retention_secs));
        let fpre = s.drop_last().filter(|m: ResourceMetrics| retained(m, now, retention_secs));
        if k < fpre.len() {
            lemma_filter_all_retained(s.drop_last(), now, retention_secs, k);
        }
    }
}

/// Retention, boundary inclusive: a sample whose age at the tick equals
/// the horizon exactly is still in the series after the tick.
pub proof fn lemma_boundary_sample_retained(
    samples: Seq<ResourceMetrics>,
    sample: ResourceMetrics,
    retention_secs: u64,
    k: int,
)
    requires
        0 <= k < samples.len(),
        samples[k].timestamp + retention_secs >= sample.timestamp,
    ensures
        spec_tick(samples, sample, retention_secs).contains(samples[k]),
{
    let pushed = samples.push(sample);
    assert(pushed[k] == samples[k]);
    lemma_filter_keeps_retained(pushed, sample.timestamp, retention_secs, k);
}

proof fn lemma_filter_keeps_retained(s: Seq<ResourceMetrics>, now: u64, retention_secs: u64, k: int)
    requires
        0 <= k < s.len(),
        retained(s[k], now, retention_secs),
    ensures
        s.filter(|m: ResourceMetrics| retained(m, now, retention_secs)).contains(s[k]),
    decreases s.len(),
{
    reveal(Seq::filter);
    let f = s.filter(|m: ResourceMetrics| retained(m, now, retention_secs));
    if s.len() > 0 {
        let fpre = s.drop_last().filter(|m: ResourceMetrics| retained(m, now, retention_secs));
        if k == s.len() - 1 {
            assert(f == fpre.push(s[k]));
            assert(f[f.len() - 1] == s[k]);
        } else {
            assert(s.drop_last()[k] == s[k]);
            lemma_filter_keeps_retained(s.drop_last(), now, retention_secs, k);
            let j = choose|j: int| 0 <= j < fpre.len() && fpre[j] == s[k];
            if retained(s.last(), now, retention_secs) {
                assert(f == fpre.push(s.last()));
            } else {
                assert(f == fpre);
            }
            assert(f[j] == s[k]);
        }
    }
}

} // verus!
