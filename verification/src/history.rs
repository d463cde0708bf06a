//! The retained history: harvested snapshots merged into time series, the
//! rates computed on the way, and the pruning of old samples.

use vstd::prelude::*;
use crate::process::ProcessRecord;

verus! {

/// The network counters of a snapshot: bytes received and sent since the
/// counters started.
#[derive(Clone, Copy, Debug, PartialEq, Eq, Structural)]
pub struct NetworkHarvest {
    pub total_rx: u64,
    pub total_tx: u64,
}

/// The I/O figures of one disk, in bytes per second.
#[derive(Clone, Debug, PartialEq, Eq)]
pub struct DiskHarvest {
    pub name: String,
    pub read_bytes_per_sec: u64,
    pub write_bytes_per_sec: u64,
}

/// The reading of one temperature sensor, in thousandths of a degree of the
/// configured unit.
#[derive(Clone, Debug, PartialEq, Eq)]
pub struct TempHarvest {
    pub name: String,
    pub temperature: u64,
}

/// The state of one battery: its charge in thousandths of a percent, and
/// whether it is charging.
#[derive(Clone, Copy, Debug, PartialEq, Eq, Structural)]
pub struct BatteryHarvest {
    pub charge: u64,
    pub is_charging: bool,
}

/// One harvested snapshot. Times are in milliseconds, usage figures in
/// thousandths of a percent. A metric whose query failed is left empty.
#[derive(Clone, Debug, PartialEq, Eq)]
pub struct Data {
    pub collection_time: u64,
    /// CPU usage, one figure per core.
    pub cpu: Vec<u64>,
    pub memory: u64,
    pub swap: u64,
    pub network: NetworkHarvest,
    pub list_of_processes: Vec<ProcessRecord>,
    pub disks: Vec<DiskHarvest>,
    pub temperature_sensors: Vec<TempHarvest>,
    pub battery: Vec<BatteryHarvest>,
}

/// One sample of the history.
#[derive(Clone, Debug, PartialEq, Eq)]
pub struct TimedData {
    pub time: u64,
    pub rx_rate: u64,
    pub tx_rate: u64,
    pub cpu: Vec<u64>,
    pub memory: u64,
    pub swap: u64,
}

/// The counters of the last snapshot, against which the next one's rates
/// are computed.
#[derive(Clone, Copy, Debug, PartialEq, Eq, Structural)]
pub struct NetworkBaseline {
    pub time: u64,
    pub total_rx: u64,
    pub total_tx: u64,
}

/// The history that the event loop retains.
#[derive(Clone, Debug, PartialEq, Eq)]
pub struct DataCollection {
    /// The time of the last snapshot.
    pub current_instant: u64,
    /// The time at which the display was frozen, while it is.
    pub frozen_instant: Option<u64>,
    pub timed_data_vec: Vec<TimedData>,
    pub network_baseline: Option<NetworkBaseline>,
    /// The tables of the last snapshot.
    pub process_harvest: Vec<ProcessRecord>,
    pub disk_harvest: Vec<DiskHarvest>,
    pub temp_harvest: Vec<TempHarvest>,
    pub battery_harvest: Vec<BatteryHarvest>,
}

/// The rate, per second, at which a counter went from `previous_total` to
/// `total` in `elapsed_ms` milliseconds, held at the largest value a sample
/// can store. A counter that went back, or no time between the two
/// readings, gives 0.
pub open spec fn rate_per_second(previous_total: nat, total: nat, elapsed_ms: nat) -> nat {
    if elapsed_ms == 0 || total < previous_total {
        0
    } else if (total - previous_total) * 1000 / (elapsed_ms as int) > u64::MAX {
        u64::MAX as nat
    } else {
        ((total - previous_total) * 1000 / (elapsed_ms as int)) as nat
    }
}

/// The time from `earlier` to `later`, 0 where `earlier` is not earlier.
pub open spec fn elapsed_between(earlier: nat, later: nat) -> nat {
    if later >= earlier {
        (later - earlier) as nat
    } else {
        0
    }
}

/// The receive rate of a snapshot: 0 without a baseline, else the rate at
/// which the counter grew since the baseline.
pub open spec fn rx_rate_of(baseline: Option<NetworkBaseline>, data: Data) -> nat {
    match baseline {
        None => 0,
        Some(b) => rate_per_second(
            b.total_rx as nat,
            data.network.total_rx as nat,
            elapsed_between(b.time as nat, data.collection_time as nat),
        ),
    }
}

/// The send rate of a snapshot: 0 without a baseline, else the rate at which
/// the counter grew since the baseline.
pub open spec fn tx_rate_of(baseline: Option<NetworkBaseline>, data: Data) -> nat {
    match baseline {
        None => 0,
        Some(b) => rate_per_second(
            b.total_tx as nat,
            data.network.total_tx as nat,
            elapsed_between(b.time as nat, data.collection_time as nat),
        ),
    }
}

/// The sample that a snapshot adds to the history.
pub open spec fn sample_of(baseline: Option<NetworkBaseline>, data: Data) -> TimedData {
    TimedData {
        time: data.collection_time,
        rx_rate: rx_rate_of(baseline, data) as u64,
        tx_rate: tx_rate_of(baseline, data) as u64,
        cpu: data.cpu,
        memory: data.memory,
        swap: data.swap,
    }
}

/// The baseline that a snapshot leaves for the next one.
pub open spec fn baseline_of(data: Data) -> NetworkBaseline {
    NetworkBaseline {
        time: data.collection_time,
        total_rx: data.network.total_rx,
        total_tx: data.network.total_tx,
    }
}

/// A sample taken at `time` is older at `now` than `max_age` allows.
pub open spec fn is_stale(time: nat, now: nat, max_age: nat) -> bool {
    now - time > max_age
}

/// The samples that are not stale, in their order.
pub open spec fn fresh_samples(samples: Seq<TimedData>, now: nat, max_age: nat) -> Seq<TimedData> {
    samples.filter(|s: TimedData| !is_stale(s.time as nat, now, max_age))
}

/// One point of a graph: a value, and how long before the graph's time
/// base it was sampled.
#[derive(Clone, Copy, Debug, PartialEq, Eq, Structural)]
pub struct Point {
    pub age: u64,
    pub value: u64,
}

/// A time series of the history.
#[derive(Clone, Copy, Debug, PartialEq, Eq, Structural)]
pub enum Metric {
    Memory,
    Swap,
    NetworkRx,
    NetworkTx,
    /// The usage of one core, by its index.
    Cpu(usize),
}

/// What a sample holds for a metric: nothing for a core that the sample
/// does not have.
pub open spec fn metric_value(sample: TimedData, metric: Metric) -> Option<u64> {
    match metric {
        Metric::Memory => Some(sample.memory),
        Metric::Swap => Some(sample.swap),
        Metric::NetworkRx => Some(sample.rx_rate),
        Metric::NetworkTx => Some(sample.tx_rate),
        Metric::Cpu(core) => if core < sample.cpu@.len() {
            Some(sample.cpu@[core as int])
        } else {
            None
        },
    }
}

/// The points of a metric, one for each sample that holds it, in the order
/// of the samples, with ages counted back from `base`.
pub open spec fn data_points(samples: Seq<TimedData>, base: u64, metric: Metric) -> Seq<Point>
    decreases samples.len(),
{
    if samples.len() == 0 {
        Seq::empty()
    } else {
        let earlier = data_points(samples.drop_last(), base, metric);
        match metric_value(samples.last(), metric) {
            Some(value) => earlier.push(
                Point {
                    age: elapsed_between(samples.last().time as nat, base as nat) as u64,
                    value: value,
                },
            ),
            None => earlier,
        }
    }
}

/// The number of cores in the latest sample; 0 in an empty history.
pub open spec fn core_count(samples: Seq<TimedData>) -> nat {
    if samples.len() == 0 {
        0
    } else {
        samples.last().cpu@.len()
    }
}

/// What pruning keeps and drops: every sample that stays is within the
/// window, and every sample within the window stays.
pub proof fn lemma_fresh_samples(samples: Seq<TimedData>, now: nat, max_age: nat)
    ensures
        forall|i: int|
            0 <= i < fresh_samples(samples, now, max_age).len() ==> !is_stale(
                (#[trigger] fresh_samples(samples, now, max_age)[i]).time as nat,
                now,
                max_age,
            ),
        forall|i: int|
            0 <= i < samples.len() && !is_stale((#[trigger] samples[i]).time as nat, now, max_age)
                ==> fresh_samples(samples, now, max_age).contains(samples[i]),
        forall|i: int|
            0 <= i < fresh_samples(samples, now, max_age).len() ==> samples.contains(
                #[trigger] fresh_samples(samples, now, max_age)[i],
            ),
{
    let keep = |s: TimedData| !is_stale(s.time as nat, now, max_age);
    let fresh = samples.filter(keep);
    assert forall|i: int| 0 <= i < fresh.len() implies !is_stale(
        (#[trigger] fresh[i]).time as nat,
        now,
        max_age,
    ) by {
        samples.lemma_filter_pred(keep, i);
    }
    assert forall|i: int|
        0 <= i < samples.len() && !is_stale(
            (#[trigger] samples[i]).time as nat,
            now,
            max_age,
        ) implies fresh.contains(samples[i]) by {
        samples.lemma_filter_contains(keep, i);
    }
    assert forall|i: int| 0 <= i < fresh.len() implies samples.contains(#[trigger] fresh[i]) by {
        assert(fresh.contains(fresh[i]));
        samples.lemma_filter_contains_rev(keep, fresh[i]);
    }
}

/// After a reset a snapshot's rates are 0, whatever its counters hold.
pub proof fn lemma_rates_start_fresh(data: Data)
    ensures
        rx_rate_of(None, data) == 0,
        tx_rate_of(None, data) == 0,
{
}

/// Computes the rate per second of a counter between two readings.
pub fn compute_rate(previous_total: u64, total: u64, elapsed_ms: u64) -> (rate: u64)
    ensures
        rate as nat == rate_per_second(previous_total as nat, total as nat, elapsed_ms as nat),
{
    if elapsed_ms == 0 || total < previous_total {
        0
    } else {
        let grown: u128 = (total - previous_total) as u128;
        let scaled: u128 = grown * 1000;
        let rate: u128 = scaled / (elapsed_ms as u128);
        if rate > u64::MAX as u128 {
            u64::MAX
        } else {
            rate as u64
        }
    }
}

impl DataCollection {
    /// An empty history without a baseline.
    pub fn new() -> (collection: DataCollection)
        ensures
            collection.current_instant == 0,
            collection.frozen_instant is None,
            collection.timed_data_vec@.len() == 0,
            collection.network_baseline is None,
            collection.process_harvest@.len() == 0,
            collection.disk_harvest@.len() == 0,
            collection.temp_harvest@.len() == 0,
            collection.battery_harvest@.len() == 0,
    {
        DataCollection {
            current_instant: 0,
            frozen_instant: None,
            timed_data_vec: Vec::new(),
            network_baseline: None,
            process_harvest: Vec::new(),
            disk_harvest: Vec::new(),
            temp_harvest: Vec::new(),
            battery_harvest: Vec::new(),
        }
    }

    /// Forgets the history and the baseline, so that the next snapshot is
    /// taken as the first.
    pub fn reset(&mut self)
        ensures
            final(self).current_instant == 0,
            final(self).frozen_instant is None,
            final(self).timed_data_vec@.len() == 0,
            final(self).network_baseline is None,
            final(self).process_harvest@.len() == 0,
            final(self).disk_harvest@.len() == 0,
            final(self).temp_harvest@.len() == 0,
            final(self).battery_harvest@.len() == 0,
    {
        self.current_instant = 0;
        self.frozen_instant = None;
        self.timed_data_vec = Vec::new();
        self.network_baseline = None;
        self.process_harvest = Vec::new();
        self.disk_harvest = Vec::new();
        self.temp_harvest = Vec::new();
        self.battery_harvest = Vec::new();
    }

    /// Remembers the time at which the display was frozen.
    pub fn set_frozen_time(&mut self)
        ensures
            *final(self) == (DataCollection {
                frozen_instant: Some(old(self).current_instant),
                ..*old(self)
            }),
    {
        self.frozen_instant = Some(self.current_instant);
    }

    /// Merges a snapshot into the history: appends its sample, with the
    /// network rates computed against the previous snapshot's counters,
    /// keeps its counters as the next baseline, and takes over its process
    /// list.
    pub fn eat_data(&mut self, data: Data)
        ensures
            final(self).current_instant == data.collection_time,
            final(self).frozen_instant == old(self).frozen_instant,
            final(self).timed_data_vec@ == old(self).timed_data_vec@.push(
                sample_of(old(self).network_baseline, data),
            ),
            final(self).network_baseline == Some(baseline_of(data)),
            final(self).process_harvest == data.list_of_processes,
            final(self).disk_harvest == data.disks,
            final(self).temp_harvest == data.temperature_sensors,
            final(self).battery_harvest == data.battery,
    {
        let (rx_rate, tx_rate) = match self.network_baseline {
            None => (0, 0),
            Some(b) => {
                let elapsed: u64 = if data.collection_time >= b.time {
                    data.collection_time - b.time
                } else {
                    0
                };
                (
                    compute_rate(b.total_rx, data.network.total_rx, elapsed),
                    compute_rate(b.total_tx, data.network.total_tx, elapsed),
                )
            },
        };
        self.current_instant = data.collection_time;
        self.network_baseline = Some(
            NetworkBaseline {
                time: data.collection_time,
                total_rx: data.network.total_rx,
                total_tx: data.network.total_tx,
            },
        );
        self.timed_data_vec.push(
            TimedData {
                time: data.collection_time,
                rx_rate,
                tx_rate,
                cpu: data.cpu,
                memory: data.memory,
                swap: data.swap,
            },
        );
        self.process_harvest = data.list_of_processes;
        self.disk_harvest = data.disks;
        self.temp_harvest = data.temperature_sensors;
        self.battery_harvest = data.battery;
    }

    /// The time from which a graph counts back: the freeze time while the
    /// display is frozen, else the time of the last snapshot.
    pub open spec fn time_base(&self, is_frozen: bool) -> u64 {
        if is_frozen && self.frozen_instant is Some {
            self.frozen_instant->0
        } else {
            self.current_instant
        }
    }

    /// The points of one metric over the retained history.
    pub fn convert_data_points(&self, is_frozen: bool, metric: Metric) -> (points: Vec<Point>)
        ensures
            points@ == data_points(self.timed_data_vec@, self.time_base(is_frozen), metric),
    {
        let base: u64 = match self.frozen_instant {
            Some(frozen) => if is_frozen {
                frozen
            } else {
                self.current_instant
            },
            None => self.current_instant,
        };
        let ghost all = self.timed_data_vec@;
        let mut points: Vec<Point> = Vec::new();
        let mut i: usize = 0;
        proof {
            assert(all.take(0) =~= Seq::<TimedData>::empty());
        }
        while i < self.timed_data_vec.len()
            invariant
                i <= self.timed_data_vec.len(),
                all == self.timed_data_vec@,
                points@ == data_points(all.take(i as int), base, metric),
            decreases self.timed_data_vec.len() - i,
        {
            let sample = &self.timed_data_vec[i];
            proof {
                assert(all.take(i as int + 1).drop_last() =~= all.take(i as int));
                assert(all.take(i as int + 1).last() == all[i as int]);
            }
            let value: Option<u64> = match metric {
                Metric::Memory => Some(sample.memory),
                Metric::Swap => Some(sample.swap),
                Metric::NetworkRx => Some(sample.rx_rate),
                Metric::NetworkTx => Some(sample.tx_rate),
                Metric::Cpu(core) => if core < sample.cpu.len() {
                    Some(sample.cpu[core])
                } else {
                    None
                },
            };
            match value {
                Some(v) => {
                    let age: u64 = if base >= sample.time {
                        base - sample.time
                    } else {
                        0
                    };
                    points.push(Point { age, value: v });
                },
                None => {},
            }
            i = i + 1;
        }
        proof {
            assert(all.take(all.len() as int) =~= all);
        }
        points
    }

    /// The points of each core's usage, one series per core of the latest
    /// sample.
    pub fn convert_cpu_data_points(&self, is_frozen: bool) -> (series: Vec<Vec<Point>>)
        ensures
            series@.len() == core_count(self.timed_data_vec@),
            forall|core: int|
                0 <= core < series@.len() ==> (#[trigger] series@[core])@ == data_points(
                    self.timed_data_vec@,
                    self.time_base(is_frozen),
                    Metric::Cpu(core as usize),
                ),
    {
        let cores: usize = if self.timed_data_vec.len() == 0 {
            0
        } else {
            self.timed_data_vec[self.timed_data_vec.len() - 1].cpu.len()
        };
        let mut series: Vec<Vec<Point>> = Vec::new();
        let mut core: usize = 0;
        while core < cores
            invariant
                core <= cores,
                cores == core_count(self.timed_data_vec@),
                series@.len() == core,
                forall|c: int|
                    0 <= c < series@.len() ==> (#[trigger] series@[c])@ == data_points(
                        self.timed_data_vec@,
                        self.time_base(is_frozen),
                        Metric::Cpu(c as usize),
                    ),
            decreases cores - core,
        {
            let points = self.convert_data_points(is_frozen, Metric::Cpu(core));
            series.push(points);
            core = core + 1;
        }
        series
    }

    /// The points of the memory usage.
    pub fn convert_mem_data_points(&self, is_frozen: bool) -> (points: Vec<Point>)
        ensures
            points@ == data_points(
                self.timed_data_vec@,
                self.time_base(is_frozen),
                Metric::Memory,
            ),
    {
        self.convert_data_points(is_frozen, Metric::Memory)
    }

    /// The points of the swap usage.
    pub fn convert_swap_data_points(&self, is_frozen: bool) -> (points: Vec<Point>)
        ensures
            points@ == data_points(self.timed_data_vec@, self.time_base(is_frozen), Metric::Swap),
    {
        self.convert_data_points(is_frozen, Metric::Swap)
    }

    /// The points of the receive rate and of the send rate.
    pub fn get_rx_tx_data_points(&self, is_frozen: bool) -> (points: (Vec<Point>, Vec<Point>))
        ensures
            points.0@ == data_points(
                self.timed_data_vec@,
                self.time_base(is_frozen),
                Metric::NetworkRx,
            ),
            points.1@ == data_points(
                self.timed_data_vec@,
                self.time_base(is_frozen),
                Metric::NetworkTx,
            ),
    {
        (
            self.convert_data_points(is_frozen, Metric::NetworkRx),
            self.convert_data_points(is_frozen, Metric::NetworkTx),
        )
    }

    /// Drops the samples that at `now` are older than `max_age`
    /// milliseconds; the samples within that window stay, in their order.
    /// Nothing else changes.
    pub fn clean_data(&mut self, now: u64, max_age: u64)
        ensures
            final(self).timed_data_vec@ == fresh_samples(
                old(self).timed_data_vec@,
                now as nat,
                max_age as nat,
            ),
            *final(self) == (DataCollection {
                timed_data_vec: final(self).timed_data_vec,
                ..*old(self)
            }),
    {
        let ghost all = self.timed_data_vec@;
        let ghost done: int = 0;
        let mut i: usize = 0;
        proof {
            reveal(Seq::filter);
            assert(all.take(0) =~= Seq::<TimedData>::empty());
            assert(self.timed_data_vec@ =~= fresh_samples(all.take(0), now as nat, max_age as nat)
                + all.skip(0));
        }
        while i < self.timed_data_vec.len()
            invariant
                0 <= done <= all.len(),
                i == fresh_samples(all.take(done), now as nat, max_age as nat).len(),
                self.timed_data_vec@ == fresh_samples(all.take(done), now as nat, max_age as nat)
                    + all.skip(done),
                *self == (DataCollection { timed_data_vec: self.timed_data_vec, ..*old(self) }),
            decreases all.len() - done,
        {
            let ghost kept = fresh_samples(all.take(done), now as nat, max_age as nat);
            proof {
                reveal(Seq::filter);
                assert(done < all.len());
                assert(self.timed_data_vec@[i as int] == all.skip(done)[0]);
                assert(all.take(done + 1).drop_last() =~= all.take(done));
                assert(all.take(done + 1).last() == all[done]);
            }
            let time = self.timed_data_vec[i].time;
            if now > time && now - time > max_age {
                self.timed_data_vec.remove(i);
                proof {
                    assert(self.timed_data_vec@ =~= kept + all.skip(done + 1));
                }
            } else {
                proof {
                    assert(kept.push(all[done]) + all.skip(done + 1) =~= kept + all.skip(done));
                }
                i = i + 1;
            }
            proof {
                done = done + 1;
            }
        }
        proof {
            assert(done == all.len()) by {
                if done < all.len() {
                    assert((fresh_samples(all.take(done), now as nat, max_age as nat) + all.skip(
                        done,
                    )).len() > i);
                }
            }
            assert(all.take(all.len() as int) =~= all);
            assert(all.skip(all.len() as int) =~= Seq::<TimedData>::empty());
            assert(self.timed_data_vec@ =~= fresh_samples(all, now as nat, max_age as nat));
        }
    }
}

} // verus!
