//! Network quality estimation from MoQ delivery metrics: bandwidth estimation, congestion
//! detection and the history of quality adaptations.
use vstd::prelude::*;
use std::time::Instant;
use crate::clock::{instant_now, nanos_since};

verus! {

/// Current quality settings
#[derive(Debug, Clone, Copy, PartialEq, Eq, Structural)]
pub struct QualitySettings {
    /// Video bitrate in bits per second
    pub video_bitrate: u32,
    /// Audio bitrate in bits per second
    pub audio_bitrate: u32,
    /// Video resolution width
    pub video_width: u32,
    /// Video resolution height
    pub video_height: u32,
    /// Video framerate
    pub video_framerate: u32,
    /// Audio sample rate
    pub audio_sample_rate: u32,
    /// Audio channels
    pub audio_channels: u8,
}

impl Default for QualitySettings {
    fn default() -> (r: QualitySettings)
        ensures
            r == (QualitySettings {
                video_bitrate: 1_000_000,
                audio_bitrate: 64_000,
                video_width: 640,
                video_height: 480,
                video_framerate: 30,
                audio_sample_rate: 48000,
                audio_channels: 2,
            }),
    {
        QualitySettings {
            video_bitrate: 1_000_000,
            audio_bitrate: 64_000,
            video_width: 640,
            video_height: 480,
            video_framerate: 30,
            audio_sample_rate: 48000,
            audio_channels: 2,
        }
    }
}

impl QualitySettings {
    /// The settings at three quarters of the resolution, rounded down, but not below 320x240
    pub fn with_lower_resolution(&self) -> (r: QualitySettings)
        requires
            self.video_width * 3 <= u32::MAX,
            self.video_height * 3 <= u32::MAX,
        ensures
            r == (QualitySettings {
                video_width: if self.video_width * 3 / 4 > 320 { (self.video_width * 3 / 4) as u32 } else { 320 },
                video_height: if self.video_height * 3 / 4 > 240 { (self.video_height * 3 / 4) as u32 } else { 240 },
                ..*self
            }),
    {
        let w = self.video_width * 3 / 4;
        let h = self.video_height * 3 / 4;
        QualitySettings {
            video_width: if w > 320 { w } else { 320 },
            video_height: if h > 240 { h } else { 240 },
            ..*self
        }
    }

    /// The settings at four thirds of the resolution, rounded down, but not above 1920x1080
    pub fn with_higher_resolution(&self) -> (r: QualitySettings)
        requires
            self.video_width * 4 <= u32::MAX,
            self.video_height * 4 <= u32::MAX,
        ensures
            r == (QualitySettings {
                video_width: if self.video_width * 4 / 3 < 1920 { (self.video_width * 4 / 3) as u32 } else { 1920 },
                video_height: if self.video_height * 4 / 3 < 1080 { (self.video_height * 4 / 3) as u32 } else { 1080 },
                ..*self
            }),
    {
        let w = self.video_width * 4 / 3;
        let h = self.video_height * 4 / 3;
        QualitySettings {
            video_width: if w < 1920 { w } else { 1920 },
            video_height: if h < 1080 { h } else { 1080 },
            ..*self
        }
    }

    /// The settings at two thirds of the frame rate, rounded down, but not below 15
    pub fn with_lower_framerate(&self) -> (r: QualitySettings)
        requires
            self.video_framerate * 2 <= u32::MAX,
        ensures
            r == (QualitySettings {
                video_framerate: if self.video_framerate * 2 / 3 > 15 { (self.video_framerate * 2 / 3) as u32 } else { 15 },
                ..*self
            }),
    {
        let f = self.video_framerate * 2 / 3;
        QualitySettings { video_framerate: if f > 15 { f } else { 15 }, ..*self }
    }
}

/// MoQ-specific delivery metrics for congestion detection
#[derive(Debug, Clone, Copy, PartialEq, Eq, Structural)]
pub struct MoqDeliveryMetrics {
    /// When the metrics were taken, in nanoseconds on the producer's clock
    pub timestamp: u64,
    /// Number of objects delivered successfully
    pub objects_delivered: u64,
    /// Number of objects lost or timed out
    pub objects_lost: u64,
    /// Average object delivery time, in nanoseconds
    pub avg_delivery_time: u64,
    /// Maximum object delivery time, in nanoseconds
    pub max_delivery_time: u64,
    /// Number of retransmission requests
    pub retransmission_requests: u64,
    /// Buffer level (number of pending objects)
    pub buffer_level: u64,
}

/// Congestion level indicator
#[derive(Debug, Clone, Copy, PartialEq, Eq, Structural)]
pub enum CongestionLevel {
    /// No congestion detected
    Clear,
    /// Light congestion
    Light,
    /// Moderate congestion
    Moderate,
    /// Heavy congestion
    Heavy,
}


/// Objects delivered over the metrics.
pub open spec fn total_delivered(s: Seq<MoqDeliveryMetrics>) -> nat
    decreases s.len(),
{
    if s.len() == 0 { 0 } else { total_delivered(s.drop_last()) + s.last().objects_delivered as nat }
}

/// Objects lost over the metrics.
pub open spec fn total_lost(s: Seq<MoqDeliveryMetrics>) -> nat
    decreases s.len(),
{
    if s.len() == 0 { 0 } else { total_lost(s.drop_last()) + s.last().objects_lost as nat }
}

/// Sum of the average delivery times of the metrics, in nanoseconds.
pub open spec fn total_delivery_time(s: Seq<MoqDeliveryMetrics>) -> nat
    decreases s.len(),
{
    if s.len() == 0 { 0 } else { total_delivery_time(s.drop_last()) + s.last().avg_delivery_time as nat }
}

/// Whether the share of lost objects exceeds `percent` percent.
pub open spec fn loss_above(s: Seq<MoqDeliveryMetrics>, percent: nat) -> bool {
    100 * total_lost(s) > percent * (total_delivered(s) + total_lost(s))
}

/// The congestion shown by non-empty metrics, from the share of objects lost over all of
/// them and the mean of their average delivery times: heavy above 15% or 500 ms, moderate
/// above 8% or 300 ms, light above 3% or 200 ms, else none.
pub open spec fn congestion_of(s: Seq<MoqDeliveryMetrics>) -> CongestionLevel {
    let avg = total_delivery_time(s) / s.len();
    if loss_above(s, 15) || avg > 500_000_000 {
        CongestionLevel::Heavy
    } else if loss_above(s, 8) || avg > 300_000_000 {
        CongestionLevel::Moderate
    } else if loss_above(s, 3) || avg > 200_000_000 {
        CongestionLevel::Light
    } else {
        CongestionLevel::Clear
    }
}

/// `n` copies of the same metrics.
pub open spec fn repeated_metrics(m: MoqDeliveryMetrics, n: nat) -> Seq<MoqDeliveryMetrics> {
    Seq::new(n, |i: int| m)
}

proof fn lemma_repeated_totals(m: MoqDeliveryMetrics, n: nat)
    ensures
        total_delivered(repeated_metrics(m, n)) == n * m.objects_delivered,
        total_lost(repeated_metrics(m, n)) == n * m.objects_lost,
        total_delivery_time(repeated_metrics(m, n)) == n * m.avg_delivery_time,
    decreases n,
{
    if n > 0 {
        let k = (n - 1) as nat;
        assert(repeated_metrics(m, n).drop_last() =~= repeated_metrics(m, k));
        lemma_repeated_totals(m, k);
        assert(n * m.objects_delivered == k * m.objects_delivered + m.objects_delivered) by (nonlinear_arith)
            requires n == k + 1;
        assert(n * m.objects_lost == k * m.objects_lost + m.objects_lost) by (nonlinear_arith)
            requires n == k + 1;
        assert(n * m.avg_delivery_time == k * m.avg_delivery_time + m.avg_delivery_time) by (nonlinear_arith)
            requires n == k + 1;
    }
}

proof fn lemma_scaled_comparison(n: nat, l: nat, d: nat, p: nat)
    requires
        n >= 1,
    ensures
        (100 * (n * l) > p * (n * d + n * l)) == (100 * l > p * (d + l)),
{
    assert(100 * (n * l) == n * (100 * l)) by (nonlinear_arith);
    assert(p * (n * d + n * l) == n * (p * (d + l))) by (nonlinear_arith);
    assert((n * (100 * l) > n * (p * (d + l))) == (100 * l > p * (d + l))) by (nonlinear_arith)
        requires n >= 1;
}

/// The level depends on the mean delivery time and the share of lost objects, not on how
/// many metrics the window holds: `n` identical metrics show the same congestion as one.
pub proof fn lemma_congestion_of_repeated(m: MoqDeliveryMetrics, n: nat)
    requires
        n >= 1,
    ensures
        congestion_of(repeated_metrics(m, n)) == congestion_of(seq![m]),
{
    let s = repeated_metrics(m, n);
    lemma_repeated_totals(m, n);
    lemma_repeated_totals(m, 1);
    assert(seq![m] =~= repeated_metrics(m, 1));
    let t = m.avg_delivery_time as nat;
    let d = m.objects_delivered as nat;
    let l = m.objects_lost as nat;
    assert((n * t) / n == t) by (nonlinear_arith)
        requires n >= 1;
    lemma_scaled_comparison(n, l, d, 15);
    lemma_scaled_comparison(n, l, d, 8);
    lemma_scaled_comparison(n, l, d, 3);
    assert(loss_above(s, 15) == loss_above(seq![m], 15));
    assert(loss_above(s, 8) == loss_above(seq![m], 8));
    assert(loss_above(s, 3) == loss_above(seq![m], 3));
}

proof fn lemma_healthy_totals(s: Seq<MoqDeliveryMetrics>)
    requires
        forall|i: int| 0 <= i < s.len() ==> (#[trigger] s[i]).objects_lost == 0 && s[i].avg_delivery_time <= 200_000_000,
    ensures
        total_lost(s) == 0,
        total_delivery_time(s) <= 200_000_000 * s.len(),
    decreases s.len(),
{
    if s.len() > 0 {
        lemma_healthy_totals(s.drop_last());
        assert(s.last() == s[s.len() - 1]);
    }
}

/// Metrics without losses whose average delivery times are each at most 200 ms show no
/// congestion, however many of them the window holds.
pub proof fn lemma_healthy_metrics_clear(s: Seq<MoqDeliveryMetrics>)
    requires
        s.len() >= 1,
        forall|i: int| 0 <= i < s.len() ==> (#[trigger] s[i]).objects_lost == 0 && s[i].avg_delivery_time <= 200_000_000,
    ensures
        congestion_of(s) == CongestionLevel::Clear,
{
    lemma_healthy_totals(s);
    let total = total_delivery_time(s);
    let n = s.len();
    assert(total / n <= 200_000_000) by (nonlinear_arith)
        requires total <= 200_000_000 * n, n >= 1;
}

/// The last ten entries of a window after one was appended.
pub open spec fn keep_recent<T>(s: Seq<T>, max: nat) -> Seq<T> {
    if s.len() > max { s.drop_first() } else { s }
}

/// A window of at most `max` entries stays within `max` after an entry is appended and the
/// oldest dropped, and the new entry is the newest kept.
pub proof fn lemma_window_bounded<T>(s: Seq<T>, x: T, max: nat)
    requires
        1 <= max,
        s.len() <= max,
    ensures
        keep_recent(s.push(x), max).len() <= max,
        keep_recent(s.push(x), max).last() == x,
        s.len() < max ==> keep_recent(s.push(x), max) == s.push(x),
{
}

/// Congestion detector using MoQ object delivery metrics
#[derive(Debug)]
pub struct CongestionDetector {
    /// Recent delivery statistics
    delivery_stats: Vec<MoqDeliveryMetrics>,
    /// Maximum number of stats to keep
    max_stats: usize,
    /// Current congestion level
    congestion_level: CongestionLevel,
    /// Start of the detector's clock
    epoch: Instant,
    /// Last congestion check, in nanoseconds on the detector's clock
    last_check: u64,
}

impl CongestionDetector {
    /// At most ten recent metrics are kept.
    pub closed spec fn wf(&self) -> bool {
        self.max_stats == 10 && self.delivery_stats@.len() <= 10
    }

    /// The recent metrics, oldest first
    pub closed spec fn recent(&self) -> Seq<MoqDeliveryMetrics> {
        self.delivery_stats@
    }

    /// The current congestion level
    pub closed spec fn level(&self) -> CongestionLevel {
        self.congestion_level
    }

    /// A detector with no metrics and no congestion
    pub fn new() -> (r: Self)
        ensures
            r.wf(),
            r.recent().len() == 0,
            r.level() == CongestionLevel::Clear,
    {
        let epoch = instant_now();
        CongestionDetector {
            delivery_stats: Vec::new(),
            max_stats: 10,
            congestion_level: CongestionLevel::Clear,
            epoch,
            last_check: 0,
        }
    }

    /// The current congestion level
    pub fn congestion_level(&self) -> (r: CongestionLevel)
        ensures
            r == self.level(),
    {
        self.congestion_level
    }

    /// Take in new metrics: they join the ten most recent, and the level is worked out again
    pub fn update(&mut self, metrics: &MoqDeliveryMetrics)
        requires
            old(self).wf(),
        ensures
            final(self).wf(),
            final(self).recent() == keep_recent(old(self).recent().push(*metrics), 10),
            final(self).level() == congestion_of(final(self).recent()),
    {
        self.delivery_stats.push(*metrics);
        if self.delivery_stats.len() > self.max_stats {
            self.delivery_stats.remove(0);
        }
        self.detect_congestion();
        self.last_check = nanos_since(&self.epoch);
    }

    /// Work out the congestion level from the recent metrics (see [`congestion_of`]);
    /// with none, the level stays
    pub fn detect_congestion(&mut self)
        requires
            old(self).wf(),
        ensures
            final(self).wf(),
            final(self).recent() == old(self).recent(),
            old(self).recent().len() == 0 ==> final(self).level() == old(self).level(),
            old(self).recent().len() > 0 ==> final(self).level() == congestion_of(old(self).recent()),
    {
        let n = self.delivery_stats.len();
        if n == 0 {
            return;
        }
        let mut delivered: u128 = 0;
        let mut lost: u128 = 0;
        let mut time: u128 = 0;
        let mut i: usize = 0;
        while i < n
            invariant
                n == self.delivery_stats@.len(),
                n <= 10,
                i <= n,
                delivered == total_delivered(self.delivery_stats@.take(i as int)),
                lost == total_lost(self.delivery_stats@.take(i as int)),
                time == total_delivery_time(self.delivery_stats@.take(i as int)),
                delivered <= i * 0x1_0000_0000_0000_0000,
                lost <= i * 0x1_0000_0000_0000_0000,
                time <= i * 0x1_0000_0000_0000_0000,
            decreases n - i,
        {
            let m = self.delivery_stats[i];
            assert(self.delivery_stats@.take(i + 1).drop_last() =~= self.delivery_stats@.take(i as int));
            delivered = delivered + m.objects_delivered as u128;
            lost = lost + m.objects_lost as u128;
            time = time + m.avg_delivery_time as u128;
            i = i + 1;
        }
        assert(self.delivery_stats@.take(n as int) =~= self.delivery_stats@);
        let total = delivered + lost;
        let avg = time / (n as u128);
        self.congestion_level = if 100 * lost > 15 * total || avg > 500_000_000 {
            CongestionLevel::Heavy
        } else if 100 * lost > 8 * total || avg > 300_000_000 {
            CongestionLevel::Moderate
        } else if 100 * lost > 3 * total || avg > 200_000_000 {
            CongestionLevel::Light
        } else {
            CongestionLevel::Clear
        };
    }
}


/// A bandwidth sample
#[derive(Debug, Clone, Copy, PartialEq, Eq, Structural)]
pub struct BandwidthSample {
    /// When the sample was taken, in nanoseconds on the estimator's clock
    pub timestamp: u64,
    /// Bytes transferred
    pub bytes: u128,
    /// Duration of the measurement, in nanoseconds
    pub duration: u64,
}

/// Bytes over the samples.
pub open spec fn total_bytes(s: Seq<BandwidthSample>) -> nat
    decreases s.len(),
{
    if s.len() == 0 { 0 } else { total_bytes(s.drop_last()) + s.last().bytes as nat }
}

/// Nanoseconds over the samples.
pub open spec fn total_duration(s: Seq<BandwidthSample>) -> nat
    decreases s.len(),
{
    if s.len() == 0 { 0 } else { total_duration(s.drop_last()) + s.last().duration as nat }
}

/// The bandwidth the samples show, in bits per second, at most `u32::MAX`: all bytes
/// over all time. Samples spanning no time show nothing and keep `previous`.
pub open spec fn estimate_of(s: Seq<BandwidthSample>, previous: u32) -> u32 {
    if total_duration(s) == 0 {
        previous
    } else {
        let bps = total_bytes(s) * 8 * 1_000_000_000 / total_duration(s);
        if bps > u32::MAX { u32::MAX } else { bps as u32 }
    }
}

/// What taking in metrics at `now` does to an estimator. Less than 100 ms after the last
/// update nothing changes. Otherwise a sample of a thousand bytes per delivered object over
/// the time since the last update joins the ten most recent, the estimate is worked out
/// again, and `now` becomes the last update.
pub open spec fn estimator_updated(
    old: BandwidthEstimator,
    new: BandwidthEstimator,
    metrics: MoqDeliveryMetrics,
    now: u64,
) -> bool {
    let elapsed = if now > old.last_update_at() { now - old.last_update_at() } else { 0 };
    if elapsed < 100_000_000 {
        &&& new.recent() == old.recent()
        &&& new.estimate() == old.estimate()
        &&& new.last_update_at() == old.last_update_at()
    } else {
        let sample = BandwidthSample {
            timestamp: now,
            bytes: (metrics.objects_delivered * 1000) as u128,
            duration: elapsed as u64,
        };
        let samples = keep_recent(old.recent().push(sample), 10);
        &&& new.recent() == samples
        &&& new.estimate() == estimate_of(samples, old.estimate())
        &&& new.last_update_at() == now
    }
}

/// Bandwidth estimator using MoQ delivery metrics
#[derive(Debug)]
pub struct BandwidthEstimator {
    /// Recent bandwidth samples
    samples: Vec<BandwidthSample>,
    /// Maximum number of samples to keep
    max_samples: usize,
    /// Current estimated bandwidth, in bits per second
    estimated_bandwidth: u32,
    /// Start of the estimator's clock
    epoch: Instant,
    /// Last update, in nanoseconds on the estimator's clock
    last_update: u64,
}

impl BandwidthEstimator {
    /// At most ten samples are kept, each of at most a thousand bytes per object of a count.
    pub closed spec fn wf(&self) -> bool {
        &&& self.max_samples == 10
        &&& self.samples@.len() <= 10
        &&& forall|i: int| 0 <= i < self.samples@.len() ==> (#[trigger] self.samples@[i]).bytes <= 0x1_0000_0000_0000_0000 * 1000
    }

    /// The recent samples, oldest first
    pub closed spec fn recent(&self) -> Seq<BandwidthSample> {
        self.samples@
    }

    /// The current estimate, in bits per second
    pub closed spec fn estimate(&self) -> u32 {
        self.estimated_bandwidth
    }

    /// The time of the last update, in nanoseconds on the estimator's clock
    pub closed spec fn last_update_at(&self) -> u64 {
        self.last_update
    }

    /// An estimator with no samples, estimating 1 Mbit/s
    pub fn new() -> (r: Self)
        ensures
            r.wf(),
            r.recent().len() == 0,
            r.estimate() == 1_000_000,
            r.last_update_at() == 0,
    {
        BandwidthEstimator {
            samples: Vec::new(),
            max_samples: 10,
            estimated_bandwidth: 1_000_000,
            epoch: instant_now(),
            last_update: 0,
        }
    }

    /// The current estimate, in bits per second
    pub fn estimated_bandwidth(&self) -> (r: u32)
        ensures
            r == self.estimate(),
    {
        self.estimated_bandwidth
    }

    /// Take in metrics at `now`, in nanoseconds on the estimator's clock (see
    /// [`estimator_updated`])
    pub fn update_from_moq_metrics_at(&mut self, metrics: &MoqDeliveryMetrics, now: u64)
        requires
            old(self).wf(),
        ensures
            final(self).wf(),
            estimator_updated(*old(self), *final(self), *metrics, now),
    {
        let elapsed = if now > self.last_update { now - self.last_update } else { 0 };
        if elapsed < 100_000_000 {
            return;
        }
        let estimated_bytes = (metrics.objects_delivered as u128) * 1000;
        let sample = BandwidthSample { timestamp: now, bytes: estimated_bytes, duration: elapsed };
        self.samples.push(sample);
        if self.samples.len() > self.max_samples {
            self.samples.remove(0);
        }
        self.update_estimate();
        self.last_update = now;
    }

    /// Take in metrics now ([`Self::update_from_moq_metrics_at`] at the current time)
    pub fn update_from_moq_metrics(&mut self, metrics: &MoqDeliveryMetrics)
        requires
            old(self).wf(),
        ensures
            final(self).wf(),
            exists|now: u64| estimator_updated(*old(self), *final(self), *metrics, now),
    {
        let now = nanos_since(&self.epoch);
        self.update_from_moq_metrics_at(metrics, now);
    }

    /// Work out the estimate from the recent samples (see [`estimate_of`])
    pub fn update_estimate(&mut self)
        requires
            old(self).wf(),
        ensures
            final(self).wf(),
            final(self).recent() == old(self).recent(),
            final(self).last_update_at() == old(self).last_update_at(),
            final(self).estimate() == estimate_of(old(self).recent(), old(self).estimate()),
    {
        let n = self.samples.len();
        if n == 0 {
            return;
        }
        let mut bytes: u128 = 0;
        let mut duration: u128 = 0;
        let mut i: usize = 0;
        while i < n
            invariant
                n == self.samples@.len(),
                n <= 10,
                i <= n,
                self.wf(),
                bytes == total_bytes(self.samples@.take(i as int)),
                duration == total_duration(self.samples@.take(i as int)),
                bytes <= i * 0x1_0000_0000_0000_0000 * 1000,
                duration <= i * 0x1_0000_0000_0000_0000,
            decreases n - i,
        {
            let sample = self.samples[i];
            assert(self.samples@.take(i + 1).drop_last() =~= self.samples@.take(i as int));
            bytes = bytes + sample.bytes;
            duration = duration + sample.duration as u128;
            i = i + 1;
        }
        assert(self.samples@.take(n as int) =~= self.samples@);
        if duration > 0 {
            let bps = bytes * 8 * 1_000_000_000 / duration;
            self.estimated_bandwidth = if bps > u32::MAX as u128 { u32::MAX } else { bps as u32 };
        }
    }
}


/// Why the quality settings changed
#[derive(Debug, Clone, Copy, PartialEq, Eq, Structural)]
pub enum AdaptationReason {
    /// Bandwidth increased
    BandwidthIncrease,
    /// Bandwidth decreased
    BandwidthDecrease,
    /// Congestion detected
    CongestionDetected,
    /// Buffer underrun
    BufferUnderrun,
    /// Buffer overrun
    BufferOverrun,
    /// Manual adjustment
    Manual,
}

/// One change of the quality settings
#[derive(Debug, Clone, Copy, PartialEq, Eq, Structural)]
pub struct QualityAdaptation {
    /// When the change happened, in nanoseconds on the caller's clock
    pub timestamp: u64,
    /// Settings before the change
    pub previous_settings: QualitySettings,
    /// Settings after the change
    pub new_settings: QualitySettings,
    /// Reason for the change
    pub reason: AdaptationReason,
}

/// Quality adapter: keeps the recent quality changes and when the last one happened
#[derive(Debug)]
pub struct QualityAdapter {
    /// The twenty most recent adaptations, oldest first
    adaptation_history: Vec<QualityAdaptation>,
    /// Start of the adapter's clock
    epoch: Instant,
    /// Last adaptation, in nanoseconds on the adapter's clock
    last_adaptation: u64,
    /// Minimum time between adaptations, in nanoseconds
    min_adaptation_interval: u64,
}

impl QualityAdapter {
    /// At most twenty adaptations are kept.
    pub closed spec fn wf(&self) -> bool {
        self.adaptation_history@.len() <= 20
    }

    /// The kept adaptations, oldest first
    pub closed spec fn history(&self) -> Seq<QualityAdaptation> {
        self.adaptation_history@
    }

    /// The time of the last adaptation, in nanoseconds on the adapter's clock
    pub closed spec fn last_adaptation_at(&self) -> u64 {
        self.last_adaptation
    }

    /// The least time between adaptations, in nanoseconds
    pub closed spec fn min_interval(&self) -> u64 {
        self.min_adaptation_interval
    }

    /// An adapter with no history, allowing one adaptation every two seconds
    pub fn new() -> (r: Self)
        ensures
            r.wf(),
            r.history().len() == 0,
            r.last_adaptation_at() == 0,
            r.min_interval() == 2_000_000_000,
    {
        QualityAdapter {
            adaptation_history: Vec::new(),
            epoch: instant_now(),
            last_adaptation: 0,
            min_adaptation_interval: 2_000_000_000,
        }
    }

    /// The kept adaptations, oldest first
    pub fn adaptation_history(&self) -> (r: &[QualityAdaptation])
        ensures
            r@ == self.history(),
    {
        self.adaptation_history.as_slice()
    }

    /// Nanoseconds since the last adaptation at `now`, or zero if `now` is earlier
    pub fn since_last_adaptation(&self, now: u64) -> (r: u64)
        ensures
            r == if now > self.last_adaptation_at() { now - self.last_adaptation_at() } else { 0 },
    {
        if now > self.last_adaptation { now - self.last_adaptation } else { 0 }
    }

    /// Whether an adaptation is allowed at `now`: the least interval has passed since the
    /// last one
    pub fn may_adapt_at(&self, now: u64) -> (r: bool)
        ensures
            r == (self.since_last(now) >= self.min_interval()),
    {
        self.since_last_adaptation(now) >= self.min_adaptation_interval
    }

    /// Nanoseconds since the last adaptation at `now`, or zero if `now` is earlier.
    pub open spec fn since_last(&self, now: u64) -> u64 {
        if now > self.last_adaptation_at() { (now - self.last_adaptation_at()) as u64 } else { 0 }
    }

    /// The current time on the adapter's clock, in nanoseconds
    pub fn now(&self) -> u64 {
        nanos_since(&self.epoch)
    }

    /// Record an adaptation made at `now`: it joins the twenty most recent and `now`
    /// becomes the time of the last adaptation
    pub fn add_adaptation_at(&mut self, adaptation: QualityAdaptation, now: u64)
        requires
            old(self).wf(),
        ensures
            final(self).wf(),
            final(self).history() == keep_recent(old(self).history().push(adaptation), 20),
            final(self).last_adaptation_at() == now,
            final(self).min_interval() == old(self).min_interval(),
    {
        self.adaptation_history.push(adaptation);
        self.last_adaptation = now;
        if self.adaptation_history.len() > 20 {
            self.adaptation_history.remove(0);
        }
    }

    /// Record an adaptation now ([`Self::add_adaptation_at`] at the current time)
    pub fn add_adaptation(&mut self, adaptation: QualityAdaptation)
        requires
            old(self).wf(),
        ensures
            final(self).wf(),
            final(self).history() == keep_recent(old(self).history().push(adaptation), 20),
            final(self).min_interval() == old(self).min_interval(),
    {
        let now = nanos_since(&self.epoch);
        self.add_adaptation_at(adaptation, now);
    }
}

} // verus!
