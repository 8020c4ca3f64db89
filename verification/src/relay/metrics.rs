//! Process metrics.
//!
//! Deliberately label-free: nothing that a user controls, and no identity, device or
//! terminal, ever becomes a metric dimension. Every series is a plain scalar or a
//! histogram with a small fixed set of buckets.

use crate::relay::context::is_failure;
use crate::relay::counts::Moved;
use crate::relay::maintenance::Cause;
use crate::relay::terminals::OpenCount;
use crate::relay::metrics::family::{
    help_line, is_one_line, lemma_one_more_line, lemma_printed, lemma_printed_one, printed, scalar,
    scalars, type_line, unlines, write_heading, write_scalars, Family, Scalar,
};
use crate::text;
use crate::text::{decimal, texts};
use vstd::prelude::*;

pub mod family;
pub mod headings;

verus! {

/// A count that only grows, and wraps around at 2^64.
#[derive(Debug)]
pub struct Counter(u64);

impl View for Counter {
    type V = nat;

    closed spec fn view(&self) -> nat {
        self.0 as nat
    }
}

impl Default for Counter {
    fn default() -> (counter: Self)
        ensures
            counter@ == 0,
    {
        Self::new()
    }
}

/// A counter's value after it counted one, if it did.
pub open spec fn bumped(value: nat, moved: bool) -> nat {
    if moved {
        (value + 1) % 0x1_0000_0000_0000_0000
    } else {
        value
    }
}

impl Counter {
    pub fn new() -> (counter: Self)
        ensures
            counter@ == 0,
    {
        Self(0)
    }

    pub fn inc(&mut self)
        ensures
            final(self)@ == (old(self)@ + 1) % 0x1_0000_0000_0000_0000,
    {
        self.add(1);
    }

    /// Counts one if `moved`.
    pub fn inc_if(&mut self, moved: bool)
        ensures
            final(self)@ == bumped(old(self)@, moved),
            !moved ==> *final(self) == *old(self),
    {
        if moved {
            self.inc();
        }
    }

    pub fn add(&mut self, n: u64)
        ensures
            final(self)@ == (old(self)@ + n) % 0x1_0000_0000_0000_0000,
    {
        self.0 = self.0.wrapping_add(n);
    }

    pub fn get(&self) -> (value: u64)
        ensures
            value == self@,
    {
        self.0
    }
}

/// The 64-bit signed number that is congruent to `n`.
pub open spec fn wrapped(n: int) -> int {
    let low = n % 0x1_0000_0000_0000_0000;
    if low < 0x8000_0000_0000_0000 {
        low
    } else {
        low - 0x1_0000_0000_0000_0000
    }
}

/// A level that rises and falls, and wraps around at either end of its range.
#[derive(Debug)]
pub struct Gauge(i64);

impl View for Gauge {
    type V = int;

    closed spec fn view(&self) -> int {
        self.0 as int
    }
}

impl Default for Gauge {
    fn default() -> (gauge: Self)
        ensures
            gauge@ == 0,
    {
        Self::new()
    }
}

impl Gauge {
    pub fn new() -> (gauge: Self)
        ensures
            gauge@ == 0,
    {
        Self(0)
    }

    pub fn set(&mut self, v: i64)
        ensures
            final(self)@ == v,
    {
        self.0 = v;
    }

    pub fn add(&mut self, v: i64)
        ensures
            final(self)@ == wrapped(old(self)@ + v),
    {
        self.0 = self.0.wrapping_add(v);
    }

    pub fn sub(&mut self, v: i64)
        ensures
            final(self)@ == wrapped(old(self)@ - v),
    {
        self.0 = self.0.wrapping_sub(v);
    }

    pub fn inc(&mut self)
        ensures
            final(self)@ == wrapped(old(self)@ + 1),
    {
        self.add(1);
    }

    pub fn dec(&mut self)
        ensures
            final(self)@ == wrapped(old(self)@ - 1),
    {
        self.sub(1);
    }

    pub fn get(&self) -> (value: i64)
        ensures
            value == self@,
    {
        self.0
    }
}

/// What a histogram has counted.
pub struct Counted {
    /// The upper bounds of the buckets, as they are printed.
    pub bounds: Seq<Seq<char>>,
    /// How many values fell into each bucket; the one after the last bound takes every
    /// larger value.
    pub buckets: Seq<nat>,
    /// The sum of the values in millionths.
    pub sum: nat,
    pub count: nat,
}

impl Counted {
    /// How many values fell into the first `n` buckets.
    pub open spec fn cumulative(self, n: int) -> nat
        decreases n,
    {
        if n <= 0 {
            0
        } else {
            (self.cumulative(n - 1) + self.buckets[n - 1]) % 0x1_0000_0000_0000_0000
        }
    }

    /// The same with one more value, in the bucket at `position`.
    pub open spec fn with(self, position: int, millionths: nat) -> Counted {
        Counted {
            bounds: self.bounds,
            buckets: self.buckets.update(
                position,
                (self.buckets[position] + 1) % 0x1_0000_0000_0000_0000,
            ),
            sum: (self.sum + millionths) % 0x1_0000_0000_0000_0000,
            count: (self.count + 1) % 0x1_0000_0000_0000_0000,
        }
    }

    /// How many values fell into the first `n` buckets, however many that is.
    pub open spec fn total(self, n: int) -> nat
        decreases n,
    {
        if n <= 0 {
            0
        } else {
            self.total(n - 1) + self.buckets[n - 1]
        }
    }

    /// The samples of the first `n` buckets.
    pub open spec fn bucket_samples(self, name: Seq<char>, n: int) -> Seq<Seq<char>> {
        Seq::new(
            n as nat,
            |i: int| bucket_sample(name, self.bounds[i], self.cumulative(i + 1)),
        )
    }

    /// The histogram as it is printed. `sum` is the printed sum.
    pub open spec fn family(self, name: Seq<char>, help: Seq<char>, sum: Seq<char>) -> Family {
        Family {
            name,
            help,
            kind: "histogram"@,
            samples: self.bucket_samples(name, self.bounds.len() as int).push(
                bucket_sample(name, "+Inf"@, self.cumulative(self.bounds.len() as int + 1)),
            ).push(name + "_sum "@ + sum).push(name + "_count "@ + decimal(self.count)),
        }
    }
}

proof fn lemma_nothing_counted(counted: Counted, n: int)
    requires
        n <= counted.buckets.len(),
        forall|i: int| 0 <= i < counted.buckets.len() ==> counted.buckets[i] == 0,
    ensures
        counted.cumulative(n) == 0,
    decreases n,
{
    if n > 0 {
        lemma_nothing_counted(counted, n - 1);
    }
}

proof fn lemma_counted(counted: Counted, position: int, millionths: nat, n: int)
    requires
        0 <= position < counted.buckets.len(),
        n <= counted.buckets.len(),
    ensures
        counted.with(position, millionths).cumulative(n) == (if position < n {
            (counted.cumulative(n) + 1) % 0x1_0000_0000_0000_0000
        } else {
            counted.cumulative(n)
        }),
    decreases n,
{
    if n > 0 {
        lemma_counted(counted, position, millionths, n - 1);
    }
}

proof fn lemma_total(counted: Counted, n: int, m: int)
    requires
        0 <= n <= m,
    ensures
        counted.total(n) <= counted.total(m),
        counted.total(n) < 0x1_0000_0000_0000_0000 ==> counted.cumulative(n) == counted.total(n),
    decreases m + n,
{
    if n < m {
        lemma_total(counted, n, m - 1);
    } else if n > 0 {
        lemma_total(counted, n - 1, n - 1);
    }
}

/// In what a histogram prints, the buckets never fall and the last one equals the count,
/// as long as fewer values were counted than a counter holds.
pub proof fn law_buckets_never_fall(histogram: Histogram, n: int, m: int)
    requires
        histogram.wf(),
        histogram@.total(histogram@.buckets.len() as int) < 0x1_0000_0000_0000_0000,
        0 <= n <= m <= histogram@.buckets.len(),
    ensures
        histogram@.cumulative(n) <= histogram@.cumulative(m),
        histogram@.cumulative(histogram@.bounds.len() as int + 1) == histogram@.count,
{
    let all = histogram@.buckets.len() as int;
    lemma_total(histogram@, n, m);
    lemma_total(histogram@, m, m);
    lemma_total(histogram@, m, all);
    lemma_total(histogram@, n, all);
}

/// The sample of one bucket.
pub open spec fn bucket_sample(name: Seq<char>, bound: Seq<char>, cumulative: nat) -> Seq<char> {
    name + "_bucket{le=\""@ + bound + "\"} "@ + decimal(cumulative)
}

/// How many buckets a histogram can have.
pub const MAX_BUCKETS: usize = 16;

/// Fixed-bucket histogram. A value is compared with the bounds, and its sum kept, by
/// whoever observes it: here a bucket is a position.
#[derive(Debug)]
pub struct Histogram {
    bounds: Vec<String>,
    buckets: Vec<u64>,
    /// In millionths, to stay integral.
    sum: u64,
    count: u64,
}

impl View for Histogram {
    type V = Counted;

    closed spec fn view(&self) -> Counted {
        Counted {
            bounds: texts(self.bounds@),
            buckets: self.buckets@.map_values(|n: u64| n as nat),
            sum: self.sum as nat,
            count: self.count as nat,
        }
    }
}

/// The texts of a fixed list of literals.
pub open spec fn literals(list: Seq<&'static str>) -> Seq<Seq<char>> {
    list.map_values(|text: &'static str| text@)
}

impl Histogram {
    /// There is one bucket more than there are bounds, every value was counted in one, and
    /// every bound is printed on one line.
    pub open spec fn wf(&self) -> bool {
        &&& self@.buckets.len() == self@.bounds.len() + 1 <= MAX_BUCKETS
        &&& self@.cumulative(self@.buckets.len() as int) == self@.count
        &&& forall|i: int| 0 <= i < self@.bounds.len() ==> is_one_line(#[trigger] self@.bounds[i])
    }

    pub fn new(bounds: &[&'static str]) -> (histogram: Self)
        requires
            bounds@.len() < MAX_BUCKETS,
            forall|i: int| 0 <= i < bounds@.len() ==> is_one_line((#[trigger] bounds@[i])@),
        ensures
            histogram.wf(),
            histogram@ == (Counted {
                bounds: literals(bounds@),
                buckets: Seq::new(bounds@.len() + 1, |i: int| 0nat),
                sum: 0,
                count: 0,
            }),
    {
        let mut labels: Vec<String> = Vec::new();
        let mut buckets: Vec<u64> = Vec::new();
        buckets.push(0);
        let mut index: usize = 0;
        while index < bounds.len()
            invariant
                index <= bounds@.len(),
                labels@.len() == index,
                buckets@.len() == index + 1,
                forall|i: int| 0 <= i < index ==> (#[trigger] labels@[i])@ == bounds@[i]@,
                forall|i: int| 0 <= i < buckets@.len() ==> buckets@[i] == 0,
            decreases bounds@.len() - index,
        {
            labels.push(bounds[index].to_owned());
            buckets.push(0);
            index = index + 1;
        }
        let histogram = Self { bounds: labels, buckets, sum: 0, count: 0 };
        assert(histogram@.bounds =~= literals(bounds@));
        assert(histogram@.buckets =~= Seq::new(bounds@.len() + 1, |i: int| 0nat));
        proof {
            lemma_nothing_counted(histogram@, histogram@.buckets.len() as int);
        }
        histogram
    }

    /// Count one value: it lies in the bucket at `position`, and is `millionths` large.
    pub fn record(&mut self, position: usize, millionths: u64)
        requires
            old(self).wf(),
            position < old(self)@.buckets.len(),
        ensures
            final(self).wf(),
            final(self)@ == old(self)@.with(position as int, millionths as nat),
    {
        let ghost before = self@;
        let value: u64 = self.buckets[position];
        self.buckets[position] = value.wrapping_add(1);
        assert(self@.buckets =~= before.buckets.update(
            position as int,
            (before.buckets[position as int] + 1) % 0x1_0000_0000_0000_0000,
        ));
        self.sum = self.sum.wrapping_add(millionths);
        self.count = self.count.wrapping_add(1);
        proof {
            lemma_counted(before, position as int, millionths as nat, before.buckets.len() as int);
        }
    }

    /// The sum of the recorded values, in millionths.
    pub fn sum(&self) -> (sum: u64)
        ensures
            sum == self@.sum,
    {
        self.sum
    }

    /// Append the histogram to `out`. `sum` is the sum as it is to be printed.
    pub fn render(&self, out: &mut String, name: &str, help: &str, sum: &str)
        requires
            self.wf(),
        ensures
            final(out)@ == old(out)@ + unlines(self@.family(name@, help@, sum@).lines()),
    {
        let ghost before = out@;
        let ghost heads = seq![help_line(name@, help@), type_line(name@, "histogram"@)];
        let ghost mut lines = heads;
        write_heading(out, name, help, "histogram");
        let mut cumulative: u64 = 0;
        let mut index: usize = 0;
        while index < self.bounds.len()
            invariant
                self.wf(),
                index <= self.bounds@.len(),
                cumulative == self@.cumulative(index as int),
                lines == heads + self@.bucket_samples(name@, index as int),
                out@ == before + unlines(lines),
            decreases self.bounds@.len() - index,
        {
            cumulative = cumulative.wrapping_add(self.buckets[index]);
            write_bucket(out, name, self.bounds[index].as_str(), cumulative, Ghost(before), Ghost(lines));
            index = index + 1;
            proof {
                let sample = bucket_sample(name@, self@.bounds[index - 1], cumulative as nat);
                assert(self@.bounds[index - 1] == self.bounds@[index - 1]@);
                lines = lines.push(sample);
                assert(lines =~= heads + self@.bucket_samples(name@, index as int));
            }
        }
        cumulative = cumulative.wrapping_add(self.buckets[index]);
        write_bucket(out, name, "+Inf", cumulative, Ghost(before), Ghost(lines));
        let ghost lines = lines.push(bucket_sample(name@, "+Inf"@, cumulative as nat));
        out.append(name);
        out.append("_sum ");
        out.append(sum);
        out.append("\n");
        let ghost sample = name@ + "_sum "@ + sum@;
        proof {
            lemma_one_more_line(lines, sample);
        }
        let ghost lines = lines.push(sample);
        assert(out@ =~= before + unlines(lines));
        out.append(name);
        out.append("_count ");
        out.append(text::decimal_of(self.count).as_str());
        out.append("\n");
        let ghost sample = name@ + "_count "@ + decimal(self.count as nat);
        proof {
            lemma_one_more_line(lines, sample);
            assert(lines.push(sample) =~= self@.family(name@, help@, sum@).lines());
        }
        assert(out@ =~= before + unlines(lines.push(sample)));
    }
}

fn write_bucket(
    out: &mut String,
    name: &str,
    bound: &str,
    cumulative: u64,
    before: Ghost<Seq<char>>,
    lines: Ghost<Seq<Seq<char>>>,
)
    requires
        old(out)@ == before@ + unlines(lines@),
    ensures
        final(out)@ == before@ + unlines(
            lines@.push(bucket_sample(name@, bound@, cumulative as nat)),
        ),
{
    out.append(name);
    out.append("_bucket{le=\"");
    out.append(bound);
    out.append("\"} ");
    out.append(text::decimal_of(cumulative).as_str());
    out.append("\n");
    proof {
        let sample = bucket_sample(name@, bound@, cumulative as nat);
        lemma_one_more_line(lines@, sample);
        assert(out@ =~= before@ + unlines(lines@.push(sample)));
    }
}

pub const CHECKPOINT_BATCH_BYTES_BOUNDS: [&'static str; 6] = ["4096", "16384", "65536", "262144", "1048576", "4194304"];

pub const CHECKPOINT_BATCH_AGE_BOUNDS: [&'static str; 7] = ["0.01", "0.05", "0.25", "1", "5", "15", "60"];

pub const CHECKPOINT_TERMINALS_BOUNDS: [&'static str; 7] = ["1", "2", "4", "8", "16", "64", "256"];

pub const HTTP_REQUEST_BOUNDS: [&'static str; 8] = ["0.001", "0.005", "0.025", "0.1", "0.5", "1", "5", "30"];

/// Everything the process counts.
#[derive(Debug)]
pub struct Metrics {
    pub publisher_connections: Gauge,
    pub mirror_connections: Gauge,
    pub publisher_connections_total: Counter,
    pub mirror_connections_total: Counter,
    pub publishers_superseded: Counter,
    pub terminals_open: Gauge,
    pub terminals_opened_total: Counter,
    pub terminals_closed_total: Counter,
    pub terminals_resident: Gauge,
    pub terminal_open_requests_pending: Gauge,
    pub terminal_open_requests_opened: Counter,
    pub terminal_open_requests_declined: Counter,
    pub terminal_open_requests_unavailable: Counter,
    pub terminal_open_requests_timeout: Counter,
    pub terminal_open_requests_refused: Counter,
    pub output_bytes_accepted: Counter,
    pub output_bytes_delivered: Counter,
    pub output_bytes_replayed: Counter,
    pub replay_bytes_resident: Gauge,
    pub dirty_bytes: Gauge,
    pub durable_offset_lag_bytes: Gauge,
    pub evicted_bytes: Counter,
    pub evictions: Counter,
    pub checkpoint_transactions: Counter,
    pub checkpoint_failures: Counter,
    pub checkpoint_rows_written: Counter,
    pub checkpoint_frames_coalesced: Counter,
    pub checkpoint_batch_bytes: Histogram,
    pub checkpoint_batch_age_seconds: Histogram,
    pub checkpoint_terminals_per_batch: Histogram,
    pub offset_mismatches: Counter,
    pub offset_ahead_rejections: Counter,
    pub replay_gaps: Counter,
    pub slow_consumer_disconnects: Counter,
    pub oversized_frames_rejected: Counter,
    pub backpressure_waits: Counter,
    pub backpressure_timeouts: Counter,
    pub input_frames_delivered: Counter,
    pub input_bytes_delivered: Counter,
    pub input_frames_refused: Counter,
    pub input_rate_limited: Counter,
    pub resize_requests_forwarded: Counter,
    pub auth_failures: Counter,
    pub auth_successes: Counter,
    pub challenges_issued: Counter,
    pub challenges_consumed: Counter,
    pub rate_limited_requests: Counter,
    pub device_revocations: Counter,
    pub revocation_enforced_disconnects: Counter,
    pub storage_errors: Counter,
    pub storage_bytes: Gauge,
    pub retention_terminals_deleted: Counter,
    pub quota_terminals_deleted: Counter,
    pub storage_unavailable: Gauge,
    pub settings_revision: Gauge,
    pub settings_committed_revision: Gauge,
    pub settings_reload_failures: Counter,
    pub listener_rebinds: Counter,
    pub http_requests: Counter,
    pub http_requests_failed: Counter,
    pub http_request_seconds: Histogram,
}

impl Metrics {
    /// Every histogram has its buckets.
    pub open spec fn wf(&self) -> bool {
        &&& self.checkpoint_batch_bytes.wf()
        &&& self.checkpoint_batch_age_seconds.wf()
        &&& self.checkpoint_terminals_per_batch.wf()
        &&& self.http_request_seconds.wf()
    }

    /// The gauges, in the order in which they are printed.
    pub open spec fn gauges(&self) -> Seq<Family> {
        seq![
            scalar(
                "relay_publisher_connections"@,
                "Active publisher relay connections."@,
                "gauge"@,
                self.publisher_connections@ as int,
            ),
            scalar(
                "relay_mirror_connections"@,
                "Active mirror subscriptions."@,
                "gauge"@,
                self.mirror_connections@ as int,
            ),
            scalar(
                "relay_terminals_open"@,
                "Terminals in the open state."@,
                "gauge"@,
                self.terminals_open@ as int,
            ),
            scalar(
                "relay_terminal_open_requests_pending"@,
                "Terminal-open requests awaiting a publisher's answer."@,
                "gauge"@,
                self.terminal_open_requests_pending@ as int,
            ),
            scalar(
                "relay_terminals_resident"@,
                "Terminals with an in-memory replay buffer."@,
                "gauge"@,
                self.terminals_resident@ as int,
            ),
            scalar(
                "relay_replay_bytes_resident"@,
                "Output bytes held in in-memory replay buffers."@,
                "gauge"@,
                self.replay_bytes_resident@ as int,
            ),
            scalar(
                "relay_dirty_bytes"@,
                "Accepted output bytes not yet committed."@,
                "gauge"@,
                self.dirty_bytes@ as int,
            ),
            scalar(
                "relay_durable_offset_lag_bytes"@,
                "Sum over terminals of next_offset minus durable_offset."@,
                "gauge"@,
                self.durable_offset_lag_bytes@ as int,
            ),
            scalar(
                "relay_storage_bytes"@,
                "Durable storage consumed, including WAL."@,
                "gauge"@,
                self.storage_bytes@ as int,
            ),
            scalar(
                "relay_storage_unavailable"@,
                "1 when durable storage is failing and readiness is degraded."@,
                "gauge"@,
                self.storage_unavailable@ as int,
            ),
            scalar(
                "relay_settings_revision"@,
                "Settings revision applied by this instance."@,
                "gauge"@,
                self.settings_revision@ as int,
            ),
            scalar(
                "relay_settings_committed_revision"@,
                "Latest settings revision committed to the database."@,
                "gauge"@,
                self.settings_committed_revision@ as int,
            ),
            scalar(
                "relay_settings_propagation_lag_revisions"@,
                "Committed settings revision minus the revision applied here."@,
                "gauge"@,
                self.settings_committed_revision@ - self.settings_revision@,
            ),
        ]
    }

    /// The counters of connections and terminals, in the order in which they are printed.
    pub open spec fn terminal_counters(&self) -> Seq<Family> {
        seq![
            scalar(
                "relay_publisher_connections_total"@,
                "Publisher connections accepted."@,
                "counter"@,
                self.publisher_connections_total@ as int,
            ),
            scalar(
                "relay_mirror_connections_total"@,
                "Mirror subscriptions accepted."@,
                "counter"@,
                self.mirror_connections_total@ as int,
            ),
            scalar(
                "relay_publishers_superseded_total"@,
                "Publisher connections closed because a newer one took over the device."@,
                "counter"@,
                self.publishers_superseded@ as int,
            ),
            scalar(
                "relay_terminals_opened_total"@,
                "Terminals opened."@,
                "counter"@,
                self.terminals_opened_total@ as int,
            ),
            scalar(
                "relay_terminals_closed_total"@,
                "Terminals closed."@,
                "counter"@,
                self.terminals_closed_total@ as int,
            ),
            scalar(
                "relay_terminal_open_requests_opened_total"@,
                "Terminal-open requests a publisher honoured."@,
                "counter"@,
                self.terminal_open_requests_opened@ as int,
            ),
            scalar(
                "relay_terminal_open_requests_declined_total"@,
                "Terminal-open requests a publisher refused."@,
                "counter"@,
                self.terminal_open_requests_declined@ as int,
            ),
            scalar(
                "relay_terminal_open_requests_unavailable_total"@,
                "Terminal-open requests with no capable publisher connected."@,
                "counter"@,
                self.terminal_open_requests_unavailable@ as int,
            ),
            scalar(
                "relay_terminal_open_requests_timeout_total"@,
                "Terminal-open requests a publisher never answered."@,
                "counter"@,
                self.terminal_open_requests_timeout@ as int,
            ),
            scalar(
                "relay_terminal_open_requests_refused_total"@,
                "Terminal-open requests the relay refused before asking anybody."@,
                "counter"@,
                self.terminal_open_requests_refused@ as int,
            ),
        ]
    }

    /// The counters of output, in the order in which they are printed.
    pub open spec fn output_counters(&self) -> Seq<Family> {
        seq![
            scalar(
                "relay_output_bytes_accepted_total"@,
                "Output payload bytes accepted from publishers."@,
                "counter"@,
                self.output_bytes_accepted@ as int,
            ),
            scalar(
                "relay_output_bytes_delivered_total"@,
                "Output payload bytes delivered to subscribers, live and replayed."@,
                "counter"@,
                self.output_bytes_delivered@ as int,
            ),
            scalar(
                "relay_output_bytes_replayed_total"@,
                "Output payload bytes delivered from the replay window."@,
                "counter"@,
                self.output_bytes_replayed@ as int,
            ),
            scalar(
                "relay_evicted_bytes_total"@,
                "Output bytes evicted from replay buffers."@,
                "counter"@,
                self.evicted_bytes@ as int,
            ),
            scalar(
                "relay_evictions_total"@,
                "Replay buffer eviction operations."@,
                "counter"@,
                self.evictions@ as int,
            ),
            scalar(
                "relay_checkpoint_transactions_total"@,
                "Database transactions used to commit terminal output."@,
                "counter"@,
                self.checkpoint_transactions@ as int,
            ),
            scalar(
                "relay_checkpoint_failures_total"@,
                "Failed checkpoint commits."@,
                "counter"@,
                self.checkpoint_failures@ as int,
            ),
            scalar(
                "relay_checkpoint_rows_written_total"@,
                "Rows written by checkpoint transactions."@,
                "counter"@,
                self.checkpoint_rows_written@ as int,
            ),
            scalar(
                "relay_checkpoint_frames_coalesced_total"@,
                "Publisher output frames folded into checkpoint transactions."@,
                "counter"@,
                self.checkpoint_frames_coalesced@ as int,
            ),
            scalar(
                "relay_offset_mismatches_total"@,
                "Rejected publisher frames whose start offset did not match."@,
                "counter"@,
                self.offset_mismatches@ as int,
            ),
            scalar(
                "relay_offset_ahead_rejections_total"@,
                "Subscriptions rejected for requesting an offset beyond next_offset."@,
                "counter"@,
                self.offset_ahead_rejections@ as int,
            ),
            scalar(
                "relay_replay_gaps_total"@,
                "Subscriptions served with a replay gap notice."@,
                "counter"@,
                self.replay_gaps@ as int,
            ),
        ]
    }

    /// The counters of limits and of input, in the order in which they are printed.
    pub open spec fn limit_counters(&self) -> Seq<Family> {
        seq![
            scalar(
                "relay_slow_consumer_disconnects_total"@,
                "Subscribers disconnected for exceeding their outbound queue bound."@,
                "counter"@,
                self.slow_consumer_disconnects@ as int,
            ),
            scalar(
                "relay_oversized_frames_rejected_total"@,
                "Frames rejected for exceeding the negotiated frame size."@,
                "counter"@,
                self.oversized_frames_rejected@ as int,
            ),
            scalar(
                "relay_backpressure_waits_total"@,
                "Times a publisher waited for a checkpoint before its frame was accepted."@,
                "counter"@,
                self.backpressure_waits@ as int,
            ),
            scalar(
                "relay_backpressure_timeouts_total"@,
                "Times a publisher exceeded its unacknowledged window past the wait deadline."@,
                "counter"@,
                self.backpressure_timeouts@ as int,
            ),
            scalar(
                "relay_input_frames_delivered_total"@,
                "Terminal input frames delivered to publishers."@,
                "counter"@,
                self.input_frames_delivered@ as int,
            ),
            scalar(
                "relay_input_bytes_delivered_total"@,
                "Terminal input payload bytes delivered to publishers."@,
                "counter"@,
                self.input_bytes_delivered@ as int,
            ),
            scalar(
                "relay_input_frames_refused_total"@,
                "Terminal input frames refused, for any reason."@,
                "counter"@,
                self.input_frames_refused@ as int,
            ),
            scalar(
                "relay_input_rate_limited_total"@,
                "Terminal input frames refused by a per-subscriber rate limit."@,
                "counter"@,
                self.input_rate_limited@ as int,
            ),
            scalar(
                "relay_resize_requests_forwarded_total"@,
                "Subscriber resize requests forwarded to publishers."@,
                "counter"@,
                self.resize_requests_forwarded@ as int,
            ),
        ]
    }

    /// The counters of access, storage and requests, in the order in which they are printed.
    pub open spec fn access_counters(&self) -> Seq<Family> {
        seq![
            scalar(
                "relay_auth_failures_total"@,
                "Failed authentication attempts."@,
                "counter"@,
                self.auth_failures@ as int,
            ),
            scalar(
                "relay_auth_successes_total"@,
                "Successful authentications."@,
                "counter"@,
                self.auth_successes@ as int,
            ),
            scalar(
                "relay_challenges_issued_total"@,
                "Proof-of-possession challenges issued."@,
                "counter"@,
                self.challenges_issued@ as int,
            ),
            scalar(
                "relay_challenges_consumed_total"@,
                "Challenges consumed by a verification attempt."@,
                "counter"@,
                self.challenges_consumed@ as int,
            ),
            scalar(
                "relay_rate_limited_requests_total"@,
                "Requests rejected by a rate limit."@,
                "counter"@,
                self.rate_limited_requests@ as int,
            ),
            scalar(
                "relay_device_revocations_total"@,
                "Devices revoked."@,
                "counter"@,
                self.device_revocations@ as int,
            ),
            scalar(
                "relay_revocation_enforced_disconnects_total"@,
                "Connections closed because their principal was revoked."@,
                "counter"@,
                self.revocation_enforced_disconnects@ as int,
            ),
            scalar(
                "relay_storage_errors_total"@,
                "Durable storage errors."@,
                "counter"@,
                self.storage_errors@ as int,
            ),
            scalar(
                "relay_retention_terminals_deleted_total"@,
                "Closed terminals deleted after their retention period."@,
                "counter"@,
                self.retention_terminals_deleted@ as int,
            ),
            scalar(
                "relay_quota_terminals_deleted_total"@,
                "Closed terminals deleted to satisfy the storage quota."@,
                "counter"@,
                self.quota_terminals_deleted@ as int,
            ),
            scalar(
                "relay_settings_reload_failures_total"@,
                "Committed settings revisions that could not be applied."@,
                "counter"@,
                self.settings_reload_failures@ as int,
            ),
            scalar(
                "relay_listener_rebinds_total"@,
                "Listener rebinds performed."@,
                "counter"@,
                self.listener_rebinds@ as int,
            ),
            scalar(
                "relay_http_requests_total"@,
                "HTTP requests served."@,
                "counter"@,
                self.http_requests@ as int,
            ),
            scalar(
                "relay_http_requests_failed_total"@,
                "HTTP requests answered with an error status."@,
                "counter"@,
                self.http_requests_failed@ as int,
            ),
        ]
    }

    /// The histograms, in the order in which they are printed. `sums` are their printed
    /// sums.
    pub open spec fn histograms(&self, sums: Seq<Seq<char>>) -> Seq<Family> {
        seq![
            self.checkpoint_batch_bytes@.family(
                "relay_checkpoint_batch_bytes"@,
                "Output bytes per checkpoint transaction."@,
                sums[0],
            ),
            self.checkpoint_batch_age_seconds@.family(
                "relay_checkpoint_batch_age_seconds"@,
                "Age of the oldest dirty byte when a checkpoint committed."@,
                sums[1],
            ),
            self.checkpoint_terminals_per_batch@.family(
                "relay_checkpoint_terminals_per_batch"@,
                "Terminals coalesced into one checkpoint transaction."@,
                sums[2],
            ),
            self.http_request_seconds@.family(
                "relay_http_request_seconds"@,
                "HTTP request latency."@,
                sums[3],
            ),
        ]
    }

    /// Every metric, in the order in which they are printed.
    pub open spec fn families(&self, sums: Seq<Seq<char>>) -> Seq<Family> {
        self.gauges() + self.terminal_counters() + self.output_counters() + self.limit_counters()
            + self.access_counters() + self.histograms(sums)
    }

    /// The whole exposition.
    pub open spec fn exposition(&self, sums: Seq<Seq<char>>) -> Seq<char> {
        printed(self.families(sums))
    }

    /// Nothing has been counted.
    pub open spec fn all_zero(&self) -> bool {
        &&& self.publisher_connections@ == 0
        &&& self.mirror_connections@ == 0
        &&& self.publisher_connections_total@ == 0
        &&& self.mirror_connections_total@ == 0
        &&& self.publishers_superseded@ == 0
        &&& self.terminals_open@ == 0
        &&& self.terminals_opened_total@ == 0
        &&& self.terminals_closed_total@ == 0
        &&& self.terminals_resident@ == 0
        &&& self.terminal_open_requests_pending@ == 0
        &&& self.terminal_open_requests_opened@ == 0
        &&& self.terminal_open_requests_declined@ == 0
        &&& self.terminal_open_requests_unavailable@ == 0
        &&& self.terminal_open_requests_timeout@ == 0
        &&& self.terminal_open_requests_refused@ == 0
        &&& self.output_bytes_accepted@ == 0
        &&& self.output_bytes_delivered@ == 0
        &&& self.output_bytes_replayed@ == 0
        &&& self.replay_bytes_resident@ == 0
        &&& self.dirty_bytes@ == 0
        &&& self.durable_offset_lag_bytes@ == 0
        &&& self.evicted_bytes@ == 0
        &&& self.evictions@ == 0
        &&& self.checkpoint_transactions@ == 0
        &&& self.checkpoint_failures@ == 0
        &&& self.checkpoint_rows_written@ == 0
        &&& self.checkpoint_frames_coalesced@ == 0
        &&& self.offset_mismatches@ == 0
        &&& self.offset_ahead_rejections@ == 0
        &&& self.replay_gaps@ == 0
        &&& self.slow_consumer_disconnects@ == 0
        &&& self.oversized_frames_rejected@ == 0
        &&& self.backpressure_waits@ == 0
        &&& self.backpressure_timeouts@ == 0
        &&& self.input_frames_delivered@ == 0
        &&& self.input_bytes_delivered@ == 0
        &&& self.input_frames_refused@ == 0
        &&& self.input_rate_limited@ == 0
        &&& self.resize_requests_forwarded@ == 0
        &&& self.auth_failures@ == 0
        &&& self.auth_successes@ == 0
        &&& self.challenges_issued@ == 0
        &&& self.challenges_consumed@ == 0
        &&& self.rate_limited_requests@ == 0
        &&& self.device_revocations@ == 0
        &&& self.revocation_enforced_disconnects@ == 0
        &&& self.storage_errors@ == 0
        &&& self.storage_bytes@ == 0
        &&& self.retention_terminals_deleted@ == 0
        &&& self.quota_terminals_deleted@ == 0
        &&& self.storage_unavailable@ == 0
        &&& self.settings_revision@ == 0
        &&& self.settings_committed_revision@ == 0
        &&& self.settings_reload_failures@ == 0
        &&& self.listener_rebinds@ == 0
        &&& self.http_requests@ == 0
        &&& self.http_requests_failed@ == 0
        &&& self.checkpoint_batch_bytes@ == (Counted {
            bounds: literals(CHECKPOINT_BATCH_BYTES_BOUNDS@),
            buckets: Seq::new(7, |i: int| 0nat),
            sum: 0,
            count: 0,
        })
        &&& self.checkpoint_batch_age_seconds@ == (Counted {
            bounds: literals(CHECKPOINT_BATCH_AGE_BOUNDS@),
            buckets: Seq::new(8, |i: int| 0nat),
            sum: 0,
            count: 0,
        })
        &&& self.checkpoint_terminals_per_batch@ == (Counted {
            bounds: literals(CHECKPOINT_TERMINALS_BOUNDS@),
            buckets: Seq::new(8, |i: int| 0nat),
            sum: 0,
            count: 0,
        })
        &&& self.http_request_seconds@ == (Counted {
            bounds: literals(HTTP_REQUEST_BOUNDS@),
            buckets: Seq::new(9, |i: int| 0nat),
            sum: 0,
            count: 0,
        })
    }

    /// Counts a request by the counters that it moves.
    pub fn count(&mut self, moved: Moved)
        ensures
            final(self).auth_failures@ == bumped(old(self).auth_failures@, moved.auth_failures),
            final(self).auth_successes@ == bumped(old(self).auth_successes@, moved.auth_successes),
            final(self).challenges_issued@ == bumped(
                old(self).challenges_issued@,
                moved.challenges_issued,
            ),
            final(self).challenges_consumed@ == bumped(
                old(self).challenges_consumed@,
                moved.challenges_consumed,
            ),
            final(self).rate_limited_requests@ == bumped(
                old(self).rate_limited_requests@,
                moved.rate_limited_requests,
            ),
            final(self).device_revocations@ == bumped(
                old(self).device_revocations@,
                moved.device_revocations,
            ),
            final(self).terminal_open_requests_opened@ == bumped(
                old(self).terminal_open_requests_opened@,
                moved.open_requests == OpenCount::Opened,
            ),
            final(self).terminal_open_requests_refused@ == bumped(
                old(self).terminal_open_requests_refused@,
                moved.open_requests == OpenCount::Refused,
            ),
            final(self).terminal_open_requests_unavailable@ == bumped(
                old(self).terminal_open_requests_unavailable@,
                moved.open_requests == OpenCount::Unavailable,
            ),
            final(self).terminal_open_requests_timeout@ == bumped(
                old(self).terminal_open_requests_timeout@,
                moved.open_requests == OpenCount::TimedOut,
            ),
            *final(self) == (Metrics {
                auth_failures: final(self).auth_failures,
                auth_successes: final(self).auth_successes,
                challenges_issued: final(self).challenges_issued,
                challenges_consumed: final(self).challenges_consumed,
                rate_limited_requests: final(self).rate_limited_requests,
                device_revocations: final(self).device_revocations,
                terminal_open_requests_opened: final(self).terminal_open_requests_opened,
                terminal_open_requests_refused: final(self).terminal_open_requests_refused,
                terminal_open_requests_unavailable: final(self).terminal_open_requests_unavailable,
                terminal_open_requests_timeout: final(self).terminal_open_requests_timeout,
                ..*old(self)
            }),
    {
        self.auth_failures.inc_if(moved.auth_failures);
        self.auth_successes.inc_if(moved.auth_successes);
        self.challenges_issued.inc_if(moved.challenges_issued);
        self.challenges_consumed.inc_if(moved.challenges_consumed);
        self.rate_limited_requests.inc_if(moved.rate_limited_requests);
        self.device_revocations.inc_if(moved.device_revocations);
        match moved.open_requests {
            OpenCount::Nowhere => {},
            OpenCount::Opened => self.terminal_open_requests_opened.inc(),
            OpenCount::Refused => self.terminal_open_requests_refused.inc(),
            OpenCount::Unavailable => self.terminal_open_requests_unavailable.inc(),
            OpenCount::TimedOut => self.terminal_open_requests_timeout.inc(),
        }
    }

    /// Counts a request by the status that it was answered with.
    pub fn count_answer(&mut self, status: u16)
        ensures
            final(self).http_requests@ == bumped(old(self).http_requests@, true),
            final(self).http_requests_failed@ == bumped(
                old(self).http_requests_failed@,
                400 <= status < 600,
            ),
            *final(self) == (Metrics {
                http_requests: final(self).http_requests,
                http_requests_failed: final(self).http_requests_failed,
                ..*old(self)
            }),
    {
        self.http_requests.inc();
        self.http_requests_failed.inc_if(is_failure(status));
    }

    /// Counts a terminal that was deleted, by the reason for it.
    pub fn count_deletion(&mut self, cause: Cause)
        ensures
            final(self).retention_terminals_deleted@ == bumped(
                old(self).retention_terminals_deleted@,
                cause == Cause::Retention,
            ),
            final(self).quota_terminals_deleted@ == bumped(
                old(self).quota_terminals_deleted@,
                cause == Cause::Quota,
            ),
            *final(self) == (Metrics {
                retention_terminals_deleted: final(self).retention_terminals_deleted,
                quota_terminals_deleted: final(self).quota_terminals_deleted,
                ..*old(self)
            }),
    {
        match cause {
            Cause::Retention => self.retention_terminals_deleted.inc(),
            Cause::Quota => self.quota_terminals_deleted.inc(),
        }
    }

    /// Metrics of a process that has done nothing yet.
    pub fn new() -> (metrics: Self)
        ensures
            metrics.wf(),
            metrics.all_zero(),
    {
        proof {
            reveal_strlit("0.001");
            reveal_strlit("0.005");
            reveal_strlit("0.01");
            reveal_strlit("0.025");
            reveal_strlit("0.05");
            reveal_strlit("0.1");
            reveal_strlit("0.25");
            reveal_strlit("0.5");
            reveal_strlit("1");
            reveal_strlit("1048576");
            reveal_strlit("15");
            reveal_strlit("16");
            reveal_strlit("16384");
            reveal_strlit("2");
            reveal_strlit("256");
            reveal_strlit("262144");
            reveal_strlit("30");
            reveal_strlit("4");
            reveal_strlit("4096");
            reveal_strlit("4194304");
            reveal_strlit("5");
            reveal_strlit("60");
            reveal_strlit("64");
            reveal_strlit("65536");
            reveal_strlit("8");
            assert(CHECKPOINT_BATCH_BYTES_BOUNDS@ =~= seq!["4096", "16384", "65536", "262144", "1048576", "4194304"]);
            assert(CHECKPOINT_BATCH_AGE_BOUNDS@ =~= seq!["0.01", "0.05", "0.25", "1", "5", "15", "60"]);
            assert(CHECKPOINT_TERMINALS_BOUNDS@ =~= seq!["1", "2", "4", "8", "16", "64", "256"]);
            assert(HTTP_REQUEST_BOUNDS@ =~= seq!["0.001", "0.005", "0.025", "0.1", "0.5", "1", "5", "30"]);
        }
        Self {
            publisher_connections: Gauge::new(),
            mirror_connections: Gauge::new(),
            publisher_connections_total: Counter::new(),
            mirror_connections_total: Counter::new(),
            publishers_superseded: Counter::new(),
            terminals_open: Gauge::new(),
            terminals_opened_total: Counter::new(),
            terminals_closed_total: Counter::new(),
            terminals_resident: Gauge::new(),
            terminal_open_requests_pending: Gauge::new(),
            terminal_open_requests_opened: Counter::new(),
            terminal_open_requests_declined: Counter::new(),
            terminal_open_requests_unavailable: Counter::new(),
            terminal_open_requests_timeout: Counter::new(),
            terminal_open_requests_refused: Counter::new(),
            output_bytes_accepted: Counter::new(),
            output_bytes_delivered: Counter::new(),
            output_bytes_replayed: Counter::new(),
            replay_bytes_resident: Gauge::new(),
            dirty_bytes: Gauge::new(),
            durable_offset_lag_bytes: Gauge::new(),
            evicted_bytes: Counter::new(),
            evictions: Counter::new(),
            checkpoint_transactions: Counter::new(),
            checkpoint_failures: Counter::new(),
            checkpoint_rows_written: Counter::new(),
            checkpoint_frames_coalesced: Counter::new(),
            checkpoint_batch_bytes: Histogram::new(CHECKPOINT_BATCH_BYTES_BOUNDS.as_slice()),
            checkpoint_batch_age_seconds: Histogram::new(CHECKPOINT_BATCH_AGE_BOUNDS.as_slice()),
            checkpoint_terminals_per_batch: Histogram::new(CHECKPOINT_TERMINALS_BOUNDS.as_slice()),
            offset_mismatches: Counter::new(),
            offset_ahead_rejections: Counter::new(),
            replay_gaps: Counter::new(),
            slow_consumer_disconnects: Counter::new(),
            oversized_frames_rejected: Counter::new(),
            backpressure_waits: Counter::new(),
            backpressure_timeouts: Counter::new(),
            input_frames_delivered: Counter::new(),
            input_bytes_delivered: Counter::new(),
            input_frames_refused: Counter::new(),
            input_rate_limited: Counter::new(),
            resize_requests_forwarded: Counter::new(),
            auth_failures: Counter::new(),
            auth_successes: Counter::new(),
            challenges_issued: Counter::new(),
            challenges_consumed: Counter::new(),
            rate_limited_requests: Counter::new(),
            device_revocations: Counter::new(),
            revocation_enforced_disconnects: Counter::new(),
            storage_errors: Counter::new(),
            storage_bytes: Gauge::new(),
            retention_terminals_deleted: Counter::new(),
            quota_terminals_deleted: Counter::new(),
            storage_unavailable: Gauge::new(),
            settings_revision: Gauge::new(),
            settings_committed_revision: Gauge::new(),
            settings_reload_failures: Counter::new(),
            listener_rebinds: Counter::new(),
            http_requests: Counter::new(),
            http_requests_failed: Counter::new(),
            http_request_seconds: Histogram::new(HTTP_REQUEST_BOUNDS.as_slice()),
        }
    }

    fn list_gauges(&self) -> (list: Vec<Scalar>)
        ensures
            scalars(list@) == self.gauges(),
            forall|i: int| 0 <= i < list@.len() ==> (#[trigger] list@[i]).value > i128::MIN,
    {
        let lag: i128 = self.settings_committed_revision.get() as i128 - self.settings_revision.get() as i128;
        let list = vec![
            Scalar {
                name: "relay_publisher_connections",
                help: "Active publisher relay connections.",
                kind: "gauge",
                value: self.publisher_connections.get() as i128,
            },
            Scalar {
                name: "relay_mirror_connections",
                help: "Active mirror subscriptions.",
                kind: "gauge",
                value: self.mirror_connections.get() as i128,
            },
            Scalar {
                name: "relay_terminals_open",
                help: "Terminals in the open state.",
                kind: "gauge",
                value: self.terminals_open.get() as i128,
            },
            Scalar {
                name: "relay_terminal_open_requests_pending",
                help: "Terminal-open requests awaiting a publisher's answer.",
                kind: "gauge",
                value: self.terminal_open_requests_pending.get() as i128,
            },
            Scalar {
                name: "relay_terminals_resident",
                help: "Terminals with an in-memory replay buffer.",
                kind: "gauge",
                value: self.terminals_resident.get() as i128,
            },
            Scalar {
                name: "relay_replay_bytes_resident",
                help: "Output bytes held in in-memory replay buffers.",
                kind: "gauge",
                value: self.replay_bytes_resident.get() as i128,
            },
            Scalar {
                name: "relay_dirty_bytes",
                help: "Accepted output bytes not yet committed.",
                kind: "gauge",
                value: self.dirty_bytes.get() as i128,
            },
            Scalar {
                name: "relay_durable_offset_lag_bytes",
                help: "Sum over terminals of next_offset minus durable_offset.",
                kind: "gauge",
                value: self.durable_offset_lag_bytes.get() as i128,
            },
            Scalar {
                name: "relay_storage_bytes",
                help: "Durable storage consumed, including WAL.",
                kind: "gauge",
                value: self.storage_bytes.get() as i128,
            },
            Scalar {
                name: "relay_storage_unavailable",
                help: "1 when durable storage is failing and readiness is degraded.",
                kind: "gauge",
                value: self.storage_unavailable.get() as i128,
            },
            Scalar {
                name: "relay_settings_revision",
                help: "Settings revision applied by this instance.",
                kind: "gauge",
                value: self.settings_revision.get() as i128,
            },
            Scalar {
                name: "relay_settings_committed_revision",
                help: "Latest settings revision committed to the database.",
                kind: "gauge",
                value: self.settings_committed_revision.get() as i128,
            },
            Scalar {
                name: "relay_settings_propagation_lag_revisions",
                help: "Committed settings revision minus the revision applied here.",
                kind: "gauge",
                value: lag,
            },
        ];
        assert(scalars(list@) =~= self.gauges());
        list
    }

    fn list_terminal_counters(&self) -> (list: Vec<Scalar>)
        ensures
            scalars(list@) == self.terminal_counters(),
            forall|i: int| 0 <= i < list@.len() ==> (#[trigger] list@[i]).value > i128::MIN,
    {
        let list = vec![
            Scalar {
                name: "relay_publisher_connections_total",
                help: "Publisher connections accepted.",
                kind: "counter",
                value: self.publisher_connections_total.get() as i128,
            },
            Scalar {
                name: "relay_mirror_connections_total",
                help: "Mirror subscriptions accepted.",
                kind: "counter",
                value: self.mirror_connections_total.get() as i128,
            },
            Scalar {
                name: "relay_publishers_superseded_total",
                help: "Publisher connections closed because a newer one took over the device.",
                kind: "counter",
                value: self.publishers_superseded.get() as i128,
            },
            Scalar {
                name: "relay_terminals_opened_total",
                help: "Terminals opened.",
                kind: "counter",
                value: self.terminals_opened_total.get() as i128,
            },
            Scalar {
                name: "relay_terminals_closed_total",
                help: "Terminals closed.",
                kind: "counter",
                value: self.terminals_closed_total.get() as i128,
            },
            Scalar {
                name: "relay_terminal_open_requests_opened_total",
                help: "Terminal-open requests a publisher honoured.",
                kind: "counter",
                value: self.terminal_open_requests_opened.get() as i128,
            },
            Scalar {
                name: "relay_terminal_open_requests_declined_total",
                help: "Terminal-open requests a publisher refused.",
                kind: "counter",
                value: self.terminal_open_requests_declined.get() as i128,
            },
            Scalar {
                name: "relay_terminal_open_requests_unavailable_total",
                help: "Terminal-open requests with no capable publisher connected.",
                kind: "counter",
                value: self.terminal_open_requests_unavailable.get() as i128,
            },
            Scalar {
                name: "relay_terminal_open_requests_timeout_total",
                help: "Terminal-open requests a publisher never answered.",
                kind: "counter",
                value: self.terminal_open_requests_timeout.get() as i128,
            },
            Scalar {
                name: "relay_terminal_open_requests_refused_total",
                help: "Terminal-open requests the relay refused before asking anybody.",
                kind: "counter",
                value: self.terminal_open_requests_refused.get() as i128,
            },
        ];
        assert(scalars(list@) =~= self.terminal_counters());
        list
    }

    fn list_output_counters(&self) -> (list: Vec<Scalar>)
        ensures
            scalars(list@) == self.output_counters(),
            forall|i: int| 0 <= i < list@.len() ==> (#[trigger] list@[i]).value > i128::MIN,
    {
        let list = vec![
            Scalar {
                name: "relay_output_bytes_accepted_total",
                help: "Output payload bytes accepted from publishers.",
                kind: "counter",
                value: self.output_bytes_accepted.get() as i128,
            },
            Scalar {
                name: "relay_output_bytes_delivered_total",
                help: "Output payload bytes delivered to subscribers, live and replayed.",
                kind: "counter",
                value: self.output_bytes_delivered.get() as i128,
            },
            Scalar {
                name: "relay_output_bytes_replayed_total",
                help: "Output payload bytes delivered from the replay window.",
                kind: "counter",
                value: self.output_bytes_replayed.get() as i128,
            },
            Scalar {
                name: "relay_evicted_bytes_total",
                help: "Output bytes evicted from replay buffers.",
                kind: "counter",
                value: self.evicted_bytes.get() as i128,
            },
            Scalar {
                name: "relay_evictions_total",
                help: "Replay buffer eviction operations.",
                kind: "counter",
                value: self.evictions.get() as i128,
            },
            Scalar {
                name: "relay_checkpoint_transactions_total",
                help: "Database transactions used to commit terminal output.",
                kind: "counter",
                value: self.checkpoint_transactions.get() as i128,
            },
            Scalar {
                name: "relay_checkpoint_failures_total",
                help: "Failed checkpoint commits.",
                kind: "counter",
                value: self.checkpoint_failures.get() as i128,
            },
            Scalar {
                name: "relay_checkpoint_rows_written_total",
                help: "Rows written by checkpoint transactions.",
                kind: "counter",
                value: self.checkpoint_rows_written.get() as i128,
            },
            Scalar {
                name: "relay_checkpoint_frames_coalesced_total",
                help: "Publisher output frames folded into checkpoint transactions.",
                kind: "counter",
                value: self.checkpoint_frames_coalesced.get() as i128,
            },
            Scalar {
                name: "relay_offset_mismatches_total",
                help: "Rejected publisher frames whose start offset did not match.",
                kind: "counter",
                value: self.offset_mismatches.get() as i128,
            },
            Scalar {
                name: "relay_offset_ahead_rejections_total",
                help: "Subscriptions rejected for requesting an offset beyond next_offset.",
                kind: "counter",
                value: self.offset_ahead_rejections.get() as i128,
            },
            Scalar {
                name: "relay_replay_gaps_total",
                help: "Subscriptions served with a replay gap notice.",
                kind: "counter",
                value: self.replay_gaps.get() as i128,
            },
        ];
        assert(scalars(list@) =~= self.output_counters());
        list
    }

    fn list_limit_counters(&self) -> (list: Vec<Scalar>)
        ensures
            scalars(list@) == self.limit_counters(),
            forall|i: int| 0 <= i < list@.len() ==> (#[trigger] list@[i]).value > i128::MIN,
    {
        let list = vec![
            Scalar {
                name: "relay_slow_consumer_disconnects_total",
                help: "Subscribers disconnected for exceeding their outbound queue bound.",
                kind: "counter",
                value: self.slow_consumer_disconnects.get() as i128,
            },
            Scalar {
                name: "relay_oversized_frames_rejected_total",
                help: "Frames rejected for exceeding the negotiated frame size.",
                kind: "counter",
                value: self.oversized_frames_rejected.get() as i128,
            },
            Scalar {
                name: "relay_backpressure_waits_total",
                help: "Times a publisher waited for a checkpoint before its frame was accepted.",
                kind: "counter",
                value: self.backpressure_waits.get() as i128,
            },
            Scalar {
                name: "relay_backpressure_timeouts_total",
                help: "Times a publisher exceeded its unacknowledged window past the wait deadline.",
                kind: "counter",
                value: self.backpressure_timeouts.get() as i128,
            },
            Scalar {
                name: "relay_input_frames_delivered_total",
                help: "Terminal input frames delivered to publishers.",
                kind: "counter",
                value: self.input_frames_delivered.get() as i128,
            },
            Scalar {
                name: "relay_input_bytes_delivered_total",
                help: "Terminal input payload bytes delivered to publishers.",
                kind: "counter",
                value: self.input_bytes_delivered.get() as i128,
            },
            Scalar {
                name: "relay_input_frames_refused_total",
                help: "Terminal input frames refused, for any reason.",
                kind: "counter",
                value: self.input_frames_refused.get() as i128,
            },
            Scalar {
                name: "relay_input_rate_limited_total",
                help: "Terminal input frames refused by a per-subscriber rate limit.",
                kind: "counter",
                value: self.input_rate_limited.get() as i128,
            },
            Scalar {
                name: "relay_resize_requests_forwarded_total",
                help: "Subscriber resize requests forwarded to publishers.",
                kind: "counter",
                value: self.resize_requests_forwarded.get() as i128,
            },
        ];
        assert(scalars(list@) =~= self.limit_counters());
        list
    }

    fn list_access_counters(&self) -> (list: Vec<Scalar>)
        ensures
            scalars(list@) == self.access_counters(),
            forall|i: int| 0 <= i < list@.len() ==> (#[trigger] list@[i]).value > i128::MIN,
    {
        let list = vec![
            Scalar {
                name: "relay_auth_failures_total",
                help: "Failed authentication attempts.",
                kind: "counter",
                value: self.auth_failures.get() as i128,
            },
            Scalar {
                name: "relay_auth_successes_total",
                help: "Successful authentications.",
                kind: "counter",
                value: self.auth_successes.get() as i128,
            },
            Scalar {
                name: "relay_challenges_issued_total",
                help: "Proof-of-possession challenges issued.",
                kind: "counter",
                value: self.challenges_issued.get() as i128,
            },
            Scalar {
                name: "relay_challenges_consumed_total",
                help: "Challenges consumed by a verification attempt.",
                kind: "counter",
                value: self.challenges_consumed.get() as i128,
            },
            Scalar {
                name: "relay_rate_limited_requests_total",
                help: "Requests rejected by a rate limit.",
                kind: "counter",
                value: self.rate_limited_requests.get() as i128,
            },
            Scalar {
                name: "relay_device_revocations_total",
                help: "Devices revoked.",
                kind: "counter",
                value: self.device_revocations.get() as i128,
            },
            Scalar {
                name: "relay_revocation_enforced_disconnects_total",
                help: "Connections closed because their principal was revoked.",
                kind: "counter",
                value: self.revocation_enforced_disconnects.get() as i128,
            },
            Scalar {
                name: "relay_storage_errors_total",
                help: "Durable storage errors.",
                kind: "counter",
                value: self.storage_errors.get() as i128,
            },
            Scalar {
                name: "relay_retention_terminals_deleted_total",
                help: "Closed terminals deleted after their retention period.",
                kind: "counter",
                value: self.retention_terminals_deleted.get() as i128,
            },
            Scalar {
                name: "relay_quota_terminals_deleted_total",
                help: "Closed terminals deleted to satisfy the storage quota.",
                kind: "counter",
                value: self.quota_terminals_deleted.get() as i128,
            },
            Scalar {
                name: "relay_settings_reload_failures_total",
                help: "Committed settings revisions that could not be applied.",
                kind: "counter",
                value: self.settings_reload_failures.get() as i128,
            },
            Scalar {
                name: "relay_listener_rebinds_total",
                help: "Listener rebinds performed.",
                kind: "counter",
                value: self.listener_rebinds.get() as i128,
            },
            Scalar {
                name: "relay_http_requests_total",
                help: "HTTP requests served.",
                kind: "counter",
                value: self.http_requests.get() as i128,
            },
            Scalar {
                name: "relay_http_requests_failed_total",
                help: "HTTP requests answered with an error status.",
                kind: "counter",
                value: self.http_requests_failed.get() as i128,
            },
        ];
        assert(scalars(list@) =~= self.access_counters());
        list
    }

    fn write_histograms(&self, out: &mut String, sums: &[String])
        requires
            self.wf(),
            sums@.len() == 4,
        ensures
            final(out)@ == old(out)@ + printed(self.histograms(texts(sums@))),
    {
        let ghost before = out@;
        let ghost list = self.histograms(texts(sums@));
        assert(texts(sums@)[0] == sums@[0]@ && texts(sums@)[1] == sums@[1]@ && texts(sums@)[2]
            == sums@[2]@ && texts(sums@)[3] == sums@[3]@);
        self.checkpoint_batch_bytes.render(
            out,
            "relay_checkpoint_batch_bytes",
            "Output bytes per checkpoint transaction.",
            sums[0].as_str(),
        );
        self.checkpoint_batch_age_seconds.render(
            out,
            "relay_checkpoint_batch_age_seconds",
            "Age of the oldest dirty byte when a checkpoint committed.",
            sums[1].as_str(),
        );
        self.checkpoint_terminals_per_batch.render(
            out,
            "relay_checkpoint_terminals_per_batch",
            "Terminals coalesced into one checkpoint transaction.",
            sums[2].as_str(),
        );
        self.http_request_seconds.render(
            out,
            "relay_http_request_seconds",
            "HTTP request latency.",
            sums[3].as_str(),
        );
        proof {
            lemma_printed_one(list[0]);
            lemma_printed_one(list[1]);
            lemma_printed_one(list[2]);
            lemma_printed_one(list[3]);
            lemma_printed(seq![list[0]], seq![list[1]]);
            lemma_printed(seq![list[0]] + seq![list[1]], seq![list[2]]);
            lemma_printed(seq![list[0]] + seq![list[1]] + seq![list[2]], seq![list[3]]);
            assert(list =~= seq![list[0]] + seq![list[1]] + seq![list[2]] + seq![list[3]]);
            assert(out@ =~= before + printed(list));
        }
    }

    /// Print everything: the gauges, the counters and the histograms. The four histogram
    /// sums are fractions and come printed, in the order of the histograms.
    pub fn render(&self, sums: &[String]) -> (out: String)
        requires
            self.wf(),
            sums@.len() == 4,
        ensures
            out@ == self.exposition(texts(sums@)),
    {
        let mut out = String::new();
        write_scalars(&mut out, &self.list_gauges());
        write_scalars(&mut out, &self.list_terminal_counters());
        write_scalars(&mut out, &self.list_output_counters());
        write_scalars(&mut out, &self.list_limit_counters());
        write_scalars(&mut out, &self.list_access_counters());
        self.write_histograms(&mut out, sums);
        proof {
            let front = self.gauges();
            lemma_printed(front, self.terminal_counters());
            let front = front + self.terminal_counters();
            lemma_printed(front, self.output_counters());
            let front = front + self.output_counters();
            lemma_printed(front, self.limit_counters());
            let front = front + self.limit_counters();
            lemma_printed(front, self.access_counters());
            let front = front + self.access_counters();
            lemma_printed(front, self.histograms(texts(sums@)));
            assert(out@ =~= self.exposition(texts(sums@)));
        }
        out
    }
}

} // verus!
