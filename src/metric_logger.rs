use vstd::prelude::*;

use crate::clock::now_micros;
use crate::error::{Result, TrackerError};
use crate::metric_store::{matching, point_views, MetricPoint, MetricStore, PointView};

verus! {

/// How a metric logger batches its writes.
#[derive(Debug, Clone, Copy, PartialEq, Eq)]
pub struct MetricLoggerConfig {
    /// A buffer that reaches this many points is flushed at once.
    pub buffer_size: usize,
    /// The period of the background flush, in milliseconds.
    pub flush_interval_ms: u64,
}

impl Default for MetricLoggerConfig {
    /// A thousand points, flushed at least once a minute.
    fn default() -> (c: MetricLoggerConfig)
        ensures
            c.buffer_size == 1000,
            c.flush_interval_ms == 60_000,
    {
        MetricLoggerConfig { buffer_size: 1000, flush_interval_ms: 60_000 }
    }
}

/// What the background flush of a logger has just been woken by.
#[derive(Debug, Clone, Copy, PartialEq, Eq)]
pub enum FlushEvent {
    /// The flush interval has elapsed.
    Tick,
    /// Shutdown was signalled.
    Shutdown,
}

/// What the background flush does after handling an event.
#[derive(Debug, Clone, Copy, PartialEq, Eq)]
pub enum FlushStep {
    /// Wait for the next event.
    Continue,
    /// Terminate.
    Stop,
}

/// Buffers the metric points of one run and drains them into a metric store,
/// when the buffer reaches its threshold or when asked to.
pub struct MetricLogger {
    run_id: u128,
    buffer: Vec<MetricPoint>,
    config: MetricLoggerConfig,
}

/// The `(name, value)` pairs of `entries`, with names as characters.
pub open spec fn entry_views(entries: Seq<(&str, u64)>) -> Seq<(Seq<char>, u64)> {
    entries.map_values(|e: (&str, u64)| (e.0@, e.1))
}

/// The points that `entries` make for run `run_id`, all stamped `timestamp`.
pub open spec fn batch_points(run_id: u128, entries: Seq<(Seq<char>, u64)>, timestamp: i64) -> Seq<
    PointView,
> {
    entries.map_values(
        |e: (Seq<char>, u64)| PointView { run_id, name: e.0, value_bits: e.1, timestamp },
    )
}

/// The outcome of appending `new_points` to the buffer of `before` with
/// `store_before` as the store: `after`, `store_after` and the result `r`.
///
/// The points join the buffer. If the buffer then holds at least the
/// threshold, and at least one point, it is emptied and handed to the store: the result is what the
/// store returned, unchanged, and on success the store has them after what it had. Otherwise
/// nothing else changes and the result is `Ok`.
pub open spec fn log_outcome<S: MetricStore>(
    before: MetricLogger,
    after: MetricLogger,
    store_before: S,
    store_after: S,
    new_points: Seq<PointView>,
    r: Result<()>,
) -> bool {
    let b = before.buffered() + new_points;
    &&& after.id() == before.id()
    &&& after.settings() == before.settings()
    &&& if b.len() >= before.settings().buffer_size && b.len() > 0 {
        &&& after.buffered() == Seq::<PointView>::empty()
        &&& store_after.is_reliable() == store_before.is_reliable()
        &&& r == store_before.store_result(b)
        &&& store_before.is_reliable() ==> r is Ok
        &&& r is Ok ==> store_after.stored() == store_before.stored() + b
    } else {
        &&& after.buffered() == b
        &&& store_after == store_before
        &&& r is Ok
    }
}

/// The outcome of flushing `before` into `store_before`: `after`,
/// `store_after` and the result `r`.
///
/// An empty buffer leaves everything as it is. Otherwise the buffer is
/// emptied whatever happens, and handed to the store: the result is what
/// the store returned, unchanged, and on success the store has the points after what it had.
pub open spec fn flush_outcome<S: MetricStore>(
    before: MetricLogger,
    after: MetricLogger,
    store_before: S,
    store_after: S,
    r: Result<()>,
) -> bool {
    &&& after.id() == before.id()
    &&& after.settings() == before.settings()
    &&& after.buffered() == Seq::<PointView>::empty()
    &&& if before.buffered().len() == 0 {
        store_after == store_before && r is Ok
    } else {
        &&& store_after.is_reliable() == store_before.is_reliable()
        &&& r == store_before.store_result(before.buffered())
        &&& store_before.is_reliable() ==> r is Ok
        &&& r is Ok ==> store_after.stored() == store_before.stored() + before.buffered()
    }
}

/// `r` with the step it carries forgotten.
pub open spec fn unit_result(r: Result<FlushStep>) -> Result<()> {
    match r {
        Ok(_) => Ok(()),
        Err(e) => Err(e),
    }
}

impl MetricLogger {
    /// The run whose points this logger records.
    pub closed spec fn id(&self) -> u128 {
        self.run_id
    }

    /// The configuration of this logger.
    pub closed spec fn settings(&self) -> MetricLoggerConfig {
        self.config
    }

    /// The points waiting to be flushed, in the order they were logged.
    pub closed spec fn buffered(&self) -> Seq<PointView> {
        point_views(self.buffer@)
    }

    /// A logger for run `run_id` with an empty buffer.
    pub fn new(run_id: u128, config: MetricLoggerConfig) -> (l: MetricLogger)
        ensures
            l.id() == run_id,
            l.settings() == config,
            l.buffered() == Seq::<PointView>::empty(),
    {
        let l = MetricLogger { run_id, buffer: Vec::new(), config };
        assert(l.buffered() =~= Seq::<PointView>::empty());
        l
    }

    /// The run whose points this logger records.
    pub fn run_id(&self) -> (r: u128)
        ensures
            r == self.id(),
    {
        self.run_id
    }

    /// The configuration of this logger.
    pub fn config(&self) -> (c: MetricLoggerConfig)
        ensures
            c == self.settings(),
    {
        self.config
    }

    /// The number of points waiting to be flushed.
    pub fn buffered_len(&self) -> (n: usize)
        ensures
            n == self.buffered().len(),
    {
        self.buffer.len()
    }

    /// Hands the whole buffer to `store` and leaves the buffer empty. A
    /// failed store loses the points and returns its error.
    pub fn flush<S: MetricStore>(&mut self, store: &mut S) -> (r: Result<()>)
        ensures
            flush_outcome(*old(self), *final(self), *old(store), *final(store), r),
    {
        if self.buffer.len() == 0 {
            assert(self.buffered() =~= Seq::<PointView>::empty());
            return Ok(());
        }
        let mut points: Vec<MetricPoint> = Vec::new();
        core::mem::swap(&mut self.buffer, &mut points);
        assert(self.buffered() =~= Seq::<PointView>::empty());
        store.store_metrics(points.as_slice())
    }

    /// Flushes if the buffer has reached its threshold.
    fn flush_if_full<S: MetricStore>(&mut self, store: &mut S) -> (r: Result<()>)
        ensures
            final(self).id() == old(self).id(),
            final(self).settings() == old(self).settings(),
            if old(self).buffered().len() >= old(self).settings().buffer_size && old(self).buffered().len()
                > 0 {
                &&& final(self).buffered() == Seq::<PointView>::empty()
                &&& final(store).is_reliable() == old(store).is_reliable()
                &&& r == old(store).store_result(old(self).buffered())
                &&& old(store).is_reliable() ==> r is Ok
                &&& r is Ok ==> final(store).stored() == old(store).stored() + old(self).buffered()
            } else {
                &&& *final(self) == *old(self)
                &&& *final(store) == *old(store)
                &&& r is Ok
            },
    {
        if self.buffer.len() >= self.config.buffer_size && self.buffer.len() > 0 {
            self.flush(store)
        } else {
            Ok(())
        }
    }

    /// Logs one point stamped `timestamp`, then flushes if the buffer has
    /// reached its threshold.
    pub fn log_at<S: MetricStore>(&mut self, name: &str, value_bits: u64, timestamp: i64, store: &mut S) -> (r: Result<()>)
        ensures
            log_outcome(
                *old(self),
                *final(self),
                *old(store),
                *final(store),
                seq![PointView { run_id: old(self).id(), name: name@, value_bits, timestamp }],
                r,
            ),
    {
        let point = MetricPoint { run_id: self.run_id, name: name.to_owned(), value_bits, timestamp };
        self.buffer.push(point);
        assert(self.buffered() =~= old(self).buffered() + seq![
            PointView { run_id: old(self).id(), name: name@, value_bits, timestamp },
        ]);
        self.flush_if_full(store)
    }

    /// Logs one point stamped with the current time, then flushes if the
    /// buffer has reached its threshold.
    pub fn log<S: MetricStore>(&mut self, name: &str, value_bits: u64, store: &mut S) -> (r: Result<()>)
        ensures
            exists|t: i64|
                log_outcome(
                    *old(self),
                    *final(self),
                    *old(store),
                    *final(store),
                    seq![PointView { run_id: old(self).id(), name: name@, value_bits, timestamp: t }],
                    r,
                ),
    {
        let t = now_micros();
        self.log_at(name, value_bits, t, store)
    }

    /// Logs every entry, in order and with one shared timestamp, then flushes
    /// if the buffer has reached its threshold.
    pub fn log_batch_at<S: MetricStore>(&mut self, entries: &[(&str, u64)], timestamp: i64, store: &mut S) -> (r: Result<()>)
        ensures
            log_outcome(
                *old(self),
                *final(self),
                *old(store),
                *final(store),
                batch_points(old(self).id(), entry_views(entries@), timestamp),
                r,
            ),
    {
        let mut i: usize = 0;
        while i < entries.len()
            invariant
                i <= entries@.len(),
                self.run_id == old(self).run_id,
                self.config == old(self).config,
                self.buffered() == old(self).buffered() + batch_points(
                    self.run_id,
                    entry_views(entries@.take(i as int)),
                    timestamp,
                ),
            decreases entries@.len() - i,
        {
            let (name, value_bits) = entries[i];
            let ghost before = self.buffered();
            self.buffer.push(MetricPoint { run_id: self.run_id, name: name.to_owned(), value_bits, timestamp });
            proof {
                assert(entries@.take(i as int + 1) =~= entries@.take(i as int).push(entries@[i as int]));
                assert(self.buffered() =~= before.push(
                    PointView { run_id: self.run_id, name: name@, value_bits, timestamp },
                ));
                assert(entry_views(entries@.take(i as int + 1)) =~= entry_views(
                    entries@.take(i as int),
                ).push((name@, value_bits)));
                assert(batch_points(self.run_id, entry_views(entries@.take(i as int + 1)), timestamp)
                    =~= batch_points(self.run_id, entry_views(entries@.take(i as int)), timestamp).push(
                    PointView { run_id: self.run_id, name: name@, value_bits, timestamp },
                ));
                assert(self.buffered() =~= old(self).buffered() + batch_points(
                    self.run_id,
                    entry_views(entries@.take(i as int + 1)),
                    timestamp,
                ));
            }
            i = i + 1;
        }
        assert(entries@.take(entries@.len() as int) =~= entries@);
        self.flush_if_full(store)
    }

    /// Logs every entry, in order and stamped with one reading of the current
    /// time, then flushes if the buffer has reached its threshold.
    pub fn log_batch<S: MetricStore>(&mut self, entries: &[(&str, u64)], store: &mut S) -> (r: Result<()>)
        ensures
            exists|t: i64|
                log_outcome(
                    *old(self),
                    *final(self),
                    *old(store),
                    *final(store),
                    batch_points(old(self).id(), entry_views(entries@), t),
                    r,
                ),
    {
        let t = now_micros();
        self.log_batch_at(entries, t, store)
    }

    /// Handles one event of the background flush: on a tick, flushes what is
    /// buffered and goes on; on shutdown, flushes what is buffered and stops.
    /// A failed flush ends the background flush with its error.
    pub fn auto_flush_step<S: MetricStore>(&mut self, event: FlushEvent, store: &mut S) -> (r: Result<FlushStep>)
        ensures
            flush_outcome(
                *old(self),
                *final(self),
                *old(store),
                *final(store),
                unit_result(r),
            ),
            r matches Ok(step) ==> (step == FlushStep::Stop <==> event == FlushEvent::Shutdown),
    {
        let flushed = self.flush(store);
        if flushed.is_ok() {
            let step = match event {
                FlushEvent::Tick => FlushStep::Continue,
                FlushEvent::Shutdown => FlushStep::Stop,
            };
            let ghost u: () = flushed->Ok_0;
            assert(u == ());
            assert(flushed == Ok::<(), TrackerError>(()));
            Ok(step)
        } else {
            let ghost g = flushed;
            let e = flushed.unwrap_err();
            assert(g == Err::<(), TrackerError>(e));
            Err(e)
        }
    }
}

/// Flushing twice with nothing logged in between writes nothing the second
/// time: the second flush leaves the logger and the store as they were, and
/// succeeds.
pub proof fn flush_twice_writes_once<S: MetricStore>(
    l0: MetricLogger,
    l1: MetricLogger,
    l2: MetricLogger,
    s0: S,
    s1: S,
    s2: S,
    r1: Result<()>,
    r2: Result<()>,
)
    requires
        flush_outcome(l0, l1, s0, s1, r1),
        flush_outcome(l1, l2, s1, s2, r2),
    ensures
        s2 == s1,
        l2.buffered() == l1.buffered(),
        r2 is Ok,
{
}

/// The first `i` of `n` logs below a threshold of `n`, from an empty buffer,
/// only fill the buffer.
proof fn lemma_fill_below_threshold<S: MetricStore>(
    loggers: Seq<MetricLogger>,
    stores: Seq<S>,
    points: Seq<PointView>,
    results: Seq<Result<()>>,
    n: nat,
    i: int,
)
    requires
        0 <= i <= n - 1,
        points.len() == n,
        loggers.len() == n + 1,
        stores.len() == n + 1,
        results.len() == n,
        loggers[0].settings().buffer_size == n,
        loggers[0].buffered() == Seq::<PointView>::empty(),
        forall|j: int|
            0 <= j < n ==> log_outcome(
                #[trigger] loggers[j],
                loggers[j + 1],
                stores[j],
                stores[j + 1],
                seq![points[j]],
                results[j],
            ),
    ensures
        loggers[i].settings().buffer_size == n,
        loggers[i].buffered() == points.take(i),
        stores[i] == stores[0],
    decreases i,
{
    if i == 0 {
        assert(points.take(0) =~= Seq::<PointView>::empty());
    } else {
        lemma_fill_below_threshold(loggers, stores, points, results, n, i - 1);
        let j = i - 1;
        assert(log_outcome(loggers[j], loggers[j + 1], stores[j], stores[j + 1], seq![points[j]], results[j]));
        assert(points.take(j) + seq![points[j]] =~= points.take(i));
    }
}

/// With a threshold of `n` and an empty buffer, logging `n` points one at a
/// time into a reliable store: after the first `n - 1` the store has received
/// nothing, and after the `n`-th it has received exactly the `n` points, in
/// order.
pub proof fn threshold_flushes_exactly<S: MetricStore>(
    loggers: Seq<MetricLogger>,
    stores: Seq<S>,
    points: Seq<PointView>,
    results: Seq<Result<()>>,
    n: nat,
)
    requires
        n >= 1,
        points.len() == n,
        loggers.len() == n + 1,
        stores.len() == n + 1,
        results.len() == n,
        loggers[0].settings().buffer_size == n,
        loggers[0].buffered() == Seq::<PointView>::empty(),
        stores[0].is_reliable(),
        forall|i: int|
            0 <= i < n ==> log_outcome(
                #[trigger] loggers[i],
                loggers[i + 1],
                stores[i],
                stores[i + 1],
                seq![points[i]],
                results[i],
            ),
    ensures
        stores[n - 1].stored() == stores[0].stored(),
        stores[n as int].stored() == stores[0].stored() + points,
        loggers[n as int].buffered() == Seq::<PointView>::empty(),
{
    let m = n - 1;
    lemma_fill_below_threshold(loggers, stores, points, results, n, m);
    assert(log_outcome(loggers[m], loggers[m + 1], stores[m], stores[m + 1], seq![points[m]], results[m]));
    assert(points.take(m) + seq![points[m]] =~= points);
}

/// One step of a run of successful logs and flushes: the store's points
/// followed by the buffer grow by the logged batch.
proof fn lemma_steps_append<S: MetricStore>(
    loggers: Seq<MetricLogger>,
    stores: Seq<S>,
    batches: Seq<Seq<PointView>>,
    results: Seq<Result<()>>,
    i: int,
)
    requires
        loggers.len() == batches.len() + 1,
        stores.len() == batches.len() + 1,
        results.len() == batches.len(),
        0 <= i <= batches.len(),
        forall|j: int| 0 <= j < batches.len() ==> (#[trigger] results[j]) is Ok,
        forall|j: int|
            0 <= j < batches.len() ==> log_outcome(
                #[trigger] loggers[j],
                loggers[j + 1],
                stores[j],
                stores[j + 1],
                batches[j],
                results[j],
            ) || (batches[j] == Seq::<PointView>::empty() && flush_outcome(
                loggers[j],
                loggers[j + 1],
                stores[j],
                stores[j + 1],
                results[j],
            )),
    ensures
        stores[i].stored() + loggers[i].buffered() == stores[0].stored() + loggers[0].buffered()
            + batches.take(i).flatten(),
    decreases i,
{
    let start = stores[0].stored() + loggers[0].buffered();
    if i == 0 {
        assert(batches.take(0) =~= Seq::<Seq<PointView>>::empty());
        assert(start + batches.take(0).flatten() =~= start);
    } else {
        let j = i - 1;
        lemma_steps_append(loggers, stores, batches, results, j);
        assert(results[j] is Ok);
        let before = stores[j].stored() + loggers[j].buffered();
        let after = stores[i].stored() + loggers[i].buffered();
        if log_outcome(loggers[j], loggers[j + 1], stores[j], stores[j + 1], batches[j], results[j]) {
            assert(after =~= before + batches[j]);
        } else {
            assert(after =~= before + batches[j]);
        }
        assert(batches.take(i) =~= batches.take(j).push(batches[j]));
        batches.take(j).lemma_flatten_push(batches[j]);
        assert(start + batches.take(i).flatten() =~= start + batches.take(j).flatten() + batches[j]);
    }
}

/// Logging and flushing never reorder points: over any run of successful
/// logs and flushes of one logger into one store, what the store holds
/// followed by what is still buffered is what was there at the start
/// followed by every logged point, in the order of logging. So the points of
/// one run and metric that the store returns come in logging order, however
/// the flushes fell.
pub proof fn logging_keeps_order<S: MetricStore>(
    loggers: Seq<MetricLogger>,
    stores: Seq<S>,
    batches: Seq<Seq<PointView>>,
    results: Seq<Result<()>>,
    run_id: u128,
    name: Seq<char>,
)
    requires
        loggers.len() == batches.len() + 1,
        stores.len() == batches.len() + 1,
        results.len() == batches.len(),
        forall|i: int| 0 <= i < batches.len() ==> (#[trigger] results[i]) is Ok,
        forall|i: int|
            0 <= i < batches.len() ==> log_outcome(
                #[trigger] loggers[i],
                loggers[i + 1],
                stores[i],
                stores[i + 1],
                batches[i],
                results[i],
            ) || (batches[i] == Seq::<PointView>::empty() && flush_outcome(
                loggers[i],
                loggers[i + 1],
                stores[i],
                stores[i + 1],
                results[i],
            )),
    ensures
        ({
            let n = batches.len() as int;
            &&& stores[n].stored() + loggers[n].buffered() == stores[0].stored()
                + loggers[0].buffered() + batches.flatten()
            &&& matching(stores[n].stored() + loggers[n].buffered(), run_id, name) == matching(
                stores[0].stored() + loggers[0].buffered(),
                run_id,
                name,
            ) + matching(batches.flatten(), run_id, name)
        }),
{
    let n = batches.len() as int;
    lemma_steps_append(loggers, stores, batches, results, n);
    assert(batches.take(n) =~= batches);
    let f = |p: PointView| p.run_id == run_id && p.name == name;
    Seq::filter_distributes_over_add(stores[0].stored() + loggers[0].buffered(), batches.flatten(), f);
}

} // verus!
