use vstd::prelude::*;

use crate::error::Result;

verus! {

/// One observation of a named metric for a run: the unit of persistence.
///
/// The value is held as the bit pattern of an IEEE-754 double
/// (`f64::to_bits`), so that it is carried through unchanged.
#[derive(Debug)]
pub struct MetricPoint {
    pub run_id: u128,
    pub name: String,
    pub value_bits: u64,
    /// Microseconds since the Unix epoch.
    pub timestamp: i64,
}

/// What a metric point says, with its name as characters.
pub struct PointView {
    pub run_id: u128,
    pub name: Seq<char>,
    pub value_bits: u64,
    pub timestamp: i64,
}

impl View for MetricPoint {
    type V = PointView;

    open spec fn view(&self) -> PointView {
        PointView {
            run_id: self.run_id,
            name: self.name@,
            value_bits: self.value_bits,
            timestamp: self.timestamp,
        }
    }
}

impl Clone for MetricPoint {
    fn clone(&self) -> (r: MetricPoint)
        ensures
            r@ == self@,
    {
        MetricPoint {
            run_id: self.run_id,
            name: self.name.clone(),
            value_bits: self.value_bits,
            timestamp: self.timestamp,
        }
    }
}

/// The views of a sequence of points.
pub open spec fn point_views(s: Seq<MetricPoint>) -> Seq<PointView> {
    s.map_values(|p: MetricPoint| p@)
}

/// The points of `points` that belong to run `run_id` and metric `name`, in
/// their order.
pub open spec fn matching(points: Seq<PointView>, run_id: u128, name: Seq<char>) -> Seq<PointView> {
    points.filter(|p: PointView| p.run_id == run_id && p.name == name)
}

/// `ms[i]` is the latest of `ms`: no point of `ms` is later, and every point
/// after it is earlier (of several equally late points, the last one).
pub open spec fn latest_at(ms: Seq<PointView>, i: int) -> bool {
    &&& 0 <= i < ms.len()
    &&& forall|j: int| 0 <= j < ms.len() ==> #[trigger] ms[j].timestamp <= ms[i].timestamp
    &&& forall|j: int| i < j < ms.len() ==> #[trigger] ms[j].timestamp < ms[i].timestamp
}

/// `r` is the latest point of `ms`, or nothing where `ms` is empty.
pub open spec fn is_latest(ms: Seq<PointView>, r: Option<PointView>) -> bool {
    match r {
        None => ms.len() == 0,
        Some(p) => exists|i: int| latest_at(ms, i) && ms[i] == p,
    }
}

/// A place where metric points are kept and queried.
pub trait MetricStore {
    /// Every point stored so far, in the order of storage.
    spec fn stored(&self) -> Seq<PointView>;

    /// `store_metrics` cannot fail on this store.
    spec fn is_reliable(&self) -> bool;

    /// What `store_metrics` returns on this store for points `points`.
    spec fn store_result(&self, points: Seq<PointView>) -> Result<()>;

    /// Appends `points`, in their order, after what is stored.
    fn store_metrics(&mut self, points: &[MetricPoint]) -> (r: Result<()>)
        ensures
            final(self).is_reliable() == old(self).is_reliable(),
            r == old(self).store_result(point_views(points@)),
            old(self).is_reliable() ==> r is Ok,
            r is Ok ==> final(self).stored() == old(self).stored() + point_views(points@),
    ;

    /// The stored points of run `run_id` and metric `name`, in storage order.
    fn get_metrics(&self, run_id: u128, name: &str) -> (r: Result<Vec<MetricPoint>>)
        ensures
            self.is_reliable() ==> r is Ok,
            r matches Ok(v) ==> point_views(v@) == matching(self.stored(), run_id, name@),
    ;

    /// The stored point of run `run_id` and metric `name` with the latest
    /// timestamp, if there is one.
    fn get_latest_metric(&self, run_id: u128, name: &str) -> (r: Result<Option<MetricPoint>>)
        ensures
            self.is_reliable() ==> r is Ok,
            r matches Ok(o) ==> is_latest(
                matching(self.stored(), run_id, name@),
                match o {
                    Some(p) => Some(p@),
                    None => None,
                },
            ),
    ;
}

/// A metric store held in memory: one sequence of points in storage order.
pub struct InMemoryMetricStore {
    metrics: Vec<MetricPoint>,
}

impl InMemoryMetricStore {
    /// An empty store.
    pub fn new() -> (r: Result<InMemoryMetricStore>)
        ensures
            r matches Ok(s) && s.stored() == Seq::<PointView>::empty() && s.is_reliable(),
    {
        let s = InMemoryMetricStore { metrics: Vec::new() };
        assert(point_views(s.metrics@) =~= Seq::<PointView>::empty());
        Ok(s)
    }

    /// The number of points stored.
    pub fn len(&self) -> (n: usize)
        ensures
            n == self.stored().len(),
    {
        self.metrics.len()
    }
}

impl MetricStore for InMemoryMetricStore {
    closed spec fn stored(&self) -> Seq<PointView> {
        point_views(self.metrics@)
    }

    open spec fn is_reliable(&self) -> bool {
        true
    }

    open spec fn store_result(&self, points: Seq<PointView>) -> Result<()> {
        Ok(())
    }

    fn store_metrics(&mut self, points: &[MetricPoint]) -> (r: Result<()>) {
        let mut i: usize = 0;
        while i < points.len()
            invariant
                i <= points@.len(),
                point_views(self.metrics@) == point_views(old(self).metrics@) + point_views(
                    points@.take(i as int),
                ),
            decreases points@.len() - i,
        {
            let ghost before = self.metrics@;
            self.metrics.push(points[i].clone());
            proof {
                assert(points@.take(i as int + 1) =~= points@.take(i as int).push(points@[i as int]));
                assert(point_views(self.metrics@) =~= point_views(before).push(points@[i as int]@));
                assert(point_views(points@.take(i as int + 1)) =~= point_views(
                    points@.take(i as int),
                ).push(points@[i as int]@));
            }
            i = i + 1;
        }
        assert(points@.take(points@.len() as int) =~= points@);
        Ok(())
    }

    fn get_metrics(&self, run_id: u128, name: &str) -> (r: Result<Vec<MetricPoint>>) {
        let wanted = name.to_owned();
        let mut out: Vec<MetricPoint> = Vec::new();
        let mut i: usize = 0;
        while i < self.metrics.len()
            invariant
                i <= self.metrics@.len(),
                wanted@ == name@,
                point_views(out@) == matching(self.stored().take(i as int), run_id, name@),
            decreases self.metrics@.len() - i,
        {
            let p = &self.metrics[i];
            let ghost s = self.stored();
            proof {
                assert(s.take(i as int + 1) =~= s.take(i as int).push(s[i as int]));
                s.take(i as int).lemma_filter_push(
                    s[i as int],
                    |q: PointView| q.run_id == run_id && q.name == name@,
                );
            }
            if p.run_id == run_id && p.name == wanted {
                let ghost before = out@;
                out.push(p.clone());
                assert(point_views(out@) =~= point_views(before).push(p@));
            }
            i = i + 1;
        }
        assert(self.stored().take(self.metrics@.len() as int) =~= self.stored());
        Ok(out)
    }

    fn get_latest_metric(&self, run_id: u128, name: &str) -> (r: Result<Option<MetricPoint>>) {
        let wanted = name.to_owned();
        let mut best: Option<usize> = None;
        let ghost mut k: int = 0;
        let mut i: usize = 0;
        while i < self.metrics.len()
            invariant
                i <= self.metrics@.len(),
                wanted@ == name@,
                ({
                    let f = matching(self.stored().take(i as int), run_id, name@);
                    match best {
                        None => f.len() == 0,
                        Some(b) => b < self.metrics@.len() && latest_at(f, k) && f[k]
                            == self.metrics@[b as int]@,
                    }
                }),
            decreases self.metrics@.len() - i,
        {
            let p = &self.metrics[i];
            let ghost s = self.stored();
            let ghost f = matching(s.take(i as int), run_id, name@);
            proof {
                assert(s.take(i as int + 1) =~= s.take(i as int).push(s[i as int]));
                s.take(i as int).lemma_filter_push(
                    s[i as int],
                    |q: PointView| q.run_id == run_id && q.name == name@,
                );
            }
            if p.run_id == run_id && p.name == wanted {
                let ghost g = f.push(p@);
                let later = match best {
                    None => true,
                    Some(b) => p.timestamp >= self.metrics[b].timestamp,
                };
                if later {
                    proof {
                        k = f.len() as int;
                        assert(latest_at(g, k));
                    }
                    best = Some(i);
                } else {
                    proof {
                        assert(latest_at(g, k));
                    }
                }
            }
            i = i + 1;
        }
        assert(self.stored().take(self.metrics@.len() as int) =~= self.stored());
        match best {
            None => Ok(None),
            Some(b) => Ok(Some(self.metrics[b].clone())),
        }
    }
}

} // verus!
