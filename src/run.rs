use vstd::prelude::*;

use crate::clock::now_micros;
use crate::ids::new_id;
use crate::strmap::StrMap;

verus! {

/// Where a run is in its lifecycle.
#[derive(Debug, Clone, Copy, PartialEq, Eq, Structural)]
pub enum RunStatus {
    Running,
    Completed,
    Failed,
    Interrupted,
}

/// Completed, Failed and Interrupted end a run.
pub open spec fn is_terminal(s: RunStatus) -> bool {
    s != RunStatus::Running
}

/// One recorded value of a metric of a run.
pub struct MetricSample {
    pub name: String,
    /// Microseconds since the Unix epoch.
    pub timestamp: i64,
    /// The bit pattern of an IEEE-754 double.
    pub value_bits: u64,
}

/// The `(timestamp, value)` pairs of metric `name` among `samples`, in the
/// order they were recorded.
pub open spec fn series_of(samples: Seq<MetricSample>, name: Seq<char>) -> Seq<(i64, u64)> {
    samples.filter(|s: MetricSample| s.name@ == name).map_values(
        |s: MetricSample| (s.timestamp, s.value_bits),
    )
}

/// One trackable execution of an experiment: its metrics, parameters, tags
/// and artifact references, and its status.
pub struct Run {
    id: u128,
    experiment_id: u128,
    status: RunStatus,
    samples: Vec<MetricSample>,
    params: StrMap,
    tags: StrMap,
    artifacts: Vec<String>,
    start_time: i64,
    end_time: Option<i64>,
}

impl Run {
    /// The run's identity.
    pub closed spec fn spec_id(&self) -> u128 {
        self.id
    }

    /// The experiment the run belongs to.
    pub closed spec fn spec_experiment_id(&self) -> u128 {
        self.experiment_id
    }

    pub closed spec fn spec_status(&self) -> RunStatus {
        self.status
    }

    pub closed spec fn spec_start_time(&self) -> i64 {
        self.start_time
    }

    pub closed spec fn spec_end_time(&self) -> Option<i64> {
        self.end_time
    }

    /// The recorded values of metric `name`, in the order they were logged.
    pub closed spec fn series(&self, name: Seq<char>) -> Seq<(i64, u64)> {
        series_of(self.samples@, name)
    }

    pub closed spec fn spec_params(&self) -> Map<Seq<char>, Seq<char>> {
        self.params@
    }

    pub closed spec fn spec_tags(&self) -> Map<Seq<char>, Seq<char>> {
        self.tags@
    }

    /// The artifact paths, in the order they were added.
    pub closed spec fn spec_artifacts(&self) -> Seq<Seq<char>> {
        self.artifacts@.map_values(|a: String| a@)
    }

    /// The end time is set exactly when the status is terminal, and is not
    /// before the start time.
    pub closed spec fn wf(&self) -> bool {
        &&& self.params.wf()
        &&& self.tags.wf()
        &&& (self.end_time is Some <==> is_terminal(self.status))
        &&& (self.end_time matches Some(e) ==> self.start_time <= e)
    }

    /// A running run of experiment `experiment_id` with identity `id`,
    /// started at `start_time`, with nothing recorded.
    pub fn new_with(experiment_id: u128, id: u128, start_time: i64) -> (r: Run)
        ensures
            r.wf(),
            r.spec_id() == id,
            r.spec_experiment_id() == experiment_id,
            r.spec_status() == RunStatus::Running,
            r.spec_start_time() == start_time,
            r.spec_end_time() is None,
            forall|n: Seq<char>| r.series(n) == Seq::<(i64, u64)>::empty(),
            r.spec_params() == Map::<Seq<char>, Seq<char>>::empty(),
            r.spec_tags() == Map::<Seq<char>, Seq<char>>::empty(),
            r.spec_artifacts() == Seq::<Seq<char>>::empty(),
    {
        let r = Run {
            id,
            experiment_id,
            status: RunStatus::Running,
            samples: Vec::new(),
            params: StrMap::new(),
            tags: StrMap::new(),
            artifacts: Vec::new(),
            start_time,
            end_time: None,
        };
        assert forall|n: Seq<char>| r.series(n) == Seq::<(i64, u64)>::empty() by {
            assert(r.samples@.filter(|s: MetricSample| s.name@ == n) =~= Seq::<MetricSample>::empty());
            assert(r.series(n) =~= Seq::<(i64, u64)>::empty());
        }
        assert(r.spec_artifacts() =~= Seq::<Seq<char>>::empty());
        r
    }

    /// A running run of experiment `experiment_id` with a fresh identity,
    /// started now, with nothing recorded.
    pub fn new(experiment_id: u128) -> (r: Run)
        ensures
            r.wf(),
            r.spec_experiment_id() == experiment_id,
            r.spec_status() == RunStatus::Running,
            r.spec_end_time() is None,
            forall|n: Seq<char>| r.series(n) == Seq::<(i64, u64)>::empty(),
            r.spec_params() == Map::<Seq<char>, Seq<char>>::empty(),
            r.spec_tags() == Map::<Seq<char>, Seq<char>>::empty(),
            r.spec_artifacts() == Seq::<Seq<char>>::empty(),
    {
        let id = new_id();
        let t = now_micros();
        Run::new_with(experiment_id, id, t)
    }

    pub fn id(&self) -> (r: u128)
        ensures
            r == self.spec_id(),
    {
        self.id
    }

    pub fn experiment_id(&self) -> (r: u128)
        ensures
            r == self.spec_experiment_id(),
    {
        self.experiment_id
    }

    pub fn status(&self) -> (r: RunStatus)
        ensures
            r == self.spec_status(),
    {
        self.status
    }

    pub fn start_time(&self) -> (r: i64)
        ensures
            r == self.spec_start_time(),
    {
        self.start_time
    }

    pub fn end_time(&self) -> (r: Option<i64>)
        ensures
            r == self.spec_end_time(),
    {
        self.end_time
    }

    pub fn params(&self) -> (r: &StrMap)
        requires
            self.wf(),
        ensures
            r.wf(),
            r@ == self.spec_params(),
    {
        &self.params
    }

    pub fn tags(&self) -> (r: &StrMap)
        requires
            self.wf(),
        ensures
            r.wf(),
            r@ == self.spec_tags(),
    {
        &self.tags
    }

    pub fn artifacts(&self) -> (r: &Vec<String>)
        ensures
            r@.map_values(|a: String| a@) == self.spec_artifacts(),
    {
        &self.artifacts
    }

    /// Every recorded metric value, in the order of logging.
    pub fn samples(&self) -> (r: &[MetricSample])
        ensures
            forall|n: Seq<char>| #[trigger] self.series(n) == series_of(r@, n),
    {
        self.samples.as_slice()
    }

    /// The recorded values of metric `name` as `(timestamp, value bits)`, in
    /// the order they were logged.
    pub fn metric(&self, name: &str) -> (r: Vec<(i64, u64)>)
        ensures
            r@ == self.series(name@),
    {
        let wanted = name.to_owned();
        let mut out: Vec<(i64, u64)> = Vec::new();
        let mut i: usize = 0;
        while i < self.samples.len()
            invariant
                i <= self.samples@.len(),
                wanted@ == name@,
                out@ == series_of(self.samples@.take(i as int), name@),
            decreases self.samples@.len() - i,
        {
            let s = &self.samples[i];
            proof {
                let all = self.samples@;
                assert(all.take(i as int + 1) =~= all.take(i as int).push(all[i as int]));
                all.take(i as int).lemma_filter_push(all[i as int], |s: MetricSample| s.name@ == name@);
            }
            if s.name == wanted {
                out.push((s.timestamp, s.value_bits));
                proof {
                    let f = self.samples@.take(i as int).filter(|s: MetricSample| s.name@ == name@);
                    assert(f.push(self.samples@[i as int]).map_values(
                        |s: MetricSample| (s.timestamp, s.value_bits),
                    ) =~= f.map_values(|s: MetricSample| (s.timestamp, s.value_bits)).push(
                        (s.timestamp, s.value_bits),
                    ));
                }
            }
            i = i + 1;
        }
        assert(self.samples@.take(self.samples@.len() as int) =~= self.samples@);
        out
    }

    /// Appends `(timestamp, value_bits)` to the values of metric `name`.
    pub fn log_metric_at(&mut self, name: &str, value_bits: u64, timestamp: i64)
        requires
            old(self).wf(),
        ensures
            final(self).wf(),
            final(self).series(name@) == old(self).series(name@).push((timestamp, value_bits)),
            forall|n: Seq<char>| n != name@ ==> #[trigger] final(self).series(n) == old(self).series(n),
            final(self).spec_id() == old(self).spec_id(),
            final(self).spec_experiment_id() == old(self).spec_experiment_id(),
            final(self).spec_status() == old(self).spec_status(),
            final(self).spec_start_time() == old(self).spec_start_time(),
            final(self).spec_end_time() == old(self).spec_end_time(),
            final(self).spec_params() == old(self).spec_params(),
            final(self).spec_tags() == old(self).spec_tags(),
            final(self).spec_artifacts() == old(self).spec_artifacts(),
    {
        let sample = MetricSample { name: name.to_owned(), timestamp, value_bits };
        let ghost before = self.samples@;
        self.samples.push(sample);
        proof {
            assert(self.samples@ == before.push(sample));
            assert forall|n: Seq<char>| #[trigger] self.series(n) == if n == name@ {
                old(self).series(n).push((timestamp, value_bits))
            } else {
                old(self).series(n)
            } by {
                before.lemma_filter_push(sample, |s: MetricSample| s.name@ == n);
                let f = before.filter(|s: MetricSample| s.name@ == n);
                assert(f.push(sample).map_values(|s: MetricSample| (s.timestamp, s.value_bits))
                    =~= f.map_values(|s: MetricSample| (s.timestamp, s.value_bits)).push(
                    (timestamp, value_bits),
                ));
            }
        }
    }

    /// Appends the value to metric `name`, stamped with the current time.
    pub fn log_metric(&mut self, name: &str, value_bits: u64)
        requires
            old(self).wf(),
        ensures
            final(self).wf(),
            exists|t: i64| final(self).series(name@) == old(self).series(name@).push((t, value_bits)),
            forall|n: Seq<char>| n != name@ ==> #[trigger] final(self).series(n) == old(self).series(n),
            final(self).spec_id() == old(self).spec_id(),
            final(self).spec_experiment_id() == old(self).spec_experiment_id(),
            final(self).spec_status() == old(self).spec_status(),
            final(self).spec_start_time() == old(self).spec_start_time(),
            final(self).spec_end_time() == old(self).spec_end_time(),
            final(self).spec_params() == old(self).spec_params(),
            final(self).spec_tags() == old(self).spec_tags(),
            final(self).spec_artifacts() == old(self).spec_artifacts(),
    {
        let t = now_micros();
        self.log_metric_at(name, value_bits, t);
    }

    /// Sets parameter `key` to `value`, replacing an earlier value.
    pub fn set_param(&mut self, key: &str, value: &str)
        requires
            old(self).wf(),
        ensures
            final(self).wf(),
            final(self).spec_params() == old(self).spec_params().insert(key@, value@),
            forall|n: Seq<char>| #[trigger] final(self).series(n) == old(self).series(n),
            final(self).spec_id() == old(self).spec_id(),
            final(self).spec_experiment_id() == old(self).spec_experiment_id(),
            final(self).spec_status() == old(self).spec_status(),
            final(self).spec_start_time() == old(self).spec_start_time(),
            final(self).spec_end_time() == old(self).spec_end_time(),
            final(self).spec_tags() == old(self).spec_tags(),
            final(self).spec_artifacts() == old(self).spec_artifacts(),
    {
        self.params.insert(key, value);
    }

    /// Sets tag `key` to `value`, replacing an earlier value.
    pub fn add_tag(&mut self, key: &str, value: &str)
        requires
            old(self).wf(),
        ensures
            final(self).wf(),
            final(self).spec_tags() == old(self).spec_tags().insert(key@, value@),
            forall|n: Seq<char>| #[trigger] final(self).series(n) == old(self).series(n),
            final(self).spec_id() == old(self).spec_id(),
            final(self).spec_experiment_id() == old(self).spec_experiment_id(),
            final(self).spec_status() == old(self).spec_status(),
            final(self).spec_start_time() == old(self).spec_start_time(),
            final(self).spec_end_time() == old(self).spec_end_time(),
            final(self).spec_params() == old(self).spec_params(),
            final(self).spec_artifacts() == old(self).spec_artifacts(),
    {
        self.tags.insert(key, value);
    }

    /// Appends a reference to an artifact stored at `path`.
    pub fn add_artifact(&mut self, path: &str)
        requires
            old(self).wf(),
        ensures
            final(self).wf(),
            final(self).spec_artifacts() == old(self).spec_artifacts().push(path@),
            forall|n: Seq<char>| #[trigger] final(self).series(n) == old(self).series(n),
            final(self).spec_id() == old(self).spec_id(),
            final(self).spec_experiment_id() == old(self).spec_experiment_id(),
            final(self).spec_status() == old(self).spec_status(),
            final(self).spec_start_time() == old(self).spec_start_time(),
            final(self).spec_end_time() == old(self).spec_end_time(),
            final(self).spec_params() == old(self).spec_params(),
            final(self).spec_tags() == old(self).spec_tags(),
    {
        self.artifacts.push(path.to_owned());
        assert(self.spec_artifacts() =~= old(self).spec_artifacts().push(path@));
    }

    /// Ends the run with `status` at `end_time`. A second call records the
    /// second status and end time.
    pub fn finish_at(&mut self, status: RunStatus, end_time: i64)
        requires
            old(self).wf(),
            is_terminal(status),
            old(self).spec_start_time() <= end_time,
        ensures
            final(self).wf(),
            final(self).spec_status() == status,
            final(self).spec_end_time() == Some(end_time),
            forall|n: Seq<char>| #[trigger] final(self).series(n) == old(self).series(n),
            final(self).spec_id() == old(self).spec_id(),
            final(self).spec_experiment_id() == old(self).spec_experiment_id(),
            final(self).spec_start_time() == old(self).spec_start_time(),
            final(self).spec_params() == old(self).spec_params(),
            final(self).spec_tags() == old(self).spec_tags(),
            final(self).spec_artifacts() == old(self).spec_artifacts(),
    {
        self.status = status;
        self.end_time = Some(end_time);
    }

    /// Ends the run with `status` now. A clock reading before the start time
    /// is taken as the start time, so that the run never ends before it
    /// began.
    pub fn finish(&mut self, status: RunStatus)
        requires
            old(self).wf(),
            is_terminal(status),
        ensures
            final(self).wf(),
            final(self).spec_status() == status,
            final(self).spec_end_time() matches Some(e) && old(self).spec_start_time() <= e,
            forall|n: Seq<char>| #[trigger] final(self).series(n) == old(self).series(n),
            final(self).spec_id() == old(self).spec_id(),
            final(self).spec_experiment_id() == old(self).spec_experiment_id(),
            final(self).spec_start_time() == old(self).spec_start_time(),
            final(self).spec_params() == old(self).spec_params(),
            final(self).spec_tags() == old(self).spec_tags(),
            final(self).spec_artifacts() == old(self).spec_artifacts(),
    {
        let now = now_micros();
        let end = if now < self.start_time {
            self.start_time
        } else {
            now
        };
        self.finish_at(status, end);
    }
}

} // verus!
