use vstd::prelude::*;

use crate::clock::now_micros;
use crate::error::{Result, TrackerError};
use crate::ids::new_id;
use crate::run::{Run, RunStatus};
use crate::strmap::StrMap;

verus! {

/// A named grouping of runs that share a purpose. At most one of its runs is
/// active at a time.
pub struct Experiment {
    id: u128,
    name: String,
    description: Option<String>,
    tags: StrMap,
    created_at: i64,
    updated_at: i64,
    active_run: Option<u128>,
    /// How many runs have been started.
    starts: Ghost<nat>,
    /// How many runs have been ended.
    ends: Ghost<nat>,
}

/// The time of a change made after one at `previous`: the clock, or
/// `previous` itself where the clock reads earlier, so that the time of the
/// last change never moves back.
fn update_time(previous: i64) -> (t: i64)
    ensures
        t >= previous,
{
    let now = now_micros();
    if now < previous {
        previous
    } else {
        now
    }
}

impl Experiment {
    pub closed spec fn spec_id(&self) -> u128 {
        self.id
    }

    pub closed spec fn spec_name(&self) -> Seq<char> {
        self.name@
    }

    pub closed spec fn spec_description(&self) -> Option<Seq<char>> {
        match self.description {
            Some(d) => Some(d@),
            None => None,
        }
    }

    pub closed spec fn spec_tags(&self) -> Map<Seq<char>, Seq<char>> {
        self.tags@
    }

    pub closed spec fn spec_created_at(&self) -> i64 {
        self.created_at
    }

    pub closed spec fn spec_updated_at(&self) -> i64 {
        self.updated_at
    }

    /// The identity of the active run, if one is active.
    pub closed spec fn spec_active_run(&self) -> Option<u128> {
        self.active_run
    }

    /// The number of successful `start_run` calls on this experiment.
    pub closed spec fn started(&self) -> nat {
        self.starts@
    }

    /// The number of successful `end_run` calls on this experiment.
    pub closed spec fn ended(&self) -> nat {
        self.ends@
    }

    /// A run is active exactly when one more run has been started than
    /// ended; never more than one.
    pub closed spec fn wf(&self) -> bool {
        &&& self.tags.wf()
        &&& (self.starts@ == self.ends@ || self.starts@ == self.ends@ + 1)
        &&& (self.active_run is Some <==> self.starts@ == self.ends@ + 1)
    }

    /// An experiment named `name` with no description, no tags and no run.
    pub fn new(name: &str) -> (e: Experiment)
        ensures
            e.wf(),
            e.spec_name() == name@,
            e.spec_description() is None,
            e.spec_tags() == Map::<Seq<char>, Seq<char>>::empty(),
            e.spec_created_at() == e.spec_updated_at(),
            e.spec_active_run() is None,
            e.started() == 0,
            e.ended() == 0,
    {
        let now = now_micros();
        Experiment {
            id: new_id(),
            name: name.to_owned(),
            description: None,
            tags: StrMap::new(),
            created_at: now,
            updated_at: now,
            active_run: None,
            starts: Ghost(0),
            ends: Ghost(0),
        }
    }

    /// An experiment as it was recorded: its identity, name, description,
    /// tags, times and active run. A recorded active run counts as started
    /// and not yet ended.
    pub fn from_parts(
        id: u128,
        name: String,
        description: Option<String>,
        tags: StrMap,
        created_at: i64,
        updated_at: i64,
        active_run: Option<u128>,
    ) -> (e: Experiment)
        requires
            tags.wf(),
        ensures
            e.wf(),
            e.spec_id() == id,
            e.spec_name() == name@,
            e.spec_description() == match description {
                Some(d) => Some(d@),
                None => None,
            },
            e.spec_tags() == tags@,
            e.spec_created_at() == created_at,
            e.spec_updated_at() == updated_at,
            e.spec_active_run() == active_run,
    {
        let open: Ghost<nat> = Ghost(if active_run.is_some() { 1 } else { 0 });
        Experiment {
            id,
            name,
            description,
            tags,
            created_at,
            updated_at,
            active_run,
            starts: open,
            ends: Ghost(0),
        }
    }

    /// The same experiment with `description`.
    pub fn with_description(self, description: &str) -> (e: Experiment)
        requires
            self.wf(),
        ensures
            e.wf(),
            e.spec_description() == Some(description@),
            e.spec_id() == self.spec_id(),
            e.spec_name() == self.spec_name(),
            e.spec_tags() == self.spec_tags(),
            e.spec_created_at() == self.spec_created_at(),
            e.spec_updated_at() == self.spec_updated_at(),
            e.spec_active_run() == self.spec_active_run(),
            e.started() == self.started(),
            e.ended() == self.ended(),
    {
        let mut e = self;
        e.description = Some(description.to_owned());
        e
    }

    pub fn id(&self) -> (r: u128)
        ensures
            r == self.spec_id(),
    {
        self.id
    }

    pub fn name(&self) -> (r: &String)
        ensures
            r@ == self.spec_name(),
    {
        &self.name
    }

    pub fn description(&self) -> (r: &Option<String>)
        ensures
            self.spec_description() == match r {
                Some(d) => Some(d@),
                None => None,
            },
    {
        &self.description
    }

    pub fn tags(&self) -> (r: &StrMap)
        requires
            self.wf(),
        ensures
            r.wf(),
            r@ == self.spec_tags(),
    {
        &self.tags
    }

    pub fn created_at(&self) -> (r: i64)
        ensures
            r == self.spec_created_at(),
    {
        self.created_at
    }

    /// When the experiment was last changed, in microseconds since the Unix
    /// epoch.
    pub fn updated_at(&self) -> (r: i64)
        ensures
            r == self.spec_updated_at(),
    {
        self.updated_at
    }

    /// The identity of the active run, if one is active.
    pub fn active_run(&self) -> (r: Option<u128>)
        ensures
            r == self.spec_active_run(),
    {
        self.active_run
    }

    /// Sets tag `key` to `value`, replacing an earlier value.
    pub fn add_tag(&mut self, key: &str, value: &str)
        requires
            old(self).wf(),
        ensures
            final(self).wf(),
            final(self).spec_tags() == old(self).spec_tags().insert(key@, value@),
            final(self).spec_id() == old(self).spec_id(),
            final(self).spec_name() == old(self).spec_name(),
            final(self).spec_description() == old(self).spec_description(),
            final(self).spec_created_at() == old(self).spec_created_at(),
            final(self).spec_updated_at() >= old(self).spec_updated_at(),
            final(self).spec_active_run() == old(self).spec_active_run(),
            final(self).started() == old(self).started(),
            final(self).ended() == old(self).ended(),
    {
        self.tags.insert(key, value);
        self.updated_at = update_time(self.updated_at);
    }

    /// Starts a run of this experiment and makes it the active one. Fails
    /// with `InvalidOperation`, changing nothing, while a run is active.
    pub fn start_run(&mut self) -> (r: Result<Run>)
        requires
            old(self).wf(),
        ensures
            final(self).wf(),
            old(self).spec_active_run() is Some <==> r is Err,
            r matches Err(e) ==> e is InvalidOperation && *final(self) == *old(self),
            r matches Ok(run) ==> {
                &&& run.wf()
                &&& run.spec_experiment_id() == old(self).spec_id()
                &&& run.spec_status() == RunStatus::Running
                &&& run.spec_end_time() is None
                &&& forall|n: Seq<char>| run.series(n) == Seq::<(i64, u64)>::empty()
                &&& run.spec_params() == Map::<Seq<char>, Seq<char>>::empty()
                &&& run.spec_tags() == Map::<Seq<char>, Seq<char>>::empty()
                &&& run.spec_artifacts() == Seq::<Seq<char>>::empty()
                &&& final(self).spec_active_run() == Some(run.spec_id())
                &&& final(self).started() == old(self).started() + 1
                &&& final(self).ended() == old(self).ended()
                &&& final(self).spec_id() == old(self).spec_id()
                &&& final(self).spec_name() == old(self).spec_name()
                &&& final(self).spec_description() == old(self).spec_description()
                &&& final(self).spec_tags() == old(self).spec_tags()
                &&& final(self).spec_created_at() == old(self).spec_created_at()
                &&& final(self).spec_updated_at() >= old(self).spec_updated_at()
            },
    {
        if self.active_run.is_some() {
            return Err(TrackerError::InvalidOperation("An active run already exists".to_owned()));
        }
        let run = Run::new(self.id);
        self.active_run = Some(run.id());
        self.starts = Ghost(self.starts@ + 1);
        self.updated_at = update_time(self.updated_at);
        Ok(run)
    }

    /// Ends the active run, which must be `run_id`. Fails with
    /// `InvalidOperation`, changing nothing, when no run is active or another
    /// run is.
    pub fn end_run(&mut self, run_id: u128) -> (r: Result<()>)
        requires
            old(self).wf(),
        ensures
            final(self).wf(),
            r is Ok <==> old(self).spec_active_run() == Some(run_id),
            r matches Err(e) ==> e is InvalidOperation && *final(self) == *old(self),
            r is Ok ==> {
                &&& final(self).spec_active_run() is None
                &&& final(self).ended() == old(self).ended() + 1
                &&& final(self).started() == old(self).started()
                &&& final(self).spec_id() == old(self).spec_id()
                &&& final(self).spec_name() == old(self).spec_name()
                &&& final(self).spec_description() == old(self).spec_description()
                &&& final(self).spec_tags() == old(self).spec_tags()
                &&& final(self).spec_created_at() == old(self).spec_created_at()
                &&& final(self).spec_updated_at() >= old(self).spec_updated_at()
            },
    {
        match self.active_run {
            Some(active_id) => {
                if active_id == run_id {
                    self.active_run = None;
                    self.ends = Ghost(self.ends@ + 1);
                    self.updated_at = update_time(self.updated_at);
                    Ok(())
                } else {
                    Err(TrackerError::InvalidOperation("Run ID does not match active run".to_owned()))
                }
            },
            None => Err(TrackerError::InvalidOperation("No active run to end".to_owned())),
        }
    }

    /// The active run, looked up by its identity among `runs`: nothing when
    /// no run is active, `NotFound` when the active run is not among them.
    pub fn get_active_run<'a>(&self, runs: &'a [Run]) -> (r: Result<Option<&'a Run>>)
        ensures
            self.spec_active_run() is None ==> r matches Ok(None),
            self.spec_active_run() matches Some(id) ==> {
                &&& r is Err <==> (forall|i: int| 0 <= i < runs@.len() ==> #[trigger] runs@[i].spec_id() != id)
                &&& r matches Err(e) ==> e is NotFound
                &&& r matches Ok(o) ==> (o matches Some(run) && run.spec_id() == id && exists|i: int|
                    0 <= i < runs@.len() && runs@[i] == *run)
            },
    {
        match self.active_run {
            None => Ok(None),
            Some(id) => {
                let mut i: usize = 0;
                while i < runs.len()
                    invariant
                        i <= runs@.len(),
                        self.spec_active_run() == Some(id),
                        forall|j: int| 0 <= j < i ==> #[trigger] runs@[j].spec_id() != id,
                    decreases runs@.len() - i,
                {
                    if runs[i].id() == id {
                        return Ok(Some(&runs[i]));
                    }
                    i = i + 1;
                }
                Err(TrackerError::NotFound("The active run is not among the given runs".to_owned()))
            },
        }
    }
}

/// For every well-formed experiment, a run is active exactly when a
/// `start_run` has succeeded without a matching successful `end_run`.
pub proof fn active_iff_run_open(e: Experiment)
    requires
        e.wf(),
    ensures
        e.spec_active_run() is Some <==> e.started() == e.ended() + 1,
        e.spec_active_run() is None <==> e.started() == e.ended(),
{
}

} // verus!
