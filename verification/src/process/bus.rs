//! The bus that all commands go through: how many run at once, in which order,
//! and which are called off.

use crate::process::command::Lane;
use vstd::prelude::*;

verus! {

/// A command on the bus.
#[derive(Clone, Copy, Debug, PartialEq, Eq, Structural)]
pub struct Job {
    pub id: u64,
    pub lane: Lane,
    pub scope: Option<u64>,
    pub running: bool,
    pub cancelled: bool,
}

/// The commands that wait or run, in the order in which they came.
#[derive(Debug)]
pub struct CommandBus {
    jobs: Vec<Job>,
    next_id: u64,
}

/// How many commands of a lane run.
pub open spec fn running_in(jobs: Seq<Job>, lane: Lane) -> nat
    decreases jobs.len(),
{
    if jobs.len() == 0 {
        0
    } else {
        running_in(jobs.drop_last(), lane) + if jobs.last().running && jobs.last().lane == lane {
            1nat
        } else {
            0nat
        }
    }
}

/// The first command from `from` on that waits in a lane.
pub open spec fn first_waiting(jobs: Seq<Job>, lane: Lane, from: int) -> Option<int>
    decreases jobs.len() - from,
{
    if from < 0 || from >= jobs.len() {
        None
    } else if !jobs[from].running && jobs[from].lane == lane {
        Some(from)
    } else {
        first_waiting(jobs, lane, from + 1)
    }
}

/// The place of the command with an id.
pub open spec fn place_of(jobs: Seq<Job>, id: u64, from: int) -> Option<int>
    decreases jobs.len() - from,
{
    if from < 0 || from >= jobs.len() {
        None
    } else if jobs[from].id == id {
        Some(from)
    } else {
        place_of(jobs, id, from + 1)
    }
}

/// The commands with those of a scope called off.
pub open spec fn scope_cancelled(jobs: Seq<Job>, scope: u64) -> Seq<Job> {
    Seq::new(
        jobs.len(),
        |i: int|
            if jobs[i].scope == Some(scope) {
                Job { cancelled: true, ..jobs[i] }
            } else {
                jobs[i]
            },
    )
}

proof fn running_after_push(jobs: Seq<Job>, job: Job, lane: Lane)
    ensures
        running_in(jobs.push(job), lane) == running_in(jobs, lane) + (if job.running && job.lane
            == lane {
            1nat
        } else {
            0nat
        }),
{
    assert(jobs.push(job).drop_last() == jobs);
}

proof fn running_after_update(jobs: Seq<Job>, i: int, job: Job, lane: Lane)
    requires
        0 <= i < jobs.len(),
    ensures
        running_in(jobs.update(i, job), lane) == running_in(jobs, lane) - (if jobs[i].running
            && jobs[i].lane == lane {
            1int
        } else {
            0int
        }) + (if job.running && job.lane == lane {
            1int
        } else {
            0int
        }),
    decreases jobs.len(),
{
    if i == jobs.len() - 1 {
        assert(jobs.update(i, job).drop_last() == jobs.drop_last());
    } else {
        running_after_update(jobs.drop_last(), i, job, lane);
        assert(jobs.update(i, job).drop_last() == jobs.drop_last().update(i, job));
    }
}

proof fn running_after_remove(jobs: Seq<Job>, i: int, lane: Lane)
    requires
        0 <= i < jobs.len(),
    ensures
        running_in(jobs.remove(i), lane) == running_in(jobs, lane) - (if jobs[i].running
            && jobs[i].lane == lane {
            1int
        } else {
            0int
        }),
    decreases jobs.len(),
{
    if i == jobs.len() - 1 {
        assert(jobs.remove(i) == jobs.drop_last());
    } else {
        running_after_remove(jobs.drop_last(), i, lane);
        assert(jobs.remove(i).drop_last() == jobs.drop_last().remove(i));
    }
}

proof fn running_after_cancel(jobs: Seq<Job>, scope: u64, lane: Lane)
    ensures
        running_in(scope_cancelled(jobs, scope), lane) == running_in(jobs, lane),
    decreases jobs.len(),
{
    if jobs.len() > 0 {
        running_after_cancel(jobs.drop_last(), scope, lane);
        assert(scope_cancelled(jobs, scope).drop_last() == scope_cancelled(
            jobs.drop_last(),
            scope,
        ));
    }
}

/// No lane runs more commands than it has workers.
pub open spec fn within_workers(jobs: Seq<Job>) -> bool {
    &&& running_in(jobs, Lane::Interactive) <= Lane::Interactive.workers_model()
    &&& running_in(jobs, Lane::Poll) <= Lane::Poll.workers_model()
    &&& running_in(jobs, Lane::Long) <= Lane::Long.workers_model()
}

/// The commands have ids of their own, all given out before.
pub open spec fn ids_differ(jobs: Seq<Job>, next_id: u64) -> bool {
    &&& forall|i: int| 0 <= i < jobs.len() ==> (#[trigger] jobs[i]).id < next_id
    &&& forall|i: int, j: int|
        0 <= i < j < jobs.len() ==> (#[trigger] jobs[i]).id < (#[trigger] jobs[j]).id
}

impl CommandBus {
    /// No lane is over its workers, and ids rise in the order of arrival.
    pub closed spec fn wf(&self) -> bool {
        within_workers(self.jobs@) && ids_differ(self.jobs@, self.next_id)
    }

    /// The commands that wait or run.
    pub closed spec fn view(&self) -> Seq<Job> {
        self.jobs@
    }

    /// The id that the next command gets.
    pub closed spec fn next(&self) -> u64 {
        self.next_id
    }

    /// A bus without commands.
    pub fn new() -> (r: CommandBus)
        ensures
            r.wf(),
            r.view() == Seq::<Job>::empty(),
            r.next() == 0,
    {
        CommandBus { jobs: Vec::new(), next_id: 0 }
    }

    /// Puts a command at the end of its lane.
    pub fn submit(&mut self, lane: Lane, scope: Option<u64>) -> (r: u64)
        requires
            old(self).wf(),
            old(self).next() < u64::MAX,
        ensures
            final(self).wf(),
            r == old(self).next(),
            final(self).next() == r + 1,
            final(self).view() == old(self).view().push(
                Job { id: r, lane, scope, running: false, cancelled: false },
            ),
    {
        let id: u64 = self.next_id;
        let job: Job = Job { id, lane, scope, running: false, cancelled: false };
        proof {
            running_after_push(self.jobs@, job, Lane::Interactive);
            running_after_push(self.jobs@, job, Lane::Poll);
            running_after_push(self.jobs@, job, Lane::Long);
        }
        self.jobs.push(job);
        self.next_id = id + 1;
        id
    }

    fn count_running(&self, lane: Lane) -> (r: usize)
        ensures
            r == running_in(self.jobs@, lane),
    {
        let mut n: usize = 0;
        let mut i: usize = 0;
        while i < self.jobs.len()
            invariant
                i <= self.jobs@.len(),
                n == running_in(self.jobs@.take(i as int), lane),
                n <= i,
            decreases self.jobs@.len() - i,
        {
            assert(self.jobs@.take(i + 1).drop_last() == self.jobs@.take(i as int));
            if self.jobs[i].running && self.jobs[i].lane == lane {
                n = n + 1;
            }
            i = i + 1;
        }
        assert(self.jobs@.take(self.jobs@.len() as int) == self.jobs@);
        n
    }

    /// Starts the command that has waited longest in a lane, where a worker of
    /// that lane is free.
    pub fn start_next(&mut self, lane: Lane) -> (r: Option<Job>)
        requires
            old(self).wf(),
        ensures
            final(self).wf(),
            final(self).next() == old(self).next(),
            if running_in(old(self).view(), lane) >= lane.workers_model() {
                r is None && final(self).view() == old(self).view()
            } else {
                match first_waiting(old(self).view(), lane, 0) {
                    Some(i) => {
                        let job = Job { running: true, ..old(self).view()[i] };
                        &&& r == Some(job)
                        &&& final(self).view() == old(self).view().update(i, job)
                    },
                    None => r is None && final(self).view() == old(self).view(),
                }
            },
    {
        if self.count_running(lane) >= lane.workers() {
            return None;
        }
        let mut i: usize = 0;
        while i < self.jobs.len()
            invariant
                i <= self.jobs@.len(),
                self.jobs@ == old(self).jobs@,
                self.next_id == old(self).next_id,
                old(self).wf(),
                running_in(self.jobs@, lane) < lane.workers_model(),
                first_waiting(self.jobs@, lane, i as int) == first_waiting(self.jobs@, lane, 0),
            decreases self.jobs@.len() - i,
        {
            if !self.jobs[i].running && self.jobs[i].lane == lane {
                let mut job: Job = self.jobs[i];
                job.running = true;
                proof {
                    running_after_update(self.jobs@, i as int, job, Lane::Interactive);
                    running_after_update(self.jobs@, i as int, job, Lane::Poll);
                    running_after_update(self.jobs@, i as int, job, Lane::Long);
                }
                self.jobs.set(i, job);
                return Some(job);
            }
            i = i + 1;
        }
        None
    }

    fn find(&self, id: u64) -> (r: Option<usize>)
        ensures
            match r {
                Some(i) => place_of(self.jobs@, id, 0) == Some(i as int) && i < self.jobs@.len(),
                None => place_of(self.jobs@, id, 0) is None,
            },
    {
        let mut i: usize = 0;
        while i < self.jobs.len()
            invariant
                i <= self.jobs@.len(),
                place_of(self.jobs@, id, i as int) == place_of(self.jobs@, id, 0),
            decreases self.jobs@.len() - i,
        {
            if self.jobs[i].id == id {
                return Some(i);
            }
            i = i + 1;
        }
        None
    }

    /// Takes a command that ended off the bus, which frees its worker.
    pub fn finish(&mut self, id: u64)
        requires
            old(self).wf(),
        ensures
            final(self).wf(),
            final(self).next() == old(self).next(),
            final(self).view() == (match place_of(old(self).view(), id, 0) {
                Some(i) => old(self).view().remove(i),
                None => old(self).view(),
            }),
    {
        if let Some(i) = self.find(id) {
            proof {
                running_after_remove(self.jobs@, i as int, Lane::Interactive);
                running_after_remove(self.jobs@, i as int, Lane::Poll);
                running_after_remove(self.jobs@, i as int, Lane::Long);
            }
            let ghost before = self.jobs@;
            self.jobs.remove(i);
            proof {
                let after = self.jobs@;
                assert forall|a: int, b: int| 0 <= a < b < after.len() implies (
                #[trigger] after[a]).id < (#[trigger] after[b]).id by {
                    let x = if a < i {
                        a
                    } else {
                        a + 1
                    };
                    let y = if b < i {
                        b
                    } else {
                        b + 1
                    };
                    assert(before[x].id < before[y].id);
                }
            }
        }
    }

    /// Calls a command off: it is not started, or is killed where it runs.
    pub fn cancel(&mut self, id: u64)
        requires
            old(self).wf(),
        ensures
            final(self).wf(),
            final(self).next() == old(self).next(),
            final(self).view() == (match place_of(old(self).view(), id, 0) {
                Some(i) => old(self).view().update(
                    i,
                    Job { cancelled: true, ..old(self).view()[i] },
                ),
                None => old(self).view(),
            }),
    {
        if let Some(i) = self.find(id) {
            let mut job: Job = self.jobs[i];
            job.cancelled = true;
            proof {
                running_after_update(self.jobs@, i as int, job, Lane::Interactive);
                running_after_update(self.jobs@, i as int, job, Lane::Poll);
                running_after_update(self.jobs@, i as int, job, Lane::Long);
            }
            self.jobs.set(i, job);
        }
    }

    /// Calls off every command of a scope, waiting or running.
    pub fn cancel_scope(&mut self, scope: u64)
        requires
            old(self).wf(),
        ensures
            final(self).wf(),
            final(self).next() == old(self).next(),
            final(self).view() == scope_cancelled(old(self).view(), scope),
    {
        let ghost before = self.jobs@;
        let mut i: usize = 0;
        while i < self.jobs.len()
            invariant
                i <= self.jobs@.len() == before.len(),
                self.next_id == old(self).next_id,
                before == old(self).jobs@,
                forall|j: int|
                    0 <= j < i ==> self.jobs@[j] == #[trigger] scope_cancelled(before, scope)[j],
                forall|j: int| i <= j < before.len() ==> #[trigger] self.jobs@[j] == before[j],
            decreases self.jobs@.len() - i,
        {
            let job: Job = self.jobs[i];
            let mine: bool = match job.scope {
                Some(s) => s == scope,
                None => false,
            };
            if mine {
                let mut changed: Job = job;
                changed.cancelled = true;
                self.jobs.set(i, changed);
            }
            assert(self.jobs@[i as int] == scope_cancelled(before, scope)[i as int]);
            i = i + 1;
        }
        assert(self.jobs@ == scope_cancelled(before, scope));
        proof {
            running_after_cancel(before, scope, Lane::Interactive);
            running_after_cancel(before, scope, Lane::Poll);
            running_after_cancel(before, scope, Lane::Long);
        }
    }

    /// Whether a command was called off; one that is no longer on the bus was
    /// not.
    pub fn is_cancelled(&self, id: u64) -> (r: bool)
        ensures
            r == (match place_of(self.view(), id, 0) {
                Some(i) => self.view()[i].cancelled,
                None => false,
            }),
    {
        match self.find(id) {
            Some(i) => self.jobs[i].cancelled,
            None => false,
        }
    }
}

// ---------------------------------------------------------------------------
// Watching a command
// ---------------------------------------------------------------------------

/// The shortest wait between two looks at a running command, in milliseconds.
pub const POLL_MIN_MS: u64 = 1;

/// The longest wait between two looks at a running command, in milliseconds.
pub const POLL_MAX_MS: u64 = 20;

/// What a look at a running command leads to.
#[derive(Clone, Copy, Debug, PartialEq, Eq, Structural)]
pub enum WatchStep {
    /// It was called off: kill it.
    Cancelled,
    /// It ended: collect its output.
    Collect,
    /// It took too long: kill it.
    TimedOut,
    /// Look again after a wait.
    Wait,
}

/// What a look at a running command leads to. A command that was called off
/// counts as such even where the kill has already ended it, and one that ended
/// in time is never given up.
pub fn watch(cancelled: bool, exited: bool, elapsed_ms: u64, timeout_ms: Option<u64>) -> (r:
    WatchStep)
    ensures
        r == (if cancelled {
            WatchStep::Cancelled
        } else if exited {
            WatchStep::Collect
        } else if timeout_ms matches Some(limit) && elapsed_ms >= limit {
            WatchStep::TimedOut
        } else {
            WatchStep::Wait
        }),
{
    if cancelled {
        return WatchStep::Cancelled;
    }
    if exited {
        return WatchStep::Collect;
    }
    if let Some(limit) = timeout_ms {
        if elapsed_ms >= limit {
            return WatchStep::TimedOut;
        }
    }
    WatchStep::Wait
}

/// The wait after another: twice as long, up to [`POLL_MAX_MS`].
pub fn next_wait(wait_ms: u64) -> (r: u64)
    ensures
        r == (if wait_ms * 2 < POLL_MAX_MS {
            wait_ms * 2
        } else {
            POLL_MAX_MS as int
        }),
        POLL_MIN_MS <= wait_ms ==> POLL_MIN_MS <= r <= POLL_MAX_MS,
{
    if wait_ms < POLL_MAX_MS / 2 {
        wait_ms * 2
    } else {
        POLL_MAX_MS
    }
}

// ---------------------------------------------------------------------------
// Laws
// ---------------------------------------------------------------------------

/// However commands are spread over the lanes, no more of them run at once than
/// all lanes have workers: twenty.
pub proof fn running_commands_are_bounded(jobs: Seq<Job>)
    requires
        within_workers(jobs),
    ensures
        running_in(jobs, Lane::Interactive) + running_in(jobs, Lane::Poll) + running_in(
            jobs,
            Lane::Long,
        ) <= 20,
{
}

/// A lane is served in the order of arrival: of two commands that wait in it,
/// the later is never started first.
pub proof fn lanes_are_fair(jobs: Seq<Job>, lane: Lane, i: int, j: int)
    requires
        0 <= i < j < jobs.len(),
        !jobs[i].running && jobs[i].lane == lane,
    ensures
        first_waiting(jobs, lane, 0) != Some(j),
{
    waiting_before(jobs, lane, 0, i);
}

proof fn waiting_before(jobs: Seq<Job>, lane: Lane, from: int, i: int)
    requires
        0 <= from <= i < jobs.len(),
        !jobs[i].running && jobs[i].lane == lane,
    ensures
        first_waiting(jobs, lane, from) matches Some(k) && k <= i,
    decreases jobs.len() - from,
{
    if from < i && (jobs[from].running || jobs[from].lane != lane) {
        waiting_before(jobs, lane, from + 1, i);
    }
}

/// A full lane keeps no other lane from starting its commands.
pub proof fn lanes_are_independent(jobs: Seq<Job>, full: Lane, other: Lane, i: int)
    requires
        full != other,
        running_in(jobs, full) >= full.workers_model(),
        0 <= i < jobs.len(),
        !jobs[i].running && jobs[i].lane == other,
    ensures
        first_waiting(jobs, other, 0) is Some,
{
    waiting_before(jobs, other, 0, i);
}

/// Calling a scope off reaches all of its commands and no others.
pub proof fn scope_is_cancelled(jobs: Seq<Job>, scope: u64, i: int)
    requires
        0 <= i < jobs.len(),
    ensures
        jobs[i].scope == Some(scope) ==> scope_cancelled(jobs, scope)[i].cancelled,
        jobs[i].scope != Some(scope) ==> scope_cancelled(jobs, scope)[i] == jobs[i],
{
}

/// A job is found by its id, and the first of its lane that waits is one that waits
/// in that lane.
pub proof fn jobs_are_found(jobs: Seq<Job>, lane: Lane, id: u64, i: int)
    requires
        0 <= i < jobs.len(),
    ensures
        first_waiting(jobs, lane, 0) matches Some(k) ==> 0 <= k < jobs.len() && !jobs[k].running
            && jobs[k].lane == lane,
        !jobs[i].running && jobs[i].lane == lane ==> first_waiting(jobs, lane, 0) is Some,
        place_of(jobs, id, 0) matches Some(k) ==> 0 <= k < jobs.len() && jobs[k].id == id,
        jobs[i].id == id ==> place_of(jobs, id, 0) is Some,
{
    waiting_is_waiting(jobs, lane, 0, i);
    place_has_the_id(jobs, id, 0, i);
}

proof fn waiting_is_waiting(jobs: Seq<Job>, lane: Lane, from: int, i: int)
    requires
        0 <= from,
    ensures
        first_waiting(jobs, lane, from) matches Some(k) ==> from <= k < jobs.len()
            && !jobs[k].running && jobs[k].lane == lane,
        from <= i < jobs.len() && !jobs[i].running && jobs[i].lane == lane ==> first_waiting(
            jobs,
            lane,
            from,
        ) is Some,
    decreases jobs.len() - from,
{
    if from < jobs.len() {
        waiting_is_waiting(jobs, lane, from + 1, i);
    }
}

proof fn place_has_the_id(jobs: Seq<Job>, id: u64, from: int, i: int)
    requires
        0 <= from,
    ensures
        place_of(jobs, id, from) matches Some(k) ==> from <= k < jobs.len() && jobs[k].id == id,
        from <= i < jobs.len() && jobs[i].id == id ==> place_of(jobs, id, from) is Some,
    decreases jobs.len() - from,
{
    if from < jobs.len() {
        place_has_the_id(jobs, id, from + 1, i);
    }
}

/// A job that starts takes one worker of its lane and of no other.
pub proof fn starting_takes_one_worker(jobs: Seq<Job>, i: int, lane: Lane)
    requires
        0 <= i < jobs.len(),
        !jobs[i].running,
    ensures
        running_in(jobs.update(i, Job { running: true, ..jobs[i] }), lane) == running_in(jobs, lane)
            + (if jobs[i].lane == lane {
            1int
        } else {
            0
        }),
{
    running_after_update(jobs, i, Job { running: true, ..jobs[i] }, lane);
}

/// A scope that is called off takes its jobs along and leaves their order and every
/// other job.
pub proof fn scopes_keep_their_order(jobs: Seq<Job>, scope: u64, i: int)
    requires
        0 <= i < jobs.len(),
    ensures
        scope_cancelled(jobs, scope).len() == jobs.len(),
        scope_cancelled(jobs, scope)[i].id == jobs[i].id,
        scope_cancelled(jobs, scope)[i].running == jobs[i].running,
        scope_cancelled(jobs, scope)[i].cancelled <==> jobs[i].cancelled || jobs[i].scope == Some(
            scope,
        ),
{
}

} // verus!
