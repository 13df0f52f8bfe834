//! One component instance: its channel tables and its scheduler, with the
//! dispatch that turns channel state changes into readiness events.
use vstd::prelude::*;
use crate::component::{Relay, relay_released, relay_valid};
use crate::error::Violation;
use crate::future::{FutureSlot, FutureTable};
use crate::sched::{Scheduler, SchedView, Source, TaskError, TaskPhase, TaskView};
use crate::stream::{StreamTable, StreamView, WriterEnd};

verus! {

/// Whether the channels' state makes the source `src` ready. Outside
/// operations and timers are never ready by channel state: whoever completes
/// them signals the scheduler.
pub open spec fn source_ready<T>(f: Seq<FutureSlot<T>>, s: Seq<StreamView<T>>, src: Source) -> bool {
    match src {
        Source::Future(i) => i < f.len() && !(f[i as int].state is Pending),
        Source::StreamReadable(i) => i < s.len() && (s[i as int].buffered.len() > 0
            || s[i as int].end != WriterEnd::Open),
        Source::StreamWritable(i) => i < s.len() && (s[i as int].available() > 0
            || !s[i as int].reader_live || s[i as int].end != WriterEnd::Open),
        _ => false,
    }
}

/// Whether the task `t` is suspended on some source that is ready.
pub open spec fn task_ready<T>(t: TaskView, f: Seq<FutureSlot<T>>, s: Seq<StreamView<T>>) -> bool {
    t.phase == TaskPhase::Suspended && exists|k: int|
        0 <= k < t.waits.len() && #[trigger] source_ready(f, s, t.waits[k])
}

/// The task after a dispatch: a task with a ready source becomes runnable
/// and drops its registrations.
pub open spec fn after_dispatch<T>(t: TaskView, f: Seq<FutureSlot<T>>, s: Seq<StreamView<T>>) -> TaskView {
    if task_ready(t, f, s) {
        TaskView { phase: TaskPhase::Runnable, waits: Seq::empty() }
    } else {
        t
    }
}

/// The tasks among the first `n` that a dispatch wakes, by number.
pub open spec fn ready_among<T>(
    tasks: Seq<TaskView>,
    f: Seq<FutureSlot<T>>,
    s: Seq<StreamView<T>>,
    n: int,
) -> Seq<usize>
    decreases n,
{
    if n <= 0 {
        Seq::empty()
    } else if task_ready(tasks[n - 1], f, s) {
        ready_among(tasks, f, s, n - 1).push((n - 1) as usize)
    } else {
        ready_among(tasks, f, s, n - 1)
    }
}

/// The channels and tasks of one component instance.
pub struct Instance<T> {
    pub futures: FutureTable<T>,
    pub streams: StreamTable<T>,
    pub sched: Scheduler,
}

impl<T> Instance<T> {
    pub open spec fn wf(&self) -> bool {
        self.streams.wf() && self.sched@.wf()
    }

    pub fn new() -> (i: Self)
        ensures
            i.wf(),
            i.futures@ == Seq::<FutureSlot<T>>::empty(),
            i.streams@ == Seq::<StreamView<T>>::empty(),
            i.sched@.tasks == Seq::<TaskView>::empty(),
            i.sched@.ready == Seq::<usize>::empty(),
    {
        Instance { futures: FutureTable::new(), streams: StreamTable::new(), sched: Scheduler::new() }
    }

    fn source_is_ready(&self, src: Source) -> (r: bool)
        requires
            self.wf(),
        ensures
            r == source_ready(self.futures@, self.streams@, src),
    {
        match src {
            Source::Future(i) => self.futures.is_settled(i),
            Source::StreamReadable(i) => self.streams.is_readable(i),
            Source::StreamWritable(i) => self.streams.is_writable(i),
            _ => false,
        }
    }

    fn any_ready(&self, waits: &Vec<Source>) -> (r: bool)
        requires
            self.wf(),
        ensures
            r == exists|k: int|
                0 <= k < waits@.len() && #[trigger] source_ready(
                    self.futures@,
                    self.streams@,
                    waits@[k],
                ),
    {
        let mut k: usize = 0;
        while k < waits.len()
            invariant
                self.wf(),
                0 <= k <= waits@.len(),
                forall|j: int|
                    0 <= j < k ==> !#[trigger] source_ready(self.futures@, self.streams@, waits@[j]),
            decreases waits@.len() - k,
        {
            if self.source_is_ready(waits[k]) {
                return true;
            }
            k = k + 1;
        }
        false
    }

    /// Wakes, in task order, every suspended task that waits on a source the
    /// channels have made ready. Channels are untouched. Returns the woken tasks.
    pub fn dispatch(&mut self) -> (woken: Vec<usize>)
        requires
            old(self).wf(),
        ensures
            final(self).wf(),
            final(self).futures@ == old(self).futures@,
            final(self).streams@ == old(self).streams@,
            woken@ == ready_among(
                old(self).sched@.tasks,
                old(self).futures@,
                old(self).streams@,
                old(self).sched@.tasks.len() as int,
            ),
            final(self).sched@.ready == old(self).sched@.ready + woken@,
            final(self).sched@.tasks.len() == old(self).sched@.tasks.len(),
            forall|i: int|
                0 <= i < old(self).sched@.tasks.len() ==> #[trigger] final(self).sched@.tasks[i]
                    == after_dispatch(old(self).sched@.tasks[i], old(self).futures@, old(self).streams@),
    {
        let ghost o: SchedView = self.sched@;
        let ghost f = self.futures@;
        let ghost s = self.streams@;
        let n = self.sched.task_count();
        let mut woken: Vec<usize> = Vec::new();
        let mut t: usize = 0;
        while t < n
            invariant
                self.wf(),
                self.futures@ == f,
                self.streams@ == s,
                n == o.tasks.len(),
                self.sched@.tasks.len() == n,
                0 <= t <= n,
                forall|j: int| 0 <= j < t ==> #[trigger] self.sched@.tasks[j] == after_dispatch(o.tasks[j], f, s),
                forall|j: int| t <= j < n ==> #[trigger] self.sched@.tasks[j] == o.tasks[j],
                woken@ == ready_among(o.tasks, f, s, t as int),
                self.sched@.ready == o.ready + woken@,
            decreases n - t,
        {
            let ghost before = self.sched@;
            if self.sched.phase(t) == Some(TaskPhase::Suspended) && self.any_ready(self.sched.waits(t)) {
                let _ = self.sched.wake(t);
                woken.push(t);
                proof {
                    assert(self.sched@.ready =~= o.ready + woken@);
                }
            }
            proof {
                assert forall|j: int| 0 <= j < t + 1 implies #[trigger] self.sched@.tasks[j]
                    == after_dispatch(o.tasks[j], f, s) by {
                    if j == t {
                        assert(self.sched@.tasks[j] =~= after_dispatch(o.tasks[j], f, s));
                    } else {
                        assert(self.sched@.tasks[j] == before.tasks[j]);
                    }
                }
                assert forall|j: int| t + 1 <= j < n implies #[trigger] self.sched@.tasks[j]
                    == o.tasks[j] by {
                    assert(self.sched@.tasks[j] == before.tasks[j]);
                }
            }
            t = t + 1;
        }
        woken
    }
}

impl Instance<String> {
    /// Cancels task `t`, which runs `relay`, and drops the endpoints the relay
    /// owned: its output stream ends and its input stream is cancelled. The
    /// first result is the scheduler's, the second the release's.
    pub fn cancel_relay(&mut self, t: usize, relay: Relay) -> (r: (
        Result<(), TaskError>,
        Result<(), Violation>,
    ))
        requires
            old(self).wf(),
        ensures
            final(self).wf(),
            final(self).futures@ == old(self).futures@,
            t >= old(self).sched@.tasks.len() ==> r.0 == Err::<(), TaskError>(TaskError::UnknownTask),
            t < old(self).sched@.tasks.len() && (old(self).sched@.tasks[t as int].phase
                == TaskPhase::Completed || old(self).sched@.tasks[t as int].phase
                == TaskPhase::Cancelled) ==> r.0 == Err::<(), TaskError>(TaskError::Finished),
            r.0 is Err ==> final(self).sched@ == old(self).sched@,
            r.0 is Ok <==> t < old(self).sched@.tasks.len() && old(self).sched@.tasks[t as int].phase
                != TaskPhase::Completed && old(self).sched@.tasks[t as int].phase
                != TaskPhase::Cancelled,
            r.0 is Ok ==> final(self).sched@.tasks == old(self).sched@.tasks.update(
                t as int,
                (TaskView { phase: TaskPhase::Cancelled, waits: Seq::empty() }),
            ),
            r.0 is Ok && old(self).sched@.tasks[t as int].phase != TaskPhase::Runnable
                ==> final(self).sched@.ready == old(self).sched@.ready,
            r.0 is Ok && old(self).sched@.tasks[t as int].phase == TaskPhase::Runnable ==> exists|
                p: int,
            |
                0 <= p < old(self).sched@.ready.len() && old(self).sched@.ready[p] == t
                    && final(self).sched@.ready == old(self).sched@.ready.remove(p),
            relay_valid(relay@, old(self).streams@) ==> r.1 is Ok && final(self).streams@
                == relay_released(relay@, old(self).streams@),
            !relay_valid(relay@, old(self).streams@) ==> r.1 == Err::<(), Violation>(
                Violation::StaleHandle,
            ) && final(self).streams@ == old(self).streams@,
    {
        let cancelled = self.sched.cancel(t);
        let released = relay.abort(&mut self.streams);
        (cancelled, released)
    }
}

} // verus!
