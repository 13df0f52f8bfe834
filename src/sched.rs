//! The cooperative scheduler: suspended tasks, the readiness sources they wait
//! on, and the queue of tasks that can make progress next.
use vstd::prelude::*;

verus! {

/// An event a suspended task may wait for.
#[derive(PartialEq, Eq, Structural, Clone, Copy, Debug)]
pub enum Source {
    /// The future channel with this index changed state.
    Future(usize),
    /// The stream channel with this index has items or reached its end.
    StreamReadable(usize),
    /// The stream channel with this index has room, or lost its reader.
    StreamWritable(usize),
    /// The outside operation with this number completed.
    Capability(u64),
    /// The timer with this number fired.
    Timer(u64),
}

/// Where a task stands.
#[derive(PartialEq, Eq, Structural, Clone, Copy, Debug)]
pub enum TaskPhase {
    /// Ready to run, waiting its turn in the queue.
    Runnable,
    /// Handed out by the scheduler and running now.
    Running,
    /// Waiting for one of its registered sources.
    Suspended,
    Completed,
    Cancelled,
}

/// Why the scheduler refused a request.
#[derive(PartialEq, Eq, Structural, Clone, Copy, Debug)]
pub enum TaskError {
    /// No task has this number.
    UnknownTask,
    /// Only the running task may suspend or complete.
    NotRunning,
    /// A task must wait for at least one source, or it would never resume.
    NoSources,
    /// The task has already completed or been cancelled.
    Finished,
    /// Only a suspended task can be woken.
    NotSuspended,
}

/// The abstract state of one task.
pub struct TaskView {
    pub phase: TaskPhase,
    /// The sources the task waits on (empty unless suspended).
    pub waits: Seq<Source>,
}

/// The abstract state of the scheduler.
pub struct SchedView {
    pub tasks: Seq<TaskView>,
    /// Runnable tasks, in the order they became ready.
    pub ready: Seq<usize>,
}

/// Whether the event `src` wakes the task `t`.
pub open spec fn wakes(t: TaskView, src: Source) -> bool {
    t.phase == TaskPhase::Suspended && t.waits.contains(src)
}

/// The task after the event `src`: woken tasks drop every registration.
pub open spec fn after_signal(t: TaskView, src: Source) -> TaskView {
    if wakes(t, src) {
        TaskView { phase: TaskPhase::Runnable, waits: Seq::empty() }
    } else {
        t
    }
}

/// The tasks among the first `n` that the event `src` wakes, by number.
pub open spec fn woken_among(tasks: Seq<TaskView>, src: Source, n: int) -> Seq<usize>
    decreases n,
{
    if n <= 0 {
        Seq::empty()
    } else if wakes(tasks[n - 1], src) {
        woken_among(tasks, src, n - 1).push((n - 1) as usize)
    } else {
        woken_among(tasks, src, n - 1)
    }
}

impl SchedView {
    /// The queue holds each runnable task once and nothing else, and only a
    /// suspended task holds registrations.
    pub open spec fn wf(self) -> bool {
        &&& forall|k: int|
            0 <= k < self.ready.len() ==> #[trigger] self.ready[k] < self.tasks.len()
                && self.tasks[self.ready[k] as int].phase == TaskPhase::Runnable
        &&& self.ready.no_duplicates()
        &&& forall|i: int|
            0 <= i < self.tasks.len() && (#[trigger] self.tasks[i]).phase == TaskPhase::Runnable
                ==> self.ready.contains(i as usize)
        &&& forall|i: int|
            0 <= i < self.tasks.len() && (#[trigger] self.tasks[i]).phase != TaskPhase::Suspended
                ==> self.tasks[i].waits.len() == 0
    }
}

proof fn lemma_woken_among(tasks: Seq<TaskView>, src: Source, n: int)
    requires
        0 <= n <= tasks.len(),
        tasks.len() <= usize::MAX,
    ensures
        forall|k: int|
            0 <= k < woken_among(tasks, src, n).len() ==> #[trigger] woken_among(
                tasks,
                src,
                n,
            )[k] < n && wakes(tasks[woken_among(tasks, src, n)[k] as int], src),
        forall|k1: int, k2: int|
            0 <= k1 < k2 < woken_among(tasks, src, n).len() ==> #[trigger] woken_among(
                tasks,
                src,
                n,
            )[k1] < #[trigger] woken_among(tasks, src, n)[k2],
        forall|j: int|
            0 <= j < n && #[trigger] wakes(tasks[j], src) ==> woken_among(tasks, src, n).contains(
                j as usize,
            ),
    decreases n,
{
    if n > 0 {
        lemma_woken_among(tasks, src, n - 1);
        let prev = woken_among(tasks, src, n - 1);
        if wakes(tasks[n - 1], src) {
            let cur = prev.push((n - 1) as usize);
            assert forall|j: int| 0 <= j < n && #[trigger] wakes(tasks[j], src) implies cur.contains(
                j as usize,
            ) by {
                if j < n - 1 {
                    let k = choose|k: int| 0 <= k < prev.len() && prev[k] == j as usize;
                    assert(cur[k] == j as usize);
                } else {
                    assert(cur[prev.len() as int] == j as usize);
                }
            }
        }
    }
}

struct Task {
    phase: TaskPhase,
    waits: Vec<Source>,
}

impl View for Task {
    type V = TaskView;

    closed spec fn view(&self) -> TaskView {
        TaskView { phase: self.phase, waits: self.waits@ }
    }
}

fn waits_on(waits: &Vec<Source>, src: Source) -> (r: bool)
    ensures
        r == waits@.contains(src),
{
    let mut i: usize = 0;
    while i < waits.len()
        invariant
            0 <= i <= waits@.len(),
            forall|k: int| 0 <= k < i ==> waits@[k] != src,
        decreases waits@.len() - i,
    {
        if waits[i] == src {
            return true;
        }
        i = i + 1;
    }
    false
}

fn position_of(v: &Vec<usize>, x: usize) -> (r: Option<usize>)
    ensures
        r matches Some(p) ==> p < v@.len() && v@[p as int] == x,
        r is None ==> !v@.contains(x),
{
    let mut i: usize = 0;
    while i < v.len()
        invariant
            0 <= i <= v@.len(),
            forall|k: int| 0 <= k < i ==> v@[k] != x,
        decreases v@.len() - i,
    {
        if v[i] == x {
            return Some(i);
        }
        i = i + 1;
    }
    None
}

/// Multiplexes the tasks of one instance over their readiness sources.
pub struct Scheduler {
    tasks: Vec<Task>,
    ready: Vec<usize>,
}

impl View for Scheduler {
    type V = SchedView;

    closed spec fn view(&self) -> SchedView {
        SchedView { tasks: self.tasks@.map_values(|t: Task| t@), ready: self.ready@ }
    }
}

impl Scheduler {
    pub fn new() -> (s: Self)
        ensures
            s@.tasks == Seq::<TaskView>::empty(),
            s@.ready == Seq::<usize>::empty(),
            s@.wf(),
    {
        let s = Scheduler { tasks: Vec::new(), ready: Vec::new() };
        proof {
            assert(s@.tasks =~= Seq::<TaskView>::empty());
        }
        s
    }

    /// Creates a runnable task at the back of the queue.
    pub fn spawn(&mut self) -> (id: usize)
        requires
            old(self)@.wf(),
        ensures
            final(self)@.wf(),
            id == old(self)@.tasks.len(),
            final(self)@.tasks == old(self)@.tasks.push(
                TaskView { phase: TaskPhase::Runnable, waits: Seq::empty() },
            ),
            final(self)@.ready == old(self)@.ready.push(id),
    {
        let id = self.tasks.len();
        self.tasks.push(Task { phase: TaskPhase::Runnable, waits: Vec::new() });
        self.ready.push(id);
        proof {
            let s = self@;
            assert(s.tasks =~= old(self)@.tasks.push(
                TaskView { phase: TaskPhase::Runnable, waits: Seq::empty() },
            ));
            assert(s.ready[s.ready.len() - 1] == id);
            assert forall|i: int|
                0 <= i < s.tasks.len() && (#[trigger] s.tasks[i]).phase
                    == TaskPhase::Runnable implies s.ready.contains(i as usize) by {
                if i < id {
                    let k = choose|k: int|
                        0 <= k < old(self)@.ready.len() && old(self)@.ready[k] == i as usize;
                    assert(s.ready[k] == i as usize);
                }
            }
        }
        id
    }

    /// Hands out the task that became ready first, which is then running.
    pub fn next(&mut self) -> (r: Option<usize>)
        requires
            old(self)@.wf(),
        ensures
            final(self)@.wf(),
            old(self)@.ready.len() == 0 ==> r is None && final(self)@ == old(self)@,
            old(self)@.ready.len() > 0 ==> r == Some(old(self)@.ready[0]),
            old(self)@.ready.len() > 0 ==> final(self)@.ready == old(self)@.ready.subrange(
                1,
                old(self)@.ready.len() as int,
            ),
            old(self)@.ready.len() > 0 ==> final(self)@.tasks == old(self)@.tasks.update(
                old(self)@.ready[0] as int,
                (TaskView { phase: TaskPhase::Running, waits: Seq::empty() }),
            ),
    {
        if self.ready.len() == 0 {
            return None;
        }
        let id = self.ready.remove(0);
        proof {
            let o = old(self)@;
            assert(o.ready[0] < o.tasks.len());
            assert(self.tasks@[id as int]@ == o.tasks[id as int]);
            assert(o.tasks[id as int].waits =~= Seq::<Source>::empty());
        }
        self.tasks[id].phase = TaskPhase::Running;
        proof {
            let o = old(self)@;
            let s = self@;
            assert(s.tasks =~= o.tasks.update(
                id as int,
                TaskView { phase: TaskPhase::Running, waits: Seq::empty() },
            ));
            assert forall|k: int| 0 <= k < s.ready.len() implies #[trigger] s.ready[k]
                < s.tasks.len() && s.tasks[s.ready[k] as int].phase == TaskPhase::Runnable by {
                assert(s.ready[k] == o.ready[k + 1]);
            }
            assert forall|i: int|
                0 <= i < s.tasks.len() && (#[trigger] s.tasks[i]).phase
                    == TaskPhase::Runnable implies s.ready.contains(i as usize) by {
                assert(s.tasks.len() == self.tasks.len());
                assert(s.tasks[id as int].phase == TaskPhase::Running);
                assert(i != id as int);
                assert(s.tasks[i] == o.tasks[i]);
                let k = choose|k: int| 0 <= k < o.ready.len() && o.ready[k] == i as usize;
                assert(k != 0);
                assert(s.ready[k - 1] == i as usize);
            }
        }
        Some(id)
    }
    /// The phase of task `t`, if there is such a task.
    pub fn phase(&self, t: usize) -> (r: Option<TaskPhase>)
        ensures
            t < self@.tasks.len() ==> r == Some(self@.tasks[t as int].phase),
            t >= self@.tasks.len() ==> r is None,
    {
        if t < self.tasks.len() {
            Some(self.tasks[t].phase)
        } else {
            None
        }
    }

    /// Suspends the running task `t` until one of `sources` fires.
    pub fn suspend(&mut self, t: usize, sources: Vec<Source>) -> (r: Result<(), TaskError>)
        requires
            old(self)@.wf(),
        ensures
            final(self)@.wf(),
            t >= old(self)@.tasks.len() ==> r == Err::<(), TaskError>(TaskError::UnknownTask),
            t < old(self)@.tasks.len() && old(self)@.tasks[t as int].phase != TaskPhase::Running
                ==> r == Err::<(), TaskError>(TaskError::NotRunning),
            t < old(self)@.tasks.len() && old(self)@.tasks[t as int].phase == TaskPhase::Running
                && sources@.len() == 0 ==> r == Err::<(), TaskError>(TaskError::NoSources),
            r is Err ==> final(self)@ == old(self)@,
            r is Ok <==> t < old(self)@.tasks.len() && old(self)@.tasks[t as int].phase
                == TaskPhase::Running && sources@.len() > 0,
            r is Ok ==> final(self)@.ready == old(self)@.ready && final(self)@.tasks == old(
                self,
            )@.tasks.update(t as int, (TaskView { phase: TaskPhase::Suspended, waits: sources@ })),
    {
        if t >= self.tasks.len() {
            return Err(TaskError::UnknownTask);
        }
        if self.tasks[t].phase != TaskPhase::Running {
            return Err(TaskError::NotRunning);
        }
        if sources.len() == 0 {
            return Err(TaskError::NoSources);
        }
        self.tasks.set(t, Task { phase: TaskPhase::Suspended, waits: sources });
        proof {
            let o = old(self)@;
            let s = self@;
            assert(s.tasks =~= o.tasks.update(
                t as int,
                TaskView { phase: TaskPhase::Suspended, waits: sources@ },
            ));
            assert forall|k: int| 0 <= k < s.ready.len() implies #[trigger] s.ready[k]
                < s.tasks.len() && s.tasks[s.ready[k] as int].phase == TaskPhase::Runnable by {
                assert(o.ready[k] < o.tasks.len());
            }
            assert forall|i: int|
                0 <= i < s.tasks.len() && (#[trigger] s.tasks[i]).phase
                    == TaskPhase::Runnable implies s.ready.contains(i as usize) by {
                assert(s.tasks[i] == o.tasks[i]);
            }
            assert forall|i: int|
                0 <= i < s.tasks.len() && (#[trigger] s.tasks[i]).phase
                    != TaskPhase::Suspended implies s.tasks[i].waits.len() == 0 by {
                assert(s.tasks[i] == o.tasks[i]);
            }
        }
        Ok(())
    }

    /// Marks the running task `t` as completed.
    pub fn complete(&mut self, t: usize) -> (r: Result<(), TaskError>)
        requires
            old(self)@.wf(),
        ensures
            final(self)@.wf(),
            t >= old(self)@.tasks.len() ==> r == Err::<(), TaskError>(TaskError::UnknownTask),
            t < old(self)@.tasks.len() && old(self)@.tasks[t as int].phase != TaskPhase::Running
                ==> r == Err::<(), TaskError>(TaskError::NotRunning),
            r is Err ==> final(self)@ == old(self)@,
            r is Ok <==> t < old(self)@.tasks.len() && old(self)@.tasks[t as int].phase
                == TaskPhase::Running,
            r is Ok ==> final(self)@.ready == old(self)@.ready && final(self)@.tasks == old(
                self,
            )@.tasks.update(
                t as int,
                (TaskView { phase: TaskPhase::Completed, waits: Seq::empty() }),
            ),
    {
        if t >= self.tasks.len() {
            return Err(TaskError::UnknownTask);
        }
        if self.tasks[t].phase != TaskPhase::Running {
            return Err(TaskError::NotRunning);
        }
        self.tasks.set(t, Task { phase: TaskPhase::Completed, waits: Vec::new() });
        proof {
            let o = old(self)@;
            let s = self@;
            assert(s.tasks =~= o.tasks.update(
                t as int,
                TaskView { phase: TaskPhase::Completed, waits: Seq::empty() },
            ));
            assert forall|k: int| 0 <= k < s.ready.len() implies #[trigger] s.ready[k]
                < s.tasks.len() && s.tasks[s.ready[k] as int].phase == TaskPhase::Runnable by {
                assert(o.ready[k] < o.tasks.len());
            }
            assert forall|i: int|
                0 <= i < s.tasks.len() && (#[trigger] s.tasks[i]).phase
                    == TaskPhase::Runnable implies s.ready.contains(i as usize) by {
                assert(s.tasks[i] == o.tasks[i]);
            }
            assert forall|i: int|
                0 <= i < s.tasks.len() && (#[trigger] s.tasks[i]).phase
                    != TaskPhase::Suspended implies s.tasks[i].waits.len() == 0 by {
                if i != t {
                    assert(s.tasks[i] == o.tasks[i]);
                }
            }
        }
        Ok(())
    }

    /// Delivers the event `src`: exactly the tasks suspended on it at this
    /// moment become runnable, drop all their registrations, and join the back
    /// of the queue in task order. Returns them.
    pub fn signal(&mut self, src: Source) -> (woken: Vec<usize>)
        requires
            old(self)@.wf(),
        ensures
            final(self)@.wf(),
            woken@ == woken_among(old(self)@.tasks, src, old(self)@.tasks.len() as int),
            final(self)@.ready == old(self)@.ready + woken@,
            final(self)@.tasks.len() == old(self)@.tasks.len(),
            forall|i: int|
                0 <= i < old(self)@.tasks.len() ==> #[trigger] final(self)@.tasks[i]
                    == after_signal(old(self)@.tasks[i], src),
    {
        let ghost o = self@;
        let n = self.tasks.len();
        let mut woken: Vec<usize> = Vec::new();
        let mut i: usize = 0;
        while i < n
            invariant
                n == o.tasks.len(),
                self@.tasks.len() == n,
                0 <= i <= n,
                forall|j: int| 0 <= j < i ==> #[trigger] self@.tasks[j] == after_signal(o.tasks[j], src),
                forall|j: int| i <= j < n ==> #[trigger] self@.tasks[j] == o.tasks[j],
                woken@ == woken_among(o.tasks, src, i as int),
                self@.ready == o.ready + woken@,
            decreases n - i,
        {
            let ghost before = self@;
            proof {
                assert(self@.tasks[i as int] == self.tasks@[i as int]@);
            }
            if self.tasks[i].phase == TaskPhase::Suspended && waits_on(&self.tasks[i].waits, src) {
                self.tasks.set(i, Task { phase: TaskPhase::Runnable, waits: Vec::new() });
                self.ready.push(i);
                woken.push(i);
                proof {
                    assert(self@.tasks =~= before.tasks.update(
                        i as int,
                        TaskView { phase: TaskPhase::Runnable, waits: Seq::empty() },
                    ));
                    assert(self@.tasks[i as int] =~= after_signal(o.tasks[i as int], src));
                    assert(self@.ready =~= o.ready + woken@);
                }
            }
            proof {
                assert forall|j: int| 0 <= j < i + 1 implies #[trigger] self@.tasks[j]
                    == after_signal(o.tasks[j], src) by {
                    if j == i {
                        assert(self@.tasks[j] =~= after_signal(o.tasks[j], src));
                    } else {
                        assert(self@.tasks[j] == before.tasks[j]);
                    }
                }
                assert forall|j: int| i + 1 <= j < n implies #[trigger] self@.tasks[j]
                    == o.tasks[j] by {
                    assert(self@.tasks[j] == before.tasks[j]);
                }
            }
            i = i + 1;
        }
        proof {
            let s = self@;
            lemma_woken_among(o.tasks, src, n as int);
            let w = woken@;
            assert forall|k: int| 0 <= k < s.ready.len() implies #[trigger] s.ready[k]
                < s.tasks.len() && s.tasks[s.ready[k] as int].phase == TaskPhase::Runnable by {
                if k < o.ready.len() {
                    assert(s.ready[k] == o.ready[k]);
                    assert(o.ready[k] < o.tasks.len());
                    assert(s.tasks[o.ready[k] as int] == after_signal(o.tasks[o.ready[k] as int], src));
                } else {
                    assert(s.ready[k] == w[k - o.ready.len()]);
                    assert(w[k - o.ready.len()] < n);
                    assert(s.tasks[w[k - o.ready.len()] as int] == after_signal(
                        o.tasks[w[k - o.ready.len()] as int],
                        src,
                    ));
                }
            }
            assert forall|k1: int, k2: int|
                0 <= k1 < s.ready.len() && 0 <= k2 < s.ready.len() && k1 != k2 implies s.ready[k1]
                != s.ready[k2] by {
                if k1 < o.ready.len() && k2 < o.ready.len() {
                } else if k1 >= o.ready.len() && k2 >= o.ready.len() {
                    assert(w[k1 - o.ready.len()] == s.ready[k1]);
                    assert(w[k2 - o.ready.len()] == s.ready[k2]);
                    if k1 < k2 {
                        assert(w[k1 - o.ready.len()] < w[k2 - o.ready.len()]);
                    } else {
                        assert(w[k2 - o.ready.len()] < w[k1 - o.ready.len()]);
                    }
                } else if k1 < o.ready.len() {
                    assert(o.ready[k1] < o.tasks.len());
                    assert(w[k2 - o.ready.len()] < n);
                    assert(wakes(o.tasks[w[k2 - o.ready.len()] as int], src));
                } else {
                    assert(o.ready[k2] < o.tasks.len());
                    assert(w[k1 - o.ready.len()] < n);
                    assert(wakes(o.tasks[w[k1 - o.ready.len()] as int], src));
                }
            }
            assert forall|i: int|
                0 <= i < s.tasks.len() && (#[trigger] s.tasks[i]).phase
                    == TaskPhase::Runnable implies s.ready.contains(i as usize) by {
                if wakes(o.tasks[i], src) {
                    let k = choose|k: int| 0 <= k < w.len() && w[k] == i as usize;
                    assert(s.ready[o.ready.len() + k] == i as usize);
                } else {
                    assert(o.tasks[i].phase == TaskPhase::Runnable);
                    let k = choose|k: int| 0 <= k < o.ready.len() && o.ready[k] == i as usize;
                    assert(s.ready[k] == i as usize);
                }
            }
            assert forall|i: int|
                0 <= i < s.tasks.len() && (#[trigger] s.tasks[i]).phase
                    != TaskPhase::Suspended implies s.tasks[i].waits.len() == 0 by {
                assert(s.tasks[i] == after_signal(o.tasks[i], src));
            }
        }
        woken
    }
    /// Cancels task `t` wherever it stands: its registrations are dropped and
    /// it leaves the queue. A finished task cannot be cancelled.
    pub fn cancel(&mut self, t: usize) -> (r: Result<(), TaskError>)
        requires
            old(self)@.wf(),
        ensures
            final(self)@.wf(),
            t >= old(self)@.tasks.len() ==> r == Err::<(), TaskError>(TaskError::UnknownTask),
            t < old(self)@.tasks.len() && (old(self)@.tasks[t as int].phase == TaskPhase::Completed
                || old(self)@.tasks[t as int].phase == TaskPhase::Cancelled) ==> r == Err::<
                (),
                TaskError,
            >(TaskError::Finished),
            r is Err ==> final(self)@ == old(self)@,
            r is Ok <==> t < old(self)@.tasks.len() && old(self)@.tasks[t as int].phase
                != TaskPhase::Completed && old(self)@.tasks[t as int].phase != TaskPhase::Cancelled,
            r is Ok ==> final(self)@.tasks == old(self)@.tasks.update(
                t as int,
                (TaskView { phase: TaskPhase::Cancelled, waits: Seq::empty() }),
            ),
            r is Ok && old(self)@.tasks[t as int].phase != TaskPhase::Runnable
                ==> final(self)@.ready == old(self)@.ready,
            r is Ok && old(self)@.tasks[t as int].phase == TaskPhase::Runnable ==> exists|p: int|
                0 <= p < old(self)@.ready.len() && old(self)@.ready[p] == t && final(self)@.ready
                    == old(self)@.ready.remove(p),
    {
        if t >= self.tasks.len() {
            return Err(TaskError::UnknownTask);
        }
        let phase = self.tasks[t].phase;
        if phase == TaskPhase::Completed || phase == TaskPhase::Cancelled {
            return Err(TaskError::Finished);
        }
        proof {
            assert(self@.tasks[t as int] == self.tasks@[t as int]@);
        }
        self.tasks.set(t, Task { phase: TaskPhase::Cancelled, waits: Vec::new() });
        let pos = position_of(&self.ready, t);
        let found = pos.is_some();
        let p: usize = match pos {
            Some(p) => p,
            None => 0,
        };
        if found {
            self.ready.remove(p);
        }
        proof {
            let o = old(self)@;
            let s = self@;
            assert(s.tasks =~= o.tasks.update(
                t as int,
                TaskView { phase: TaskPhase::Cancelled, waits: Seq::empty() },
            ));
            if phase == TaskPhase::Runnable {
                assert(o.ready.contains(t));
                assert(found);
            }
            assert forall|k: int| 0 <= k < s.ready.len() implies #[trigger] s.ready[k]
                < s.tasks.len() && s.tasks[s.ready[k] as int].phase == TaskPhase::Runnable by {
                if found && k >= p {
                    assert(s.ready[k] == o.ready[k + 1]);
                    assert(o.ready[k + 1] < o.tasks.len());
                    assert(o.ready[k + 1] != t);
                } else {
                    assert(s.ready[k] == o.ready[k]);
                    assert(o.ready[k] < o.tasks.len());
                    assert(o.ready[k] != t);
                }
            }
            assert forall|k1: int, k2: int|
                0 <= k1 < s.ready.len() && 0 <= k2 < s.ready.len() && k1 != k2 implies s.ready[k1]
                != s.ready[k2] by {
                if found {
                    let a = if k1 >= p { k1 + 1 } else { k1 };
                    let b = if k2 >= p { k2 + 1 } else { k2 };
                    assert(s.ready[k1] == o.ready[a]);
                    assert(s.ready[k2] == o.ready[b]);
                }
            }
            assert forall|i: int|
                0 <= i < s.tasks.len() && (#[trigger] s.tasks[i]).phase
                    == TaskPhase::Runnable implies s.ready.contains(i as usize) by {
                assert(i != t);
                assert(s.tasks[i] == o.tasks[i]);
                let k = choose|k: int| 0 <= k < o.ready.len() && o.ready[k] == i as usize;
                if found {
                    assert(k != p);
                    if k > p {
                        assert(s.ready[k - 1] == i as usize);
                    } else {
                        assert(s.ready[k] == i as usize);
                    }
                } else {
                    assert(s.ready[k] == i as usize);
                }
            }
            assert forall|i: int|
                0 <= i < s.tasks.len() && (#[trigger] s.tasks[i]).phase
                    != TaskPhase::Suspended implies s.tasks[i].waits.len() == 0 by {
                if i != t {
                    assert(s.tasks[i] == o.tasks[i]);
                }
            }
        }
        Ok(())
    }
    /// How many tasks were ever spawned.
    pub fn task_count(&self) -> (n: usize)
        ensures
            n == self@.tasks.len(),
    {
        self.tasks.len()
    }

    /// The sources task `t` waits on.
    pub fn waits(&self, t: usize) -> (r: &Vec<Source>)
        requires
            t < self@.tasks.len(),
        ensures
            r@ == self@.tasks[t as int].waits,
    {
        &self.tasks[t].waits
    }

    /// Wakes the suspended task `t`: it drops its registrations and joins
    /// the back of the queue.
    pub fn wake(&mut self, t: usize) -> (r: Result<(), TaskError>)
        requires
            old(self)@.wf(),
        ensures
            final(self)@.wf(),
            t >= old(self)@.tasks.len() ==> r == Err::<(), TaskError>(TaskError::UnknownTask),
            t < old(self)@.tasks.len() && old(self)@.tasks[t as int].phase != TaskPhase::Suspended
                ==> r == Err::<(), TaskError>(TaskError::NotSuspended),
            r is Err ==> final(self)@ == old(self)@,
            r is Ok <==> t < old(self)@.tasks.len() && old(self)@.tasks[t as int].phase
                == TaskPhase::Suspended,
            r is Ok ==> final(self)@.ready == old(self)@.ready.push(t) && final(self)@.tasks == old(
                self,
            )@.tasks.update(
                t as int,
                (TaskView { phase: TaskPhase::Runnable, waits: Seq::empty() }),
            ),
    {
        if t >= self.tasks.len() {
            return Err(TaskError::UnknownTask);
        }
        if self.tasks[t].phase != TaskPhase::Suspended {
            return Err(TaskError::NotSuspended);
        }
        self.tasks.set(t, Task { phase: TaskPhase::Runnable, waits: Vec::new() });
        self.ready.push(t);
        proof {
            let o = old(self)@;
            let s = self@;
            assert(s.tasks =~= o.tasks.update(
                t as int,
                TaskView { phase: TaskPhase::Runnable, waits: Seq::empty() },
            ));
            assert(!o.ready.contains(t)) by {
                if o.ready.contains(t) {
                    let k = choose|k: int| 0 <= k < o.ready.len() && o.ready[k] == t;
                    assert(o.ready[k] < o.tasks.len());
                }
            }
            assert forall|k: int| 0 <= k < s.ready.len() implies #[trigger] s.ready[k]
                < s.tasks.len() && s.tasks[s.ready[k] as int].phase == TaskPhase::Runnable by {
                if k < o.ready.len() {
                    assert(s.ready[k] == o.ready[k]);
                    assert(o.ready[k] < o.tasks.len());
                }
            }
            assert forall|k1: int, k2: int|
                0 <= k1 < s.ready.len() && 0 <= k2 < s.ready.len() && k1 != k2 implies s.ready[k1]
                != s.ready[k2] by {
                if k1 == o.ready.len() {
                    assert(o.ready[k2] != t);
                } else if k2 == o.ready.len() {
                    assert(o.ready[k1] != t);
                }
            }
            assert forall|i: int|
                0 <= i < s.tasks.len() && (#[trigger] s.tasks[i]).phase
                    == TaskPhase::Runnable implies s.ready.contains(i as usize) by {
                if i == t {
                    assert(s.ready[o.ready.len() as int] == t);
                } else {
                    assert(s.tasks[i] == o.tasks[i]);
                    let k = choose|k: int| 0 <= k < o.ready.len() && o.ready[k] == i as usize;
                    assert(s.ready[k] == i as usize);
                }
            }
            assert forall|i: int|
                0 <= i < s.tasks.len() && (#[trigger] s.tasks[i]).phase
                    != TaskPhase::Suspended implies s.tasks[i].waits.len() == 0 by {
                if i != t {
                    assert(s.tasks[i] == o.tasks[i]);
                }
            }
        }
        Ok(())
    }
}

} // verus!
