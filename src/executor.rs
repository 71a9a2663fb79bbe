//! The scheduler: task records, the pending-task count, and the decisions of
//! spawning, waking and polling.
//!
//! `Executor<F>` owns each task's computation slot and the count of tasks that
//! have not completed. The caller drives it: it performs the returned
//! `Action`s on its queues, and between `begin_poll` and `end_poll` it polls
//! the computation that `begin_poll` handed out.
use vstd::prelude::*;

verus! {

/// The queue that runs a task's poll steps.
#[derive(Debug, PartialEq, Eq, Structural, Clone, Copy)]
pub enum Queue {
    /// The single-threaded, ordered queue.
    Primary,
    /// The multi-threaded worker pool.
    Worker,
}

/// A task's computation slot.
#[derive(Debug)]
pub enum Slot<F> {
    /// The computation waits in its slot for the next poll.
    Parked(F),
    /// The computation is out of its slot, being polled; the flag records a
    /// poll attempt that came meanwhile.
    Running(bool),
    /// The computation has completed and was dropped.
    Done,
}

/// One task: the queue it was routed to at creation, and its slot.
#[derive(Debug)]
pub struct TaskRecord<F> {
    pub queue: Queue,
    pub slot: Slot<F>,
}

/// What the caller has to do next.
#[derive(Debug, PartialEq, Eq, Structural, Clone, Copy)]
pub enum Action {
    /// Poll the given task once, right away, on the calling thread.
    PollNow(usize),
    /// Send one poll of the given task to the given queue.
    Dispatch(Queue, usize),
    /// Nothing.
    Nothing,
}

/// What polling a computation once gave.
#[derive(Debug)]
pub enum PollResult<F> {
    /// Not ready: the computation goes back into its slot.
    Pending(F),
    /// The computation completed.
    Ready,
}

/// A step of the scheduler, as its caller performs it.
pub enum ExecEvent<F> {
    Spawn(Queue, F),
    Begin(nat),
    End(nat, PollResult<F>),
}

/// The number of tasks that have not completed.
pub open spec fn live_count<F>(tasks: Seq<TaskRecord<F>>) -> nat
    decreases tasks.len(),
{
    if tasks.len() == 0 {
        0
    } else {
        live_count(tasks.drop_last()) + (if tasks.last().slot is Done { 0nat } else { 1nat })
    }
}

/// The abstract state of the scheduler.
pub struct ExecutorState<F> {
    /// The pending-task count.
    pub pending: nat,
    /// Every task created so far, indexed by its id.
    pub tasks: Seq<TaskRecord<F>>,
}

impl<F> ExecutorState<F> {
    /// The pending count is the number of tasks that have not completed.
    pub open spec fn wf(self) -> bool {
        self.pending == live_count(self.tasks)
    }

    pub open spec fn after_spawn(self, q: Queue, f: F) -> ExecutorState<F> {
        ExecutorState {
            pending: self.pending + 1,
            tasks: self.tasks.push(TaskRecord { queue: q, slot: Slot::Parked(f) }),
        }
    }

    pub open spec fn with_slot(self, id: int, slot: Slot<F>) -> ExecutorState<F> {
        ExecutorState {
            tasks: self.tasks.update(id, TaskRecord { queue: self.tasks[id].queue, slot }),
            ..self
        }
    }

    /// The start of a poll step: a parked computation is taken out of its
    /// slot; an attempt on a running task is recorded and does nothing else;
    /// one on a completed task does nothing.
    pub open spec fn after_begin(self, id: int) -> (ExecutorState<F>, Option<F>) {
        match self.tasks[id].slot {
            Slot::Parked(f) => (self.with_slot(id, Slot::Running(false)), Some(f)),
            Slot::Running(_) => (self.with_slot(id, Slot::Running(true)), None),
            Slot::Done => (self, None),
        }
    }

    /// The end of a poll step: a pending computation goes back into its slot,
    /// and is polled again if an attempt came meanwhile; a completed one is
    /// dropped and the pending count goes down by one.
    pub open spec fn after_end(self, id: int, res: PollResult<F>) -> (ExecutorState<F>, Action) {
        match res {
            PollResult::Pending(f) => (
                self.with_slot(id, Slot::Parked(f)),
                if self.tasks[id].slot == Slot::<F>::Running(true) {
                    Action::Dispatch(self.tasks[id].queue, id as usize)
                } else {
                    Action::Nothing
                },
            ),
            PollResult::Ready => (
                ExecutorState { pending: (self.pending - 1) as nat, ..self.with_slot(id, Slot::Done) },
                Action::Nothing,
            ),
        }
    }
}

impl<F> ExecutorState<F> {
    /// Whether the caller may perform an event in this state: a poll step is
    /// started on an existing task, and ended only on a task being polled.
    pub open spec fn allows(self, e: ExecEvent<F>) -> bool {
        match e {
            ExecEvent::Spawn(_, _) => true,
            ExecEvent::Begin(id) => id < self.tasks.len(),
            ExecEvent::End(id, _) => id < self.tasks.len() && self.tasks[id as int].slot is Running,
        }
    }

    pub open spec fn after_event(self, e: ExecEvent<F>) -> ExecutorState<F> {
        match e {
            ExecEvent::Spawn(q, f) => self.after_spawn(q, f),
            ExecEvent::Begin(id) => self.after_begin(id as int).0,
            ExecEvent::End(id, res) => self.after_end(id as int, res).0,
        }
    }

    /// Whether each event of `es` is allowed in the state that the events
    /// before it lead to.
    pub open spec fn allows_all(self, es: Seq<ExecEvent<F>>) -> bool
        decreases es.len(),
    {
        es.len() == 0 || (self.allows(es[0]) && self.after_event(es[0]).allows_all(es.drop_first()))
    }

    pub open spec fn after_events(self, es: Seq<ExecEvent<F>>) -> ExecutorState<F>
        decreases es.len(),
    {
        if es.len() == 0 {
            self
        } else {
            self.after_event(es[0]).after_events(es.drop_first())
        }
    }
}

/// The number of tasks created by `es`.
pub open spec fn spawns_in<F>(es: Seq<ExecEvent<F>>) -> nat
    decreases es.len(),
{
    if es.len() == 0 {
        0
    } else {
        spawns_in(es.drop_first()) + (if es[0] is Spawn { 1nat } else { 0nat })
    }
}

/// Whether `e` ends a poll step of task `id` with completion.
pub open spec fn completes<F>(e: ExecEvent<F>, id: nat) -> bool {
    e matches ExecEvent::End(i, res) && i == id && res is Ready
}

/// The number of poll steps in `es` that end with a completion.
pub open spec fn completions_in<F>(es: Seq<ExecEvent<F>>) -> nat
    decreases es.len(),
{
    if es.len() == 0 {
        0
    } else {
        completions_in(es.drop_first()) + (
        if es[0] matches ExecEvent::End(_, res) && res is Ready { 1nat } else { 0nat })
    }
}

/// The number of poll steps of task `id` in `es` that end with a completion.
pub open spec fn completions_of<F>(es: Seq<ExecEvent<F>>, id: nat) -> nat
    decreases es.len(),
{
    if es.len() == 0 {
        0
    } else {
        completions_of(es.drop_first(), id) + (if completes(es[0], id) { 1nat } else { 0nat })
    }
}

/// Whether task `id` exists and has completed.
pub open spec fn is_finished<F>(s: ExecutorState<F>, id: nat) -> bool {
    id < s.tasks.len() && s.tasks[id as int].slot is Done
}

proof fn lemma_event_keeps_wf<F>(s: ExecutorState<F>, e: ExecEvent<F>)
    requires
        s.wf(),
        s.allows(e),
    ensures
        s.after_event(e).wf(),
        s.after_event(e).pending + (if e matches ExecEvent::End(_, res) && res is Ready {
            1nat
        } else {
            0nat
        }) == s.pending + (if e is Spawn { 1nat } else { 0nat }),
        s.after_event(e).tasks.len() >= s.tasks.len(),
        forall|id: nat| is_finished(s, id) ==> is_finished(s.after_event(e), id),
        forall|id: nat| completes(e, id) ==> is_finished(s.after_event(e), id) && !is_finished(s, id),
{
    match e {
        ExecEvent::Spawn(q, f) => {
            lemma_live_count_push(s.tasks, TaskRecord { queue: q, slot: Slot::Parked(f) });
        },
        ExecEvent::Begin(id) => {
            let i = id as int;
            lemma_live_count_update(s.tasks, i, TaskRecord { queue: s.tasks[i].queue, slot: Slot::Running(false) });
            lemma_live_count_update(s.tasks, i, TaskRecord { queue: s.tasks[i].queue, slot: Slot::Running(true) });
        },
        ExecEvent::End(id, res) => {
            let i = id as int;
            lemma_live_count_update(s.tasks, i, TaskRecord { queue: s.tasks[i].queue, slot: Slot::Done });
            match res {
                PollResult::Pending(f) => {
                    lemma_live_count_update(s.tasks, i, TaskRecord { queue: s.tasks[i].queue, slot: Slot::Parked(f) });
                },
                PollResult::Ready => {},
            }
        },
    }
}

/// Over any run of allowed steps, the pending count goes up by one for each
/// task created and down by one for each poll step that ends in completion,
/// and it stays the number of tasks that have not completed.
pub proof fn pending_counts_spawns_minus_completions<F>(s: ExecutorState<F>, es: Seq<ExecEvent<F>>)
    requires
        s.wf(),
        s.allows_all(es),
    ensures
        s.after_events(es).wf(),
        s.after_events(es).pending + completions_in(es) == s.pending + spawns_in(es),
    decreases es.len(),
{
    if es.len() > 0 {
        lemma_event_keeps_wf(s, es[0]);
        pending_counts_spawns_minus_completions(s.after_event(es[0]), es.drop_first());
    }
}

/// Over any run of allowed steps, each task completes at most once, and a
/// task that has already completed never completes again.
pub proof fn each_task_completes_at_most_once<F>(s: ExecutorState<F>, es: Seq<ExecEvent<F>>, id: nat)
    requires
        s.wf(),
        s.allows_all(es),
    ensures
        completions_of(es, id) <= (if is_finished(s, id) { 0nat } else { 1nat }),
    decreases es.len(),
{
    if es.len() > 0 {
        lemma_event_keeps_wf(s, es[0]);
        each_task_completes_at_most_once(s.after_event(es[0]), es.drop_first(), id);
    }
}

/// A computation that completes on its first poll leaves the pending count
/// where it was before it was created, on either queue.
pub proof fn ready_on_first_poll_nets_zero<F>(s: ExecutorState<F>, q: Queue, f: F)
    requires
        s.wf(),
    ensures
        ({
            let id = s.tasks.len() as int;
            let s1 = s.after_spawn(q, f);
            let (s2, got) = s1.after_begin(id);
            &&& s1.pending == s.pending + 1
            &&& got == Some(f)
            &&& !s1.allows(ExecEvent::End(id as nat, PollResult::Ready))
            &&& s2.allows(ExecEvent::End(id as nat, PollResult::Ready))
            &&& s2.after_end(id, PollResult::Ready).0.pending == s.pending
            &&& s2.after_end(id, PollResult::Ready).0.wf()
        }),
{
    let id = s.tasks.len() as int;
    lemma_event_keeps_wf(s, ExecEvent::Spawn(q, f));
    let s1 = s.after_spawn(q, f);
    lemma_event_keeps_wf(s1, ExecEvent::Begin(id as nat));
    let s2 = s1.after_begin(id).0;
    lemma_event_keeps_wf(s2, ExecEvent::End(id as nat, PollResult::Ready));
}

/// A computation is handed out only while it is parked: once a poll step
/// has taken it, further attempts get nothing until it is put back, and
/// attempts on a completed task change nothing.
pub proof fn poll_steps_never_overlap<F>(s: ExecutorState<F>, id: nat)
    requires
        s.wf(),
        id < s.tasks.len(),
    ensures
        (s.after_begin(id as int).1 is Some) <==> (s.tasks[id as int].slot is Parked),
        s.after_begin(id as int).1 is Some ==> s.after_begin(id as int).0.after_begin(id as int).1 is None,
        s.tasks[id as int].slot is Running ==> s.after_begin(id as int).1 is None,
        s.tasks[id as int].slot is Done ==> s.after_begin(id as int) == (s, None::<F>),
{
}

/// The executable scheduler state.
pub struct Executor<F> {
    pending: usize,
    tasks: Vec<TaskRecord<F>>,
}

impl<F> View for Executor<F> {
    type V = ExecutorState<F>;

    closed spec fn view(&self) -> ExecutorState<F> {
        ExecutorState { pending: self.pending as nat, tasks: self.tasks@ }
    }
}

proof fn lemma_live_count_bound<F>(tasks: Seq<TaskRecord<F>>)
    ensures
        live_count(tasks) <= tasks.len(),
    decreases tasks.len(),
{
    if tasks.len() > 0 {
        lemma_live_count_bound(tasks.drop_last());
    }
}

proof fn lemma_live_count_push<F>(tasks: Seq<TaskRecord<F>>, r: TaskRecord<F>)
    ensures
        live_count(tasks.push(r)) == live_count(tasks) + (if r.slot is Done { 0nat } else { 1nat }),
{
    assert(tasks.push(r).drop_last() =~= tasks);
}

proof fn lemma_live_count_update<F>(tasks: Seq<TaskRecord<F>>, i: int, r: TaskRecord<F>)
    requires
        0 <= i < tasks.len(),
    ensures
        live_count(tasks.update(i, r)) + (if r.slot is Done { 1nat } else { 0nat })
            == live_count(tasks) + (if tasks[i].slot is Done { 1nat } else { 0nat }),
    decreases tasks.len(),
{
    let u = tasks.update(i, r);
    if i == tasks.len() - 1 {
        assert(u.drop_last() =~= tasks.drop_last());
    } else {
        assert(u.drop_last() =~= tasks.drop_last().update(i, r));
        lemma_live_count_update(tasks.drop_last(), i, r);
    }
}

impl<F> Executor<F> {
    /// An executor with no tasks.
    pub fn new() -> (r: Self)
        ensures
            r@ == (ExecutorState::<F> { pending: 0, tasks: Seq::empty() }),
            r@.wf(),
    {
        Executor { pending: 0, tasks: Vec::new() }
    }

    /// The number of tasks that have not completed.
    pub fn pending(&self) -> (r: usize)
        ensures
            r == self@.pending,
    {
        self.pending
    }

    /// Whether every task created so far has completed: the condition on
    /// which the top-level wait loop stops.
    pub fn is_idle(&self) -> (r: bool)
        ensures
            r == (self@.pending == 0),
    {
        self.pending == 0
    }

    /// The number of tasks created so far.
    pub fn task_count(&self) -> (r: usize)
        ensures
            r == self@.tasks.len(),
    {
        self.tasks.len()
    }

    /// The queue a task was routed to.
    pub fn queue_of(&self, id: usize) -> (r: Queue)
        requires
            id < self@.tasks.len(),
        ensures
            r == self@.tasks[id as int].queue,
    {
        self.tasks[id].queue
    }

    /// Whether a task has completed.
    pub fn is_done(&self, id: usize) -> (r: bool)
        requires
            id < self@.tasks.len(),
        ensures
            r == self@.tasks[id as int].slot is Done,
    {
        match self.tasks[id].slot {
            Slot::Done => true,
            _ => false,
        }
    }

    fn spawn(&mut self, q: Queue, f: F) -> (id: usize)
        requires
            old(self)@.wf(),
            old(self)@.tasks.len() < usize::MAX,
        ensures
            final(self)@ == old(self)@.after_spawn(q, f),
            final(self)@.wf(),
            id == old(self)@.tasks.len(),
    {
        proof {
            lemma_live_count_bound(self.tasks@);
            lemma_live_count_push(self.tasks@, TaskRecord { queue: q, slot: Slot::Parked(f) });
        }
        let id = self.tasks.len();
        self.pending = self.pending + 1;
        self.tasks.push(TaskRecord { queue: q, slot: Slot::Parked(f) });
        id
    }

    /// Creates a task routed to the primary queue. The pending count goes up
    /// by one, and the first poll step runs inline, on the calling thread.
    pub fn spawn_main(&mut self, f: F) -> (r: Action)
        requires
            old(self)@.wf(),
            old(self)@.tasks.len() < usize::MAX,
        ensures
            final(self)@ == old(self)@.after_spawn(Queue::Primary, f),
            final(self)@.wf(),
            r == Action::PollNow(old(self)@.tasks.len() as usize),
    {
        let id = self.spawn(Queue::Primary, f);
        Action::PollNow(id)
    }

    /// Creates a task routed to the worker queue. The pending count goes up
    /// by one, and the first poll step is submitted to the worker queue.
    pub fn spawn_global(&mut self, f: F) -> (r: Action)
        requires
            old(self)@.wf(),
            old(self)@.tasks.len() < usize::MAX,
        ensures
            final(self)@ == old(self)@.after_spawn(Queue::Worker, f),
            final(self)@.wf(),
            r == Action::Dispatch(Queue::Worker, old(self)@.tasks.len() as usize),
    {
        let id = self.spawn(Queue::Worker, f);
        Action::Dispatch(Queue::Worker, id)
    }

    /// Wakes a task: a poll step is submitted to the task's own queue,
    /// whatever state the task is in.
    pub fn wake_by_ref(&self, id: usize) -> (r: Action)
        requires
            id < self@.tasks.len(),
        ensures
            r == Action::Dispatch(self@.tasks[id as int].queue, id),
    {
        Action::Dispatch(self.tasks[id].queue, id)
    }

    fn replace_slot(&mut self, id: usize, slot: Slot<F>) -> (prev: Slot<F>)
        requires
            id < old(self)@.tasks.len(),
        ensures
            final(self)@ == old(self)@.with_slot(id as int, slot),
            prev == old(self)@.tasks[id as int].slot,
    {
        let q = self.tasks[id].queue;
        let mut rec = TaskRecord { queue: q, slot };
        std::mem::swap(&mut self.tasks[id], &mut rec);
        rec.slot
    }

    /// Starts a poll step of a task. The computation is handed out only if
    /// it is parked in its slot, so no two poll steps of one task overlap.
    pub fn begin_poll(&mut self, id: usize) -> (r: Option<F>)
        requires
            old(self)@.wf(),
            id < old(self)@.tasks.len(),
        ensures
            (final(self)@, r) == old(self)@.after_begin(id as int),
            final(self)@.wf(),
            r is Some <==> old(self)@.tasks[id as int].slot is Parked,
    {
        proof {
            lemma_live_count_update(
                self.tasks@,
                id as int,
                TaskRecord { queue: self.tasks@[id as int].queue, slot: Slot::Running(false) },
            );
            lemma_live_count_update(
                self.tasks@,
                id as int,
                TaskRecord { queue: self.tasks@[id as int].queue, slot: Slot::Running(true) },
            );
        }
        match self.tasks[id].slot {
            Slot::Done => None,
            Slot::Running(_) => {
                self.replace_slot(id, Slot::Running(true));
                None
            },
            Slot::Parked(_) => {
                let prev = self.replace_slot(id, Slot::Running(false));
                match prev {
                    Slot::Parked(f) => Some(f),
                    _ => None,
                }
            },
        }
    }

    /// Ends a poll step of a task with what the poll gave. A pending
    /// computation goes back into its slot; a completed one is dropped and the
    /// pending count goes down by exactly one.
    pub fn end_poll(&mut self, id: usize, res: PollResult<F>) -> (r: Action)
        requires
            old(self)@.wf(),
            id < old(self)@.tasks.len(),
            old(self)@.tasks[id as int].slot is Running,
        ensures
            (final(self)@, r) == old(self)@.after_end(id as int, res),
            final(self)@.wf(),
    {
        let q = self.tasks[id].queue;
        proof {
            lemma_live_count_update(self.tasks@, id as int, TaskRecord { queue: q, slot: Slot::Done });
        }
        match res {
            PollResult::Pending(f) => {
                proof {
                    lemma_live_count_update(
                        self.tasks@,
                        id as int,
                        TaskRecord { queue: q, slot: Slot::Parked(f) },
                    );
                }
                let prev = self.replace_slot(id, Slot::Parked(f));
                match prev {
                    Slot::Running(true) => Action::Dispatch(q, id),
                    _ => Action::Nothing,
                }
            },
            PollResult::Ready => {
                self.replace_slot(id, Slot::Done);
                self.pending = self.pending - 1;
                Action::Nothing
            },
        }
    }
}

} // verus!
