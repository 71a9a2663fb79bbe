use dispatch_executor::delay::{DelayCore, DelayPoll, TimerOutcome};
use dispatch_executor::executor::{Action, Executor, PollResult, Queue};

/// A single-threaded run of the scheduler on a simulated clock. Each task's
/// computation waits on one delay, held here by task id; the computation
/// stored in the executor is that id.
struct Sim {
    exec: Executor<usize>,
    delays: Vec<DelayCore<usize>>,
    primary: Vec<usize>,
    worker: Vec<usize>,
    timers: Vec<(u64, usize)>,
    now: u64,
    finished: Vec<usize>,
    polls: Vec<usize>,
}

impl Sim {
    fn new() -> Sim {
        Sim {
            exec: Executor::new(),
            delays: Vec::new(),
            primary: Vec::new(),
            worker: Vec::new(),
            timers: Vec::new(),
            now: 0,
            finished: Vec::new(),
            polls: Vec::new(),
        }
    }

    fn spawn(&mut self, queue: Queue, ticks: u64) {
        let id = self.exec.task_count();
        self.delays.push(DelayCore::new(self.now, ticks));
        let action = match queue {
            Queue::Primary => self.exec.spawn_main(id),
            Queue::Worker => self.exec.spawn_global(id),
        };
        self.perform(action);
    }

    fn perform(&mut self, action: Action) {
        match action {
            Action::PollNow(id) => self.poll_task(id),
            Action::Dispatch(Queue::Primary, id) => self.primary.push(id),
            Action::Dispatch(Queue::Worker, id) => self.worker.push(id),
            Action::Nothing => {}
        }
    }

    fn poll_task(&mut self, id: usize) {
        if let Some(c) = self.exec.begin_poll(id) {
            self.polls.push(id);
            let step = self.delays[c].poll(self.now, id);
            let res = match step {
                DelayPoll::Ready => {
                    self.finished.push(id);
                    PollResult::Ready
                }
                DelayPoll::Pending => PollResult::Pending(c),
                DelayPoll::PendingArm(after) => {
                    self.timers.push((self.now + after, c));
                    PollResult::Pending(c)
                }
            };
            let action = self.exec.end_poll(id, res);
            self.perform(action);
        }
    }

    /// Runs queued poll steps, then the earliest timer, until the executor is
    /// idle. Returns the simulated time at which it became idle.
    fn run(&mut self) -> u64 {
        while !self.exec.is_idle() {
            if !self.primary.is_empty() {
                let id = self.primary.remove(0);
                self.poll_task(id);
            } else if !self.worker.is_empty() {
                let id = self.worker.remove(0);
                self.poll_task(id);
            } else if !self.timers.is_empty() {
                let mut k = 0;
                for i in 1..self.timers.len() {
                    if self.timers[i].0 < self.timers[k].0 {
                        k = i;
                    }
                }
                let (at, c) = self.timers.remove(k);
                if at > self.now {
                    self.now = at;
                }
                match self.delays[c].fire(self.now) {
                    TimerOutcome::Wake(id) => {
                        let action = self.exec.wake_by_ref(id);
                        self.perform(action);
                    }
                    TimerOutcome::Idle => {}
                    TimerOutcome::Rearm(after) => self.timers.push((self.now + after, c)),
                }
            } else {
                panic!("pending tasks but nothing left to run");
            }
        }
        self.now
    }
}

#[test]
fn run_with_no_tasks_returns_at_once() {
    let exec: Executor<usize> = Executor::new();
    assert!(exec.is_idle());
    assert_eq!(exec.pending(), 0);
    let mut sim = Sim::new();
    assert_eq!(sim.run(), 0);
    assert!(sim.polls.is_empty());
}

#[test]
fn primary_task_with_one_second_delay_keeps_run_waiting() {
    let mut sim = Sim::new();
    sim.spawn(Queue::Primary, 1000);
    // The first poll ran inline and suspended on the delay.
    assert_eq!(sim.polls, vec![0]);
    assert_eq!(sim.exec.pending(), 1);
    assert!(!sim.exec.is_idle());
    assert_eq!(sim.timers, vec![(1000, 0)]);
    let end = sim.run();
    assert!(end >= 1000);
    assert_eq!(sim.exec.pending(), 0);
    assert_eq!(sim.finished, vec![0]);
    assert!(sim.exec.is_done(0));
}

#[test]
fn worker_tasks_complete_in_deadline_order() {
    let mut sim = Sim::new();
    sim.spawn(Queue::Worker, 1000);
    sim.spawn(Queue::Worker, 2000);
    // Worker tasks are not polled inline.
    assert!(sim.polls.is_empty());
    assert_eq!(sim.worker, vec![0, 1]);
    assert_eq!(sim.exec.pending(), 2);
    let end = sim.run();
    assert_eq!(end, 2000);
    assert_eq!(sim.finished, vec![0, 1]);
    assert_eq!(sim.exec.pending(), 0);
}

#[test]
fn worker_tasks_spawned_out_of_order_finish_by_deadline() {
    let mut sim = Sim::new();
    sim.spawn(Queue::Worker, 2000);
    sim.spawn(Queue::Worker, 1000);
    sim.run();
    assert_eq!(sim.finished, vec![1, 0]);
}

#[test]
fn never_suspending_task_completes_on_first_poll() {
    let mut exec: Executor<&str> = Executor::new();
    let action = exec.spawn_main("hello");
    assert_eq!(action, Action::PollNow(0));
    assert_eq!(exec.pending(), 1);
    let taken = exec.begin_poll(0);
    assert_eq!(taken, Some("hello"));
    assert_eq!(exec.end_poll(0, PollResult::Ready), Action::Nothing);
    assert_eq!(exec.pending(), 0);
    assert!(exec.is_idle());
}

#[test]
fn worker_spawn_dispatches_first_poll() {
    let mut exec: Executor<u8> = Executor::new();
    assert_eq!(exec.spawn_main(1), Action::PollNow(0));
    assert_eq!(exec.spawn_global(2), Action::Dispatch(Queue::Worker, 1));
    assert_eq!(exec.pending(), 2);
    assert_eq!(exec.task_count(), 2);
    assert_eq!(exec.queue_of(0), Queue::Primary);
    assert_eq!(exec.queue_of(1), Queue::Worker);
    assert_eq!(exec.begin_poll(1), Some(2));
    assert_eq!(exec.end_poll(1, PollResult::Ready), Action::Nothing);
    assert_eq!(exec.pending(), 1);
}

#[test]
fn wake_dispatches_to_the_task_queue() {
    let mut exec: Executor<u8> = Executor::new();
    exec.spawn_main(1);
    exec.spawn_global(2);
    assert_eq!(exec.wake_by_ref(0), Action::Dispatch(Queue::Primary, 0));
    assert_eq!(exec.wake_by_ref(1), Action::Dispatch(Queue::Worker, 1));
    // Waking changes nothing by itself.
    assert_eq!(exec.pending(), 2);
    assert_eq!(exec.wake_by_ref(0), Action::Dispatch(Queue::Primary, 0));
}

#[test]
fn duplicate_poll_attempts_never_overlap() {
    let mut exec: Executor<u8> = Executor::new();
    exec.spawn_global(7);
    let first = exec.begin_poll(0);
    assert_eq!(first, Some(7));
    // A second and third attempt while the first is running get nothing.
    assert_eq!(exec.begin_poll(0), None);
    assert_eq!(exec.begin_poll(0), None);
    // The attempts are remembered: the task is polled again on its queue.
    assert_eq!(exec.end_poll(0, PollResult::Pending(7)), Action::Dispatch(Queue::Worker, 0));
    assert_eq!(exec.begin_poll(0), Some(7));
    assert_eq!(exec.end_poll(0, PollResult::Pending(8)), Action::Nothing);
    assert_eq!(exec.begin_poll(0), Some(8));
    assert_eq!(exec.end_poll(0, PollResult::Ready), Action::Nothing);
    assert_eq!(exec.pending(), 0);
}

#[test]
fn polls_after_completion_are_no_ops() {
    let mut exec: Executor<u8> = Executor::new();
    exec.spawn_main(3);
    exec.spawn_main(4);
    assert_eq!(exec.begin_poll(0), Some(3));
    exec.end_poll(0, PollResult::Ready);
    assert_eq!(exec.pending(), 1);
    assert!(exec.is_done(0));
    assert!(!exec.is_done(1));
    for _ in 0..3 {
        assert_eq!(exec.wake_by_ref(0), Action::Dispatch(Queue::Primary, 0));
        assert_eq!(exec.begin_poll(0), None);
    }
    // The counter went down once only.
    assert_eq!(exec.pending(), 1);
}

#[test]
fn counter_goes_up_per_spawn_and_down_per_completion() {
    let mut exec: Executor<u32> = Executor::new();
    for i in 0..5 {
        exec.spawn_global(i);
        assert_eq!(exec.pending(), (i + 1) as usize);
    }
    for i in 0..5usize {
        assert_eq!(exec.begin_poll(i), Some(i as u32));
        exec.end_poll(i, PollResult::Ready);
        assert_eq!(exec.pending(), 4 - i);
    }
    assert!(exec.is_idle());
}

#[test]
fn delay_pending_before_deadline_and_ready_after() {
    let mut d: DelayCore<u8> = DelayCore::new(100, 1000);
    assert_eq!(d.deadline(), 1100);
    assert_eq!(d.poll(100, 1), DelayPoll::PendingArm(1000));
    assert!(d.has_waker());
    assert_eq!(d.poll(500, 2), DelayPoll::Pending);
    assert_eq!(d.poll(1099, 3), DelayPoll::Pending);
    assert!(!d.is_complete());
    assert_eq!(d.poll(1100, 4), DelayPoll::Ready);
    assert!(d.is_complete());
    assert!(!d.has_waker());
    assert_eq!(d.poll(5000, 5), DelayPoll::Ready);
}

#[test]
fn delay_wakes_the_latest_waker_once() {
    let mut d: DelayCore<u8> = DelayCore::new(0, 1000);
    assert_eq!(d.poll(0, 1), DelayPoll::PendingArm(1000));
    assert_eq!(d.poll(10, 2), DelayPoll::Pending);
    match d.fire(1000) {
        TimerOutcome::Wake(w) => assert_eq!(w, 2),
        _ => panic!("expected a wake"),
    }
    assert!(d.is_complete());
    assert!(matches!(d.fire(1001), TimerOutcome::Idle));
    assert!(matches!(d.fire(3000), TimerOutcome::Idle));
    assert_eq!(d.poll(1001, 3), DelayPoll::Ready);
}

#[test]
fn delay_timer_firing_early_is_rearmed() {
    let mut d: DelayCore<u8> = DelayCore::new(0, 1000);
    assert_eq!(d.poll(0, 1), DelayPoll::PendingArm(1000));
    match d.fire(400) {
        TimerOutcome::Rearm(after) => assert_eq!(after, 600),
        _ => panic!("expected a rearm"),
    }
    assert!(!d.is_complete());
    assert_eq!(d.poll(400, 2), DelayPoll::Pending);
    assert!(matches!(d.fire(1000), TimerOutcome::Wake(2)));
}

#[test]
fn delay_with_zero_duration_is_ready_on_first_poll() {
    let mut d: DelayCore<u8> = DelayCore::new(50, 0);
    assert_eq!(d.poll(50, 1), DelayPoll::Ready);
    assert!(!d.has_waker());
    assert!(matches!(d.fire(50), TimerOutcome::Idle));
}

#[test]
fn delay_time_never_runs_backwards() {
    let mut d: DelayCore<u8> = DelayCore::new(0, 100);
    assert_eq!(d.poll(200, 1), DelayPoll::Ready);
    // A later poll with an earlier reading still sees the delay complete.
    assert_eq!(d.poll(10, 2), DelayPoll::Ready);
}

#[test]
fn delay_at_largest_deadline() {
    let mut d: DelayCore<u8> = DelayCore::new(u64::MAX - 5, 5);
    assert_eq!(d.deadline(), u64::MAX);
    assert_eq!(d.poll(u64::MAX - 5, 1), DelayPoll::PendingArm(5));
    assert!(matches!(d.fire(u64::MAX), TimerOutcome::Wake(1)));
}
