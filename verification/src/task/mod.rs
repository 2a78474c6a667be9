//! Task management: the round-robin list of applications, and (in
//! [`manager`]) the ready queue of the FIFO scheduler.
//!
//! Switching between tasks and reading the clock are the kernel's part: the
//! functions here take the time it read and answer which tasks to switch
//! between.
pub mod manager;

use vstd::prelude::*;
use vstd::arithmetic::div_mod::{lemma_small_mod, lemma_mod_multiples_vanish, lemma_mod_pos_bound};

verus! {

/// The state of a task.
#[derive(PartialEq, Eq, Structural, Clone, Copy, Debug)]
pub enum TaskStatus {
    /// Not yet set up.
    UnInit,
    /// Waiting to run.
    Ready,
    /// Running now.
    Running,
    /// Done for good.
    Exited,
}

/// How many syscalls have their calls counted per task.
pub const COUNTED_SYSCALLS: usize = 5;

/// The id of the `k`-th syscall whose calls are counted: write, exit,
/// yield, get_time and task_info.
pub open spec fn counted_syscall(k: int) -> usize {
    if k == 0 {
        64
    } else if k == 1 {
        93
    } else if k == 2 {
        124
    } else if k == 3 {
        169
    } else {
        410
    }
}

/// Which counter, if any, counts calls of syscall `syscall_id`.
pub open spec fn counter_of(syscall_id: usize) -> Option<int> {
    if syscall_id == 64 {
        Some(0)
    } else if syscall_id == 93 {
        Some(1)
    } else if syscall_id == 124 {
        Some(2)
    } else if syscall_id == 169 {
        Some(3)
    } else if syscall_id == 410 {
        Some(4)
    } else {
        None
    }
}

/// Which counter, if any, counts calls of syscall `syscall_id`.
pub fn syscall_counter(syscall_id: usize) -> (r: Option<usize>)
    ensures
        r matches Some(k) ==> counter_of(syscall_id) == Some(k as int) && k < COUNTED_SYSCALLS,
        r is None ==> counter_of(syscall_id) is None,
{
    match syscall_id {
        64 => Some(0),
        93 => Some(1),
        124 => Some(2),
        169 => Some(3),
        410 => Some(4),
        _ => None,
    }
}

/// Exactly write (64), exit (93), yield (124), get_time (169) and
/// task_info (410) are counted, each by its own counter, in that order.
pub proof fn lemma_counted_syscalls(syscall_id: usize, k: int)
    ensures
        counter_of(syscall_id) is Some <==> (syscall_id == 64 || syscall_id == 93 || syscall_id == 124
            || syscall_id == 169 || syscall_id == 410),
        counter_of(syscall_id) matches Some(c) ==> 0 <= c < COUNTED_SYSCALLS && counted_syscall(c) == syscall_id,
        0 <= k < COUNTED_SYSCALLS ==> counter_of(counted_syscall(k)) == Some(k),
        0 <= k < COUNTED_SYSCALLS - 1 ==> counted_syscall(k) < counted_syscall(k + 1),
{
}

/// What the task list keeps of a task.
#[derive(Clone, Copy)]
pub struct TaskRecord {
    /// The task's state.
    pub task_status: TaskStatus,
    /// When the task was first scheduled, in ms; `0` while it never was.
    pub start_time: usize,
    /// How often the task called each counted syscall.
    pub syscall_times: [u32; 5],
}

/// What `task_info` reports of the running task.
#[derive(Clone, Copy)]
pub struct TaskInfoUpdate {
    /// The task's state.
    pub status: TaskStatus,
    /// Milliseconds since the task was first scheduled.
    pub time: usize,
    /// `(syscall id, calls)` for each counted syscall.
    pub syscall_times: [(usize, u32); 5],
}

/// A task that is ready, was never scheduled and never called a syscall.
pub open spec fn is_fresh(t: TaskRecord) -> bool {
    &&& t.task_status == TaskStatus::Ready
    &&& t.start_time == 0
    &&& t.syscall_times@ == seq![0u32, 0, 0, 0, 0]
}

/// The applications, run one after another in round-robin order.
pub struct TaskManager {
    num_app: usize,
    tasks: Vec<TaskRecord>,
    current_task: usize,
}

/// The task `k` places after `current` in round-robin order among `n` tasks.
pub open spec fn after(current: int, k: int, n: int) -> int {
    (current + k) % n
}

/// `next` is the first task after `current`, in round-robin order (ending
/// with `current` itself), that is ready.
pub open spec fn is_next_ready(tasks: Seq<TaskRecord>, current: int, next: int) -> bool {
    let n = tasks.len() as int;
    exists|k: int| {
        &&& 1 <= k <= n
        &&& next == after(current, k, n)
        &&& tasks[next].task_status == TaskStatus::Ready
        &&& forall|k2: int| 1 <= k2 < k ==> tasks[#[trigger] after(current, k2, n)].task_status != TaskStatus::Ready
    }
}

/// No task is ready.
pub open spec fn none_ready(tasks: Seq<TaskRecord>) -> bool {
    forall|i: int| 0 <= i < tasks.len() ==> tasks[i].task_status != TaskStatus::Ready
}

/// `t` with its state set to `status`.
pub open spec fn with_status(t: TaskRecord, status: TaskStatus) -> TaskRecord {
    TaskRecord { task_status: status, start_time: t.start_time, syscall_times: t.syscall_times }
}

/// `t` scheduled at `now_ms`: running, and with its start time set if it
/// never ran before.
pub open spec fn scheduled(t: TaskRecord, now_ms: usize) -> TaskRecord {
    TaskRecord {
        task_status: TaskStatus::Running,
        start_time: if t.start_time == 0 { now_ms } else { t.start_time },
        syscall_times: t.syscall_times,
    }
}

/// `new` is `old` after one more call of the syscall that counter `k` counts.
pub open spec fn counted(old: TaskRecord, new: TaskRecord, k: int) -> bool {
    &&& new.task_status == old.task_status
    &&& new.start_time == old.start_time
    &&& new.syscall_times@ == old.syscall_times@.update(k, (old.syscall_times@[k] + 1) as u32)
}

/// `t` when it is run first, at `now_ms`.
pub open spec fn first_run(t: TaskRecord, now_ms: usize) -> TaskRecord {
    TaskRecord { task_status: TaskStatus::Running, start_time: now_ms, syscall_times: t.syscall_times }
}

/// `new` is the task list `old` after syscall `syscall_id` was counted for
/// task `current`.
pub open spec fn syscall_counted(old: Seq<TaskRecord>, new: Seq<TaskRecord>, current: int, syscall_id: usize) -> bool {
    match counter_of(syscall_id) {
        Some(k) => {
            &&& new.len() == old.len()
            &&& counted(old[current], new[current], k)
            &&& forall|i: int| 0 <= i < old.len() && i != current ==> new[i] == old[i]
        },
        None => new == old,
    }
}

/// `r` is what `task_info` reports, at `now_ms`, of task `t`: running for
/// `now_ms` minus its start time, with its syscall counts.
pub open spec fn info_of(t: TaskRecord, now_ms: usize, r: TaskInfoUpdate) -> bool {
    &&& r.status == TaskStatus::Running
    &&& r.time == now_ms - t.start_time
    &&& forall|k: int| 0 <= k < COUNTED_SYSCALLS ==> #[trigger] r.syscall_times@[k] == (counted_syscall(k), t.syscall_times@[k])
}

/// `new` is `old` with the current task's state set to `status`.
pub open spec fn marked_current(old: TaskManager, new: TaskManager, status: TaskStatus) -> bool {
    &&& new.wf()
    &&& new.num_app_view() == old.num_app_view()
    &&& new.current_view() == old.current_view()
    &&& new.tasks_view() == old.tasks_view().update(
        old.current_view(),
        with_status(old.tasks_view()[old.current_view()], status),
    )
}

/// The current task is the one and only running task.
pub open spec fn runs_only_current(m: TaskManager) -> bool {
    forall|i: int| 0 <= i < m.num_app_view()
        ==> (#[trigger] m.tasks_view()[i].task_status == TaskStatus::Running <==> i == m.current_view())
}

/// `manager` went from `old` to `new` by `run_next_task` at `now_ms`,
/// answering `r`.
pub open spec fn ran_next(old: TaskManager, new: TaskManager, now_ms: usize, r: Option<(usize, usize)>) -> bool {
    &&& new.wf()
    &&& new.num_app_view() == old.num_app_view()
    &&& match r {
        Some((from, to)) => {
            &&& from == old.current_view()
            &&& to < old.num_app_view()
            &&& is_next_ready(old.tasks_view(), old.current_view(), to as int)
            &&& new.current_view() == to
            &&& new.tasks_view() == old.tasks_view().update(to as int, scheduled(old.tasks_view()[to as int], now_ms))
        },
        None => {
            &&& none_ready(old.tasks_view())
            &&& new.tasks_view() == old.tasks_view()
            &&& new.current_view() == old.current_view()
        },
    }
}

/// How many steps after `current` task `i` comes in round-robin order among
/// `n` tasks (`n` for `current` itself).
pub open spec fn distance(current: int, i: int, n: int) -> int {
    if i > current { i - current } else { i - current + n }
}

/// Every index below `n` comes after `current` in round-robin order.
proof fn lemma_round_robin_reaches(current: int, n: int, i: int) -> (k: int)
    requires
        0 <= current < n,
        0 <= i < n,
    ensures
        1 <= k <= n,
        k == distance(current, i, n),
        after(current, k, n) == i,
{
    lemma_small_mod(i as nat, n as nat);
    if i > current {
        i - current
    } else {
        lemma_mod_multiples_vanish(1, i, n);
        assert(n * 1 + i == current + (i - current + n));
        i - current + n
    }
}

impl TaskManager {
    /// The tasks, by id.
    pub closed spec fn tasks_view(&self) -> Seq<TaskRecord> {
        self.tasks@
    }

    /// The id of the current task.
    pub closed spec fn current_view(&self) -> int {
        self.current_task as int
    }

    /// The number of applications.
    pub closed spec fn num_app_view(&self) -> int {
        self.num_app as int
    }

    /// One task per application, and the current task is one of them
    /// (or `0` when there is none).
    pub open spec fn wf(&self) -> bool {
        &&& self.tasks_view().len() == self.num_app_view()
        &&& (self.current_view() < self.num_app_view() || self.current_view() == 0)
        &&& self.current_view() >= 0
    }

    /// A list of `num_app` ready tasks, none scheduled yet and none having
    /// called a syscall; task `0` is current.
    pub fn new(num_app: usize) -> (r: Self)
        ensures
            r.wf(),
            r.num_app_view() == num_app,
            r.current_view() == 0,
            forall|i: int| 0 <= i < num_app ==> is_fresh(#[trigger] r.tasks_view()[i]),
    {
        let mut tasks: Vec<TaskRecord> = Vec::new();
        let mut i: usize = 0;
        while i < num_app
            invariant
                i <= num_app,
                tasks@.len() == i,
                forall|j: int| 0 <= j < i ==> is_fresh(#[trigger] tasks@[j]),
            decreases num_app - i,
        {
            let record = TaskRecord { task_status: TaskStatus::Ready, start_time: 0, syscall_times: [0, 0, 0, 0, 0] };
            assert(record.syscall_times@ =~= seq![0u32, 0, 0, 0, 0]);
            tasks.push(record);
            i += 1;
        }
        TaskManager { num_app, tasks, current_task: 0 }
    }

    /// The id of the current task.
    pub fn current_task(&self) -> (r: usize)
        ensures
            r == self.current_view(),
    {
        self.current_task
    }

    /// The number of applications.
    pub fn num_app(&self) -> (r: usize)
        ensures
            r == self.num_app_view(),
    {
        self.num_app
    }

    /// The first ready task after the current one in round-robin order (the
    /// current one coming last), if any.
    fn find_next_task(&self) -> (r: Option<usize>)
        requires
            self.wf(),
            self.current_view() + self.num_app_view() < usize::MAX,
        ensures
            match r {
                Some(next) => next < self.num_app_view() && is_next_ready(self.tasks_view(), self.current_view(), next as int),
                None => none_ready(self.tasks_view()),
            },
    {
        let current = self.current_task;
        let n = self.num_app;
        let ghost tasks = self.tasks@;
        let mut id: usize = current + 1;
        while id < current + n + 1
            invariant
                self.wf(),
                current == self.current_view(),
                n == self.num_app_view(),
                tasks == self.tasks_view(),
                current + n < usize::MAX,
                current + 1 <= id <= current + n + 1,
                forall|k2: int| 1 <= k2 < id - current ==> tasks[#[trigger] after(current as int, k2, n as int)].task_status != TaskStatus::Ready,
            decreases current + n + 1 - id,
        {
            proof {
                lemma_mod_pos_bound(id as int, n as int);
            }
            let i = id % n;
            if self.tasks[i].task_status == TaskStatus::Ready {
                proof {
                    let k = id - current;
                    assert(after(current as int, k, n as int) == i);
                }
                return Some(i);
            }
            assert(after(current as int, id - current, n as int) == i);
            id += 1;
        }
        proof {
            assert forall|i: int| 0 <= i < tasks.len() implies tasks[i].task_status != TaskStatus::Ready by {
                let k = lemma_round_robin_reaches(current as int, n as int, i);
            }
        }
        None
    }

    /// Runs task `0`, first scheduled at `now_us` (in µs); answers the task
    /// to switch to.
    fn run_first_task(&mut self, now_us: usize) -> (r: usize)
        requires
            old(self).wf(),
            old(self).num_app_view() > 0,
        ensures
            r == 0,
            final(self).wf(),
            final(self).num_app_view() == old(self).num_app_view(),
            final(self).current_view() == old(self).current_view(),
            final(self).tasks_view() == old(self).tasks_view().update(0, first_run(old(self).tasks_view()[0], (now_us / 1000) as usize)),
    {
        let mut next_task = self.tasks[0];
        next_task.task_status = TaskStatus::Running;
        next_task.start_time = now_us / 1000;
        self.tasks.set(0, next_task);
        0
    }

    /// Sets the state of the current task.
    fn mark_current(&mut self, status: TaskStatus)
        requires
            old(self).wf(),
            old(self).num_app_view() > 0,
        ensures
            final(self).wf(),
            final(self).num_app_view() == old(self).num_app_view(),
            final(self).current_view() == old(self).current_view(),
            final(self).tasks_view() == old(self).tasks_view().update(
                old(self).current_view(),
                with_status(old(self).tasks_view()[old(self).current_view()], status),
            ),
    {
        let cur = self.current_task;
        let mut task = self.tasks[cur];
        task.task_status = status;
        self.tasks.set(cur, task);
    }

    /// Makes the current task ready again.
    fn mark_current_suspended(&mut self)
        requires
            old(self).wf(),
            old(self).num_app_view() > 0,
        ensures
            final(self).wf(),
            final(self).num_app_view() == old(self).num_app_view(),
            final(self).current_view() == old(self).current_view(),
            final(self).tasks_view() == old(self).tasks_view().update(
                old(self).current_view(),
                with_status(old(self).tasks_view()[old(self).current_view()], TaskStatus::Ready),
            ),
    {
        self.mark_current(TaskStatus::Ready);
    }

    /// Marks the current task as exited.
    fn mark_current_exited(&mut self)
        requires
            old(self).wf(),
            old(self).num_app_view() > 0,
        ensures
            final(self).wf(),
            final(self).num_app_view() == old(self).num_app_view(),
            final(self).current_view() == old(self).current_view(),
            final(self).tasks_view() == old(self).tasks_view().update(
                old(self).current_view(),
                with_status(old(self).tasks_view()[old(self).current_view()], TaskStatus::Exited),
            ),
    {
        self.mark_current(TaskStatus::Exited);
    }

    /// Makes the next ready task (see [`is_next_ready`]) the running, current
    /// one, setting its start time to `now_us` (in µs, kept in ms) if it never
    /// ran; answers `(previous current task, new current task)` for the
    /// switch, or `None` when no task is ready.
    fn run_next_task(&mut self, now_us: usize) -> (r: Option<(usize, usize)>)
        requires
            old(self).wf(),
            old(self).current_view() + old(self).num_app_view() < usize::MAX,
        ensures
            ran_next(*old(self), *final(self), (now_us / 1000) as usize, r),
    {
        match self.find_next_task() {
            Some(next) => {
                let current = self.current_task;
                let mut task = self.tasks[next];
                task.task_status = TaskStatus::Running;
                if task.start_time == 0 {
                    task.start_time = now_us / 1000;
                }
                self.tasks.set(next, task);
                self.current_task = next;
                Some((current, next))
            },
            None => None,
        }
    }

    /// Counts a call of syscall `syscall_id` by the current task, if it is
    /// one of the counted syscalls.
    fn inscrease_syscall_times(&mut self, syscall_id: usize)
        requires
            old(self).wf(),
            old(self).num_app_view() > 0,
            counter_of(syscall_id) matches Some(k)
                ==> old(self).tasks_view()[old(self).current_view()].syscall_times@[k] < u32::MAX,
        ensures
            final(self).wf(),
            final(self).num_app_view() == old(self).num_app_view(),
            final(self).current_view() == old(self).current_view(),
            syscall_counted(old(self).tasks_view(), final(self).tasks_view(), old(self).current_view(), syscall_id),
    {
        let current = self.current_task;
        let mut task = self.tasks[current];
        if let Some(k) = syscall_counter(syscall_id) {
            task.syscall_times[k] = task.syscall_times[k] + 1;
            self.tasks.set(current, task);
        }
    }

    /// What `task_info` reports of the current task at `now_us` (in µs).
    fn set_task_info(&self, now_us: usize) -> (r: TaskInfoUpdate)
        requires
            self.wf(),
            self.num_app_view() > 0,
            now_us / 1000 >= self.tasks_view()[self.current_view()].start_time,
        ensures
            info_of(self.tasks_view()[self.current_view()], (now_us / 1000) as usize, r),
    {
        let task = self.tasks[self.current_task];
        let curr_time = now_us / 1000;
        let c = task.syscall_times;
        let r = TaskInfoUpdate {
            status: TaskStatus::Running,
            time: curr_time - task.start_time,
            syscall_times: [(64, c[0]), (93, c[1]), (124, c[2]), (169, c[3]), (410, c[4])],
        };
        assert(r.syscall_times@ =~= seq![(64usize, c@[0]), (93usize, c@[1]), (124usize, c@[2]), (169usize, c@[3]), (410usize, c@[4])]);
        r
    }

    /// Task `i`.
    pub fn task(&self, i: usize) -> (r: TaskRecord)
        requires
            self.wf(),
            i < self.num_app_view(),
        ensures
            r == self.tasks_view()[i as int],
    {
        self.tasks[i]
    }
}

/// After a counted syscall is counted for the current task, `task_info`
/// reports one call more of it than before, and the same for the others.
pub proof fn lemma_counted_call_is_reported(
    old: Seq<TaskRecord>,
    new: Seq<TaskRecord>,
    current: int,
    syscall_id: usize,
    now_ms: usize,
    before: TaskInfoUpdate,
    r: TaskInfoUpdate,
)
    requires
        0 <= current < old.len(),
        counter_of(syscall_id) is Some,
        syscall_counted(old, new, current, syscall_id),
        info_of(old[current], now_ms, before),
        info_of(new[current], now_ms, r),
    ensures
        ({
            let k = counter_of(syscall_id)->0;
            &&& r.syscall_times@[k] == (syscall_id, (before.syscall_times@[k].1 + 1) as u32)
            &&& forall|j: int| 0 <= j < COUNTED_SYSCALLS && j != k ==> #[trigger] r.syscall_times@[j] == before.syscall_times@[j]
        }),
        r.time == before.time,
{
    let k = counter_of(syscall_id)->0;
    assert(r.syscall_times@[k] == (counted_syscall(k), new[current].syscall_times@[k]));
    assert forall|j: int| 0 <= j < COUNTED_SYSCALLS && j != k implies #[trigger] r.syscall_times@[j] == before.syscall_times@[j] by {
        assert(r.syscall_times@[j] == (counted_syscall(j), new[current].syscall_times@[j]));
        assert(before.syscall_times@[j] == (counted_syscall(j), old[current].syscall_times@[j]));
    }
}

/// In round-robin order the current task comes last: while another task is
/// ready, the current one is not the next to run.
pub proof fn lemma_current_runs_last(tasks: Seq<TaskRecord>, current: int, next: int, other: int)
    requires
        0 <= current < tasks.len(),
        0 <= other < tasks.len(),
        other != current,
        tasks[other].task_status == TaskStatus::Ready,
        is_next_ready(tasks, current, next),
    ensures
        next != current,
{
    let n = tasks.len() as int;
    let k = choose|k: int| {
        &&& 1 <= k <= n
        &&& next == after(current, k, n)
        &&& tasks[next].task_status == TaskStatus::Ready
        &&& forall|k2: int| 1 <= k2 < k ==> tasks[#[trigger] after(current, k2, n)].task_status != TaskStatus::Ready
    };
    let ko = lemma_round_robin_reaches(current, n, other);
    if ko < n {
        assert(k <= ko);
    } else {
        lemma_mod_multiples_vanish(1, current, n);
        assert(n * 1 + current == current + n);
        lemma_small_mod(current as nat, n as nat);
        assert(after(current, n, n) == current);
        assert(false);
    }
    if k < n {
        lemma_mod_multiples_vanish(1, current, n);
        lemma_small_mod(current as nat, n as nat);
        if current + k < n {
            lemma_small_mod((current + k) as nat, n as nat);
        } else {
            lemma_mod_multiples_vanish(1, current + k - n, n);
            lemma_small_mod((current + k - n) as nat, n as nat);
            assert(n * 1 + (current + k - n) == current + k);
        }
    }
}

/// Moving on to the next task never brings back an exited task and never
/// changes the start time of a task that already ran.
pub proof fn lemma_run_next_keeps_exited_and_start_times(
    old: TaskManager,
    new: TaskManager,
    now_ms: usize,
    r: Option<(usize, usize)>,
)
    requires
        old.wf(),
        ran_next(old, new, now_ms, r),
    ensures
        forall|i: int| 0 <= i < old.num_app_view() && old.tasks_view()[i].task_status == TaskStatus::Exited
            ==> #[trigger] new.tasks_view()[i].task_status == TaskStatus::Exited,
        forall|i: int| 0 <= i < old.num_app_view() && old.tasks_view()[i].start_time != 0
            ==> #[trigger] new.tasks_view()[i].start_time == old.tasks_view()[i].start_time,
{
}

/// Suspending or exiting the running task and switching to the next one
/// leaves again exactly one task running: the new current one.
pub proof fn lemma_switch_keeps_one_running(
    a: TaskManager,
    mid: TaskManager,
    b: TaskManager,
    status: TaskStatus,
    now_ms: usize,
    r: Option<(usize, usize)>,
)
    requires
        a.wf(),
        a.num_app_view() > 0,
        runs_only_current(a),
        status != TaskStatus::Running,
        marked_current(a, mid, status),
        ran_next(mid, b, now_ms, r),
        r is Some,
    ensures
        runs_only_current(b),
{
    assert forall|i: int| 0 <= i < mid.num_app_view() implies #[trigger] mid.tasks_view()[i].task_status != TaskStatus::Running by {
        if i != a.current_view() {
            assert(a.tasks_view()[i].task_status != TaskStatus::Running);
        }
    }
}

/// A task that exited and is no longer current stays exited and never
/// becomes current again, whatever task is suspended or exits next.
pub proof fn lemma_exited_never_runs_again(
    a: TaskManager,
    mid: TaskManager,
    b: TaskManager,
    status: TaskStatus,
    now_ms: usize,
    r: Option<(usize, usize)>,
    c: int,
)
    requires
        a.wf(),
        a.num_app_view() > 0,
        0 <= c < a.num_app_view(),
        a.tasks_view()[c].task_status == TaskStatus::Exited,
        c != a.current_view(),
        marked_current(a, mid, status),
        ran_next(mid, b, now_ms, r),
    ensures
        b.tasks_view()[c].task_status == TaskStatus::Exited,
        b.current_view() != c,
{
    assert(mid.tasks_view()[c] == a.tasks_view()[c]);
}

/// A task that exits is not the one run next: when the kernel switches, the
/// exited task is no longer current, so from then on it never runs again
/// (see [`lemma_exited_never_runs_again`]).
pub proof fn lemma_exit_moves_on(
    a: TaskManager,
    mid: TaskManager,
    b: TaskManager,
    now_ms: usize,
    r: Option<(usize, usize)>,
)
    requires
        a.wf(),
        a.num_app_view() > 0,
        marked_current(a, mid, TaskStatus::Exited),
        ran_next(mid, b, now_ms, r),
        r is Some,
    ensures
        b.tasks_view()[a.current_view()].task_status == TaskStatus::Exited,
        b.current_view() != a.current_view(),
{
    assert(mid.tasks_view()[a.current_view()].task_status == TaskStatus::Exited);
}

/// Moving on to the next task leaves every task's syscall counts as they
/// were, and so does suspending or exiting the current task first: a task
/// keeps its counts for its whole life.
pub proof fn lemma_switch_keeps_syscall_counts(
    a: TaskManager,
    mid: TaskManager,
    b: TaskManager,
    status: TaskStatus,
    now_ms: usize,
    r: Option<(usize, usize)>,
)
    requires
        a.wf(),
        a.num_app_view() > 0,
        marked_current(a, mid, status),
        ran_next(mid, b, now_ms, r),
    ensures
        b.num_app_view() == a.num_app_view(),
        forall|i: int| 0 <= i < a.num_app_view()
            ==> (#[trigger] b.tasks_view()[i]).syscall_times == a.tasks_view()[i].syscall_times,
        forall|i: int| 0 <= i < a.num_app_view()
            ==> (#[trigger] b.tasks_view()[i]).syscall_times@ == a.tasks_view()[i].syscall_times@,
{
    assert forall|i: int| 0 <= i < a.num_app_view()
        implies (#[trigger] b.tasks_view()[i]).syscall_times == a.tasks_view()[i].syscall_times by {
        assert(mid.tasks_view()[i].syscall_times == a.tasks_view()[i].syscall_times);
    }
}

/// Moving on to the next task changes only the task it runs: that task
/// becomes running and current, keeps its syscall counts, and gets a start
/// time only if it never had one.
pub proof fn lemma_run_next_changes_only_the_next_task(
    a: TaskManager,
    b: TaskManager,
    now_ms: usize,
    from: usize,
    to: usize,
)
    requires
        a.wf(),
        ran_next(a, b, now_ms, Some((from, to))),
    ensures
        a.tasks_view()[to as int].task_status == TaskStatus::Ready,
        b.tasks_view()[to as int].task_status == TaskStatus::Running,
        b.tasks_view()[to as int].syscall_times == a.tasks_view()[to as int].syscall_times,
        b.tasks_view()[to as int].start_time == if a.tasks_view()[to as int].start_time == 0 {
            now_ms
        } else {
            a.tasks_view()[to as int].start_time
        },
        b.current_view() == to,
        forall|i: int| 0 <= i < a.num_app_view() && i != to ==> #[trigger] b.tasks_view()[i] == a.tasks_view()[i],
{
    let n = a.tasks_view().len() as int;
    let k = choose|k: int| {
        &&& 1 <= k <= n
        &&& to == after(a.current_view(), k, n)
        &&& a.tasks_view()[to as int].task_status == TaskStatus::Ready
        &&& forall|k2: int| 1 <= k2 < k ==> a.tasks_view()[#[trigger] after(a.current_view(), k2, n)].task_status != TaskStatus::Ready
    };
}

/// The `k`-th task after `current` is `k` steps away from it.
proof fn lemma_distance_of_after(current: int, n: int, k: int)
    requires
        0 <= current < n,
        1 <= k <= n,
    ensures
        0 <= after(current, k, n) < n,
        distance(current, after(current, k, n), n) == k,
{
    if current + k < n {
        lemma_small_mod((current + k) as nat, n as nat);
    } else {
        lemma_mod_multiples_vanish(1, current + k - n, n);
        lemma_small_mod((current + k - n) as nat, n as nat);
        assert(n * 1 + (current + k - n) == current + k);
    }
}

/// The task run next is ready, and every other ready task comes later after
/// the current one in round-robin order (the current one counting as
/// coming last); when none is ready, no task is run.
pub proof fn lemma_run_next_picks_nearest_ready(a: TaskManager, b: TaskManager, now_ms: usize, r: Option<(usize, usize)>)
    requires
        a.wf(),
        a.num_app_view() > 0,
        ran_next(a, b, now_ms, r),
    ensures
        r matches Some((from, to)) ==> {
            &&& from == a.current_view()
            &&& 0 <= to < a.num_app_view()
            &&& a.tasks_view()[to as int].task_status == TaskStatus::Ready
            &&& forall|i: int| 0 <= i < a.num_app_view() && i != to
                && a.tasks_view()[i].task_status == TaskStatus::Ready
                ==> distance(a.current_view(), i, a.num_app_view()) > distance(a.current_view(), to as int, a.num_app_view())
        },
        r is None ==> forall|i: int| 0 <= i < a.num_app_view() ==> a.tasks_view()[i].task_status != TaskStatus::Ready,
{
    if r is Some {
        let to = (r->0).1 as int;
        let n = a.num_app_view();
        let c = a.current_view();
        let tasks = a.tasks_view();
        let k = choose|k: int| {
            &&& 1 <= k <= n
            &&& to == after(c, k, n)
            &&& tasks[to].task_status == TaskStatus::Ready
            &&& forall|k2: int| 1 <= k2 < k ==> tasks[#[trigger] after(c, k2, n)].task_status != TaskStatus::Ready
        };
        lemma_distance_of_after(c, n, k);
        assert forall|i: int| 0 <= i < n && i != to && tasks[i].task_status == TaskStatus::Ready
            implies distance(c, i, n) > distance(c, to, n) by {
            let ki = lemma_round_robin_reaches(c, n, i);
            if ki < k {
                assert(tasks[after(c, ki, n)].task_status != TaskStatus::Ready);
            }
        }
    }
}

/// Runs the first task at `now_us` (in µs); answers the task to switch to.
pub fn run_first_task(manager: &mut TaskManager, now_us: usize) -> (r: usize)
    requires
        old(manager).wf(),
        old(manager).num_app_view() > 0,
    ensures
        r == 0,
        final(manager).wf(),
        final(manager).num_app_view() == old(manager).num_app_view(),
        final(manager).current_view() == old(manager).current_view(),
        final(manager).tasks_view() == old(manager).tasks_view().update(0, first_run(old(manager).tasks_view()[0], (now_us / 1000) as usize)),
{
    manager.run_first_task(now_us)
}

/// Makes the current task ready again and moves on to the next ready task;
/// answers the switch to make, or `None` when no task is ready.
pub fn suspend_current_and_run_next(manager: &mut TaskManager, now_us: usize) -> (r: Option<(usize, usize)>)
    requires
        old(manager).wf(),
        old(manager).num_app_view() > 0,
        old(manager).current_view() + old(manager).num_app_view() < usize::MAX,
    ensures
        exists|mid: TaskManager| {
            &&& marked_current(*old(manager), mid, TaskStatus::Ready)
            &&& ran_next(mid, *final(manager), (now_us / 1000) as usize, r)
        },
{
    let ghost start = *manager;
    manager.mark_current_suspended();
    let ghost mid = *manager;
    assert(marked_current(start, mid, TaskStatus::Ready));
    let r = manager.run_next_task(now_us);
    assert(ran_next(mid, *manager, (now_us / 1000) as usize, r));
    r
}

/// Marks the current task as exited and moves on to the next ready task;
/// answers the switch to make, or `None` when no task is ready.
pub fn exit_current_and_run_next(manager: &mut TaskManager, now_us: usize) -> (r: Option<(usize, usize)>)
    requires
        old(manager).wf(),
        old(manager).num_app_view() > 0,
        old(manager).current_view() + old(manager).num_app_view() < usize::MAX,
    ensures
        exists|mid: TaskManager| {
            &&& marked_current(*old(manager), mid, TaskStatus::Exited)
            &&& ran_next(mid, *final(manager), (now_us / 1000) as usize, r)
        },
{
    let ghost start = *manager;
    manager.mark_current_exited();
    let ghost mid = *manager;
    assert(marked_current(start, mid, TaskStatus::Exited));
    let r = manager.run_next_task(now_us);
    assert(ran_next(mid, *manager, (now_us / 1000) as usize, r));
    r
}

/// Counts a call of syscall `syscall_id` by the current task.
pub fn syscall_inc(manager: &mut TaskManager, syscall_id: usize)
    requires
        old(manager).wf(),
        old(manager).num_app_view() > 0,
        counter_of(syscall_id) matches Some(k)
            ==> old(manager).tasks_view()[old(manager).current_view()].syscall_times@[k] < u32::MAX,
    ensures
        final(manager).wf(),
        final(manager).num_app_view() == old(manager).num_app_view(),
        final(manager).current_view() == old(manager).current_view(),
        syscall_counted(old(manager).tasks_view(), final(manager).tasks_view(), old(manager).current_view(), syscall_id),
{
    manager.inscrease_syscall_times(syscall_id);
}

/// What `task_info` reports of the current task at `now_us` (in µs).
pub fn set_task_info(manager: &TaskManager, now_us: usize) -> (r: TaskInfoUpdate)
    requires
        manager.wf(),
        manager.num_app_view() > 0,
        now_us / 1000 >= manager.tasks_view()[manager.current_view()].start_time,
    ensures
        info_of(manager.tasks_view()[manager.current_view()], (now_us / 1000) as usize, r),
{
    manager.set_task_info(now_us)
}

} // verus!
