//! Synchronisation syscalls of a process.
//!
//! The kernel's mutex, semaphore and condition variable objects block the
//! calling thread, so they stay outside: every syscall here updates the
//! process's bookkeeping and answers with a [`SyncAction`] that says what the
//! kernel has to do with which object. The two syscalls that wait
//! (`sys_mutex_lock` and `sys_semaphore_down`) have a second half that the
//! kernel calls once the wait is over.
use vstd::prelude::*;

verus! {

/// What `sys_mutex_lock` and `sys_semaphore_down` answer when granting the
/// request could leave every thread of the process waiting.
pub const DEADLOCK: isize = -0xDEAD;

/// The two kinds of mutex a process can create.
#[derive(PartialEq, Eq, Structural, Clone, Copy, Debug)]
pub enum MutexKind {
    /// Busy-waits (yielding) until the lock is free.
    Spin,
    /// Puts the waiting thread to sleep until the lock is handed over.
    Blocking,
}

/// What the kernel must do to finish a synchronisation syscall.
#[derive(PartialEq, Eq, Structural, Clone, Copy, Debug)]
pub enum SyncAction {
    /// Nothing more: the syscall returns this value.
    Return(isize),
    /// Lock this mutex, then call [`sys_mutex_lock_done`].
    LockMutex(usize),
    /// Unlock this mutex; the syscall returns `0`.
    UnlockMutex(usize),
    /// Raise this semaphore; the syscall returns `0`.
    SemaphoreUp(usize),
    /// Lower this semaphore, then call [`sys_semaphore_down_done`].
    SemaphoreDown(usize),
    /// Wake one waiter of this condition variable; the syscall returns `0`.
    SignalCondvar(usize),
    /// Wait on the condition variable, releasing and retaking the mutex; the
    /// syscall returns `0`.
    WaitCondvar { condvar_id: usize, mutex_id: usize },
    /// Put the current thread to sleep until this time (in ms); the syscall
    /// returns `0`.
    Sleep { expire_ms: usize },
}

/// The per-process state the synchronisation syscalls work on.
///
/// `M`, `S` and `C` are the kernel's mutex, semaphore and condition
/// variable objects; this crate only keeps them in their slot tables.
pub struct ProcessSync<M, S, C> {
    /// Mutex slots; a mutex id is an index here.
    pub mutex_list: Vec<Option<M>>,
    /// Semaphore slots.
    pub semaphore_list: Vec<Option<S>>,
    /// Condition variable slots.
    pub condvar_list: Vec<Option<C>>,
    /// `mutex_need[tid][id]`: how often thread `tid` is waiting for mutex `id`.
    pub mutex_need: Vec<Vec<usize>>,
    /// `mutex_alloc[tid][id]`: how often thread `tid` holds mutex `id`.
    pub mutex_alloc: Vec<Vec<usize>>,
    /// `semaphore_need[tid][id]`: units of semaphore `id` thread `tid` is waiting for.
    pub semaphore_need: Vec<Vec<isize>>,
    /// `semaphore_alloc[tid][id]`: units of semaphore `id` thread `tid` holds.
    pub semaphore_alloc: Vec<Vec<isize>>,
    /// `finished[tid]`: thread `tid` no longer counts in deadlock detection.
    pub finished: Vec<bool>,
    /// Whether deadlock detection is on.
    pub dead_lock_detect: bool,
}

/// The rows of a matrix, each taken by its view.
pub open spec fn rows<T>(m: &Vec<Vec<T>>) -> Seq<Seq<T>> {
    m@.map_values(|r: Vec<T>| r@)
}

/// `i` is the first empty slot of `s`.
pub open spec fn is_first_free<T>(s: Seq<Option<T>>, i: int) -> bool {
    &&& 0 <= i < s.len()
    &&& s[i] is None
    &&& forall|j: int| 0 <= j < i ==> s[j] is Some
}

/// `s` has an empty slot.
pub open spec fn has_free<T>(s: Seq<Option<T>>) -> bool {
    exists|i: int| 0 <= i < s.len() && s[i] is None
}

/// `id` names an occupied slot of `s`.
pub open spec fn occupied<T>(s: Seq<Option<T>>, id: int) -> bool {
    0 <= id < s.len() && s[id] is Some
}

/// The matrix after a resource was added: an empty row is appended first
/// when `grow` holds, then row `0` gets `zero` at its end.
pub open spec fn with_new_column<T>(m: Seq<Seq<T>>, grow: bool, zero: T) -> Seq<Seq<T>> {
    let m0 = if grow { m.push(Seq::<T>::empty()) } else { m };
    m0.update(0, m0[0].push(zero))
}

/// The mutex a process creates when asked for a blocking one or not.
pub open spec fn mutex_kind_of(blocking: bool) -> MutexKind {
    if blocking { MutexKind::Blocking } else { MutexKind::Spin }
}

/// Finds the first empty slot of `list`, if any.
fn find_free_slot<T>(list: &Vec<Option<T>>) -> (r: Option<usize>)
    ensures
        match r {
            Some(i) => is_first_free(list@, i as int),
            None => !has_free(list@),
        },
{
    let mut i: usize = 0;
    while i < list.len()
        invariant
            i <= list@.len(),
            forall|j: int| 0 <= j < i ==> list@[j] is Some,
        decreases list@.len() - i,
    {
        if list[i].is_none() {
            return Some(i);
        }
        i += 1;
    }
    None
}

/// Adds a resource to a need or alloc matrix: appends an empty row when
/// `grow` holds, then pushes `zero` onto row `0`.
fn push_column<T: Copy>(m: &mut Vec<Vec<T>>, grow: bool, zero: T)
    requires
        grow || old(m)@.len() > 0,
    ensures
        rows(final(m)) == with_new_column(rows(old(m)), grow, zero),
{
    if grow {
        m.push(Vec::new());
    }
    assert(m@.len() > 0);
    let ghost before = rows(m);
    m[0].push(zero);
    assert(rows(m) =~= before.update(0, before[0].push(zero)));
}

/// `a` and `b` hold the same mutexes and mutex bookkeeping.
pub open spec fn same_mutexes<M, S, C>(a: ProcessSync<M, S, C>, b: ProcessSync<M, S, C>) -> bool {
    &&& a.mutex_list@ == b.mutex_list@
    &&& rows(&a.mutex_need) == rows(&b.mutex_need)
    &&& rows(&a.mutex_alloc) == rows(&b.mutex_alloc)
}

/// `a` and `b` hold the same semaphores and semaphore bookkeeping.
pub open spec fn same_semaphores<M, S, C>(a: ProcessSync<M, S, C>, b: ProcessSync<M, S, C>) -> bool {
    &&& a.semaphore_list@ == b.semaphore_list@
    &&& rows(&a.semaphore_need) == rows(&b.semaphore_need)
    &&& rows(&a.semaphore_alloc) == rows(&b.semaphore_alloc)
}

/// `a` and `b` hold the same condition variables.
pub open spec fn same_condvars<M, S, C>(a: ProcessSync<M, S, C>, b: ProcessSync<M, S, C>) -> bool {
    a.condvar_list@ == b.condvar_list@
}

/// `a` and `b` agree on which threads are finished and on deadlock detection.
pub open spec fn same_threads<M, S, C>(a: ProcessSync<M, S, C>, b: ProcessSync<M, S, C>) -> bool {
    &&& a.finished@ == b.finished@
    &&& a.dead_lock_detect == b.dead_lock_detect
}

/// Where `create` puts a new object into the slot table `old`, giving `new`:
/// into the first empty slot if there is one, else into a slot appended at
/// the end.
pub open spec fn placed<T>(old: Seq<Option<T>>, new: Seq<Option<T>>, id: int) -> bool {
    &&& new[id] is Some
    &&& if has_free(old) {
        &&& is_first_free(old, id)
        &&& new == old.update(id, new[id])
    } else {
        &&& id == old.len()
        &&& new == old.push(new[id])
    }
}

impl<M, S, C> ProcessSync<M, S, C> {
    /// A process with no synchronisation object, no thread bookkeeping and
    /// deadlock detection off.
    pub fn new() -> (r: Self)
        ensures
            r.mutex_list@ == Seq::<Option<M>>::empty(),
            r.semaphore_list@ == Seq::<Option<S>>::empty(),
            r.condvar_list@ == Seq::<Option<C>>::empty(),
            r.mutex_need@ == Seq::<Vec<usize>>::empty(),
            r.mutex_alloc@ == Seq::<Vec<usize>>::empty(),
            r.semaphore_need@ == Seq::<Vec<isize>>::empty(),
            r.semaphore_alloc@ == Seq::<Vec<isize>>::empty(),
            r.finished@ == Seq::<bool>::empty(),
            !r.dead_lock_detect,
    {
        ProcessSync {
            mutex_list: Vec::new(),
            semaphore_list: Vec::new(),
            condvar_list: Vec::new(),
            mutex_need: Vec::new(),
            mutex_alloc: Vec::new(),
            semaphore_need: Vec::new(),
            semaphore_alloc: Vec::new(),
            finished: Vec::new(),
            dead_lock_detect: false,
        }
    }
}

/// Turns deadlock detection off (`0`) or on (`1`) and returns `0`; any other
/// value is refused with `-1` and changes nothing.
pub fn sys_enable_deadlock_detect<M, S, C>(process: &mut ProcessSync<M, S, C>, enabled: usize) -> (r: isize)
    ensures
        enabled == 0 ==> r == 0 && !final(process).dead_lock_detect,
        enabled == 1 ==> r == 0 && final(process).dead_lock_detect,
        enabled > 1 ==> r == -1 && final(process).dead_lock_detect == old(process).dead_lock_detect,
        final(process).finished@ == old(process).finished@,
        same_mutexes(*old(process), *final(process)),
        same_semaphores(*old(process), *final(process)),
        same_condvars(*old(process), *final(process)),
{
    match enabled {
        0 => {
            process.dead_lock_detect = false;
            0
        },
        1 => {
            process.dead_lock_detect = true;
            0
        },
        _ => -1,
    }
}

/// `sys_mutex_create` took `old` to `new`, placing the new mutex in slot
/// `id` (see [`placed`]); only when the slot was appended, the mutex
/// bookkeeping gets a `0` column.
pub open spec fn mutex_created<M, S, C>(old: ProcessSync<M, S, C>, new: ProcessSync<M, S, C>, id: int) -> bool {
    &&& placed(old.mutex_list@, new.mutex_list@, id)
    &&& has_free(old.mutex_list@) ==> {
        &&& rows(&new.mutex_need) == rows(&old.mutex_need)
        &&& rows(&new.mutex_alloc) == rows(&old.mutex_alloc)
    }
    &&& !has_free(old.mutex_list@) ==> {
        let grow = old.mutex_need@.len() == 0;
        &&& rows(&new.mutex_need) == with_new_column(rows(&old.mutex_need), grow, 0usize)
        &&& rows(&new.mutex_alloc) == with_new_column(rows(&old.mutex_alloc), grow, 0usize)
    }
    &&& same_semaphores(old, new)
    &&& same_condvars(old, new)
    &&& same_threads(old, new)
}

/// `sys_semaphore_create` took `old` to `new`, placing the new semaphore in
/// slot `id` (see [`placed`]); only when the slot was appended, the semaphore
/// bookkeeping gets a `0` column.
pub open spec fn semaphore_created<M, S, C>(old: ProcessSync<M, S, C>, new: ProcessSync<M, S, C>, id: int) -> bool {
    &&& placed(old.semaphore_list@, new.semaphore_list@, id)
    &&& has_free(old.semaphore_list@) ==> {
        &&& rows(&new.semaphore_need) == rows(&old.semaphore_need)
        &&& rows(&new.semaphore_alloc) == rows(&old.semaphore_alloc)
    }
    &&& !has_free(old.semaphore_list@) ==> {
        let grow = old.semaphore_need@.len() == 0;
        &&& rows(&new.semaphore_need) == with_new_column(rows(&old.semaphore_need), grow, 0isize)
        &&& rows(&new.semaphore_alloc) == with_new_column(rows(&old.semaphore_alloc), grow, 0isize)
    }
    &&& same_mutexes(old, new)
    &&& same_condvars(old, new)
    &&& same_threads(old, new)
}

/// `sys_condvar_create` took `old` to `new`, placing the new condition
/// variable in slot `id` (see [`placed`]).
pub open spec fn condvar_created<M, S, C>(old: ProcessSync<M, S, C>, new: ProcessSync<M, S, C>, id: int) -> bool {
    &&& placed(old.condvar_list@, new.condvar_list@, id)
    &&& same_mutexes(old, new)
    &&& same_semaphores(old, new)
    &&& same_threads(old, new)
}

/// Creates a mutex of the kind `blocking` asks for (built by `make`) and
/// returns its id: the first empty slot, or a new slot at the end, in which
/// case the mutex bookkeeping gets a column for it.
pub fn sys_mutex_create<M, S, C, F: Fn(MutexKind) -> M>(
    process: &mut ProcessSync<M, S, C>,
    blocking: bool,
    make: F,
) -> (r: isize)
    requires
        make.requires((mutex_kind_of(blocking),)),
        old(process).mutex_list@.len() < isize::MAX,
        !has_free(old(process).mutex_list@) && old(process).mutex_need@.len() > 0
            ==> old(process).mutex_alloc@.len() > 0,
    ensures
        r >= 0,
        mutex_created(*old(process), *final(process), r as int),
        forall|j: int| 0 <= j < r ==> old(process).mutex_list@[j] is Some,
        make.ensures((mutex_kind_of(blocking),), final(process).mutex_list@[r as int]->0),
{
    let kind = if !blocking { MutexKind::Spin } else { MutexKind::Blocking };
    let mutex = make(kind);
    match find_free_slot(&process.mutex_list) {
        Some(id) => {
            process.mutex_list.set(id, Some(mutex));
            id as isize
        },
        None => {
            process.mutex_list.push(Some(mutex));
            let grow = process.mutex_need.len() == 0;
            push_column(&mut process.mutex_need, grow, 0);
            push_column(&mut process.mutex_alloc, grow, 0);
            process.mutex_list.len() as isize - 1
        },
    }
}

/// Creates the semaphore `semaphore` (the kernel builds it from the resource
/// count it was asked for) and returns its id: the first empty slot, or a new
/// slot at the end, in which case the semaphore bookkeeping gets a column.
pub fn sys_semaphore_create<M, S, C>(process: &mut ProcessSync<M, S, C>, semaphore: S) -> (r: isize)
    requires
        old(process).semaphore_list@.len() < isize::MAX,
        !has_free(old(process).semaphore_list@) && old(process).semaphore_need@.len() > 0
            ==> old(process).semaphore_alloc@.len() > 0,
    ensures
        r >= 0,
        semaphore_created(*old(process), *final(process), r as int),
        forall|j: int| 0 <= j < r ==> old(process).semaphore_list@[j] is Some,
        final(process).semaphore_list@[r as int] == Some(semaphore),
{
    let id = match find_free_slot(&process.semaphore_list) {
        Some(id) => {
            process.semaphore_list.set(id, Some(semaphore));
            id
        },
        None => {
            process.semaphore_list.push(Some(semaphore));
            let grow = process.semaphore_need.len() == 0;
            push_column(&mut process.semaphore_need, grow, 0);
            push_column(&mut process.semaphore_alloc, grow, 0);
            process.semaphore_list.len() - 1
        },
    };
    id as isize
}

/// Creates the condition variable `condvar` and returns its id: the first
/// empty slot, or a new slot at the end.
pub fn sys_condvar_create<M, S, C>(process: &mut ProcessSync<M, S, C>, condvar: C) -> (r: isize)
    requires
        old(process).condvar_list@.len() < isize::MAX,
    ensures
        r >= 0,
        condvar_created(*old(process), *final(process), r as int),
        final(process).condvar_list@[r as int] == Some(condvar),
        forall|j: int| 0 <= j < r ==> old(process).condvar_list@[j] is Some,
{
    let id = match find_free_slot(&process.condvar_list) {
        Some(id) => {
            process.condvar_list.set(id, Some(condvar));
            id
        },
        None => {
            process.condvar_list.push(Some(condvar));
            process.condvar_list.len() - 1
        },
    };
    id as isize
}

/// `m` with entry `(t, id)` raised by one.
pub open spec fn raised(m: Seq<Seq<usize>>, t: int, id: int) -> Seq<Seq<usize>> {
    m.update(t, m[t].update(id, (m[t][id] + 1) as usize))
}

/// `m` with entry `(t, id)` lowered by one.
pub open spec fn lowered(m: Seq<Seq<usize>>, t: int, id: int) -> Seq<Seq<usize>> {
    m.update(t, m[t].update(id, (m[t][id] - 1) as usize))
}

/// `m` with entry `(t, id)` raised by one.
pub open spec fn raised_signed(m: Seq<Seq<isize>>, t: int, id: int) -> Seq<Seq<isize>> {
    m.update(t, m[t].update(id, (m[t][id] + 1) as isize))
}

/// `m` with entry `(t, id)` lowered by one.
pub open spec fn lowered_signed(m: Seq<Seq<isize>>, t: int, id: int) -> Seq<Seq<isize>> {
    m.update(t, m[t].update(id, (m[t][id] - 1) as isize))
}

/// `(t, id)` names an entry of `m`.
pub open spec fn has_entry<T>(m: Seq<Seq<T>>, t: int, id: int) -> bool {
    0 <= t < m.len() && 0 <= id < m[t].len()
}

/// Every thread that is not finished has a row in `need`.
pub open spec fn rows_cover_threads<T>(need: Seq<Seq<T>>, finished: Seq<bool>) -> bool {
    forall|t: int| 0 <= t < finished.len() && !finished[t] ==> t < need.len()
}

/// Every mutex need in `row` is at most `locked`, what the requested mutex's
/// `is_locked` reported.
pub open spec fn mutex_row_satisfied(row: Seq<usize>, locked: usize) -> bool {
    forall|j: int| 0 <= j < row.len() ==> row[j] <= locked
}

/// Some thread that is not finished has all its mutex needs satisfied.
pub open spec fn mutex_some_thread_can_proceed(need: Seq<Seq<usize>>, finished: Seq<bool>, locked: usize) -> bool {
    exists|t: int| 0 <= t < finished.len() && !finished[t] && #[trigger] mutex_row_satisfied(need[t], locked)
}

/// What a semaphore with this count can still hand out.
pub open spec fn available(count: isize) -> int {
    if count < 0 { 0 } else { count as int }
}

/// Every semaphore need in `row`, but for semaphore `0`, is at most what that
/// semaphore can hand out; `counts[j]` is semaphore `j`'s count.
pub open spec fn sem_row_satisfied(row: Seq<isize>, counts: Seq<isize>) -> bool {
    forall|j: int| 1 <= j < row.len() ==> row[j] <= available(counts[j])
}

/// Some thread that is not finished has all its semaphore needs satisfied.
pub open spec fn sem_some_thread_can_proceed(need: Seq<Seq<isize>>, finished: Seq<bool>, counts: Seq<isize>) -> bool {
    exists|t: int| 0 <= t < finished.len() && t < need.len() && !finished[t] && #[trigger] sem_row_satisfied(need[t], counts)
}

/// Checking `row` from its start, every semaphore reached (all needs before
/// it being satisfied) names an occupied slot.
pub open spec fn sem_row_check_safe<S>(row: Seq<isize>, slots: Seq<Option<S>>, counts: Seq<isize>) -> bool {
    forall|j: int|
        1 <= j < row.len() && (forall|k: int| 1 <= k < j ==> row[k] <= available(counts[k]))
            ==> occupied(slots, j)
}

/// Checking the threads in order until one can proceed, every thread reached
/// has a row and that row's check stays within occupied slots.
pub open spec fn sem_check_safe<S>(
    need: Seq<Seq<isize>>,
    finished: Seq<bool>,
    slots: Seq<Option<S>>,
    counts: Seq<isize>,
) -> bool {
    forall|t: int|
        0 <= t < finished.len() && !finished[t]
            && (forall|u: int| 0 <= u < t && !finished[u] ==> !sem_row_satisfied(need[u], counts))
            ==> t < need.len() && sem_row_check_safe(need[t], slots, counts)
}

/// Whether every need in `row` is at most `locked`.
fn mutex_row_ok(row: &Vec<usize>, locked: usize) -> (ok: bool)
    ensures
        ok == mutex_row_satisfied(row@, locked),
{
    let mut j: usize = 0;
    while j < row.len()
        invariant
            j <= row@.len(),
            forall|k: int| 0 <= k < j ==> row@[k] <= locked,
        decreases row@.len() - j,
    {
        if row[j] <= locked {
            j += 1;
        } else {
            return false;
        }
    }
    true
}

/// Whether some thread that is not finished has all its mutex needs
/// satisfied.
fn mutex_check(need: &Vec<Vec<usize>>, finished: &Vec<bool>, locked: usize) -> (found: bool)
    requires
        rows_cover_threads(rows(need), finished@),
    ensures
        found == mutex_some_thread_can_proceed(rows(need), finished@, locked),
{
    let mut found = false;
    let mut t: usize = 0;
    while t < finished.len()
        invariant
            t <= finished@.len(),
            rows_cover_threads(rows(need), finished@),
            found == exists|u: int| 0 <= u < t && !finished@[u] && mutex_row_satisfied(rows(need)[u], locked),
        decreases finished@.len() - t,
    {
        if !finished[t] {
            let ok = mutex_row_ok(&need[t], locked);
            if ok {
                found = true;
            }
        }
        t += 1;
    }
    found
}

/// Whether every need in `row` but the first is at most what its semaphore
/// can hand out.
fn sem_row_ok<S>(row: &Vec<isize>, slots: &Vec<Option<S>>, counts: &Vec<isize>) -> (ok: bool)
    requires
        counts@.len() == slots@.len(),
        sem_row_check_safe(row@, slots@, counts@),
    ensures
        ok == sem_row_satisfied(row@, counts@),
{
    let mut j: usize = 0;
    while j < row.len()
        invariant
            j <= row@.len(),
            counts@.len() == slots@.len(),
            sem_row_check_safe(row@, slots@, counts@),
            forall|k: int| 1 <= k < j ==> row@[k] <= available(counts@[k]),
        decreases row@.len() - j,
    {
        if j > 0 {
            assert(occupied(slots@, j as int));
            let mut res_num = counts[j];
            if res_num < 0 {
                res_num = 0;
            }
            if row[j] > res_num {
                return false;
            }
        }
        j += 1;
    }
    true
}

/// Whether checking `row` stays within occupied slots and, if so, whether
/// all its needs but the first are satisfied.
fn sem_row_scan<S>(row: &Vec<isize>, slots: &Vec<Option<S>>, counts: &Vec<isize>) -> (r: (bool, bool))
    requires
        counts@.len() == slots@.len(),
    ensures
        r.0 == sem_row_check_safe(row@, slots@, counts@),
        r.0 ==> r.1 == sem_row_satisfied(row@, counts@),
{
    let mut j: usize = 0;
    while j < row.len()
        invariant
            j <= row@.len(),
            counts@.len() == slots@.len(),
            forall|k: int| 1 <= k < j ==> row@[k] <= available(counts@[k]),
            forall|k: int| 1 <= k < j ==> occupied(slots@, k),
        decreases row@.len() - j,
    {
        if j > 0 {
            if j >= slots.len() || slots[j].is_none() {
                assert(!occupied(slots@, j as int));
                return (false, false);
            }
            let mut res_num = counts[j];
            if res_num < 0 {
                res_num = 0;
            }
            if row[j] > res_num {
                assert forall|j2: int|
                    1 <= j2 < row@.len() && (forall|k: int| 1 <= k < j2 ==> row@[k] <= available(counts@[k]))
                    implies occupied(slots@, j2) by {
                    if j2 > j {
                        assert(row@[j as int] <= available(counts@[j as int]));
                    }
                }
                return (true, false);
            }
        }
        j += 1;
    }
    (true, true)
}

/// Whether checking the threads in order (see [`sem_check_safe`]) stays
/// within rows that exist and slots that are occupied.
fn sem_check_safety<S>(need: &Vec<Vec<isize>>, finished: &Vec<bool>, slots: &Vec<Option<S>>, counts: &Vec<isize>) -> (r: bool)
    requires
        counts@.len() == slots@.len(),
    ensures
        r == sem_check_safe(rows(need), finished@, slots@, counts@),
{
    let ghost m = rows(need);
    let mut t: usize = 0;
    while t < finished.len()
        invariant
            t <= finished@.len(),
            m == rows(need),
            counts@.len() == slots@.len(),
            forall|u: int| 0 <= u < t && !finished@[u]
                ==> u < need@.len() && sem_row_check_safe(m[u], slots@, counts@) && !sem_row_satisfied(m[u], counts@),
        decreases finished@.len() - t,
    {
        if !finished[t] {
            if t >= need.len() {
                return false;
            }
            let (safe, ok) = sem_row_scan(&need[t], slots, counts);
            if !safe {
                return false;
            }
            if ok {
                assert forall|t2: int|
                    0 <= t2 < finished@.len() && !finished@[t2]
                        && (forall|u: int| 0 <= u < t2 && !finished@[u] ==> !sem_row_satisfied(m[u], counts@))
                    implies t2 < m.len() && sem_row_check_safe(m[t2], slots@, counts@) by {
                    if t2 > t {
                        assert(!sem_row_satisfied(m[t as int], counts@));
                    }
                }
                return true;
            }
        }
        t += 1;
    }
    true
}

/// Whether the deadlock check of `sys_semaphore_down` for thread `tid` and
/// semaphore `sem_id`, counted once more, would reach a thread without a row
/// or an empty semaphore slot: the kernel must not go on in that case.
pub fn semaphore_check_faults<M, S, C>(
    process: &mut ProcessSync<M, S, C>,
    tid: usize,
    sem_id: usize,
    counts: &Vec<isize>,
) -> (r: bool)
    requires
        counts@.len() == old(process).semaphore_list@.len(),
        has_entry(rows(&old(process).semaphore_need), tid as int, sem_id as int),
        rows(&old(process).semaphore_need)[tid as int][sem_id as int] < isize::MAX,
    ensures
        r == !sem_check_safe(
            raised_signed(rows(&old(process).semaphore_need), tid as int, sem_id as int),
            old(process).finished@,
            old(process).semaphore_list@,
            counts@,
        ),
        rows(&final(process).semaphore_need) == rows(&old(process).semaphore_need),
        final(process).semaphore_list@ == old(process).semaphore_list@,
        rows(&final(process).semaphore_alloc) == rows(&old(process).semaphore_alloc),
        same_mutexes(*old(process), *final(process)),
        same_condvars(*old(process), *final(process)),
        same_threads(*old(process), *final(process)),
{
    let ghost before = rows(&process.semaphore_need);
    let v = process.semaphore_need[tid][sem_id];
    process.semaphore_need[tid][sem_id] = v + 1;
    assert(rows(&process.semaphore_need) =~= raised_signed(before, tid as int, sem_id as int));
    let safe = sem_check_safety(&process.semaphore_need, &process.finished, &process.semaphore_list, counts);
    process.semaphore_need[tid][sem_id] = v;
    assert(rows(&process.semaphore_need) =~~= before);
    !safe
}

/// Whether some thread that is not finished has all its semaphore needs
/// satisfied; stops at the first such thread.
fn sem_check<S>(need: &Vec<Vec<isize>>, finished: &Vec<bool>, slots: &Vec<Option<S>>, counts: &Vec<isize>) -> (found: bool)
    requires
        counts@.len() == slots@.len(),
        sem_check_safe(rows(need), finished@, slots@, counts@),
    ensures
        found == sem_some_thread_can_proceed(rows(need), finished@, counts@),
{
    let mut t: usize = 0;
    while t < finished.len()
        invariant
            t <= finished@.len(),
            counts@.len() == slots@.len(),
            sem_check_safe(rows(need), finished@, slots@, counts@),
            forall|u: int| 0 <= u < t && !finished@[u] ==> u < need@.len() && !sem_row_satisfied(rows(need)[u], counts@),
        decreases finished@.len() - t,
    {
        if !finished[t] {
            assert(t < need@.len());
            if sem_row_ok(&need[t], slots, counts) {
                return true;
            }
        }
        t += 1;
    }
    false
}

/// The first half of `sys_mutex_lock` taking `old` to `new` and answering `r`.
///
/// With deadlock detection on, the thread's need for the mutex is raised by
/// one; if then no thread that is not finished has all its needs within
/// `locked` (what the mutex's `is_locked` reported), the request is refused
/// with [`DEADLOCK`] and the raised need stays. Otherwise the kernel is told
/// to lock the mutex.
pub open spec fn mutex_lock_enter<M, S, C>(
    old: ProcessSync<M, S, C>,
    new: ProcessSync<M, S, C>,
    tid: int,
    mutex_id: int,
    locked: usize,
    r: SyncAction,
) -> bool {
    &&& if old.dead_lock_detect {
        rows(&new.mutex_need) == raised(rows(&old.mutex_need), tid, mutex_id)
    } else {
        rows(&new.mutex_need) == rows(&old.mutex_need)
    }
    &&& r == if old.dead_lock_detect && !mutex_some_thread_can_proceed(rows(&new.mutex_need), old.finished@, locked) {
        SyncAction::Return(DEADLOCK)
    } else {
        SyncAction::LockMutex(mutex_id as usize)
    }
    &&& new.mutex_list@ == old.mutex_list@
    &&& rows(&new.mutex_alloc) == rows(&old.mutex_alloc)
    &&& same_semaphores(old, new)
    &&& same_condvars(old, new)
    &&& same_threads(old, new)
}

/// The second half of `sys_mutex_lock`, once the mutex is held: with
/// deadlock detection on, the thread's need for the mutex is lowered by one.
pub open spec fn mutex_lock_exit<M, S, C>(
    old: ProcessSync<M, S, C>,
    new: ProcessSync<M, S, C>,
    tid: int,
    mutex_id: int,
) -> bool {
    &&& if old.dead_lock_detect {
        rows(&new.mutex_need) == lowered(rows(&old.mutex_need), tid, mutex_id)
    } else {
        rows(&new.mutex_need) == rows(&old.mutex_need)
    }
    &&& new.mutex_list@ == old.mutex_list@
    &&& rows(&new.mutex_alloc) == rows(&old.mutex_alloc)
    &&& same_semaphores(old, new)
    &&& same_condvars(old, new)
    &&& same_threads(old, new)
}

/// The first half of `sys_semaphore_down` taking `old` to `new` and
/// answering `r`.
///
/// The thread's need for the semaphore is raised by one. With deadlock
/// detection on, if then no thread that is not finished has all its needs
/// (but for semaphore `0`) within what the semaphores can hand out, the
/// request is refused with [`DEADLOCK`] and the raised need stays. Otherwise
/// the kernel is told to lower the semaphore.
pub open spec fn sem_down_enter<M, S, C>(
    old: ProcessSync<M, S, C>,
    new: ProcessSync<M, S, C>,
    tid: int,
    sem_id: int,
    counts: Seq<isize>,
    r: SyncAction,
) -> bool {
    &&& rows(&new.semaphore_need) == raised_signed(rows(&old.semaphore_need), tid, sem_id)
    &&& r == if old.dead_lock_detect && !sem_some_thread_can_proceed(rows(&new.semaphore_need), old.finished@, counts) {
        SyncAction::Return(DEADLOCK)
    } else {
        SyncAction::SemaphoreDown(sem_id as usize)
    }
    &&& new.semaphore_list@ == old.semaphore_list@
    &&& rows(&new.semaphore_alloc) == rows(&old.semaphore_alloc)
    &&& same_mutexes(old, new)
    &&& same_condvars(old, new)
    &&& same_threads(old, new)
}

/// The second half of `sys_semaphore_down`, once the semaphore was lowered:
/// the thread's need for it is lowered by one.
pub open spec fn sem_down_exit<M, S, C>(
    old: ProcessSync<M, S, C>,
    new: ProcessSync<M, S, C>,
    tid: int,
    sem_id: int,
) -> bool {
    &&& rows(&new.semaphore_need) == lowered_signed(rows(&old.semaphore_need), tid, sem_id)
    &&& new.semaphore_list@ == old.semaphore_list@
    &&& rows(&new.semaphore_alloc) == rows(&old.semaphore_alloc)
    &&& same_mutexes(old, new)
    &&& same_condvars(old, new)
    &&& same_threads(old, new)
}

/// Puts the current thread to sleep for `ms` milliseconds: the kernel, whose
/// clock reads `now_ms`, is told to wake it at `now_ms + ms`.
pub fn sys_sleep(now_ms: usize, ms: usize) -> (r: SyncAction)
    requires
        now_ms + ms <= usize::MAX,
    ensures
        r == (SyncAction::Sleep { expire_ms: (now_ms + ms) as usize }),
{
    let expire_ms = now_ms + ms;
    SyncAction::Sleep { expire_ms }
}

/// First half of locking mutex `mutex_id` for thread `tid`; `locked` is what
/// the mutex's `is_locked` reports. See [`mutex_lock_enter`].
pub fn sys_mutex_lock<M, S, C>(
    process: &mut ProcessSync<M, S, C>,
    tid: usize,
    mutex_id: usize,
    locked: usize,
) -> (r: SyncAction)
    requires
        old(process).dead_lock_detect ==> {
            &&& has_entry(rows(&old(process).mutex_need), tid as int, mutex_id as int)
            &&& rows(&old(process).mutex_need)[tid as int][mutex_id as int] < usize::MAX
            &&& rows_cover_threads(rows(&old(process).mutex_need), old(process).finished@)
        },
        (!old(process).dead_lock_detect || exists|t: int|
            0 <= t < old(process).finished@.len() && !old(process).finished@[t])
            ==> occupied(old(process).mutex_list@, mutex_id as int),
    ensures
        mutex_lock_enter(*old(process), *final(process), tid as int, mutex_id as int, locked, r),
{
    if process.dead_lock_detect {
        let ghost before = rows(&process.mutex_need);
        let v = process.mutex_need[tid][mutex_id];
        process.mutex_need[tid][mutex_id] = v + 1;
        assert(rows(&process.mutex_need) =~= raised(before, tid as int, mutex_id as int));
        let found = mutex_check(&process.mutex_need, &process.finished, locked);
        if !found {
            return SyncAction::Return(DEADLOCK);
        }
    }
    SyncAction::LockMutex(mutex_id)
}

/// Second half of locking a mutex, once the kernel holds it for thread
/// `tid`; returns `0`. See [`mutex_lock_exit`].
pub fn sys_mutex_lock_done<M, S, C>(process: &mut ProcessSync<M, S, C>, tid: usize, mutex_id: usize) -> (r: isize)
    requires
        old(process).dead_lock_detect ==> {
            &&& has_entry(rows(&old(process).mutex_need), tid as int, mutex_id as int)
            &&& rows(&old(process).mutex_need)[tid as int][mutex_id as int] > 0
        },
    ensures
        r == 0,
        mutex_lock_exit(*old(process), *final(process), tid as int, mutex_id as int),
{
    if process.dead_lock_detect {
        let ghost before = rows(&process.mutex_need);
        let v = process.mutex_need[tid][mutex_id];
        process.mutex_need[tid][mutex_id] = v - 1;
        assert(rows(&process.mutex_need) =~= lowered(before, tid as int, mutex_id as int));
    }
    0
}

/// Unlocking mutex `mutex_id`: the kernel is told to unlock it.
pub fn sys_mutex_unlock<M, S, C>(process: &ProcessSync<M, S, C>, mutex_id: usize) -> (r: SyncAction)
    requires
        occupied(process.mutex_list@, mutex_id as int),
    ensures
        r == SyncAction::UnlockMutex(mutex_id),
{
    SyncAction::UnlockMutex(mutex_id)
}

/// Raising semaphore `sem_id` from thread `tid`: the thread is marked
/// finished for deadlock detection and the kernel is told to raise the
/// semaphore.
pub fn sys_semaphore_up<M, S, C>(process: &mut ProcessSync<M, S, C>, tid: usize, sem_id: usize) -> (r: SyncAction)
    requires
        occupied(old(process).semaphore_list@, sem_id as int),
        tid < old(process).finished@.len(),
    ensures
        r == SyncAction::SemaphoreUp(sem_id),
        final(process).finished@ == old(process).finished@.update(tid as int, true),
        final(process).dead_lock_detect == old(process).dead_lock_detect,
        same_mutexes(*old(process), *final(process)),
        same_semaphores(*old(process), *final(process)),
        same_condvars(*old(process), *final(process)),
{
    process.finished.set(tid, true);
    SyncAction::SemaphoreUp(sem_id)
}

/// First half of lowering semaphore `sem_id` for thread `tid`; `counts[j]`
/// is what semaphore `j`'s `sem_count` reports (any value for an empty
/// slot). See [`sem_down_enter`].
pub fn sys_semaphore_down<M, S, C>(
    process: &mut ProcessSync<M, S, C>,
    tid: usize,
    sem_id: usize,
    counts: &Vec<isize>,
) -> (r: SyncAction)
    requires
        occupied(old(process).semaphore_list@, sem_id as int),
        counts@.len() == old(process).semaphore_list@.len(),
        has_entry(rows(&old(process).semaphore_need), tid as int, sem_id as int),
        rows(&old(process).semaphore_need)[tid as int][sem_id as int] < isize::MAX,
        old(process).dead_lock_detect ==> sem_check_safe(
            raised_signed(rows(&old(process).semaphore_need), tid as int, sem_id as int),
            old(process).finished@,
            old(process).semaphore_list@,
            counts@,
        ),
    ensures
        sem_down_enter(*old(process), *final(process), tid as int, sem_id as int, counts@, r),
{
    let ghost before = rows(&process.semaphore_need);
    let v = process.semaphore_need[tid][sem_id];
    process.semaphore_need[tid][sem_id] = v + 1;
    assert(rows(&process.semaphore_need) =~= raised_signed(before, tid as int, sem_id as int));
    if process.dead_lock_detect {
        let found = sem_check(&process.semaphore_need, &process.finished, &process.semaphore_list, counts);
        if !found {
            return SyncAction::Return(DEADLOCK);
        }
    }
    SyncAction::SemaphoreDown(sem_id)
}

/// Second half of lowering a semaphore, once the kernel lowered it for
/// thread `tid`; returns `0`. See [`sem_down_exit`].
pub fn sys_semaphore_down_done<M, S, C>(process: &mut ProcessSync<M, S, C>, tid: usize, sem_id: usize) -> (r: isize)
    requires
        has_entry(rows(&old(process).semaphore_need), tid as int, sem_id as int),
        rows(&old(process).semaphore_need)[tid as int][sem_id as int] > isize::MIN,
    ensures
        r == 0,
        sem_down_exit(*old(process), *final(process), tid as int, sem_id as int),
{
    let ghost before = rows(&process.semaphore_need);
    let v = process.semaphore_need[tid][sem_id];
    process.semaphore_need[tid][sem_id] = v - 1;
    assert(rows(&process.semaphore_need) =~= lowered_signed(before, tid as int, sem_id as int));
    0
}

/// Signalling condition variable `condvar_id`: the kernel is told to wake
/// one of its waiters.
pub fn sys_condvar_signal<M, S, C>(process: &ProcessSync<M, S, C>, condvar_id: usize) -> (r: SyncAction)
    requires
        occupied(process.condvar_list@, condvar_id as int),
    ensures
        r == SyncAction::SignalCondvar(condvar_id),
{
    SyncAction::SignalCondvar(condvar_id)
}

/// Waiting on condition variable `condvar_id` with mutex `mutex_id`: the
/// kernel is told to wait.
pub fn sys_condvar_wait<M, S, C>(process: &ProcessSync<M, S, C>, condvar_id: usize, mutex_id: usize) -> (r: SyncAction)
    requires
        occupied(process.condvar_list@, condvar_id as int),
        occupied(process.mutex_list@, mutex_id as int),
    ensures
        r == (SyncAction::WaitCondvar { condvar_id, mutex_id }),
{
    SyncAction::WaitCondvar { condvar_id, mutex_id }
}

/// The need and alloc matrices have one row per thread alike, and row `0`
/// has one column per slot of a list of `list_len` slots (or there is no row
/// and no slot yet).
pub open spec fn columns_match<T>(list_len: nat, need: Seq<Seq<T>>, alloc: Seq<Seq<T>>) -> bool {
    &&& need.len() == alloc.len()
    &&& (list_len == 0 && need.len() == 0) || (need.len() >= 1 && need[0].len() == list_len && alloc[0].len() == list_len)
}

/// Creating a mutex or semaphore keeps the bookkeeping in step with its
/// slots: a reused slot leaves both matrices as they were; a new slot adds a
/// `zero` entry at the end of row `0` of each (creating that row when there
/// was none) and leaves the other rows alone.
pub proof fn lemma_create_keeps_columns<O, T>(
    old_list: Seq<Option<O>>,
    new_list: Seq<Option<O>>,
    id: int,
    need: Seq<Seq<T>>,
    new_need: Seq<Seq<T>>,
    alloc: Seq<Seq<T>>,
    new_alloc: Seq<Seq<T>>,
    zero: T,
)
    requires
        columns_match(old_list.len(), need, alloc),
        placed(old_list, new_list, id),
        has_free(old_list) ==> new_need == need && new_alloc == alloc,
        !has_free(old_list) ==> {
            &&& new_need == with_new_column(need, need.len() == 0, zero)
            &&& new_alloc == with_new_column(alloc, need.len() == 0, zero)
        },
    ensures
        columns_match(new_list.len(), new_need, new_alloc),
        new_need.len() >= 1,
        !has_free(old_list) ==> {
            &&& new_need[0] == (if need.len() == 0 { Seq::<T>::empty() } else { need[0] }).push(zero)
            &&& new_alloc[0] == (if alloc.len() == 0 { Seq::<T>::empty() } else { alloc[0] }).push(zero)
            &&& new_need.len() == if need.len() == 0 { 1 } else { need.len() }
            &&& forall|k: int| 1 <= k < need.len() ==> new_need[k] == need[k] && new_alloc[k] == alloc[k]
        },
{
    if has_free(old_list) {
        let i = choose|i: int| 0 <= i < old_list.len() && old_list[i] is None;
        assert(old_list.len() > 0);
    }
}

/// Creating a mutex keeps the mutex bookkeeping in step with the mutex slots
/// (see [`lemma_create_keeps_columns`]).
pub proof fn lemma_mutex_create_keeps_columns<M, S, C>(a: ProcessSync<M, S, C>, b: ProcessSync<M, S, C>, id: int)
    requires
        columns_match(a.mutex_list@.len(), rows(&a.mutex_need), rows(&a.mutex_alloc)),
        mutex_created(a, b, id),
    ensures
        columns_match(b.mutex_list@.len(), rows(&b.mutex_need), rows(&b.mutex_alloc)),
        b.mutex_need@.len() >= 1,
        !has_free(a.mutex_list@) ==> {
            let need = rows(&a.mutex_need);
            let alloc = rows(&a.mutex_alloc);
            &&& rows(&b.mutex_need)[0] == (if need.len() == 0 { Seq::<usize>::empty() } else { need[0] }).push(0usize)
            &&& rows(&b.mutex_alloc)[0] == (if alloc.len() == 0 { Seq::<usize>::empty() } else { alloc[0] }).push(0usize)
            &&& forall|k: int| 1 <= k < need.len() ==> rows(&b.mutex_need)[k] == need[k] && rows(&b.mutex_alloc)[k] == alloc[k]
        },
{
    lemma_create_keeps_columns(
        a.mutex_list@, b.mutex_list@, id,
        rows(&a.mutex_need), rows(&b.mutex_need), rows(&a.mutex_alloc), rows(&b.mutex_alloc), 0usize,
    );
}

/// Creating a semaphore keeps the semaphore bookkeeping in step with the
/// semaphore slots (see [`lemma_create_keeps_columns`]).
pub proof fn lemma_semaphore_create_keeps_columns<M, S, C>(a: ProcessSync<M, S, C>, b: ProcessSync<M, S, C>, id: int)
    requires
        columns_match(a.semaphore_list@.len(), rows(&a.semaphore_need), rows(&a.semaphore_alloc)),
        semaphore_created(a, b, id),
    ensures
        columns_match(b.semaphore_list@.len(), rows(&b.semaphore_need), rows(&b.semaphore_alloc)),
        b.semaphore_need@.len() >= 1,
        !has_free(a.semaphore_list@) ==> {
            let need = rows(&a.semaphore_need);
            let alloc = rows(&a.semaphore_alloc);
            &&& rows(&b.semaphore_need)[0] == (if need.len() == 0 { Seq::<isize>::empty() } else { need[0] }).push(0isize)
            &&& rows(&b.semaphore_alloc)[0] == (if alloc.len() == 0 { Seq::<isize>::empty() } else { alloc[0] }).push(0isize)
            &&& forall|k: int| 1 <= k < need.len() ==> rows(&b.semaphore_need)[k] == need[k] && rows(&b.semaphore_alloc)[k] == alloc[k]
        },
{
    lemma_create_keeps_columns(
        a.semaphore_list@, b.semaphore_list@, id,
        rows(&a.semaphore_need), rows(&b.semaphore_need), rows(&a.semaphore_alloc), rows(&b.semaphore_alloc), 0isize,
    );
}

/// Creating a mutex takes the lowest empty slot: every slot below the new id
/// was occupied, the new id was empty or is one past the end, it is beyond
/// the end only when no slot was empty, and no other slot changes.
pub proof fn lemma_mutex_create_lowest_slot<M, S, C>(a: ProcessSync<M, S, C>, b: ProcessSync<M, S, C>, id: int)
    requires
        mutex_created(a, b, id),
    ensures
        0 <= id <= a.mutex_list@.len(),
        forall|j: int| 0 <= j < id ==> a.mutex_list@[j] is Some,
        id < a.mutex_list@.len() ==> a.mutex_list@[id] is None,
        (exists|j: int| 0 <= j < a.mutex_list@.len() && a.mutex_list@[j] is None) ==> id < a.mutex_list@.len(),
        b.mutex_list@[id] is Some,
        b.mutex_list@.len() == if id < a.mutex_list@.len() { a.mutex_list@.len() } else { a.mutex_list@.len() + 1 },
        forall|j: int| 0 <= j < a.mutex_list@.len() && j != id ==> b.mutex_list@[j] == a.mutex_list@[j],
{
}

/// Creating a semaphore takes the lowest empty slot: every slot below the
/// new id was occupied, the new id was empty or is one past the end, it is
/// beyond the end only when no slot was empty, and no other slot changes.
pub proof fn lemma_semaphore_create_lowest_slot<M, S, C>(a: ProcessSync<M, S, C>, b: ProcessSync<M, S, C>, id: int)
    requires
        semaphore_created(a, b, id),
    ensures
        0 <= id <= a.semaphore_list@.len(),
        forall|j: int| 0 <= j < id ==> a.semaphore_list@[j] is Some,
        id < a.semaphore_list@.len() ==> a.semaphore_list@[id] is None,
        (exists|j: int| 0 <= j < a.semaphore_list@.len() && a.semaphore_list@[j] is None) ==> id < a.semaphore_list@.len(),
        b.semaphore_list@[id] is Some,
        b.semaphore_list@.len() == if id < a.semaphore_list@.len() { a.semaphore_list@.len() } else { a.semaphore_list@.len() + 1 },
        forall|j: int| 0 <= j < a.semaphore_list@.len() && j != id ==> b.semaphore_list@[j] == a.semaphore_list@[j],
{
}

/// Creating a condition variable takes the lowest empty slot: every slot
/// below the new id was occupied, the new id was empty or is one past the
/// end, it is beyond the end only when no slot was empty, and no other slot
/// changes.
pub proof fn lemma_condvar_create_lowest_slot<M, S, C>(a: ProcessSync<M, S, C>, b: ProcessSync<M, S, C>, id: int)
    requires
        condvar_created(a, b, id),
    ensures
        0 <= id <= a.condvar_list@.len(),
        forall|j: int| 0 <= j < id ==> a.condvar_list@[j] is Some,
        id < a.condvar_list@.len() ==> a.condvar_list@[id] is None,
        (exists|j: int| 0 <= j < a.condvar_list@.len() && a.condvar_list@[j] is None) ==> id < a.condvar_list@.len(),
        b.condvar_list@[id] is Some,
        b.condvar_list@.len() == if id < a.condvar_list@.len() { a.condvar_list@.len() } else { a.condvar_list@.len() + 1 },
        forall|j: int| 0 <= j < a.condvar_list@.len() && j != id ==> b.condvar_list@[j] == a.condvar_list@[j],
{
}

/// With deadlock detection on, a mutex lock raises the thread's need for the
/// mutex by one and is granted exactly when some thread that is not
/// finished has every one of its mutex needs (the raised one counted) at
/// most `locked`; otherwise it is refused with [`DEADLOCK`].
pub proof fn lemma_mutex_lock_decision<M, S, C>(
    a: ProcessSync<M, S, C>,
    b: ProcessSync<M, S, C>,
    tid: int,
    mutex_id: int,
    locked: usize,
    r: SyncAction,
)
    requires
        a.dead_lock_detect,
        has_entry(rows(&a.mutex_need), tid, mutex_id),
        rows(&a.mutex_need)[tid][mutex_id] < usize::MAX,
        mutex_lock_enter(a, b, tid, mutex_id, locked, r),
    ensures
        rows(&b.mutex_need)[tid][mutex_id] == rows(&a.mutex_need)[tid][mutex_id] + 1,
        rows(&b.mutex_need).len() == rows(&a.mutex_need).len(),
        forall|t: int, j: int| 0 <= t < rows(&a.mutex_need).len() && 0 <= j < rows(&a.mutex_need)[t].len()
            && (t != tid || j != mutex_id)
            ==> rows(&b.mutex_need)[t].len() == rows(&a.mutex_need)[t].len()
                && rows(&b.mutex_need)[t][j] == rows(&a.mutex_need)[t][j],
        r == SyncAction::LockMutex(mutex_id as usize) || r == SyncAction::Return(DEADLOCK),
        r == SyncAction::LockMutex(mutex_id as usize) <==> exists|t: int| {
            &&& 0 <= t < a.finished@.len()
            &&& !a.finished@[t]
            &&& forall|j: int| 0 <= j < rows(&b.mutex_need)[t].len() ==> rows(&b.mutex_need)[t][j] <= locked
        },
        r == SyncAction::Return(DEADLOCK) <==> forall|t: int| 0 <= t < a.finished@.len() && !a.finished@[t]
            ==> exists|j: int| 0 <= j < rows(&b.mutex_need)[t].len() && rows(&b.mutex_need)[t][j] > locked,
{
    let need = rows(&b.mutex_need);
    if r == SyncAction::Return(DEADLOCK) {
        assert forall|t: int| 0 <= t < a.finished@.len() && !a.finished@[t]
            implies exists|j: int| 0 <= j < need[t].len() && need[t][j] > locked by {
            assert(!mutex_row_satisfied(need[t], locked));
        }
    } else {
        let t = choose|t: int| 0 <= t < a.finished@.len() && !a.finished@[t] && #[trigger] mutex_row_satisfied(need[t], locked);
        assert(forall|j: int| 0 <= j < need[t].len() ==> need[t][j] <= locked);
    }
}

/// What a semaphore can hand out is never negative, and is its count when
/// the count is not negative; so a need is met exactly when it is at most
/// `0` or at most the count.
pub proof fn lemma_available_never_negative(count: isize, need: isize)
    ensures
        available(count) >= 0,
        count >= 0 ==> available(count) == count,
        count < 0 ==> available(count) == 0,
        need <= available(count) <==> (need <= 0 || need <= count),
{
}

/// With deadlock detection on, a semaphore down raises the thread's need for
/// the semaphore by one and is granted exactly when some thread that is not
/// finished has a row in which every need but the first is at most `0` or
/// at most its semaphore's count (a negative count offering nothing);
/// otherwise it is refused with [`DEADLOCK`].
pub proof fn lemma_semaphore_down_decision<M, S, C>(
    a: ProcessSync<M, S, C>,
    b: ProcessSync<M, S, C>,
    tid: int,
    sem_id: int,
    counts: Seq<isize>,
    r: SyncAction,
)
    requires
        a.dead_lock_detect,
        has_entry(rows(&a.semaphore_need), tid, sem_id),
        rows(&a.semaphore_need)[tid][sem_id] < isize::MAX,
        sem_down_enter(a, b, tid, sem_id, counts, r),
    ensures
        rows(&b.semaphore_need)[tid][sem_id] == rows(&a.semaphore_need)[tid][sem_id] + 1,
        r == SyncAction::SemaphoreDown(sem_id as usize) || r == SyncAction::Return(DEADLOCK),
        r == SyncAction::SemaphoreDown(sem_id as usize) <==> exists|t: int| {
            &&& 0 <= t < a.finished@.len()
            &&& t < rows(&b.semaphore_need).len()
            &&& !a.finished@[t]
            &&& forall|j: int| 1 <= j < rows(&b.semaphore_need)[t].len()
                ==> rows(&b.semaphore_need)[t][j] <= 0 || rows(&b.semaphore_need)[t][j] <= counts[j]
        },
{
    let need = rows(&b.semaphore_need);
    if r == SyncAction::Return(DEADLOCK) {
        assert forall|t: int| 0 <= t < a.finished@.len() && t < need.len() && !a.finished@[t]
            implies exists|j: int| 1 <= j < need[t].len() && !(need[t][j] <= 0 || need[t][j] <= counts[j]) by {
            assert(!sem_row_satisfied(need[t], counts));
            let j = choose|j: int| 1 <= j < need[t].len() && !(need[t][j] <= available(counts[j]));
            assert(!(need[t][j] <= 0 || need[t][j] <= counts[j]));
        }
    } else {
        let t = choose|t: int|
            0 <= t < a.finished@.len() && t < need.len() && !a.finished@[t] && #[trigger] sem_row_satisfied(need[t], counts);
        assert forall|j: int| 1 <= j < need[t].len() implies need[t][j] <= 0 || need[t][j] <= counts[j] by {
            assert(need[t][j] <= available(counts[j]));
        }
    }
}

/// The deadlock check of a semaphore down cannot fault when every thread
/// that is not finished has a row and every semaphore those rows mention
/// (but semaphore `0`) has an occupied slot.
pub proof fn lemma_sem_check_safe_when_all_present<S>(
    need: Seq<Seq<isize>>,
    finished: Seq<bool>,
    slots: Seq<Option<S>>,
    counts: Seq<isize>,
)
    requires
        forall|t: int| 0 <= t < finished.len() && !finished[t] ==> t < need.len(),
        forall|t: int, j: int| 0 <= t < finished.len() && !finished[t] && 1 <= j < need[t].len()
            ==> j < slots.len() && slots[j] is Some,
    ensures
        sem_check_safe(need, finished, slots, counts),
{
}

/// The deadlock check of a semaphore down faults when the first thread that
/// is not finished has no row, or when its row mentions semaphore `1` and
/// that slot is empty or missing.
pub proof fn lemma_sem_check_faults_on_first_thread<S>(
    need: Seq<Seq<isize>>,
    finished: Seq<bool>,
    slots: Seq<Option<S>>,
    counts: Seq<isize>,
    t0: int,
)
    requires
        0 <= t0 < finished.len(),
        !finished[t0],
        forall|u: int| 0 <= u < t0 ==> finished[u],
        t0 >= need.len() || (need[t0].len() > 1 && (slots.len() <= 1 || slots[1] is None)),
    ensures
        !sem_check_safe(need, finished, slots, counts),
{
    assert(forall|u: int| 0 <= u < t0 && !finished[u] ==> !sem_row_satisfied(need[u], counts));
    if t0 < need.len() {
        assert(forall|k: int| 1 <= k < 1 ==> need[t0][k] <= available(counts[k]));
        assert(!occupied(slots, 1));
        assert(!sem_row_check_safe(need[t0], slots, counts));
    }
}

/// A granted mutex lock, once the mutex is held, leaves the mutex
/// bookkeeping as it was before the lock was asked for.
pub proof fn lemma_mutex_lock_round_trip<M, S, C>(
    a: ProcessSync<M, S, C>,
    b: ProcessSync<M, S, C>,
    c: ProcessSync<M, S, C>,
    tid: int,
    mutex_id: int,
    locked: usize,
)
    requires
        a.dead_lock_detect ==> has_entry(rows(&a.mutex_need), tid, mutex_id)
            && rows(&a.mutex_need)[tid][mutex_id] < usize::MAX,
        mutex_lock_enter(a, b, tid, mutex_id, locked, SyncAction::LockMutex(mutex_id as usize)),
        mutex_lock_exit(b, c, tid, mutex_id),
    ensures
        rows(&c.mutex_need) == rows(&a.mutex_need),
        same_mutexes(a, c),
        same_semaphores(a, c),
        same_condvars(a, c),
        same_threads(a, c),
{
    if a.dead_lock_detect {
        let m = rows(&a.mutex_need);
        assert(lowered(raised(m, tid, mutex_id), tid, mutex_id) =~= m) by {
            assert(raised(m, tid, mutex_id)[tid].update(mutex_id, m[tid][mutex_id]) =~= m[tid]);
        }
    }
}

/// A granted semaphore down, once the semaphore was lowered, leaves the
/// semaphore bookkeeping as it was before the down was asked for.
pub proof fn lemma_semaphore_down_round_trip<M, S, C>(
    a: ProcessSync<M, S, C>,
    b: ProcessSync<M, S, C>,
    c: ProcessSync<M, S, C>,
    tid: int,
    sem_id: int,
    counts: Seq<isize>,
)
    requires
        has_entry(rows(&a.semaphore_need), tid, sem_id),
        rows(&a.semaphore_need)[tid][sem_id] < isize::MAX,
        sem_down_enter(a, b, tid, sem_id, counts, SyncAction::SemaphoreDown(sem_id as usize)),
        sem_down_exit(b, c, tid, sem_id),
    ensures
        rows(&c.semaphore_need) == rows(&a.semaphore_need),
        same_mutexes(a, c),
        same_semaphores(a, c),
        same_condvars(a, c),
        same_threads(a, c),
{
    let m = rows(&a.semaphore_need);
    assert(lowered_signed(raised_signed(m, tid, sem_id), tid, sem_id) =~= m) by {
        assert(raised_signed(m, tid, sem_id)[tid].update(sem_id, m[tid][sem_id]) =~= m[tid]);
    }
}

/// With deadlock detection off, a mutex lock is always passed on to the
/// kernel and its first half changes nothing.
pub proof fn lemma_mutex_lock_without_detection<M, S, C>(
    a: ProcessSync<M, S, C>,
    b: ProcessSync<M, S, C>,
    tid: int,
    mutex_id: int,
    locked: usize,
    r: SyncAction,
)
    requires
        !a.dead_lock_detect,
        mutex_lock_enter(a, b, tid, mutex_id, locked, r),
    ensures
        r == SyncAction::LockMutex(mutex_id as usize),
        same_mutexes(a, b),
        same_semaphores(a, b),
        same_condvars(a, b),
        same_threads(a, b),
{
}

/// With deadlock detection off, a semaphore down is always passed on to the
/// kernel.
pub proof fn lemma_semaphore_down_without_detection<M, S, C>(
    a: ProcessSync<M, S, C>,
    b: ProcessSync<M, S, C>,
    tid: int,
    sem_id: int,
    counts: Seq<isize>,
    r: SyncAction,
)
    requires
        !a.dead_lock_detect,
        sem_down_enter(a, b, tid, sem_id, counts, r),
    ensures
        r == SyncAction::SemaphoreDown(sem_id as usize),
{
}

/// A mutex lock is refused only when granting it leaves no thread that is
/// not finished able to get all the mutexes it waits for.
pub proof fn lemma_mutex_lock_refusal<M, S, C>(
    a: ProcessSync<M, S, C>,
    b: ProcessSync<M, S, C>,
    tid: int,
    mutex_id: int,
    locked: usize,
)
    requires
        mutex_lock_enter(a, b, tid, mutex_id, locked, SyncAction::Return(DEADLOCK)),
    ensures
        a.dead_lock_detect,
        forall|t: int| 0 <= t < a.finished@.len() && !a.finished@[t]
            ==> !mutex_row_satisfied(rows(&b.mutex_need)[t], locked),
{
}

/// A semaphore down is refused only when, with the new need counted, no
/// thread that is not finished can get all the semaphore units it waits for.
pub proof fn lemma_semaphore_down_refusal<M, S, C>(
    a: ProcessSync<M, S, C>,
    b: ProcessSync<M, S, C>,
    tid: int,
    sem_id: int,
    counts: Seq<isize>,
)
    requires
        sem_down_enter(a, b, tid, sem_id, counts, SyncAction::Return(DEADLOCK)),
    ensures
        a.dead_lock_detect,
        forall|t: int| 0 <= t < a.finished@.len() && t < b.semaphore_need@.len() && !a.finished@[t]
            ==> !sem_row_satisfied(rows(&b.semaphore_need)[t], counts),
{
}

} // verus!
