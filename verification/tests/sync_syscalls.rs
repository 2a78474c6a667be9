use os_core::syscall::sync::{
    sys_condvar_create, sys_condvar_signal, sys_condvar_wait, sys_enable_deadlock_detect,
    sys_mutex_create, sys_mutex_lock, sys_mutex_lock_done, sys_mutex_unlock, sys_semaphore_create,
    semaphore_check_faults, sys_semaphore_down, sys_semaphore_down_done, sys_semaphore_up, sys_sleep, MutexKind,
    ProcessSync, SyncAction, DEADLOCK,
};

type Process = ProcessSync<MutexKind, usize, u8>;

fn kind(k: MutexKind) -> MutexKind {
    k
}

#[test]
fn mutex_create_appends_and_reuses_slots() {
    let mut p: Process = ProcessSync::new();
    assert_eq!(sys_mutex_create(&mut p, true, kind), 0);
    assert_eq!(sys_mutex_create(&mut p, false, kind), 1);
    assert_eq!(p.mutex_list, vec![Some(MutexKind::Blocking), Some(MutexKind::Spin)]);
    assert_eq!(p.mutex_need, vec![vec![0, 0]]);
    assert_eq!(p.mutex_alloc, vec![vec![0, 0]]);
    // an emptied slot is taken again, and the bookkeeping does not grow
    p.mutex_list[0] = None;
    assert_eq!(sys_mutex_create(&mut p, false, kind), 0);
    assert_eq!(p.mutex_list[0], Some(MutexKind::Spin));
    assert_eq!(p.mutex_need, vec![vec![0, 0]]);
}

#[test]
fn mutex_create_takes_the_first_empty_slot() {
    let mut p: Process = ProcessSync::new();
    for _ in 0..4 {
        sys_mutex_create(&mut p, true, kind);
    }
    p.mutex_list[3] = None;
    p.mutex_list[1] = None;
    assert_eq!(sys_mutex_create(&mut p, false, kind), 1);
    assert_eq!(sys_mutex_create(&mut p, false, kind), 3);
    assert_eq!(sys_mutex_create(&mut p, false, kind), 4);
    assert_eq!(p.mutex_need, vec![vec![0, 0, 0, 0, 0]]);
}

#[test]
fn mutex_create_adds_to_existing_first_row() {
    let mut p: Process = ProcessSync::new();
    p.mutex_need = vec![vec![7], vec![1, 2]];
    p.mutex_alloc = vec![vec![3], vec![]];
    p.mutex_list = vec![Some(MutexKind::Spin)];
    assert_eq!(sys_mutex_create(&mut p, true, kind), 1);
    assert_eq!(p.mutex_need, vec![vec![7, 0], vec![1, 2]]);
    assert_eq!(p.mutex_alloc, vec![vec![3, 0], vec![]]);
}

#[test]
fn semaphore_create_gives_ids_in_order() {
    let mut p: Process = ProcessSync::new();
    assert_eq!(sys_semaphore_create(&mut p, 3), 0);
    assert_eq!(sys_semaphore_create(&mut p, 5), 1);
    assert_eq!(p.semaphore_list, vec![Some(3), Some(5)]);
    assert_eq!(p.semaphore_need, vec![vec![0, 0]]);
    assert_eq!(p.semaphore_alloc, vec![vec![0, 0]]);
    p.semaphore_list[0] = None;
    assert_eq!(sys_semaphore_create(&mut p, 9), 0);
    assert_eq!(p.semaphore_list, vec![Some(9), Some(5)]);
}

#[test]
fn condvar_create_gives_ids_in_order() {
    let mut p: Process = ProcessSync::new();
    assert_eq!(sys_condvar_create(&mut p, 10), 0);
    assert_eq!(sys_condvar_create(&mut p, 11), 1);
    p.condvar_list[0] = None;
    assert_eq!(sys_condvar_create(&mut p, 12), 0);
    assert_eq!(p.condvar_list, vec![Some(12), Some(11)]);
    assert!(p.mutex_need.is_empty());
}

#[test]
fn enable_deadlock_detect_accepts_only_zero_and_one() {
    let mut p: Process = ProcessSync::new();
    assert_eq!(sys_enable_deadlock_detect(&mut p, 1), 0);
    assert!(p.dead_lock_detect);
    assert_eq!(sys_enable_deadlock_detect(&mut p, 2), -1);
    assert!(p.dead_lock_detect);
    assert_eq!(sys_enable_deadlock_detect(&mut p, 0), 0);
    assert!(!p.dead_lock_detect);
    assert_eq!(sys_enable_deadlock_detect(&mut p, 7), -1);
    assert!(!p.dead_lock_detect);
}

#[test]
fn mutex_lock_without_detection_changes_nothing() {
    let mut p: Process = ProcessSync::new();
    sys_mutex_create(&mut p, true, kind);
    assert_eq!(sys_mutex_lock(&mut p, 0, 0, 1), SyncAction::LockMutex(0));
    assert_eq!(p.mutex_need, vec![vec![0]]);
    assert_eq!(sys_mutex_lock_done(&mut p, 0, 0), 0);
    assert_eq!(p.mutex_need, vec![vec![0]]);
}

#[test]
fn mutex_lock_round_trip_with_detection() {
    let mut p: Process = ProcessSync::new();
    sys_mutex_create(&mut p, true, kind);
    sys_mutex_create(&mut p, true, kind);
    p.finished = vec![false];
    sys_enable_deadlock_detect(&mut p, 1);
    assert_eq!(sys_mutex_lock(&mut p, 0, 1, 1), SyncAction::LockMutex(1));
    assert_eq!(p.mutex_need, vec![vec![0, 1]]);
    assert_eq!(sys_mutex_lock_done(&mut p, 0, 1), 0);
    assert_eq!(p.mutex_need, vec![vec![0, 0]]);
}

#[test]
fn mutex_lock_refused_when_no_thread_can_proceed() {
    let mut p: Process = ProcessSync::new();
    sys_mutex_create(&mut p, true, kind);
    p.mutex_need = vec![vec![0], vec![2]];
    p.finished = vec![false, false];
    sys_enable_deadlock_detect(&mut p, 1);
    assert_eq!(sys_mutex_lock(&mut p, 0, 0, 0), SyncAction::Return(DEADLOCK));
    assert_eq!(DEADLOCK, -0xDEAD);
    // the refused need stays counted
    assert_eq!(p.mutex_need, vec![vec![1], vec![2]]);
}

#[test]
fn mutex_lock_granted_when_some_thread_can_proceed() {
    let mut p: Process = ProcessSync::new();
    sys_mutex_create(&mut p, true, kind);
    p.mutex_need = vec![vec![0], vec![2], vec![]];
    p.finished = vec![false, false, false];
    sys_enable_deadlock_detect(&mut p, 1);
    // thread 2 waits for nothing, so it can proceed
    assert_eq!(sys_mutex_lock(&mut p, 0, 0, 0), SyncAction::LockMutex(0));
}

#[test]
fn mutex_lock_ignores_finished_threads() {
    let mut p: Process = ProcessSync::new();
    sys_mutex_create(&mut p, true, kind);
    p.mutex_need = vec![vec![0], vec![0]];
    p.finished = vec![false, true];
    sys_enable_deadlock_detect(&mut p, 1);
    assert_eq!(sys_mutex_lock(&mut p, 0, 0, 0), SyncAction::Return(DEADLOCK));
}

#[test]
fn mutex_lock_with_detection_and_no_live_thread_is_refused() {
    let mut p: Process = ProcessSync::new();
    p.mutex_need = vec![vec![0]];
    p.finished = vec![true];
    sys_enable_deadlock_detect(&mut p, 1);
    // the mutex slot is not even looked at
    assert_eq!(sys_mutex_lock(&mut p, 0, 0, 0), SyncAction::Return(DEADLOCK));
}

#[test]
fn unlock_signal_and_wait_name_their_objects() {
    let mut p: Process = ProcessSync::new();
    sys_mutex_create(&mut p, true, kind);
    sys_condvar_create(&mut p, 1);
    assert_eq!(sys_mutex_unlock(&p, 0), SyncAction::UnlockMutex(0));
    assert_eq!(sys_condvar_signal(&p, 0), SyncAction::SignalCondvar(0));
    assert_eq!(
        sys_condvar_wait(&p, 0, 0),
        SyncAction::WaitCondvar { condvar_id: 0, mutex_id: 0 }
    );
}

#[test]
fn semaphore_up_marks_the_thread_finished() {
    let mut p: Process = ProcessSync::new();
    sys_semaphore_create(&mut p, 1);
    p.finished = vec![false, false];
    assert_eq!(sys_semaphore_up(&mut p, 1, 0), SyncAction::SemaphoreUp(0));
    assert_eq!(p.finished, vec![false, true]);
}

#[test]
fn semaphore_down_without_detection_counts_the_need() {
    let mut p: Process = ProcessSync::new();
    sys_semaphore_create(&mut p, 0);
    let counts = vec![0];
    assert_eq!(sys_semaphore_down(&mut p, 0, 0, &counts), SyncAction::SemaphoreDown(0));
    assert_eq!(p.semaphore_need, vec![vec![1]]);
    assert_eq!(sys_semaphore_down_done(&mut p, 0, 0), 0);
    assert_eq!(p.semaphore_need, vec![vec![0]]);
}

#[test]
fn semaphore_down_refused_when_no_thread_can_proceed() {
    let mut p: Process = ProcessSync::new();
    sys_semaphore_create(&mut p, 0);
    sys_semaphore_create(&mut p, 1);
    p.semaphore_need = vec![vec![0, 0], vec![0, 0]];
    p.finished = vec![false, false];
    sys_enable_deadlock_detect(&mut p, 1);
    // semaphore 1 has count 0 and both threads want one unit of it
    p.semaphore_need[1][1] = 1;
    let counts = vec![0, 0];
    assert_eq!(sys_semaphore_down(&mut p, 0, 1, &counts), SyncAction::Return(DEADLOCK));
    assert_eq!(p.semaphore_need, vec![vec![0, 1], vec![0, 1]]);
}

#[test]
fn semaphore_down_granted_when_count_suffices() {
    let mut p: Process = ProcessSync::new();
    sys_semaphore_create(&mut p, 0);
    sys_semaphore_create(&mut p, 1);
    p.semaphore_need = vec![vec![0, 0], vec![0, 0]];
    p.finished = vec![false, false];
    sys_enable_deadlock_detect(&mut p, 1);
    let counts = vec![0, 1];
    assert_eq!(sys_semaphore_down(&mut p, 0, 1, &counts), SyncAction::SemaphoreDown(1));
    assert_eq!(sys_semaphore_down_done(&mut p, 0, 1), 0);
    assert_eq!(p.semaphore_need, vec![vec![0, 0], vec![0, 0]]);
}

#[test]
fn semaphore_down_negative_count_offers_nothing() {
    let mut p: Process = ProcessSync::new();
    sys_semaphore_create(&mut p, 0);
    sys_semaphore_create(&mut p, 0);
    p.semaphore_need = vec![vec![0, 0]];
    p.finished = vec![false];
    sys_enable_deadlock_detect(&mut p, 1);
    let counts = vec![5, -3];
    assert_eq!(sys_semaphore_down(&mut p, 0, 1, &counts), SyncAction::Return(DEADLOCK));
}

#[test]
fn semaphore_down_ignores_semaphore_zero() {
    let mut p: Process = ProcessSync::new();
    sys_semaphore_create(&mut p, 0);
    p.semaphore_need = vec![vec![0]];
    p.finished = vec![false];
    sys_enable_deadlock_detect(&mut p, 1);
    let counts = vec![-1];
    assert_eq!(sys_semaphore_down(&mut p, 0, 0, &counts), SyncAction::SemaphoreDown(0));
    assert_eq!(p.semaphore_need, vec![vec![1]]);
}

#[test]
fn sleep_wakes_after_the_delay() {
    assert_eq!(sys_sleep(1000, 250), SyncAction::Sleep { expire_ms: 1250 });
    assert_eq!(sys_sleep(0, 0), SyncAction::Sleep { expire_ms: 0 });
}

#[test]
fn semaphore_check_faults_on_an_empty_slot_it_reaches() {
    let mut p: Process = ProcessSync::new();
    sys_semaphore_create(&mut p, 0);
    sys_semaphore_create(&mut p, 0);
    sys_semaphore_create(&mut p, 0);
    p.semaphore_need = vec![vec![0, 0, 0]];
    p.finished = vec![false];
    p.semaphore_list[2] = None;
    let counts = vec![0, 1, 0];
    // semaphore 1 is satisfied, so the check goes on to the empty slot 2
    assert!(semaphore_check_faults(&mut p, 0, 0, &counts));
    assert_eq!(p.semaphore_need, vec![vec![0, 0, 0]]);
    // with semaphore 1 short, the check stops before slot 2
    let counts = vec![0, 0, 0];
    p.semaphore_need[0][1] = 1;
    assert!(!semaphore_check_faults(&mut p, 0, 0, &counts));
}

#[test]
fn semaphore_check_faults_on_a_thread_without_row() {
    let mut p: Process = ProcessSync::new();
    sys_semaphore_create(&mut p, 0);
    p.semaphore_need = vec![vec![5]];
    p.finished = vec![true, false];
    let counts = vec![0];
    assert!(semaphore_check_faults(&mut p, 0, 0, &counts));
    p.finished = vec![false, false];
    // thread 0 waits only on semaphore 0, which the check skips
    assert!(!semaphore_check_faults(&mut p, 0, 0, &counts));
}

#[test]
fn semaphore_down_skips_finished_threads() {
    let mut p: Process = ProcessSync::new();
    sys_semaphore_create(&mut p, 0);
    sys_semaphore_create(&mut p, 0);
    p.semaphore_need = vec![vec![0, 0], vec![0, 0]];
    p.finished = vec![false, true];
    sys_enable_deadlock_detect(&mut p, 1);
    let counts = vec![0, 0];
    assert_eq!(sys_semaphore_down(&mut p, 0, 1, &counts), SyncAction::Return(DEADLOCK));
    p.finished = vec![false, false];
    assert_eq!(sys_semaphore_down(&mut p, 0, 1, &counts), SyncAction::SemaphoreDown(1));
    assert_eq!(p.semaphore_need, vec![vec![0, 2], vec![0, 0]]);
}

#[test]
fn semaphore_create_keeps_bookkeeping_in_step() {
    let mut p: Process = ProcessSync::new();
    p.semaphore_need = vec![vec![], vec![4]];
    p.semaphore_alloc = vec![vec![], vec![2]];
    assert_eq!(sys_semaphore_create(&mut p, 1), 0);
    assert_eq!(sys_semaphore_create(&mut p, 1), 1);
    assert_eq!(p.semaphore_need, vec![vec![0, 0], vec![4]]);
    assert_eq!(p.semaphore_alloc, vec![vec![0, 0], vec![2]]);
    p.semaphore_list[1] = None;
    assert_eq!(sys_semaphore_create(&mut p, 2), 1);
    assert_eq!(p.semaphore_need, vec![vec![0, 0], vec![4]]);
}
