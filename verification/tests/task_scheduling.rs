use os_core::task::manager::{add_task, fetch_task, TaskManager as ReadyQueue};
use os_core::task::{
    exit_current_and_run_next, run_first_task, set_task_info, suspend_current_and_run_next,
    syscall_counter, syscall_inc, TaskManager, TaskStatus,
};

#[test]
fn fetch_takes_the_front_task() {
    let mut q: ReadyQueue<&str> = ReadyQueue::new();
    add_task(&mut q, "a");
    add_task(&mut q, "b");
    add_task(&mut q, "c");
    assert_eq!(fetch_task(&mut q), Some("a"));
    assert_eq!(q.len(), 2);
    assert_eq!(fetch_task(&mut q), Some("b"));
    assert_eq!(fetch_task(&mut q), Some("c"));
    assert_eq!(q.len(), 0);
}

#[test]
fn fetch_from_an_empty_queue_gives_nothing() {
    let mut q: ReadyQueue<u32> = ReadyQueue::new();
    assert_eq!(q.fetch(), None);
    assert_eq!(q.len(), 0);
}

#[test]
fn added_task_to_empty_queue_comes_back() {
    let mut q: ReadyQueue<u32> = ReadyQueue::new();
    q.add(7);
    assert_eq!(q.fetch(), Some(7));
    assert_eq!(q.fetch(), None);
}

#[test]
fn tasks_added_later_wait_behind_earlier_ones() {
    let mut q: ReadyQueue<u32> = ReadyQueue::new();
    q.add(10);
    q.add(20);
    assert_eq!(q.fetch(), Some(10));
    q.add(30);
    assert_eq!(q.fetch(), Some(20));
    assert_eq!(q.fetch(), Some(30));
    assert_eq!(q.fetch(), None);
}

#[test]
fn new_list_is_ready() {
    let m = TaskManager::new(3);
    assert_eq!(m.num_app(), 3);
    assert_eq!(m.current_task(), 0);
    for i in 0..3 {
        let t = m.task(i);
        assert_eq!(t.task_status, TaskStatus::Ready);
        assert_eq!(t.start_time, 0);
        assert_eq!(t.syscall_times, [0; 5]);
    }
}

#[test]
fn first_task_starts_running() {
    let mut m = TaskManager::new(2);
    assert_eq!(run_first_task(&mut m, 12_345), 0);
    assert_eq!(m.task(0).task_status, TaskStatus::Running);
    assert_eq!(m.task(0).start_time, 12);
    assert_eq!(m.task(1).task_status, TaskStatus::Ready);
}

#[test]
fn round_robin_goes_around() {
    let mut m = TaskManager::new(3);
    run_first_task(&mut m, 1_000);
    assert_eq!(suspend_current_and_run_next(&mut m, 2_000), Some((0, 1)));
    assert_eq!(m.task(1).start_time, 2);
    assert_eq!(suspend_current_and_run_next(&mut m, 3_000), Some((1, 2)));
    assert_eq!(suspend_current_and_run_next(&mut m, 4_000), Some((2, 0)));
    // task 0 keeps the start time it got first
    assert_eq!(m.task(0).start_time, 1);
    assert_eq!(m.task(0).task_status, TaskStatus::Running);
    assert_eq!(m.task(2).task_status, TaskStatus::Ready);
}

#[test]
fn yielding_alone_runs_itself_again() {
    let mut m = TaskManager::new(1);
    run_first_task(&mut m, 1_000);
    assert_eq!(suspend_current_and_run_next(&mut m, 2_000), Some((0, 0)));
    assert_eq!(m.task(0).start_time, 1);
}

#[test]
fn exited_tasks_are_skipped_until_none_is_left() {
    let mut m = TaskManager::new(3);
    run_first_task(&mut m, 0);
    assert_eq!(exit_current_and_run_next(&mut m, 5_000), Some((0, 1)));
    assert_eq!(m.task(0).task_status, TaskStatus::Exited);
    assert_eq!(exit_current_and_run_next(&mut m, 6_000), Some((1, 2)));
    assert_eq!(exit_current_and_run_next(&mut m, 7_000), None);
    assert_eq!(m.current_task(), 2);
    assert_eq!(m.task(2).task_status, TaskStatus::Exited);
}

#[test]
fn counted_syscalls_are_reported() {
    let mut m = TaskManager::new(2);
    run_first_task(&mut m, 10_000);
    syscall_inc(&mut m, 64);
    syscall_inc(&mut m, 64);
    syscall_inc(&mut m, 169);
    syscall_inc(&mut m, 410);
    syscall_inc(&mut m, 1); // not counted
    let info = set_task_info(&m, 25_999);
    assert_eq!(info.status, TaskStatus::Running);
    assert_eq!(info.time, 15);
    assert_eq!(
        info.syscall_times,
        [(64, 2), (93, 0), (124, 0), (169, 1), (410, 1)]
    );
    assert_eq!(m.task(0).syscall_times, [2, 0, 0, 1, 1]);
    assert_eq!(m.task(1).syscall_times, [0; 5]);
}

#[test]
fn syscall_counter_maps_the_counted_ids() {
    assert_eq!(syscall_counter(64), Some(0));
    assert_eq!(syscall_counter(93), Some(1));
    assert_eq!(syscall_counter(124), Some(2));
    assert_eq!(syscall_counter(169), Some(3));
    assert_eq!(syscall_counter(410), Some(4));
    assert_eq!(syscall_counter(63), None);
    assert_eq!(syscall_counter(0), None);
}

#[test]
fn counts_follow_the_current_task() {
    let mut m = TaskManager::new(2);
    run_first_task(&mut m, 0);
    syscall_inc(&mut m, 124);
    assert_eq!(suspend_current_and_run_next(&mut m, 3_000), Some((0, 1)));
    syscall_inc(&mut m, 93);
    let info = set_task_info(&m, 10_000);
    assert_eq!(info.time, 7);
    assert_eq!(info.syscall_times[1], (93, 1));
    assert_eq!(info.syscall_times[2], (124, 0));
    assert_eq!(m.task(0).syscall_times, [0, 0, 1, 0, 0]);
}

#[test]
fn exactly_one_task_runs_after_each_switch() {
    let mut m = TaskManager::new(4);
    run_first_task(&mut m, 0);
    let running = |m: &TaskManager| {
        (0..m.num_app())
            .filter(|i| m.task(*i).task_status == TaskStatus::Running)
            .collect::<Vec<usize>>()
    };
    assert_eq!(running(&m), vec![0]);
    suspend_current_and_run_next(&mut m, 1_000);
    assert_eq!(running(&m), vec![1]);
    exit_current_and_run_next(&mut m, 2_000);
    assert_eq!(running(&m), vec![2]);
    suspend_current_and_run_next(&mut m, 3_000);
    assert_eq!(running(&m), vec![3]);
    suspend_current_and_run_next(&mut m, 4_000);
    // task 1 exited, so after 3 comes 0 and then 2
    assert_eq!(running(&m), vec![0]);
    suspend_current_and_run_next(&mut m, 5_000);
    assert_eq!(running(&m), vec![2]);
    assert_eq!(m.task(1).task_status, TaskStatus::Exited);
}
