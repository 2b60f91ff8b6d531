use workshop::pool::{PoolError, ThreadPool};

#[test]
fn scenario_four_workers_ten_tasks() {
    let mut pool = ThreadPool::new(4).unwrap();
    for task in 0..10u64 {
        pool.execute(task).unwrap();
    }
    pool.dispose();
    let executed = pool.executed_tasks();
    assert_eq!(executed.len(), 10);
    for task in 0..10u64 {
        let occurrences = executed.iter().filter(|&&t| t == task).count();
        assert_eq!(occurrences, 1);
    }
}

#[test]
fn scenario_single_worker_keeps_order() {
    let mut pool = ThreadPool::new(1).unwrap();
    pool.execute(1).unwrap();
    pool.execute(2).unwrap();
    pool.dispose();
    assert_eq!(pool.executed_tasks(), &vec![1, 2]);
}

#[test]
fn scenario_immediate_disposal() {
    let mut pool = ThreadPool::new(2).unwrap();
    pool.dispose();
    assert!(pool.executed_tasks().is_empty());
    assert!(pool.all_workers_stopped());
    assert_eq!(pool.worker_count(), 2);
}

#[test]
fn scenario_zero_workers_refused() {
    assert!(matches!(ThreadPool::new(0), Err(PoolError::ZeroWorkers)));
}

#[test]
fn submission_alone_runs_nothing() {
    let mut pool = ThreadPool::new(3).unwrap();
    pool.execute(9).unwrap();
    assert!(pool.executed_tasks().is_empty());
    assert_eq!(pool.queued_count(), 1);
    pool.dispose();
    assert_eq!(pool.executed_tasks(), &vec![9]);
}

#[test]
fn submission_after_disposal_fails() {
    let mut pool = ThreadPool::new(2).unwrap();
    pool.dispose();
    assert!(pool.is_disposed());
    assert_eq!(pool.execute(5), Err(PoolError::Disposed));
    assert!(pool.executed_tasks().is_empty());
}

#[test]
fn worker_steps_drain_the_queue_in_order() {
    let mut pool = ThreadPool::new(2).unwrap();
    pool.execute(10).unwrap();
    pool.execute(20).unwrap();
    pool.worker_step(0);
    pool.worker_step(1);
    assert_eq!(pool.executed_tasks(), &vec![10, 20]);
    assert_eq!(pool.queued_count(), 0);
    pool.dispose();
    assert_eq!(pool.executed_tasks(), &vec![10, 20]);
    assert!(pool.all_workers_stopped());
}
