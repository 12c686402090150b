use bustub_storage::disk_scheduler::{DiskRequest, RequestQueue, ScheduleError, WorkerAction};

fn run_next(q: &mut RequestQueue) -> Option<(u64, i32)> {
    match q.next_action() {
        WorkerAction::Run { ticket, request } => Some((ticket, request.page_id())),
        _ => None,
    }
}

#[test]
fn requests_run_in_fifo_order() {
    let mut q = RequestQueue::new();
    assert_eq!(q.schedule(DiskRequest::Write { page_id: 3, data: vec![1; 4] }), Ok(0));
    assert_eq!(q.schedule(DiskRequest::Read { page_id: 3, data: vec![0; 4] }), Ok(1));
    assert_eq!(q.schedule(DiskRequest::Read { page_id: 9, data: vec![0; 4] }), Ok(2));
    assert_eq!(run_next(&mut q), Some((0, 3)));
    assert!(q.is_busy());
    q.complete(0);
    assert_eq!(run_next(&mut q), Some((1, 3)));
    q.complete(1);
    assert_eq!(run_next(&mut q), Some((2, 9)));
    q.complete(2);
    assert!(matches!(q.next_action(), WorkerAction::Wait));
}

#[test]
fn shutdown_drains_before_stopping() {
    let mut q = RequestQueue::new();
    q.schedule(DiskRequest::Write { page_id: 1, data: vec![2; 2] }).unwrap();
    q.schedule(DiskRequest::Write { page_id: 2, data: vec![3; 2] }).unwrap();
    q.shutdown();
    assert_eq!(
        q.schedule(DiskRequest::Read { page_id: 1, data: vec![0; 2] }),
        Err(ScheduleError::ShuttingDown)
    );
    let mut signaled = Vec::new();
    loop {
        match q.next_action() {
            WorkerAction::Run { ticket, .. } => {
                q.complete(ticket);
                signaled.push(ticket);
            }
            WorkerAction::Wait => panic!("worker told to wait during shutdown"),
            WorkerAction::Stop => break,
        }
    }
    assert_eq!(signaled, vec![0, 1]);
    assert!(!q.is_busy());
}

#[test]
fn idle_queue_waits_then_stops() {
    let mut q = RequestQueue::new();
    assert!(matches!(q.next_action(), WorkerAction::Wait));
    q.shutdown();
    assert!(matches!(q.next_action(), WorkerAction::Stop));
}
