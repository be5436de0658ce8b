use worker_pool::{
    DispatchChannel, Message, PoolCreationError, PoolPhase, ReceiveError, ThreadPool,
};

fn assembled(size: usize) -> ThreadPool<&'static str, usize> {
    let mut pool = ThreadPool::new(size, "sender");
    while let Some(id) = pool.next_worker() {
        pool.add_worker(100 + id);
    }
    pool
}

#[test]
fn build_with_size_zero_is_refused() {
    let outcome: Result<ThreadPool<&str, usize>, PoolCreationError> = ThreadPool::build(0, "s");
    match outcome {
        Ok(_) => panic!("a pool of no workers was built"),
        Err(error) => assert_eq!(error, PoolCreationError::ZeroSize),
    }
}

#[test]
fn build_with_size_zero_asks_for_no_thread() {
    let mut asked = 0;
    if let Ok(pool) = ThreadPool::<&str, usize>::build(0, "s") {
        while pool.next_worker().is_some() {
            asked += 1;
            break;
        }
    }
    assert_eq!(asked, 0);
}

#[test]
fn build_starts_assembling_with_no_worker() {
    let pool: ThreadPool<&str, usize> = ThreadPool::build(3, "s").unwrap();
    assert_eq!(pool.size(), 3);
    assert_eq!(pool.worker_count(), 0);
    assert_eq!(pool.phase(), PoolPhase::Assembling);
    assert_eq!(pool.next_worker(), Some(0));
    assert_eq!(pool.sender(), Some(&"s"));
}

#[test]
fn new_starts_assembling_with_no_worker() {
    let pool: ThreadPool<&str, usize> = ThreadPool::new(1, "s");
    assert_eq!(pool.size(), 1);
    assert_eq!(pool.worker_count(), 0);
    assert_eq!(pool.phase(), PoolPhase::Assembling);
    assert_eq!(pool.next_worker(), Some(0));
}

#[test]
fn pool_asks_for_each_worker_once_in_order() {
    for size in 1..=6usize {
        let mut pool: ThreadPool<&str, usize> = ThreadPool::new(size, "s");
        let mut asked = Vec::new();
        while let Some(id) = pool.next_worker() {
            asked.push(id);
            pool.add_worker(id * 10);
        }
        assert_eq!(asked, (0..size).collect::<Vec<usize>>());
        assert_eq!(pool.worker_count(), size);
        assert_eq!(pool.phase(), PoolPhase::Running);
        assert_eq!(pool.next_worker(), None);
    }
}

#[test]
fn try_add_worker_accepts_created_threads() {
    let mut pool: ThreadPool<&str, usize> = ThreadPool::build(2, "s").unwrap();
    assert_eq!(pool.try_add_worker(Ok(11)), Ok(()));
    assert_eq!(pool.phase(), PoolPhase::Assembling);
    assert_eq!(pool.next_worker(), Some(1));
    assert_eq!(pool.try_add_worker(Ok(12)), Ok(()));
    assert_eq!(pool.phase(), PoolPhase::Running);
    assert_eq!(pool.worker_count(), 2);
}

#[test]
fn creation_failure_names_the_worker_and_the_cause() {
    for failing in 0..4usize {
        let mut pool: ThreadPool<&str, usize> = ThreadPool::build(4, "s").unwrap();
        let mut created = 0;
        let mut error = None;
        while let Some(id) = pool.next_worker() {
            let spawned = if id == failing { Err(format!("refused {}", id)) } else { Ok(id) };
            match pool.try_add_worker(spawned) {
                Ok(()) => created += 1,
                Err(e) => error = Some(e),
            }
        }
        assert_eq!(
            error,
            Some(PoolCreationError::WorkerCreationFailed(failing, format!("refused {}", failing)))
        );
        assert_eq!(created, failing);
        assert_eq!(pool.worker_count(), failing);
        assert_eq!(pool.phase(), PoolPhase::Aborted);
        assert_eq!(pool.next_worker(), None);
    }
}

#[test]
fn aborted_pool_tears_down_the_workers_it_has() {
    let mut channel: DispatchChannel<Message<u32>> = DispatchChannel::new();
    let mut pool: ThreadPool<&str, usize> = ThreadPool::build(5, "s").unwrap();
    assert_eq!(pool.try_add_worker(Ok(70)), Ok(()));
    assert_eq!(pool.try_add_worker(Ok(71)), Ok(()));
    assert!(pool.try_add_worker(Err("no more".to_string())).is_err());
    let handles = pool.shutdown(&mut channel);
    assert_eq!(handles, vec![70, 71]);
    assert_eq!(channel.len(), 2);
    assert!(matches!(channel.receive(), Ok(Message::Terminate)));
    assert!(matches!(channel.receive(), Ok(Message::Terminate)));
    assert!(matches!(channel.receive(), Err(ReceiveError::Disconnected)));
    assert_eq!(pool.phase(), PoolPhase::Closed);
}

#[test]
fn failure_of_the_first_worker_leaves_nothing_to_tear_down() {
    let mut channel: DispatchChannel<Message<u32>> = DispatchChannel::new();
    let mut pool: ThreadPool<&str, usize> = ThreadPool::build(2, "s").unwrap();
    assert_eq!(
        pool.try_add_worker(Err("denied".to_string())),
        Err(PoolCreationError::WorkerCreationFailed(0, "denied".to_string()))
    );
    let handles = pool.shutdown(&mut channel);
    assert!(handles.is_empty());
    assert_eq!(channel.len(), 0);
    assert!(!channel.is_sender_open());
}

#[test]
fn execute_queues_one_job_per_task_in_order() {
    let mut channel = DispatchChannel::new();
    let pool = assembled(2);
    pool.execute(&mut channel, "first");
    pool.execute(&mut channel, "second");
    pool.execute(&mut channel, "third");
    assert_eq!(channel.len(), 3);
    assert!(matches!(channel.receive(), Ok(Message::NewJob("first"))));
    assert!(matches!(channel.receive(), Ok(Message::NewJob("second"))));
    assert!(matches!(channel.receive(), Ok(Message::NewJob("third"))));
    assert_eq!(pool.phase(), PoolPhase::Running);
}

#[test]
fn shutdown_sends_one_terminate_per_worker_behind_the_jobs() {
    let mut channel = DispatchChannel::new();
    let mut pool = assembled(3);
    pool.execute(&mut channel, 1u32);
    pool.execute(&mut channel, 2u32);
    let handles = pool.shutdown(&mut channel);
    assert_eq!(handles, vec![100, 101, 102]);
    assert_eq!(channel.len(), 5);
    assert!(!channel.is_sender_open());
    assert!(channel.is_receiver_open());
    assert!(matches!(channel.receive(), Ok(Message::NewJob(1))));
    assert!(matches!(channel.receive(), Ok(Message::NewJob(2))));
    assert!(matches!(channel.receive(), Ok(Message::Terminate)));
    assert!(matches!(channel.receive(), Ok(Message::Terminate)));
    assert!(matches!(channel.receive(), Ok(Message::Terminate)));
    assert!(matches!(channel.receive(), Err(ReceiveError::Disconnected)));
}

#[test]
fn shutdown_disposes_of_the_sender_and_closes_the_pool() {
    let mut channel: DispatchChannel<Message<u32>> = DispatchChannel::new();
    let mut pool = assembled(2);
    assert_eq!(pool.sender(), Some(&"sender"));
    let _ = pool.shutdown(&mut channel);
    assert_eq!(pool.sender(), None);
    assert_eq!(pool.phase(), PoolPhase::Closed);
    assert_eq!(pool.next_worker(), None);
    assert_eq!(pool.worker_count(), 2);
    assert_eq!(pool.size(), 2);
}

#[test]
fn second_shutdown_does_nothing() {
    let mut channel: DispatchChannel<Message<u32>> = DispatchChannel::new();
    let mut pool = assembled(2);
    let first = pool.shutdown(&mut channel);
    assert_eq!(first.len(), 2);
    assert_eq!(channel.len(), 2);
    let second = pool.shutdown(&mut channel);
    assert!(second.is_empty());
    assert_eq!(channel.len(), 2);
    assert_eq!(pool.phase(), PoolPhase::Closed);
}

#[test]
fn shutdown_while_assembling_covers_the_workers_so_far() {
    let mut channel: DispatchChannel<Message<u32>> = DispatchChannel::new();
    let mut pool: ThreadPool<&str, usize> = ThreadPool::new(4, "s");
    pool.add_worker(9);
    let handles = pool.shutdown(&mut channel);
    assert_eq!(handles, vec![9]);
    assert_eq!(channel.len(), 1);
}
