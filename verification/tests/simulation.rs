use worker_pool::{
    DispatchChannel, Message, PoolPhase, Step, ThreadPool, WorkerLoop, WorkerState,
};

/// One pool with its channel and the loops of its workers, driven by hand in
/// a chosen order in place of threads.
struct Rig {
    channel: DispatchChannel<Message<u32>>,
    pool: ThreadPool<&'static str, usize>,
    workers: Vec<WorkerLoop>,
    in_hand: Vec<Option<u32>>,
    completed: Vec<u32>,
    spawned: Vec<usize>,
}

fn rig(size: usize) -> Rig {
    let mut pool = ThreadPool::new(size, "sender");
    let mut workers = Vec::new();
    let mut spawned = Vec::new();
    while let Some(id) = pool.next_worker() {
        workers.push(WorkerLoop::new(id));
        spawned.push(id);
        pool.add_worker(id);
    }
    let in_hand = workers.iter().map(|_| None).collect();
    Rig { channel: DispatchChannel::new(), pool, workers, in_hand, completed: Vec::new(), spawned }
}

/// Gives worker `id` one turn: an idle worker polls, an executing worker
/// finishes its task. Says whether anything changed.
fn turn(rig: &mut Rig, id: usize) -> bool {
    match rig.workers[id].state() {
        WorkerState::Idle => match rig.workers[id].poll(&mut rig.channel) {
            Step::Run(task) => {
                rig.in_hand[id] = Some(task);
                true
            }
            Step::Stop => true,
            Step::Wait => false,
        },
        WorkerState::Executing => {
            let task = rig.in_hand[id].take().unwrap();
            rig.completed.push(task);
            rig.workers[id].complete();
            true
        }
        WorkerState::Stopped => false,
    }
}

/// Shuts the pool down and joins the handles in order; a join waits by giving
/// turns, starting from worker `first`, until its worker has stopped.
fn destroy(rig: &mut Rig, first: usize) -> Vec<usize> {
    let handles = rig.pool.shutdown(&mut rig.channel);
    let count = rig.workers.len();
    let mut joined = Vec::new();
    for handle in handles {
        let mut next = first;
        while rig.workers[handle].state() != WorkerState::Stopped {
            turn(rig, next % count);
            next += 1;
        }
        joined.push(handle);
    }
    joined
}

fn sorted(mut values: Vec<u32>) -> Vec<u32> {
    values.sort();
    values
}

#[test]
fn idle_pool_spawns_and_joins_every_worker() {
    for size in 1..=8usize {
        let mut rig = rig(size);
        assert_eq!(rig.spawned, (0..size).collect::<Vec<usize>>());
        let joined = destroy(&mut rig, 0);
        assert_eq!(joined, (0..size).collect::<Vec<usize>>());
        assert!(rig.workers.iter().all(|w| w.state() == WorkerState::Stopped));
        assert!(rig.completed.is_empty());
        assert!(rig.channel.is_empty());
    }
}

#[test]
fn every_task_completes_exactly_once() {
    for size in 1..=5usize {
        for tasks in [0u32, 1, 2, 4, 5, 6, 17] {
            for first in 0..size {
                let mut rig = rig(size);
                for task in 0..tasks {
                    rig.pool.execute(&mut rig.channel, task);
                    if task % 3 == 0 {
                        turn(&mut rig, (task as usize + first) % size);
                    }
                }
                let joined = destroy(&mut rig, first);
                assert_eq!(joined.len(), size);
                assert_eq!(sorted(rig.completed.clone()), (0..tasks).collect::<Vec<u32>>());
                assert!(rig.channel.is_empty());
                assert!(rig.in_hand.iter().all(|t| t.is_none()));
            }
        }
    }
}

#[test]
fn first_task_runs_once() {
    let mut rig = rig(3);
    rig.pool.execute(&mut rig.channel, 77);
    assert!(turn(&mut rig, 1));
    assert_eq!(rig.in_hand[1], Some(77));
    assert!(!turn(&mut rig, 0));
    assert!(!turn(&mut rig, 2));
    assert!(turn(&mut rig, 1));
    assert_eq!(rig.completed, vec![77]);
    destroy(&mut rig, 0);
    assert_eq!(rig.completed, vec![77]);
}

#[test]
fn more_tasks_than_workers_are_all_run() {
    let mut rig = rig(2);
    for task in 0..9 {
        rig.pool.execute(&mut rig.channel, task);
    }
    assert_eq!(rig.channel.len(), 9);
    destroy(&mut rig, 1);
    assert_eq!(sorted(rig.completed.clone()), (0..9).collect::<Vec<u32>>());
}

#[test]
fn shutdown_waits_for_a_running_task() {
    let mut rig = rig(2);
    rig.pool.execute(&mut rig.channel, 5);
    assert!(turn(&mut rig, 1));
    assert_eq!(rig.workers[1].state(), WorkerState::Executing);

    let handles = rig.pool.shutdown(&mut rig.channel);
    assert_eq!(handles, vec![0, 1]);
    assert_eq!(rig.pool.phase(), PoolPhase::Closed);

    // Worker 0 is free to take its signal while worker 1 is still busy.
    assert!(turn(&mut rig, 0));
    assert_eq!(rig.workers[0].state(), WorkerState::Stopped);
    assert_eq!(rig.workers[1].state(), WorkerState::Executing);
    assert!(rig.completed.is_empty());

    // Worker 1 cannot be joined before its task is done and it has come
    // back for its own signal.
    assert!(turn(&mut rig, 1));
    assert_eq!(rig.completed, vec![5]);
    assert_eq!(rig.workers[1].state(), WorkerState::Idle);
    assert_eq!(rig.channel.len(), 1);
    assert!(turn(&mut rig, 1));
    assert_eq!(rig.workers[1].state(), WorkerState::Stopped);
    assert!(rig.channel.is_empty());
}

#[test]
fn two_tasks_both_run_whichever_worker_is_faster() {
    for order in [[0usize, 1], [1, 0]] {
        let mut rig = rig(2);
        rig.pool.execute(&mut rig.channel, 1);
        rig.pool.execute(&mut rig.channel, 2);
        assert!(turn(&mut rig, 0));
        assert!(turn(&mut rig, 1));
        assert_eq!(rig.in_hand, vec![Some(1), Some(2)]);
        assert!(turn(&mut rig, order[0]));
        assert!(turn(&mut rig, order[1]));
        let expected: Vec<u32> = order.iter().map(|w| *w as u32 + 1).collect();
        assert_eq!(rig.completed, expected);
        destroy(&mut rig, 0);
        assert_eq!(sorted(rig.completed.clone()), vec![1, 2]);
    }
}

#[test]
fn jobs_sent_before_shutdown_are_run_before_workers_stop() {
    let mut rig = rig(1);
    rig.pool.execute(&mut rig.channel, 10);
    rig.pool.execute(&mut rig.channel, 11);
    let handles = rig.pool.shutdown(&mut rig.channel);
    assert_eq!(handles, vec![0]);
    assert!(turn(&mut rig, 0));
    assert!(turn(&mut rig, 0));
    assert!(turn(&mut rig, 0));
    assert!(turn(&mut rig, 0));
    assert_eq!(rig.workers[0].state(), WorkerState::Idle);
    assert_eq!(rig.completed, vec![10, 11]);
    assert!(turn(&mut rig, 0));
    assert_eq!(rig.workers[0].state(), WorkerState::Stopped);
}

#[test]
fn worker_lost_to_a_failed_task_leaves_its_signal_unread() {
    let mut rig = rig(2);
    rig.pool.execute(&mut rig.channel, 1);
    rig.pool.execute(&mut rig.channel, 2);
    assert!(turn(&mut rig, 0));
    // The task of worker 0 fails: its loop is never heard of again.
    rig.in_hand[0] = None;
    let handles = rig.pool.shutdown(&mut rig.channel);
    assert_eq!(handles.len(), 2);
    while rig.workers[1].state() != WorkerState::Stopped {
        turn(&mut rig, 1);
    }
    assert_eq!(rig.completed, vec![2]);
    assert_eq!(rig.channel.len(), 1);
    assert!(matches!(rig.channel.receive(), Ok(Message::Terminate)));
}
