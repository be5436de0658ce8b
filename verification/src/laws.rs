//! What the protocol guarantees, proved of every interleaving.

use crate::channel::ReceiveError;
use crate::message::Message;
use crate::pool::terminations;
use crate::protocol::{
    activity_cost, carries, holds, is_stopped, is_task, is_terminate, message_cost, Activity,
    Event, System,
};
use crate::tally::{
    lemma_tally_bound, lemma_tally_concat, lemma_tally_drop_first, lemma_tally_push,
    lemma_tally_uniform, lemma_tally_update, lemma_tally_zero, tally,
};
use vstd::prelude::*;

verus! {

/// A freshly created pool of at least one worker satisfies the invariant.
pub proof fn lemma_start_inv<T>(size: nat)
    requires
        size > 0,
    ensures
        System::<T>::start(size).inv(),
{
    let s = System::<T>::start(size);
    lemma_tally_zero(s.workers, is_stopped::<T>());
    assert(s.accounted()) by {
        assert forall|task: T| #[trigger]
            tally(s.submitted, is_task(task)) == tally(s.channel.queue, carries(task)) + tally(
                s.workers,
                holds(task),
            ) + tally(s.completed, is_task(task)) + tally(s.failed, is_task(task)) by {
            lemma_tally_zero(s.workers, holds(task));
        }
    }
}

/// A submission keeps the invariant.
proof fn lemma_submit_inv<T>(s: System<T>, task: T)
    requires
        s.inv(),
        s.enabled(Event::Submit(task)),
    ensures
        s.step(Event::Submit(task)).inv(),
{
    let s2 = s.step(Event::Submit(task));
    let message = Message::NewJob(task);
    assert(s2.channel.queue == s.channel.queue.push(message));
    lemma_tally_push(s.channel.queue, message, is_terminate::<T>());
    assert(s2.accounted()) by {
        assert forall|x: T| #[trigger]
            tally(s2.submitted, is_task(x)) == tally(s2.channel.queue, carries(x)) + tally(
                s2.workers,
                holds(x),
            ) + tally(s2.completed, is_task(x)) + tally(s2.failed, is_task(x)) by {
            assert(tally(s.submitted, is_task(x)) == tally(s.channel.queue, carries(x)) + tally(
                s.workers,
                holds(x),
            ) + tally(s.completed, is_task(x)) + tally(s.failed, is_task(x)));
            lemma_tally_push(s.submitted, task, is_task(x));
            lemma_tally_push(s.channel.queue, message, carries(x));
        }
    }
}

/// A worker's turn at the channel keeps the invariant, and under the
/// invariant it never finds the channel disconnected.
proof fn lemma_poll_inv<T>(s: System<T>, i: int)
    requires
        s.inv(),
        s.enabled(Event::Poll(i)),
    ensures
        s.step(Event::Poll(i)).inv(),
        s.channel.next() is Ok,
{
    let s2 = s.step(Event::Poll(i));
    let queue = s.channel.queue;
    assert(s.workers[i] is Idle);
    assert(is_stopped::<T>()(s.workers[i]) == 0);
    assert forall|k: int| 0 <= k < s.workers.len() implies is_stopped::<T>()(
        #[trigger] s.workers[k],
    ) <= 1 by {}
    lemma_tally_bound(s.workers, is_stopped::<T>());
    assert(tally(s.workers, is_stopped::<T>()) < s.workers.len());
    if queue.len() == 0 {
        // Disconnected: the counts rule it out.
        assert(!s.running);
        assert(false);
    }
    let head = queue[0];
    let activity = Activity::from_step(crate::worker::reaction(s.channel.next()).1);
    assert(s2.channel.queue == queue.drop_first());
    assert(s2.workers == s.workers.update(i, activity));
    lemma_tally_drop_first(queue, is_terminate::<T>());
    lemma_tally_update(s.workers, i, activity, is_stopped::<T>());
    assert(s.channel.receiver_open);
    assert(s2.shaped()) by {
        assert forall|k: int| 0 <= k < s2.joined implies s2.workers[k] is Stopped by {
            assert(s.workers[k] is Stopped);
        }
        assert forall|a: int, b: int|
            0 <= a <= b < s2.channel.queue.len()
                && s2.channel.queue[a] is Terminate implies s2.channel.queue[b] is Terminate by {
            assert(queue[a + 1] is Terminate);
            assert(queue[b + 1] is Terminate);
        }
        if s.running {
            assert forall|j: int| 0 <= j < s2.channel.queue.len() implies s2.channel.queue[j]
                is NewJob by {
                assert(queue[j + 1] is NewJob);
            }
        }
    }
    assert(s2.signalled()) by {
        match head {
            Message::NewJob(task) => {},
            Message::Terminate => {
                assert(!s.running) by {
                    if s.running {
                        assert(queue[0] is NewJob);
                    }
                }
            },
        }
    }
    assert(s2.drained()) by {
        if !s2.running && tally(s2.channel.queue, is_terminate::<T>()) < s2.workers.len() {
            assert forall|j: int| 0 <= j < s2.channel.queue.len() implies s2.channel.queue[j]
                is Terminate by {
                if head is Terminate {
                    assert(queue[j + 1] is Terminate);
                } else {
                    assert(queue[j + 1] is Terminate);
                }
            }
        }
    }
    assert(s2.accounted()) by {
        assert forall|x: T| #[trigger]
            tally(s2.submitted, is_task(x)) == tally(s2.channel.queue, carries(x)) + tally(
                s2.workers,
                holds(x),
            ) + tally(s2.completed, is_task(x)) + tally(s2.failed, is_task(x)) by {
            assert(tally(s.submitted, is_task(x)) == tally(s.channel.queue, carries(x)) + tally(
                s.workers,
                holds(x),
            ) + tally(s.completed, is_task(x)) + tally(s.failed, is_task(x)));
            lemma_tally_drop_first(queue, carries(x));
            lemma_tally_update(s.workers, i, activity, holds(x));
        }
    }
}

/// The end of a task keeps the invariant.
proof fn lemma_complete_inv<T>(s: System<T>, i: int)
    requires
        s.inv(),
        s.enabled(Event::Complete(i)),
    ensures
        s.step(Event::Complete(i)).inv(),
{
    let s2 = s.step(Event::Complete(i));
    let task = s.workers[i]->0;
    assert(s.workers[i] == Activity::Executing(task));
    lemma_tally_update(s.workers, i, Activity::Idle, is_stopped::<T>());
    assert(s.channel.receiver_open);
    assert(s2.shaped()) by {
        assert forall|k: int| 0 <= k < s2.joined implies s2.workers[k] is Stopped by {
            assert(s.workers[k] is Stopped);
        }
    }
    assert(s2.accounted()) by {
        assert forall|x: T| #[trigger]
            tally(s2.submitted, is_task(x)) == tally(s2.channel.queue, carries(x)) + tally(
                s2.workers,
                holds(x),
            ) + tally(s2.completed, is_task(x)) + tally(s2.failed, is_task(x)) by {
            assert(tally(s.submitted, is_task(x)) == tally(s.channel.queue, carries(x)) + tally(
                s.workers,
                holds(x),
            ) + tally(s.completed, is_task(x)) + tally(s.failed, is_task(x)));
            lemma_tally_update(s.workers, i, Activity::Idle, holds(x));
            lemma_tally_push(s.completed, task, is_task(x));
        }
    }
}

/// The failure of a task keeps the invariant.
proof fn lemma_fail_inv<T>(s: System<T>, i: int)
    requires
        s.inv(),
        s.enabled(Event::Fail(i)),
    ensures
        s.step(Event::Fail(i)).inv(),
{
    let s2 = s.step(Event::Fail(i));
    let task = s.workers[i]->0;
    assert(s.workers[i] == Activity::Executing(task));
    lemma_tally_update(s.workers, i, Activity::Stopped, is_stopped::<T>());
    assert(s2.shaped()) by {
        assert forall|k: int| 0 <= k < s2.joined implies s2.workers[k] is Stopped by {
            if k != i {
                assert(s.workers[k] is Stopped);
            }
        }
        if !s2.channel.receiver_open {
            assert forall|k: int| 0 <= k < s2.workers.len() implies s2.workers[k]
                is Stopped by {
                assert(s.workers[k] is Stopped);
            }
        }
    }
    assert(s2.accounted()) by {
        assert forall|x: T| #[trigger]
            tally(s2.submitted, is_task(x)) == tally(s2.channel.queue, carries(x)) + tally(
                s2.workers,
                holds(x),
            ) + tally(s2.completed, is_task(x)) + tally(s2.failed, is_task(x)) by {
            assert(tally(s.submitted, is_task(x)) == tally(s.channel.queue, carries(x)) + tally(
                s.workers,
                holds(x),
            ) + tally(s.completed, is_task(x)) + tally(s.failed, is_task(x)));
            lemma_tally_update(s.workers, i, Activity::Stopped, holds(x));
            lemma_tally_push(s.failed, task, is_task(x));
        }
    }
}

/// Shutdown keeps the invariant.
proof fn lemma_shutdown_inv<T>(s: System<T>)
    requires
        s.inv(),
        s.enabled(Event::Shutdown),
    ensures
        s.step(Event::Shutdown).inv(),
{
    let s2 = s.step(Event::Shutdown);
    let queue = s.channel.queue;
    let signals = terminations::<T>(s.workers.len());
    assert(s2.channel.queue == queue + signals);
    lemma_tally_concat(queue, signals, is_terminate::<T>());
    lemma_tally_zero(queue, is_terminate::<T>());
    lemma_tally_uniform(signals, is_terminate::<T>(), 1);
    assert(tally(s2.channel.queue, is_terminate::<T>()) == s.workers.len());
    assert(s2.accounted()) by {
        assert forall|x: T| #[trigger]
            tally(s2.submitted, is_task(x)) == tally(s2.channel.queue, carries(x)) + tally(
                s2.workers,
                holds(x),
            ) + tally(s2.completed, is_task(x)) + tally(s2.failed, is_task(x)) by {
            assert(tally(s.submitted, is_task(x)) == tally(s.channel.queue, carries(x)) + tally(
                s.workers,
                holds(x),
            ) + tally(s.completed, is_task(x)) + tally(s.failed, is_task(x)));
            lemma_tally_concat(queue, signals, carries(x));
            lemma_tally_zero(signals, carries(x));
        }
    }
}

/// Whatever happens next, the invariant is kept.
pub proof fn lemma_step_inv<T>(s: System<T>, event: Event<T>)
    requires
        s.inv(),
        s.enabled(event),
    ensures
        s.step(event).inv(),
{
    match event {
        Event::Submit(task) => lemma_submit_inv(s, task),
        Event::Poll(i) => lemma_poll_inv(s, i),
        Event::Complete(i) => lemma_complete_inv(s, i),
        Event::Fail(i) => lemma_fail_inv(s, i),
        Event::Withdraw => {
            let s2 = s.step(event);
            assert(s2.accounted()) by {
                assert forall|x: T| #[trigger]
                    tally(s2.submitted, is_task(x)) == tally(s2.channel.queue, carries(x))
                        + tally(s2.workers, holds(x)) + tally(s2.completed, is_task(x)) + tally(
                        s2.failed,
                        is_task(x),
                    ) by {
                    assert(tally(s.submitted, is_task(x)) == tally(s.channel.queue, carries(x))
                        + tally(s.workers, holds(x)) + tally(s.completed, is_task(x)) + tally(
                        s.failed,
                        is_task(x),
                    ));
                }
            }
        },
        Event::Shutdown => lemma_shutdown_inv(s),
        Event::Join => {
            let s2 = s.step(event);
            assert(s2.accounted()) by {
                assert forall|x: T| #[trigger]
                    tally(s2.submitted, is_task(x)) == tally(s2.channel.queue, carries(x))
                        + tally(s2.workers, holds(x)) + tally(s2.completed, is_task(x)) + tally(
                        s2.failed,
                        is_task(x),
                    ) by {
                    assert(tally(s.submitted, is_task(x)) == tally(s.channel.queue, carries(x))
                        + tally(s.workers, holds(x)) + tally(s.completed, is_task(x)) + tally(
                        s.failed,
                        is_task(x),
                    ));
                }
            }
        },
    }
}

/// The invariant holds after every sequence of events that a pool of at
/// least one worker admits from its creation on.
pub proof fn lemma_run_inv<T>(size: nat, events: Seq<Event<T>>)
    requires
        size > 0,
        System::<T>::start(size).admits(events),
    ensures
        System::<T>::start(size).run(events).inv(),
    decreases events.len(),
{
    if events.len() == 0 {
        lemma_start_inv::<T>(size);
    } else {
        lemma_run_inv::<T>(size, events.drop_last());
        lemma_step_inv(System::<T>::start(size).run(events.drop_last()), events.last());
    }
}

/// Counting the occurrences of a task in a sequence agrees with the
/// multiset of the sequence.
pub proof fn lemma_tally_is_count<T>(s: Seq<T>, task: T)
    ensures
        tally(s, is_task(task)) == s.to_multiset().count(task),
    decreases s.len(),
{
    if s.len() == 0 {
        s.to_multiset_ensures();
        assert(s.to_multiset().len() == 0);
        assert(s.to_multiset().count(task) == 0) by {
            if s.to_multiset().count(task) > 0 {
                assert(s.contains(task));
            }
        }
    } else {
        let front = s.drop_last();
        lemma_tally_is_count(front, task);
        vstd::seq_lib::to_multiset_build(front, s.last());
        assert(front.push(s.last()) =~= s);
    }
}

/// No task runs twice: at every moment the tasks completed and failed are
/// among those submitted, each no more often than it was submitted.
pub proof fn law_never_twice<T>(s: System<T>)
    requires
        s.inv(),
    ensures
        s.completed.to_multiset().add(s.failed.to_multiset()).subset_of(
            s.submitted.to_multiset(),
        ),
{
    let done = s.completed.to_multiset().add(s.failed.to_multiset());
    assert forall|x: T| done.count(x) <= s.submitted.to_multiset().count(x) by {
        assert(tally(s.submitted, is_task(x)) == tally(s.channel.queue, carries(x)) + tally(
            s.workers,
            holds(x),
        ) + tally(s.completed, is_task(x)) + tally(s.failed, is_task(x)));
        lemma_tally_is_count(s.submitted, x);
        lemma_tally_is_count(s.completed, x);
        lemma_tally_is_count(s.failed, x);
    }
}

/// No task is lost: when shutdown has joined every worker and at least one
/// worker outlived its tasks, every task submitted has either completed or
/// failed, exactly as often as it was submitted, and no job is left on the
/// channel.
pub proof fn law_every_task_accounted<T>(s: System<T>)
    requires
        s.inv(),
        s.finished(),
        s.failed.len() < s.workers.len(),
    ensures
        s.submitted.to_multiset() =~= s.completed.to_multiset().add(s.failed.to_multiset()),
        forall|j: int| 0 <= j < s.channel.queue.len() ==> s.channel.queue[j] is Terminate,
        forall|i: int| 0 <= i < s.workers.len() ==> s.workers[i] is Stopped,
{
    lemma_tally_uniform(s.workers, is_stopped::<T>(), 1);
    assert(tally(s.channel.queue, is_terminate::<T>()) == s.failed.len());
    let done = s.completed.to_multiset().add(s.failed.to_multiset());
    assert forall|x: T| s.submitted.to_multiset().count(x) == done.count(x) by {
        assert(tally(s.submitted, is_task(x)) == tally(s.channel.queue, carries(x)) + tally(
            s.workers,
            holds(x),
        ) + tally(s.completed, is_task(x)) + tally(s.failed, is_task(x)));
        lemma_tally_zero(s.channel.queue, carries(x));
        lemma_tally_zero(s.workers, holds(x));
        lemma_tally_is_count(s.submitted, x);
        lemma_tally_is_count(s.completed, x);
        lemma_tally_is_count(s.failed, x);
    }
}

/// Every task runs exactly once: when shutdown has joined every worker and
/// no task has failed, the tasks completed are the tasks submitted, each as
/// often as it was submitted, and the channel is empty.
pub proof fn law_every_task_runs_once<T>(s: System<T>)
    requires
        s.inv(),
        s.finished(),
        s.failed.len() == 0,
    ensures
        s.completed.to_multiset() =~= s.submitted.to_multiset(),
        s.completed.len() == s.submitted.len(),
        s.channel.queue.len() == 0,
{
    law_every_task_accounted(s);
    lemma_tally_uniform(s.workers, is_stopped::<T>(), 1);
    lemma_tally_zero(s.channel.queue, is_terminate::<T>());
    if s.channel.queue.len() > 0 {
        assert(s.channel.queue[0] is Terminate);
        assert(is_terminate::<T>()(s.channel.queue[0]) == 0);
    }
    s.failed.to_multiset_ensures();
    assert(s.failed.to_multiset() =~= vstd::multiset::Multiset::<T>::empty()) by {
        assert forall|x: T| s.failed.to_multiset().count(x) == 0 by {
            if s.failed.to_multiset().count(x) > 0 {
                assert(s.failed.contains(x));
            }
        }
    }
    assert(s.completed.to_multiset().add(s.failed.to_multiset()) =~= s.completed.to_multiset());
    s.completed.to_multiset_ensures();
    s.submitted.to_multiset_ensures();
}

/// The same of every interleaving: whatever a pool of at least one worker
/// has been through since its creation, once shutdown has joined every
/// worker and no task has failed, the tasks completed are the tasks
/// submitted.
pub proof fn law_every_run_completes_its_tasks<T>(size: nat, events: Seq<Event<T>>)
    requires
        size > 0,
        System::<T>::start(size).admits(events),
        System::<T>::start(size).run(events).finished(),
        System::<T>::start(size).run(events).failed.len() == 0,
    ensures
        System::<T>::start(size).run(events).completed.to_multiset()
            =~= System::<T>::start(size).run(events).submitted.to_multiset(),
{
    lemma_run_inv::<T>(size, events);
    law_every_task_runs_once(System::<T>::start(size).run(events));
}

/// A single task submitted to a pool is found completed, once and only
/// once, when shutdown has joined every worker, unless it failed.
pub proof fn law_single_task_runs_once<T>(s: System<T>, task: T)
    requires
        s.inv(),
        s.finished(),
        s.failed.len() == 0,
        s.submitted == seq![task],
    ensures
        s.completed == seq![task],
{
    law_every_task_runs_once(s);
    s.completed.to_multiset_ensures();
    s.submitted.to_multiset_ensures();
    assert(s.completed.len() == 1);
    assert(s.completed.contains(s.completed[0]));
    assert(s.completed.to_multiset().count(s.completed[0]) > 0);
    assert(s.submitted.contains(s.completed[0]));
    assert(s.completed =~= seq![task]);
}

/// Shutdown never deadlocks: while a worker is still to be joined, that
/// worker can always move. If its thread has ended it is joined; if it is
/// running a task the join waits and the task can finish; if it is idle a
/// message is waiting for it on the channel.
pub proof fn law_shutdown_progress<T>(s: System<T>)
    requires
        s.inv(),
        !s.running,
        s.joined < s.workers.len(),
    ensures
        match s.workers[s.joined as int] {
            Activity::Stopped => s.enabled(Event::Join),
            Activity::Executing(_) => {
                &&& !s.enabled(Event::Join)
                &&& s.enabled(Event::Complete(s.joined as int))
            },
            Activity::Idle => {
                &&& !s.enabled(Event::Join)
                &&& s.enabled(Event::Poll(s.joined as int))
                &&& s.channel.queue.len() > 0
            },
        },
{
    let i = s.joined as int;
    if s.workers[i] is Idle {
        assert(is_stopped::<T>()(s.workers[i]) == 0);
        assert forall|k: int| 0 <= k < s.workers.len() implies is_stopped::<T>()(
            #[trigger] s.workers[k],
        ) <= 1 by {}
        lemma_tally_bound(s.workers, is_stopped::<T>());
        if s.channel.queue.len() == 0 {
            assert(tally(s.channel.queue, is_terminate::<T>()) == 0);
        }
    }
}

/// Shutdown comes to an end: every event but a submission and the shutdown
/// itself lowers the rank, so after shutdown only as many events can follow
/// as the rank says.
pub proof fn law_rank_decreases<T>(s: System<T>, event: Event<T>)
    requires
        s.inv(),
        s.enabled(event),
        event !is Submit,
        event !is Shutdown,
    ensures
        s.step(event).rank() < s.rank(),
{
    let s2 = s.step(event);
    match event {
        Event::Poll(i) => {
            let activity = Activity::from_step(crate::worker::reaction(s.channel.next()).1);
            lemma_tally_update(s.workers, i, activity, activity_cost::<T>());
            assert(activity_cost::<T>()(s.workers[i]) == 1);
            if s.channel.queue.len() > 0 {
                let head = s.channel.queue[0];
                lemma_tally_drop_first(s.channel.queue, message_cost::<T>());
                match head {
                    Message::NewJob(task) => {
                        assert(activity == Activity::Executing(task));
                        assert(message_cost::<T>()(head) == 3);
                        assert(activity_cost::<T>()(activity) == 2);
                    },
                    Message::Terminate => {
                        assert(activity == Activity::<T>::Stopped);
                        assert(message_cost::<T>()(head) == 1);
                        assert(activity_cost::<T>()(activity) == 0);
                    },
                }
            } else {
                assert(activity == Activity::<T>::Stopped);
                assert(activity_cost::<T>()(activity) == 0);
            }
        },
        Event::Complete(i) => {
            lemma_tally_update(s.workers, i, Activity::Idle, activity_cost::<T>());
        },
        Event::Fail(i) => {
            lemma_tally_update(s.workers, i, Activity::Stopped, activity_cost::<T>());
        },
        _ => {},
    }
}

/// A worker that is running a task leaves that state only when the task
/// finishes or fails, and is not joined before.
pub proof fn law_running_task_is_waited_for<T>(s: System<T>, event: Event<T>, i: int)
    requires
        s.inv(),
        s.enabled(event),
        0 <= i < s.workers.len(),
        s.workers[i] is Executing,
    ensures
        s.step(event).workers[i] == s.workers[i] || event == Event::<T>::Complete(i) || event
            == Event::<T>::Fail(i),
        s.joined <= i,
        event is Join ==> s.joined < i,
{
    if s.joined > i {
        assert(s.workers[i] is Stopped);
    }
}

/// A worker stops only because it took a terminate signal off the channel
/// or because its task failed: under the invariant no worker ever finds the
/// channel disconnected.
pub proof fn law_worker_stops_on_signal<T>(s: System<T>, event: Event<T>, i: int)
    requires
        s.inv(),
        s.enabled(event),
        0 <= i < s.workers.len(),
        s.workers[i] !is Stopped,
        s.step(event).workers[i] is Stopped,
    ensures
        event == Event::<T>::Fail(i) || (event == Event::<T>::Poll(i) && s.channel.next()
            == Ok::<Message<T>, ReceiveError>(Message::Terminate)),
{
    match event {
        Event::Poll(k) => {
            lemma_poll_inv(s, k);
        },
        _ => {},
    }
}

/// Work accepted before shutdown is still done: shutdown puts its terminate
/// signals behind every job already on the channel, so a worker meets a
/// signal only when no job is left.
pub proof fn law_jobs_before_signals<T>(s: System<T>, i: int)
    requires
        s.inv(),
        s.enabled(Event::Poll(i)),
        s.channel.next() == Ok::<Message<T>, ReceiveError>(Message::Terminate),
    ensures
        forall|j: int| 0 <= j < s.channel.queue.len() ==> s.channel.queue[j] is Terminate,
{
}

/// Running a sequence of events is running its first event and then the
/// rest.
pub proof fn lemma_run_prepend<T>(s: System<T>, first: Event<T>, rest: Seq<Event<T>>)
    ensures
        s.run(seq![first] + rest) == s.step(first).run(rest),
        s.admits(seq![first] + rest) == (s.enabled(first) && s.step(first).admits(rest)),
    decreases rest.len(),
{
    let all = seq![first] + rest;
    if rest.len() == 0 {
        assert(all.drop_last() =~= Seq::<Event<T>>::empty());
        assert(all.last() == first);
        assert(s.run(all.drop_last()) == s);
        assert(s.admits(all.drop_last()));
    } else {
        lemma_run_prepend(s, first, rest.drop_last());
        assert(all.drop_last() =~= seq![first] + rest.drop_last());
        assert(all.last() == rest.last());
    }
}

/// Shutdown can always be brought to its end: from every state after the
/// shutdown began, whatever the workers are in the middle of, there is a
/// sequence of events in which no task fails and nothing is submitted, and
/// after which every worker has been joined.
pub proof fn law_shutdown_completes<T>(s: System<T>) -> (events: Seq<Event<T>>)
    requires
        s.inv(),
        !s.running,
    ensures
        s.admits(events),
        s.run(events).finished(),
        s.run(events).inv(),
        s.run(events).failed == s.failed,
        s.run(events).submitted == s.submitted,
    decreases s.rank(),
{
    if s.joined == s.workers.len() {
        Seq::empty()
    } else {
        law_shutdown_progress(s);
        let i = s.joined as int;
        let event = match s.workers[i] {
            Activity::Stopped => Event::Join,
            Activity::Executing(_) => Event::Complete(i),
            Activity::Idle => Event::Poll(i),
        };
        assert(s.enabled(event));
        lemma_step_inv(s, event);
        law_rank_decreases(s, event);
        let rest = law_shutdown_completes(s.step(event));
        lemma_run_prepend(s, event, rest);
        seq![event] + rest
    }
}

} // verus!
