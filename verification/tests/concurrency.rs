use basics::channel::create_channel;
use basics::channel::exchange_two_senders;
use basics::channel::Channel;
use basics::counter::SharedCounter;
use basics::counter::SharedLog;
use basics::errors::CoreError;
use basics::task::join;
use basics::task::spawn;
use basics::task::spawn_aborted;
use basics::task::sum_one_to;
use basics::task::sum_task_roundtrip;

#[test]
fn join_returns_computed_sum() {
    assert_eq!(sum_task_roundtrip(), Ok(5050));
}

#[test]
fn spawn_moves_data_into_the_unit() {
    let data = vec![1i64, 2, 3];
    let handle = spawn(move || data.len());
    assert_eq!(join(handle), Ok(3));
}

#[test]
fn join_surfaces_the_diagnostic_of_an_aborted_unit() {
    let handle: basics::task::TaskHandle<u32> = spawn_aborted(String::from("worker gave up"));
    match join(handle) {
        Err(CoreError::ExecutionFailure(m)) => assert_eq!(m, "worker gave up"),
        other => panic!("expected an execution failure, got {:?}", other),
    }
}

#[test]
fn sum_one_to_small_cases() {
    assert_eq!(sum_one_to(0), 0);
    assert_eq!(sum_one_to(1), 1);
    assert_eq!(sum_one_to(100), 5050);
}

#[test]
fn channel_delivers_in_fifo_order() {
    let mut ch: Channel<u32> = create_channel();
    assert_eq!(ch.send(10), Ok(()));
    assert_eq!(ch.send(20), Ok(()));
    assert_eq!(ch.send(30), Ok(()));
    ch.drop_sender();
    assert_eq!(ch.recv(), Ok(10));
    assert_eq!(ch.recv(), Ok(20));
    assert_eq!(ch.recv(), Ok(30));
    assert_eq!(ch.recv(), Err(CoreError::ChannelClosed));
}

#[test]
fn recv_fails_once_queue_empty_and_senders_gone() {
    let mut ch: Channel<u8> = create_channel();
    ch.drop_sender();
    assert_eq!(ch.recv(), Err(CoreError::ChannelClosed));
}

#[test]
fn send_fails_after_receiver_dropped() {
    let mut ch: Channel<u8> = create_channel();
    ch.drop_receiver();
    assert_eq!(ch.send(7), Err(CoreError::ChannelClosed));
}

#[test]
fn two_senders_interleaved_keep_each_senders_order() {
    // Messages tagged by sender: 1xx from the first endpoint, 2xx from the
    // second; an arbitrary schedule interleaves them.
    let a = vec![101u32, 102, 103];
    let b = vec![201u32, 202, 203];
    let sched = vec![true, false, false, true, true, false];
    let received = exchange_two_senders(&a, &b, &sched);
    assert_eq!(received.len(), 6);
    let from_a: Vec<u32> = received.iter().copied().filter(|m| *m < 200).collect();
    let from_b: Vec<u32> = received.iter().copied().filter(|m| *m >= 200).collect();
    assert_eq!(from_a, a);
    assert_eq!(from_b, b);
    assert_eq!(received, vec![101, 201, 202, 102, 103, 203]);
}

#[test]
fn two_senders_each_message_arrives_exactly_once() {
    let a: Vec<u32> = (0..8).map(|i| 2 * i).collect();
    let b: Vec<u32> = (0..8).map(|i| 2 * i + 1).collect();
    let sched: Vec<bool> = (0..16).map(|i| i % 2 == 0).collect();
    let received = exchange_two_senders(&a, &b, &sched);
    assert_eq!(received.len(), 16);
    let mut sorted = received.clone();
    sorted.sort();
    let all: Vec<u32> = (0..16).collect();
    assert_eq!(sorted, all);
}

#[test]
fn counter_one_task() {
    let mut c = SharedCounter::new(0);
    assert_eq!(c.increment_tasks(1), Ok(()));
    assert_eq!(c.acquire(), Ok(()));
    assert_eq!(c.read(), 1);
    c.release();
}

#[test]
fn counter_five_tasks() {
    let mut c = SharedCounter::new(0);
    assert_eq!(c.increment_tasks(5), Ok(()));
    assert_eq!(c.acquire(), Ok(()));
    assert_eq!(c.read(), 5);
    c.release();
}

#[test]
fn counter_fifty_tasks() {
    let mut c = SharedCounter::new(0);
    assert_eq!(c.increment_tasks(50), Ok(()));
    assert_eq!(c.acquire(), Ok(()));
    assert_eq!(c.read(), 50);
    c.release();
}

#[test]
fn a_failed_holder_poisons_every_later_acquire() {
    let mut c = SharedCounter::new(0);
    assert_eq!(c.acquire(), Ok(()));
    c.increment();
    c.fail_while_holding();
    assert_eq!(c.acquire(), Err(CoreError::LockPoisoned));
    assert_eq!(c.acquire(), Err(CoreError::LockPoisoned));
    assert_eq!(c.increment_tasks(3), Err(CoreError::LockPoisoned));
}

#[test]
fn guarded_log_holds_every_record_whole() {
    let mut log: SharedLog<(u32, &str)> = SharedLog::new();
    let records = vec![(1, "first record"), (2, "second record"), (3, "third record")];
    assert_eq!(log.append_tasks(records.clone()), Ok(()));
    let entries = log.into_entries();
    assert_eq!(entries.len(), 3);
    assert_eq!(entries, records);
}

#[test]
fn guarded_log_single_appends() {
    let mut log: SharedLog<u64> = SharedLog::new();
    assert_eq!(log.acquire(), Ok(()));
    log.append(7);
    log.release();
    assert_eq!(log.acquire(), Ok(()));
    log.append(8);
    log.release();
    assert_eq!(log.into_entries(), vec![7, 8]);
}

#[test]
fn core_error_messages() {
    assert_eq!(CoreError::ChannelClosed.message(), "channel closed");
    assert_eq!(CoreError::LockPoisoned.message(), "lock poisoned");
    assert_eq!(
        CoreError::ExecutionFailure(String::from("oops")).message(),
        "task failed: oops"
    );
}
