use component_channels::call::{CallBoundary, CallPhase};
use component_channels::component::{Awaited, Component, RelayStep, Session, RELAY_ROUNDS};
use component_channels::error::Violation;
use component_channels::future::{FutureRead, FutureTable};
use component_channels::sched::{Scheduler, Source, TaskError, TaskPhase};
use component_channels::runtime::Instance;
use component_channels::stream::{StreamRead, StreamTable, WriteStatus};

#[test]
fn scheduler_runs_tasks_in_readiness_order() {
    let mut sched = Scheduler::new();
    let a = sched.spawn();
    let b = sched.spawn();
    let c = sched.spawn();
    assert_eq!(sched.next(), Some(a));
    sched.suspend(a, vec![Source::Timer(1), Source::StreamReadable(0)]).unwrap();
    assert_eq!(sched.next(), Some(b));
    sched.suspend(b, vec![Source::StreamReadable(0)]).unwrap();
    assert_eq!(sched.next(), Some(c));
    sched.suspend(c, vec![Source::Timer(1)]).unwrap();
    assert_eq!(sched.next(), None);

    assert_eq!(sched.signal(Source::StreamReadable(0)), vec![a, b]);
    assert_eq!(sched.phase(a), Some(TaskPhase::Runnable));
    assert_eq!(sched.phase(c), Some(TaskPhase::Suspended));
    // a dropped its timer registration when it woke
    assert_eq!(sched.signal(Source::Timer(1)), vec![c]);
    assert_eq!(sched.next(), Some(a));
    assert_eq!(sched.next(), Some(b));
    assert_eq!(sched.next(), Some(c));
    assert_eq!(sched.next(), None);
}

#[test]
fn scheduler_signal_without_waiters_wakes_nobody() {
    let mut sched = Scheduler::new();
    let a = sched.spawn();
    assert_eq!(sched.signal(Source::Capability(3)), Vec::<usize>::new());
    assert_eq!(sched.phase(a), Some(TaskPhase::Runnable));
}

#[test]
fn scheduler_refusals() {
    let mut sched = Scheduler::new();
    let a = sched.spawn();
    assert_eq!(sched.suspend(a, vec![Source::Timer(0)]), Err(TaskError::NotRunning));
    assert_eq!(sched.suspend(9, vec![Source::Timer(0)]), Err(TaskError::UnknownTask));
    assert_eq!(sched.next(), Some(a));
    assert_eq!(sched.suspend(a, vec![]), Err(TaskError::NoSources));
    assert_eq!(sched.complete(a), Ok(()));
    assert_eq!(sched.phase(a), Some(TaskPhase::Completed));
    assert_eq!(sched.complete(a), Err(TaskError::NotRunning));
    assert_eq!(sched.cancel(a), Err(TaskError::Finished));
    assert_eq!(sched.cancel(4), Err(TaskError::UnknownTask));
}

#[test]
fn scheduler_cancel_drops_registrations_and_queue_place() {
    let mut sched = Scheduler::new();
    let a = sched.spawn();
    let b = sched.spawn();
    assert_eq!(sched.cancel(a), Ok(()));
    assert_eq!(sched.phase(a), Some(TaskPhase::Cancelled));
    assert_eq!(sched.next(), Some(b));
    sched.suspend(b, vec![Source::Future(2)]).unwrap();
    assert_eq!(sched.cancel(b), Ok(()));
    assert_eq!(sched.signal(Source::Future(2)), Vec::<usize>::new());
    assert_eq!(sched.next(), None);
}

#[test]
fn call_boundary_requires_one_cleanup_per_call() {
    let mut calls = CallBoundary::new();
    assert_eq!(calls.post_return(), Err(Violation::NoSuchCall));
    assert_eq!(calls.begin(), Ok(()));
    assert_eq!(calls.begin(), Err(Violation::CallInProgress));
    assert_eq!(calls.finish(), Ok(()));
    assert_eq!(calls.phase(), CallPhase::Returned);
    assert_eq!(calls.begin(), Err(Violation::CleanupPending));
    assert_eq!(calls.post_return(), Ok(()));
    assert_eq!(calls.post_return(), Err(Violation::NoSuchCall));
    assert_eq!(calls.finish(), Err(Violation::NoSuchCall));
    assert_eq!(calls.phase(), CallPhase::Idle);
}

#[test]
fn test1() {
    assert_eq!(Component::test("Hello".to_string()), "Hello World! (test1)");
}

#[test]
fn test2() {
    let mut futures: FutureTable<String> = FutureTable::new();
    let rx = Component::test2(&mut futures, "Hello".to_string());
    match futures.read(&rx) {
        Ok(FutureRead::Value(v)) => assert_eq!(v, "Hello World! (test2)"),
        _ => panic!("expected the greeting"),
    }
}

#[test]
fn test3() {
    let mut futures: FutureTable<String> = FutureTable::new();
    let (tx, rx) = futures.new_future();
    let index = rx.index();
    let rx = match Component::test3(&mut futures, rx) {
        Awaited::Wait(r, Source::Future(i)) => {
            assert_eq!(i, index);
            r
        }
        _ => panic!("a pending future hands the reader back"),
    };
    futures.write(tx, "Hello World! (test3)".to_string()).unwrap();
    match Component::test3(&mut futures, rx) {
        Awaited::Ready(FutureRead::Value(v)) => assert_eq!(v, "Hello World! (test3)"),
        _ => panic!("expected the value"),
    }
    assert!(!futures.has_value(index));
}

#[test]
fn test3_cancelled_future_reads_none() {
    let mut futures: FutureTable<String> = FutureTable::new();
    let (tx, rx) = futures.new_future();
    futures.drop_writer(tx).unwrap();
    assert!(matches!(Component::test3(&mut futures, rx), Awaited::Ready(FutureRead::Cancelled)));
}

#[test]
fn test3_refuses_reader_of_unknown_index() {
    let mut futures: FutureTable<String> = FutureTable::new();
    let mut other: FutureTable<String> = FutureTable::new();
    let (_tx, rx) = other.new_future();
    assert!(matches!(Component::test3(&mut futures, rx), Awaited::Failed(Violation::StaleHandle)));
}

#[test]
fn test4() {
    let mut streams: StreamTable<String> = StreamTable::new();
    let (host_tx, guest_rx) = streams.new_stream(4);
    let (relay, host_rx) = Component::test4(&mut streams, guest_rx);

    let relay = match relay.step(&mut streams) {
        RelayStep::Wait(r, Source::StreamReadable(i)) => {
            assert_eq!(i, host_tx.index());
            r
        }
        _ => panic!("the relay should wait for input"),
    };
    streams.write(&host_tx, vec!["Hello World! (test4)".to_string()]).unwrap();
    let relay = match relay.step(&mut streams) {
        RelayStep::Continue(r) => r,
        _ => panic!("the relay should have read a batch"),
    };
    let relay = match relay.step(&mut streams) {
        RelayStep::Continue(r) => r,
        _ => panic!("the answer should have been taken"),
    };
    assert!(matches!(streams.read(&host_rx), Ok(StreamRead::Items(v)) if v == vec!["Response".to_string()]));
    streams.close(&host_tx).unwrap();
    assert!(matches!(relay.step(&mut streams), RelayStep::Done));
    assert!(matches!(streams.read(&host_rx), Ok(StreamRead::End)));
    let w = streams.write(&host_tx, vec!["late".to_string()]).unwrap();
    assert_eq!(w.status, WriteStatus::Cancelled);
}

#[test]
fn export_test4_waits_for_room_and_stops_after_rounds() {
    let mut streams: StreamTable<String> = StreamTable::new();
    let (host_tx, guest_rx) = streams.new_stream(64);
    let (mut relay, host_rx) = Component::test4(&mut streams, guest_rx);
    let mut answers = 0u32;
    let mut waits_for_room = 0u32;
    loop {
        streams.write(&host_tx, vec!["batch".to_string()]).unwrap();
        match relay.step(&mut streams) {
            RelayStep::Continue(r) => relay = r,
            RelayStep::Wait(r, Source::StreamWritable(_)) => {
                waits_for_room += 1;
                if let Ok(StreamRead::Items(v)) = streams.read(&host_rx) {
                    answers += v.len() as u32;
                }
                relay = r;
            }
            RelayStep::Wait(r, _) => relay = r,
            RelayStep::Done => break,
            RelayStep::Failed(_) => panic!("handles are valid"),
        }
    }
    if let Ok(StreamRead::Items(v)) = streams.read(&host_rx) {
        answers += v.len() as u32;
    }
    assert_eq!(answers, RELAY_ROUNDS);
    assert!(waits_for_room > 0);
    assert!(matches!(streams.read(&host_rx), Ok(StreamRead::End)));
}

#[test]
fn export_test4_relay_on_foreign_table_fails() {
    let mut streams: StreamTable<String> = StreamTable::new();
    let mut other: StreamTable<String> = StreamTable::new();
    let (_tx, rx) = streams.new_stream(1);
    let (relay, _out) = Component::test4(&mut streams, rx);
    assert!(matches!(relay.step(&mut other), RelayStep::Failed(Violation::StaleHandle)));
}

#[test]
fn export_test4_abort_releases_endpoints() {
    let mut streams: StreamTable<String> = StreamTable::new();
    let (host_tx, guest_rx) = streams.new_stream(2);
    let (relay, host_rx) = Component::test4(&mut streams, guest_rx);
    assert_eq!(relay.abort(&mut streams), Ok(()));
    assert!(matches!(streams.read(&host_rx), Ok(StreamRead::End)));
    let w = streams.write(&host_tx, vec!["x".to_string()]).unwrap();
    assert_eq!(w.status, WriteStatus::Cancelled);
}

#[test]
fn test_get_files_p3() {
    let listings = vec![
        vec!["a.txt".to_string(), "b.txt".to_string()],
        vec![],
        vec!["c".to_string()],
    ];
    assert_eq!(Component::get_files_p3(&listings), "a.txt\nb.txt\nc\n");
    assert_eq!(Component::get_files_p3(&vec![]), "");
}

#[test]
fn session_starts_empty() {
    let s = Session::new();
    assert_eq!(s.last_response(), "");
}

#[test]
fn scheduler_wake_only_suspended() {
    let mut sched = Scheduler::new();
    let a = sched.spawn();
    assert_eq!(sched.wake(a), Err(TaskError::NotSuspended));
    assert_eq!(sched.wake(7), Err(TaskError::UnknownTask));
    assert_eq!(sched.next(), Some(a));
    sched.suspend(a, vec![Source::Capability(1)]).unwrap();
    assert_eq!(sched.waits(a), &vec![Source::Capability(1)]);
    assert_eq!(sched.wake(a), Ok(()));
    assert!(sched.waits(a).is_empty());
    assert_eq!(sched.next(), Some(a));
}

#[test]
fn dispatch_wakes_tasks_whose_channels_are_ready() {
    let mut inst: Instance<String> = Instance::new();
    let (tx, rx) = inst.streams.new_stream(1);
    let (ftx, frx) = inst.futures.new_future();
    let reader_task = inst.sched.spawn();
    let writer_task = inst.sched.spawn();
    let future_task = inst.sched.spawn();
    let timer_task = inst.sched.spawn();
    for (t, src) in [
        (reader_task, Source::StreamReadable(rx.index())),
        (writer_task, Source::StreamWritable(tx.index())),
        (future_task, Source::Future(frx.index())),
        (timer_task, Source::Timer(0)),
    ] {
        assert_eq!(inst.sched.next(), Some(t));
        inst.sched.suspend(t, vec![src]).unwrap();
    }
    // the window has room, nothing else is ready
    assert_eq!(inst.dispatch(), vec![writer_task]);
    assert_eq!(inst.sched.next(), Some(writer_task));
    inst.streams.write(&tx, vec!["a".to_string()]).unwrap();
    inst.sched.suspend(writer_task, vec![Source::StreamWritable(tx.index())]).unwrap();
    assert_eq!(inst.dispatch(), vec![reader_task]);
    inst.futures.write(ftx, "v".to_string()).unwrap();
    assert_eq!(inst.dispatch(), vec![future_task]);
    assert_eq!(inst.sched.phase(timer_task), Some(TaskPhase::Suspended));
    assert_eq!(inst.sched.phase(writer_task), Some(TaskPhase::Suspended));
    assert_eq!(inst.sched.signal(Source::Timer(0)), vec![timer_task]);
    assert_eq!(inst.sched.next(), Some(reader_task));
    assert_eq!(inst.sched.next(), Some(future_task));
    assert_eq!(inst.sched.next(), Some(timer_task));
}

#[test]
fn dispatch_wakes_writer_when_reader_goes_away() {
    let mut inst: Instance<u32> = Instance::new();
    let (tx, rx) = inst.streams.new_stream(1);
    inst.streams.write(&tx, vec![1]).unwrap();
    let t = inst.sched.spawn();
    assert_eq!(inst.sched.next(), Some(t));
    inst.sched.suspend(t, vec![Source::StreamWritable(tx.index())]).unwrap();
    assert_eq!(inst.dispatch(), Vec::<usize>::new());
    inst.streams.drop_reader(rx).unwrap();
    assert_eq!(inst.dispatch(), vec![t]);
    let w = inst.streams.write(&tx, vec![2]).unwrap();
    assert_eq!(w.status, WriteStatus::Cancelled);
}

#[test]
fn cancel_relay_task_releases_its_endpoints() {
    let mut inst: Instance<String> = Instance::new();
    let (host_tx, guest_rx) = inst.streams.new_stream(2);
    let (relay, host_rx) = Component::test4(&mut inst.streams, guest_rx);
    let t = inst.sched.spawn();
    assert_eq!(inst.sched.next(), Some(t));
    let relay = match relay.step(&mut inst.streams) {
        RelayStep::Wait(r, src) => {
            inst.sched.suspend(t, vec![src]).unwrap();
            r
        }
        _ => panic!("the relay should wait for input"),
    };
    assert_eq!(inst.cancel_relay(t, relay), (Ok(()), Ok(())));
    assert_eq!(inst.sched.phase(t), Some(TaskPhase::Cancelled));
    assert!(matches!(inst.streams.read(&host_rx), Ok(StreamRead::End)));
    let w = inst.streams.write(&host_tx, vec!["x".to_string()]).unwrap();
    assert_eq!(w.status, WriteStatus::Cancelled);
    assert_eq!(inst.dispatch(), Vec::<usize>::new());
}

#[test]
fn test4_output_reader_drop_ends_relay() {
    let mut streams: StreamTable<String> = StreamTable::new();
    let (host_tx, guest_rx) = streams.new_stream(4);
    let (relay, host_rx) = Component::test4(&mut streams, guest_rx);
    streams.write(&host_tx, vec!["a".to_string()]).unwrap();
    let relay = match relay.step(&mut streams) {
        RelayStep::Continue(r) => r,
        _ => panic!("the relay should have read a batch"),
    };
    streams.drop_reader(host_rx).unwrap();
    assert!(matches!(relay.step(&mut streams), RelayStep::Done));
    let w = streams.write(&host_tx, vec!["b".to_string()]).unwrap();
    assert_eq!(w.status, WriteStatus::Cancelled);
}
