//! The lifecycle surface, exercised end to end on concrete scenarios.

use shim_core::container::SetExitOutcome;
use shim_core::errors::ShimError;
use shim_core::process::{ProcessStatus, Timestamp};
use shim_core::task::{ExitDispatch, LinuxResources, ShimTask, WaitOutcome};

fn task_with_container(id: &str, pid: i32) -> ShimTask {
    let mut t = ShimTask::New("test-ns");
    let eff = t
        .create(
            id.to_string(),
            "/bundles/x".to_string(),
            pid,
            false,
            "sandbox-1".to_string(),
            77,
        )
        .unwrap();
    assert_eq!(eff.pid, pid);
    t
}

#[test]
fn create_then_state_reports_created() {
    let t = task_with_container("c1", 1234);
    let id = "c1".to_string();
    let snap = t.state(&id, None).unwrap();
    assert_eq!(snap.status, ProcessStatus::Created);
    assert_eq!(snap.pid, 1234);
    assert!(snap.pid > 0);
    assert_eq!(snap.exit_status, None);
    assert_eq!(snap.exited_at, None);
}

#[test]
fn create_starts_reaper_only_on_root_container() {
    let mut t = ShimTask::New("ns");
    let e1 = t
        .create("a".to_string(), "/b".to_string(), 1, false, "sb".to_string(), 9)
        .unwrap();
    assert!(e1.start_reaper);
    let e2 = t
        .create("b".to_string(), "/b".to_string(), 2, false, "sb".to_string(), 9)
        .unwrap();
    assert!(!e2.start_reaper);
}

#[test]
fn create_duplicate_id_already_exists() {
    let mut t = task_with_container("c1", 10);
    let r = t.create(
        "c1".to_string(),
        "/other".to_string(),
        11,
        false,
        "sb".to_string(),
        9,
    );
    assert_eq!(r.unwrap_err(), ShimError::AlreadyExists);
    let id = "c1".to_string();
    assert_eq!(t.state(&id, None).unwrap().pid, 10);
}

#[test]
fn state_unknown_container_not_found() {
    let t = ShimTask::New("ns");
    let id = "nope".to_string();
    assert_eq!(t.state(&id, None).unwrap_err(), ShimError::NotFound);
}

#[test]
fn start_transitions_to_running() {
    let mut t = task_with_container("c1", 10);
    let id = "c1".to_string();
    let pid = t.start(&id, None, 10).unwrap();
    assert_eq!(pid, 10);
    assert_eq!(t.state(&id, None).unwrap().status, ProcessStatus::Running);
}

#[test]
fn wait_blocks_until_exit_and_reads_exact_triple() {
    let mut t = task_with_container("c1", 10);
    let id = "c1".to_string();
    t.start(&id, None, 10).unwrap();

    // Under the lock the process is still running: the caller must block.
    assert_eq!(t.wait(&id, None).unwrap(), WaitOutcome::Pending);

    // The exit reaper dispatches the exit event (from another thread in
    // the running system; the registry transition is the same).
    let at = Timestamp::new(1700000000, 500);
    let (d, kill) = t.Exit(&id, None, 7, at);
    assert_eq!(d, ExitDispatch::Process(SetExitOutcome::Marked));
    assert!(kill.is_some());

    // The latch has closed: the re-read returns exactly what the event
    // carried.
    let info = t.get_exit_info(&id, None).unwrap();
    assert_eq!(info.exit_status, Some(7));
    assert_eq!(info.exited_at, Some(at));

    // Waiting again answers immediately with the identical triple.
    match t.wait(&id, None).unwrap() {
        WaitOutcome::Ready(again) => assert_eq!(again, info),
        WaitOutcome::Pending => panic!("exited process must answer immediately"),
    }
}

#[test]
fn concurrent_waiters_read_identical_triple() {
    let mut t = task_with_container("c1", 10);
    let id = "c1".to_string();
    t.start(&id, None, 10).unwrap();
    let at = Timestamp::new(1700000001, 0);
    t.Exit(&id, None, 0, at);

    // Every waiter that unblocks re-reads the stored triple; however many
    // callers there are, the value is the same one.
    let first = t.get_exit_info(&id, None).unwrap();
    for _ in 0..8 {
        assert_eq!(t.get_exit_info(&id, None).unwrap(), first);
    }
}

#[test]
fn delete_container_removes_it() {
    let mut t = task_with_container("c1", 10);
    let id = "c1".to_string();
    let info = t.delete(&id, None).unwrap();
    assert_eq!(info.pid, 10);
    assert_eq!(t.state(&id, None).unwrap_err(), ShimError::NotFound);
}

#[test]
fn delete_exec_before_exit_conflicts_after_exit_removes() {
    let mut t = task_with_container("c1", 10);
    let id = "c1".to_string();
    t.exec(&id, "e1".to_string()).unwrap();
    let eid = "e1".to_string();
    t.start(&id, Some(&eid), 20).unwrap();

    assert_eq!(t.delete(&id, Some(&eid)).unwrap_err(), ShimError::StateConflict);

    let at = Timestamp::new(1700000002, 999);
    let (d, kill) = t.Exit(&id, Some(&eid), 3, at);
    assert_eq!(d, ExitDispatch::Process(SetExitOutcome::Marked));
    assert!(kill.is_none());

    let info = t.delete(&id, Some(&eid)).unwrap();
    assert_eq!(info.pid, 20);
    assert_eq!(info.exit_status, Some(3));
    assert_eq!(info.exited_at, Some(at));

    // The exec process is gone; the container itself stays.
    assert_eq!(t.state(&id, Some(&eid)).unwrap_err(), ShimError::NotFound);
    assert!(t.state(&id, None).is_ok());
}

#[test]
fn exec_duplicate_id_already_exists() {
    let mut t = task_with_container("c1", 10);
    let id = "c1".to_string();
    t.exec(&id, "e1".to_string()).unwrap();
    assert_eq!(t.exec(&id, "e1".to_string()).unwrap_err(), ShimError::AlreadyExists);
}

#[test]
fn kill_all_without_private_pid_ns_targets_every_process() {
    let mut t = task_with_container("c1", 10);
    let id = "c1".to_string();
    t.exec(&id, "e1".to_string()).unwrap();
    t.exec(&id, "e2".to_string()).unwrap();
    let e1 = "e1".to_string();
    let e2 = "e2".to_string();
    t.start(&id, Some(&e1), 21).unwrap();
    t.start(&id, Some(&e2), 22).unwrap();

    let plan = t.kill(&id, None, 9, true).unwrap();
    assert_eq!(plan.signal, 9);
    assert_eq!(plan.pids, vec![10, 21, 22]);
}

#[test]
fn kill_all_with_private_pid_ns_targets_only_init() {
    let mut t = ShimTask::New("ns");
    t.create("c1".to_string(), "/b".to_string(), 10, true, "sb".to_string(), 9)
        .unwrap();
    let id = "c1".to_string();
    t.exec(&id, "e1".to_string()).unwrap();
    let plan = t.kill(&id, None, 15, true).unwrap();
    assert_eq!(plan.pids, vec![10]);
}

#[test]
fn kill_unknown_exec_not_found() {
    let t = task_with_container("c1", 10);
    let id = "c1".to_string();
    let bogus = "zz".to_string();
    assert_eq!(t.kill(&id, Some(&bogus), 9, false).unwrap_err(), ShimError::NotFound);
}

#[test]
fn exit_dispatch_for_init_asks_subtree_kill() {
    let mut t = task_with_container("c1", 10);
    let id = "c1".to_string();
    t.exec(&id, "e1".to_string()).unwrap();
    let e1 = "e1".to_string();
    t.start(&id, Some(&e1), 33).unwrap();

    let (d, kill) = t.Exit(&id, None, 1, Timestamp::new(5, 0));
    assert_eq!(d, ExitDispatch::Process(SetExitOutcome::Marked));
    let plan = kill.unwrap();
    assert_eq!(plan.signal, 9);
    assert_eq!(plan.pids, vec![10, 33]);
}

#[test]
fn exit_unknown_ids_are_dropped_and_later_events_still_land() {
    let mut t = task_with_container("c1", 10);
    let id = "c1".to_string();
    t.start(&id, None, 10).unwrap();

    // A bogus container id: dropped, nothing changes.
    let bogus = "ghost".to_string();
    let (d, kill) = t.Exit(&bogus, None, 1, Timestamp::new(6, 0));
    assert_eq!(d, ExitDispatch::UnknownContainer);
    assert!(kill.is_none());

    // A bogus exec id in a known container: dropped as well.
    let be = "no-exec".to_string();
    let (d, _) = t.Exit(&id, Some(&be), 1, Timestamp::new(6, 0));
    assert_eq!(d, ExitDispatch::Process(SetExitOutcome::UnknownProcess));
    assert_eq!(t.state(&id, None).unwrap().status, ProcessStatus::Running);

    // The next valid event is still delivered.
    let at = Timestamp::new(7, 0);
    let (d, _) = t.Exit(&id, None, 4, at);
    assert_eq!(d, ExitDispatch::Process(SetExitOutcome::Marked));
    let info = t.get_exit_info(&id, None).unwrap();
    assert_eq!(info.exit_status, Some(4));
    assert_eq!(info.exited_at, Some(at));
}

#[test]
fn exit_event_for_stopped_process_changes_nothing() {
    let mut t = task_with_container("c1", 10);
    let id = "c1".to_string();
    t.start(&id, None, 10).unwrap();
    let at = Timestamp::new(8, 0);
    t.Exit(&id, None, 4, at);

    let (d, _) = t.Exit(&id, None, 99, Timestamp::new(9, 0));
    assert_eq!(d, ExitDispatch::Process(SetExitOutcome::AlreadyStopped));
    let info = t.get_exit_info(&id, None).unwrap();
    assert_eq!(info.exit_status, Some(4));
    assert_eq!(info.exited_at, Some(at));
}

#[test]
fn shutdown_signals_exactly_once_and_only_when_empty() {
    let mut t = task_with_container("c1", 10);
    assert!(!t.shutdown());

    let id = "c1".to_string();
    t.delete(&id, None).unwrap();
    assert!(t.shutdown());
    assert!(!t.shutdown());
    assert!(!t.shutdown());
}

#[test]
fn pids_lists_init_then_execs() {
    let mut t = task_with_container("c1", 10);
    let id = "c1".to_string();
    t.exec(&id, "e1".to_string()).unwrap();
    let e1 = "e1".to_string();
    t.start(&id, Some(&e1), 44).unwrap();
    assert_eq!(t.pids(&id).unwrap(), vec![10, 44]);
}

#[test]
fn stats_update_resize_target_and_close_io() {
    let mut t = task_with_container("c1", 10);
    let id = "c1".to_string();
    assert_eq!(t.stats(&id).unwrap(), 10);
    let res = LinuxResources {
        memory_limit: Some(1 << 20),
        ..LinuxResources::default()
    };
    assert_eq!(t.update(&id, &res).unwrap(), 10);
    assert_eq!(t.resize_pty(&id, None, 24, 80).unwrap(), 10);
    t.exec(&id, "e1".to_string()).unwrap();
    let e1 = "e1".to_string();
    t.start(&id, Some(&e1), 55).unwrap();
    assert_eq!(t.resize_pty(&id, Some(&e1), 24, 80).unwrap(), 55);
    assert_eq!(t.close_io(&id, None), Ok(()));
    let missing = "zz".to_string();
    assert_eq!(t.stats(&missing).unwrap_err(), ShimError::NotFound);
}

#[test]
fn destroy_lists_every_container() {
    let mut t = task_with_container("c1", 10);
    t.create("c2".to_string(), "/b".to_string(), 11, false, "sb".to_string(), 9)
        .unwrap();
    assert_eq!(t.Destroy(), vec!["c1".to_string(), "c2".to_string()]);
}

#[test]
fn wait_and_exit_info_for_unknown_targets_not_found() {
    let mut t = task_with_container("c1", 10);
    let id = "c1".to_string();
    let bogus = "zz".to_string();
    assert_eq!(t.wait(&id, Some(&bogus)).unwrap_err(), ShimError::NotFound);
    assert_eq!(t.get_exit_info(&id, Some(&bogus)).unwrap_err(), ShimError::NotFound);
    t.delete(&id, None).unwrap();
    assert_eq!(t.wait(&id, None).unwrap_err(), ShimError::NotFound);
    assert_eq!(t.get_exit_info(&id, None).unwrap_err(), ShimError::NotFound);
}

#[test]
fn exec_process_reports_created_before_start() {
    let mut t = task_with_container("c1", 10);
    let id = "c1".to_string();
    t.exec(&id, "e1".to_string()).unwrap();
    let e1 = "e1".to_string();
    let snap = t.state(&id, Some(&e1)).unwrap();
    assert_eq!(snap.status, ProcessStatus::Created);
    assert_eq!(snap.pid, 0);
    assert_eq!(t.wait(&id, Some(&e1)).unwrap(), WaitOutcome::Pending);
}

#[test]
fn start_unknown_exec_not_found_and_double_start_conflicts() {
    let mut t = task_with_container("c1", 10);
    let id = "c1".to_string();
    let bogus = "zz".to_string();
    assert_eq!(t.start(&id, Some(&bogus), 5).unwrap_err(), ShimError::NotFound);
    t.start(&id, None, 10).unwrap();
    assert_eq!(t.start(&id, None, 10).unwrap_err(), ShimError::StateConflict);
}
