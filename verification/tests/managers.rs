use oprs::process::forest::{AcceptProcesses, ProcessStatus};
use oprs::process::managers::{under_root, FlatProcessManager, ForestProcessManager, ProcessFilter, INACTIVITY};

fn status(pid: i32, parent_pid: i32, exe: Option<&str>, uid: u32, utime: u64) -> ProcessStatus {
    ProcessStatus {
        pid,
        parent_pid,
        start_time: 1,
        state: 'S',
        comm: format!("p{pid}"),
        exe_name: exe.map(|s| s.to_string()),
        utime,
        stime: 0,
        uid: Some(uid),
    }
}

fn system(utime: u64) -> Vec<ProcessStatus> {
    vec![
        status(1, 0, Some("init"), 0, 0),
        status(2, 0, None, 0, 0),
        status(3, 2, None, 0, 0),
        status(10, 1, Some("shell"), 1000, utime),
        status(11, 10, Some("editor"), 1000, 0),
    ]
}

#[test]
fn userland_filter_leaves_kernel_threads_out() {
    let mut manager = ForestProcessManager::new(1000);
    assert_eq!(ProcessFilter::UserLand, manager.filter);
    let (changed, shown) = manager.refresh(&system(0));
    assert!(changed);
    assert_eq!(vec![1, 10, 11], shown);
    assert!(!manager.forest.has_process(2));
    assert!(!manager.forest.has_process(3));
}

#[test]
fn no_filter_shows_every_process() {
    let mut manager = ForestProcessManager::new(1000);
    manager.set_filter(ProcessFilter::NoFilter);
    let (_, shown) = manager.refresh(&system(0));
    assert_eq!(vec![1, 10, 11, 2, 3], shown);
}

#[test]
fn current_user_filter_keeps_ancestors_hidden() {
    let mut manager = ForestProcessManager::new(1000);
    manager.set_filter(ProcessFilter::CurrentUser);
    let (_, shown) = manager.refresh(&system(0));
    assert_eq!(vec![10, 11], shown);
    // The parent of the user's shell is in the forest, hidden.
    assert!(manager.forest.get_process(1).unwrap().hidden());
}

#[test]
fn active_filter_shows_processes_that_use_the_processor() {
    let mut manager = ForestProcessManager::new(1000);
    manager.set_filter(ProcessFilter::Active);
    let mut shown = Vec::new();
    for round in 0..(INACTIVITY as u64 + 2) {
        // The shell uses the processor at each round, the others never do.
        shown = manager.refresh(&system(100 * (round + 1))).1;
    }
    assert_eq!(INACTIVITY, manager.inactivity);
    assert_eq!(vec![10], shown);
}

#[test]
fn flat_manager_shows_only_targets() {
    let statuses = vec![
        status(1, 0, Some("init"), 0, 0),
        status(5, 1, Some("bash"), 1000, 0),
        status(6, 5, Some("vim"), 1000, 0),
        status(7, 1, Some("sshd"), 0, 0),
    ];
    let mut manager = FlatProcessManager::new();
    let (changed, shown) = manager.refresh(&statuses, &AcceptProcesses::with_pids(&[6]));
    assert!(changed);
    // The target is shown; its parents are kept in the forest but hidden.
    assert_eq!(vec![6], shown);
    assert!(manager.forest.get_process(5).is_some());
    assert!(manager.forest.get_process(7).is_none());
}

#[test]
fn shown_processes_under_a_root() {
    let mut manager = ForestProcessManager::new(1000);
    manager.set_filter(ProcessFilter::NoFilter);
    let (_, shown) = manager.refresh(&system(0));
    assert_eq!(vec![10, 11], under_root(&manager.forest, shown.clone(), Some(10)));
    assert_eq!(vec![2, 3], under_root(&manager.forest, shown.clone(), Some(2)));
    assert_eq!(shown.clone(), under_root(&manager.forest, shown.clone(), Some(99)));
    assert_eq!(shown.clone(), under_root(&manager.forest, shown, None));
}
