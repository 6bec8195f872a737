use oprs::process::forest::{
    processes_named,
    AcceptAllProcesses, AcceptProcesses, Forest, ProcessError, ProcessInfo, ProcessStatus,
};

/// Status of a process with a name and no CPU activity.
fn status(pid: i32, parent_pid: i32, name: &str, start_time: u64) -> ProcessStatus {
    ProcessStatus {
        pid,
        parent_pid,
        start_time,
        state: 'S',
        comm: name.to_string(),
        exe_name: Some(name.to_string()),
        utime: 0,
        stime: 0,
        uid: Some(1000),
    }
}

/// Processes numbered from 1: process #idx is named `proc{idx}` and its
/// parent is the previous process unless a constraint says otherwise
/// (`Some(j)`: process #j, `None`: no parent).
fn with_parent_pids(constraints: &[(usize, Option<usize>)], count: usize) -> Vec<ProcessStatus> {
    let mut result = Vec::new();
    for idx in 0..count {
        let pid = (idx + 1) as i32;
        let parent_pid = match constraints.iter().find(|(i, _)| *i == idx) {
            Some((_, Some(j))) => (*j + 1) as i32,
            Some((_, None)) => 0,
            None => idx as i32,
        };
        result.push(status(pid, parent_pid, &format!("proc{idx}"), 1000 + idx as u64));
    }
    result
}

fn sorted(mut v: Vec<i32>) -> Vec<i32> {
    v.sort();
    v
}

/// A fixed reordering of a list, so that children sometimes come before their parent.
fn reordered(v: &[ProcessStatus]) -> Vec<ProcessStatus> {
    let mut order: Vec<usize> = (0..v.len()).collect();
    order.reverse();
    order.rotate_left(v.len() / 3);
    order.iter().map(|i| copy(&v[*i])).collect()
}

fn copy(s: &ProcessStatus) -> ProcessStatus {
    ProcessStatus {
        pid: s.pid,
        parent_pid: s.parent_pid,
        start_time: s.start_time,
        state: s.state,
        comm: s.comm.clone(),
        exe_name: s.exe_name.clone(),
        utime: s.utime,
        stime: s.stime,
        uid: s.uid,
    }
}

fn copies(v: &[ProcessStatus]) -> Vec<ProcessStatus> {
    v.iter().map(copy).collect()
}

fn names(forest: &Forest, pids: &[i32]) -> Vec<String> {
    pids.iter()
        .map(|pid| forest.get_process(*pid).unwrap().name().to_string())
        .collect()
}

#[test]
fn forest_test_forest_from_parent_pids() {
    let parent_pids = [0, 1, 2, 3, 1, 5, 0, 7];
    let processes = with_parent_pids(&[(1, Some(0)), (4, Some(0)), (6, None)], 8);
    assert_eq!(8, processes.len());
    for (expected, proc) in parent_pids.iter().zip(processes.iter()) {
        assert_eq!(*expected, proc.parent_pid);
    }
}

#[test]
fn forest_test_empty() {
    let mut forest = Forest::new();
    let changed = forest.refresh_from(&[], &AcceptProcesses::with_pids(&[1]));
    assert!(!changed);
    assert_eq!(0, forest.size());
    assert!(forest.root_pids().is_empty());
}

#[test]
fn forest_test_one_process() {
    let mut forest = Forest::new();
    let processes = vec![status(1, 0, "test", 1)];
    assert!(forest.refresh_from(&processes, &AcceptProcesses::with_pids(&[1])));
    let pinfo = forest.get_process(1).unwrap();
    assert_eq!(1, pinfo.pid());
    assert_eq!("test", pinfo.name());
    assert!(!pinfo.hidden());
    assert!(forest.has_process(1));
}

#[test]
fn test_ttl() {
    let mut forest = Forest::new();
    let processes = vec![status(1, 0, "test", 1)];
    for _ in 0..2 {
        forest.refresh_from(&processes, &AcceptAllProcesses);
        assert!(forest.get_process(1).is_some());
    }
    // The process is gone; a process that is no longer listed leaves silently.
    assert!(!forest.refresh_from(&[], &AcceptAllProcesses));
    assert!(forest.get_process(1).is_none());
}

#[test]
fn test_idleness() {
    let mut idle = status(1, 0, "test", 1);
    assert!(ProcessInfo::new(&idle).idleness() > 0);
    let mut user = status(2, 0, "test", 1);
    user.utime = 1234;
    assert_eq!(0, ProcessInfo::new(&user).idleness());
    let mut system = status(3, 0, "test", 1);
    system.stime = 1234;
    assert_eq!(0, ProcessInfo::new(&system).idleness());

    let mut forest = Forest::new();
    forest.refresh_from(&[copy(&idle)], &AcceptAllProcesses);
    assert_eq!(1, forest.get_process(1).unwrap().idleness());
    forest.refresh_from(&[copy(&idle)], &AcceptAllProcesses);
    assert_eq!(2, forest.get_process(1).unwrap().idleness());
    idle.utime = 1234;
    forest.refresh_from(&[copy(&idle)], &AcceptAllProcesses);
    assert_eq!(0, forest.get_process(1).unwrap().idleness());
    forest.refresh_from(&[copy(&idle)], &AcceptAllProcesses);
    assert_eq!(1, forest.get_process(1).unwrap().idleness());
}

/// Tree:
/// 0
/// |_1_2
/// |   \_5
/// \_3_4
#[test]
fn forest_test_single_tree() {
    let processes = with_parent_pids(&[(3, Some(0)), (5, Some(2))], 6);
    let mut forest = Forest::new();
    forest.refresh_from(&processes, &AcceptAllProcesses);
    let root_pids = forest.root_pids();
    assert_eq!(vec![1], root_pids);
    let tree = forest.descendants(root_pids[0]).unwrap();
    assert_eq!(
        vec!["proc0", "proc1", "proc2", "proc5", "proc3", "proc4"],
        names(&forest, &tree)
    );
    assert_eq!(tree, forest.tree_order());
}

#[test]
fn forest_test_multi_trees() {
    let processes = reordered(&with_parent_pids(&[(4, None)], 8));
    let mut forest = Forest::new();
    forest.refresh_from(&processes, &AcceptAllProcesses);
    assert_eq!(vec![1, 5], sorted(forest.root_pids()));
}

/// Tree:
/// 0
/// |_1_2_3
/// |   \_[4]
/// \_5_[6]_7
#[test]
fn forest_test_predicate() {
    let processes = with_parent_pids(&[(4, Some(2)), (5, Some(0))], 8);
    let (proc3, proc4, proc6, proc7) = (processes[3].pid, processes[4].pid, processes[6].pid, processes[7].pid);
    let mut forest = Forest::new();
    let classifier = AcceptProcesses::with_pids(&[proc4, proc6]);
    forest.refresh_from(&processes, &classifier);
    let root_pid = forest.root_pids()[0];
    assert_eq!(6, forest.size());
    for pid in forest.descendants(root_pid).unwrap() {
        let pinfo = forest.get_process(pid).unwrap();
        assert_eq!(classifier.contains(pid), !pinfo.hidden());
        assert_ne!(proc3, pid);
        assert_ne!(proc7, pid);
    }
}

fn check_predicate(forest: &mut Forest, stage: &str, processes: &[ProcessStatus], all_pids: &[i32], selected: &[i32]) {
    let classifier = AcceptProcesses::with_pids(selected);
    forest.refresh_from(processes, &classifier);
    for (n, pid) in all_pids.iter().enumerate() {
        let is_selected = classifier.contains(*pid);
        let is_hidden = match forest.get_process(*pid) {
            Some(p) => p.hidden(),
            None => true,
        };
        assert_eq!(is_selected, !is_hidden, "{stage}: process #{n} pid:{pid}");
    }
}

#[test]
fn forest_test_refresh_different_predicates() {
    let processes = with_parent_pids(&[(4, Some(2)), (5, Some(0))], 8);
    let pids: Vec<i32> = processes.iter().map(|p| p.pid).collect();
    let mut forest = Forest::new();
    check_predicate(&mut forest, "loop1", &reordered(&processes), &pids, &[pids[2], pids[3], pids[6], pids[7]]);
    check_predicate(&mut forest, "loop2", &reordered(&processes), &pids, &[pids[3], pids[6], pids[7]]);
}

#[test]
fn forest_test_refresh_with_new_processes() {
    let mut processes = vec![status(1, 0, "root", 1)];
    let mut forest = Forest::new();
    forest.refresh_from(&processes, &AcceptAllProcesses);
    for count in 2..6 {
        processes.push(status(count as i32, 1, "child", 1));
        assert!(forest.refresh_from(&reordered(&processes), &AcceptAllProcesses));
        assert_eq!(count, forest.size());
    }
}

/// Tree:
/// 0
/// |_1_2_5
/// \_3_4
#[test]
fn forest_test_refresh_with_old_processes() {
    let processes = with_parent_pids(&[(3, Some(0))], 5);
    let mut forest = Forest::new();
    forest.refresh_from(&processes, &AcceptAllProcesses);
    assert_eq!(5, forest.size());

    let mut with_child = copies(&processes);
    with_child.push(status(6, processes[2].pid, "short", 7));
    for _ in 0..2 {
        forest.refresh_from(&with_child, &AcceptAllProcesses);
        assert!(forest.get_process(6).is_some());
        assert_eq!(6, forest.size());
    }
    forest.refresh_from(&processes, &AcceptAllProcesses);
    assert!(forest.get_process(6).is_none());
    assert_eq!(5, forest.size());
}

/// Tree:
/// 0
/// |_1_2
/// \_3_4
#[test]
fn forest_test_refresh_with_root_stopped() {
    let processes1 = with_parent_pids(&[(3, Some(0))], 5);
    let root_pid = processes1[0].pid;
    let (proc1, proc3) = (processes1[1].pid, processes1[3].pid);
    let mut forest = Forest::new();
    forest.refresh_from(&reordered(&processes1), &AcceptAllProcesses);
    assert_eq!(5, forest.size());
    assert_eq!(vec![root_pid], forest.root_pids());

    // The root dies and its children are reparented by the system.
    let mut processes2: Vec<ProcessStatus> = copies(&processes1[1..]);
    processes2[0].parent_pid = 0;
    processes2[2].parent_pid = 0;
    forest.refresh_from(&reordered(&processes2), &AcceptAllProcesses);
    assert_eq!(4, forest.size());
    assert_eq!(vec![proc1, proc3], sorted(forest.root_pids()));
    assert_eq!(0, forest.get_process(proc1).unwrap().parent_pid());
    assert_eq!(0, forest.get_process(proc3).unwrap().parent_pid());
}

#[test]
fn forest_test_refresh_pid_reused() {
    let processes1 = with_parent_pids(&[(2, Some(0))], 3);
    let reused = processes1[1].pid;
    let first_start = processes1[1].start_time;
    let mut processes2 = copies(&processes1);
    processes2[1] = status(reused, 0, "other", 5000);
    processes2[1].utime = 10;
    let mut forest = Forest::new();
    forest.refresh_from(&reordered(&processes1), &AcceptAllProcesses);
    forest.refresh_from(&reordered(&processes1), &AcceptAllProcesses);
    let first = forest.get_process(reused).unwrap();
    assert_eq!(first_start, first.start_time);
    assert_eq!(2, first.idleness());

    forest.refresh_from(&reordered(&processes2), &AcceptAllProcesses);
    let second = forest.get_process(reused).unwrap();
    assert_eq!(reused, second.pid());
    assert_eq!(5000, second.start_time);
    assert_eq!("other", second.name());
    assert_eq!(0, second.idleness());
}

#[test]
fn kernel_process_is_named_by_its_command() {
    let mut kernel = status(2, 0, "kthreadd", 1);
    kernel.exe_name = None;
    let pinfo = ProcessInfo::new(&kernel);
    assert_eq!("(kthreadd)", pinfo.name());
    assert!(pinfo.is_kernel());
    assert!(pinfo.hidden());
}

#[test]
fn unknown_process_has_no_descendants() {
    let forest = Forest::new();
    assert_eq!(Err(ProcessError::UnknownProcess(42)), forest.descendants(42));
}

#[test]
fn refresh_without_news_is_unchanged() {
    let processes = with_parent_pids(&[], 3);
    let mut forest = Forest::new();
    assert!(forest.refresh_from(&processes, &AcceptProcesses::with_pids(&[])) == false);
    assert_eq!(0, forest.size());
    // Accepting a process that already is in the forest counts as a change.
    assert!(forest.refresh_from(&processes, &AcceptProcesses::with_pids(&[3])));
    assert!(forest.refresh_from(&processes, &AcceptProcesses::with_pids(&[3])));
    assert_eq!(3, forest.size());
}

#[test]
fn cyclic_parents_stay_bounded() {
    // Two processes that claim each other as parent: neither is a root, and
    // listing the descendants ends.
    let processes = vec![status(1, 2, "a", 1), status(2, 1, "b", 1)];
    let mut forest = Forest::new();
    forest.refresh_from(&processes, &AcceptAllProcesses);
    assert!(forest.root_pids().is_empty());
    assert_eq!(vec![1, 2], forest.descendants(1).unwrap());
}

#[test]
fn targets_found_by_executable_name() {
    let statuses = vec![status(3, 1, "bash", 10), status(4, 1, "vim", 11), status(7, 3, "bash", 12)];
    assert_eq!(vec![3, 7], processes_named(&statuses, "bash"));
    assert!(processes_named(&statuses, "zsh").is_empty());
}

#[test]
fn deep_ancestors_of_accepted_process_are_kept_hidden() {
    // A chain listed from the leaf up: 8 <- 7 <- ... <- 1, plus an unrelated 9.
    let mut processes: Vec<ProcessStatus> = with_parent_pids(&[], 8).into_iter().rev().collect();
    processes.push(status(9, 0, "other", 5000));
    let mut forest = Forest::new();
    forest.refresh_from(&processes, &AcceptProcesses::with_pids(&[8]));
    assert_eq!(8, forest.size());
    for pid in 1..=7 {
        assert!(forest.get_process(pid).unwrap().hidden());
    }
    assert!(!forest.get_process(8).unwrap().hidden());
    assert!(forest.get_process(9).is_none());
}

#[test]
fn idleness_grows_by_one_at_each_idle_refresh() {
    let mut busy = status(1, 0, "busy", 1);
    busy.utime = 10;
    let mut forest = Forest::new();
    forest.refresh_from(&[copy(&busy)], &AcceptAllProcesses);
    assert_eq!(0, forest.get_process(1).unwrap().idleness());
    for n in 1..=5u16 {
        forest.refresh_from(&[copy(&busy)], &AcceptAllProcesses);
        assert_eq!(n, forest.get_process(1).unwrap().idleness());
    }
}
