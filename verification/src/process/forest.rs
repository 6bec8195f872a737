//! Forest of processes.
//!
//! The forest holds the processes that a classifier accepts plus their
//! ancestors. A process whose parent is not in the forest is a root. The
//! processes are kept sorted by identifier; the tree is given by the parent
//! identifier of each process.

use vstd::prelude::*;
use crate::process::collector;
use crate::strings::{push_char, push_str};

verus! {

/// Errors on processes.
#[derive(Debug, PartialEq, Eq, Structural)]
pub enum ProcessError {
    UnknownProcess(i32),
    CannotAccessProcesses,
}

/// What the system tells of a process when the forest is refreshed: its
/// statistics and the name of its executable when it has one.
pub struct ProcessStatus {
    pub pid: i32,
    pub parent_pid: i32,
    pub start_time: u64,
    pub state: char,
    /// Command name in the statistics.
    pub comm: String,
    /// Base name of the first element of the command line, or else of the
    /// executable; none for a kernel process.
    pub exe_name: Option<String>,
    pub utime: u64,
    pub stime: u64,
    /// Real user identifier of the owner, when it could be read.
    pub uid: Option<u32>,
}

/// Information about an existing or past process.
pub struct ProcessInfo {
    pub pid: i32,
    pub parent_pid: i32,
    pub start_time: u64,
    pub state: char,
    pub name: String,
    /// Whether this is a kernel process: one without command line nor executable.
    pub is_kernel: bool,
    /// The process exists but is hidden.
    pub hidden: bool,
    /// CPU time consumed at the last observation.
    pub cpu_time: u64,
    /// Number of consecutive observations without CPU activity.
    pub idleness: u16,
    /// Real user identifier of the owner, when it could be read.
    pub uid: Option<u32>,
}

/// What a process information is made of.
pub struct InfoView {
    pub pid: i32,
    pub parent_pid: i32,
    pub start_time: u64,
    pub state: char,
    pub name: Seq<char>,
    pub is_kernel: bool,
    pub hidden: bool,
    pub cpu_time: u64,
    pub idleness: u16,
    pub uid: Option<u32>,
}

impl View for ProcessInfo {
    type V = InfoView;

    open spec fn view(&self) -> InfoView {
        InfoView {
            pid: self.pid,
            parent_pid: self.parent_pid,
            start_time: self.start_time,
            state: self.state,
            name: self.name@,
            is_kernel: self.is_kernel,
            hidden: self.hidden,
            cpu_time: self.cpu_time,
            idleness: self.idleness,
            uid: self.uid,
        }
    }
}

/// User plus system time, saturated.
pub open spec fn cpu_total(utime: u64, stime: u64) -> u64 {
    if utime + stime > u64::MAX { u64::MAX } else { (utime + stime) as u64 }
}

/// Activity after an observation of the total CPU time: the idleness drops
/// to zero when the CPU time grows, else it increases by one, saturated.
pub open spec fn observed(cpu_time: u64, idleness: u16, total: u64) -> (u64, u16) {
    if total > cpu_time {
        (total, 0u16)
    } else if idleness == u16::MAX {
        (cpu_time, idleness)
    } else {
        (cpu_time, (idleness + 1) as u16)
    }
}

/// Name of a process: its executable's, or else its command name in brackets.
pub open spec fn status_name(s: ProcessStatus) -> Seq<char> {
    match s.exe_name {
        Some(n) => n@,
        None => seq!['('] + s.comm@ + seq![')'],
    }
}

/// Information about a process seen for the first time. It is hidden.
pub open spec fn new_info(s: ProcessStatus) -> InfoView {
    let act = observed(0, 0, cpu_total(s.utime, s.stime));
    InfoView {
        pid: s.pid,
        parent_pid: s.parent_pid,
        start_time: s.start_time,
        state: s.state,
        name: status_name(s),
        is_kernel: s.exe_name is None,
        hidden: true,
        cpu_time: act.0,
        idleness: act.1,
        uid: s.uid,
    }
}

/// Information about a known process refreshed with new statistics. It is hidden.
pub open spec fn refreshed_info(p: InfoView, s: ProcessStatus) -> InfoView {
    let act = observed(p.cpu_time, p.idleness, cpu_total(s.utime, s.stime));
    InfoView {
        parent_pid: s.parent_pid,
        hidden: true,
        cpu_time: act.0,
        idleness: act.1,
        uid: s.uid,
        ..p
    }
}

/// Activity after an observation.
fn observe(cpu_time: u64, idleness: u16, utime: u64, stime: u64) -> (r: (u64, u16))
    ensures
        r == observed(cpu_time, idleness, cpu_total(utime, stime)),
{
    let total = utime.saturating_add(stime);
    if total > cpu_time {
        (total, 0)
    } else {
        (cpu_time, idleness.saturating_add(1))
    }
}

impl ProcessInfo {
    /// Information about a process from its first statistics.
    pub fn new(status: &ProcessStatus) -> (p: ProcessInfo)
        ensures
            p@ == new_info(*status),
    {
        let name = match &status.exe_name {
            Some(n) => n.clone(),
            None => {
                let mut n = String::new();
                push_char(&mut n, '(');
                push_str(&mut n, status.comm.as_str());
                push_char(&mut n, ')');
                n
            },
        };
        proof {
            if status.exe_name is None {
                assert(name@ =~= seq!['('] + status.comm@ + seq![')']);
            }
        }
        let act = observe(0, 0, status.utime, status.stime);
        ProcessInfo {
            pid: status.pid,
            parent_pid: status.parent_pid,
            start_time: status.start_time,
            state: status.state,
            name,
            is_kernel: status.exe_name.is_none(),
            hidden: true,
            cpu_time: act.0,
            idleness: act.1,
            uid: status.uid,
        }
    }

    /// Refresh with the current statistics of the process. Fails when the
    /// statistics could not be read, or when they belong to another process
    /// that reused the identifier.
    pub fn refresh(&mut self, status: Option<&ProcessStatus>) -> (r: Result<(), ProcessError>)
        ensures
            status is Some && status.unwrap().start_time == old(self).start_time ==> {
                &&& r is Ok
                &&& final(self)@ == refreshed_info(old(self)@, *status.unwrap())
            },
            !(status is Some && status.unwrap().start_time == old(self).start_time) ==> {
                &&& r is Err
                &&& r == Err::<(), ProcessError>(ProcessError::UnknownProcess(old(self).pid))
                &&& final(self)@ == old(self)@
            },
    {
        match status {
            Some(s) => {
                if s.start_time != self.start_time {
                    Err(ProcessError::UnknownProcess(self.pid))
                } else {
                    self.parent_pid = s.parent_pid;
                    let act = observe(self.cpu_time, self.idleness, s.utime, s.stime);
                    self.cpu_time = act.0;
                    self.idleness = act.1;
                    self.uid = s.uid;
                    self.hidden = true;
                    Ok(())
                }
            },
            None => Err(ProcessError::UnknownProcess(self.pid)),
        }
    }

    pub fn pid(&self) -> (r: i32)
        ensures
            r == self.pid,
    {
        self.pid
    }

    pub fn parent_pid(&self) -> (r: i32)
        ensures
            r == self.parent_pid,
    {
        self.parent_pid
    }

    pub fn state(&self) -> (r: char)
        ensures
            r == self.state,
    {
        self.state
    }

    pub fn name(&self) -> (r: &str)
        ensures
            r@ == self.name@,
    {
        self.name.as_str()
    }

    pub fn is_kernel(&self) -> (r: bool)
        ensures
            r == self.is_kernel,
    {
        self.is_kernel
    }

    pub fn hidden(&self) -> (r: bool)
        ensures
            r == self.hidden,
    {
        self.hidden
    }

    pub fn conceal(&mut self)
        ensures
            final(self)@ == (InfoView { hidden: true, ..old(self)@ }),
    {
        self.hidden = true;
    }

    pub fn show(&mut self)
        ensures
            final(self)@ == (InfoView { hidden: false, ..old(self)@ }),
    {
        self.hidden = false;
    }

    pub fn idleness(&self) -> (r: u16)
        ensures
            r == self.idleness,
    {
        self.idleness
    }

    pub fn uid(&self) -> (r: Option<u32>)
        ensures
            r == self.uid,
    {
        self.uid
    }

    /// What the collector reads of the process.
    pub fn identity(&self) -> (r: collector::ProcessInfo)
        ensures
            r.pid == self.pid,
            r.parent_pid == self.parent_pid,
            r.state == self.state,
    {
        collector::ProcessInfo { pid: self.pid, parent_pid: self.parent_pid, state: self.state }
    }

    /// A copy of the information.
    pub fn duplicate(&self) -> (r: ProcessInfo)
        ensures
            r@ == self@,
    {
        ProcessInfo {
            pid: self.pid,
            parent_pid: self.parent_pid,
            start_time: self.start_time,
            state: self.state,
            name: self.name.clone(),
            is_kernel: self.is_kernel,
            hidden: self.hidden,
            cpu_time: self.cpu_time,
            idleness: self.idleness,
            uid: self.uid,
        }
    }
}


/// Decides which processes are shown. The forest holds the processes that
/// it accepts plus their ancestors.
pub trait ProcessClassifier {
    /// Whether a process is accepted.
    spec fn accepts(&self, p: InfoView) -> bool;

    fn accept(&self, pi: &ProcessInfo) -> (r: bool)
        ensures
            r == self.accepts(pi@),
    ;
}

/// Classifier that accepts all processes.
pub struct AcceptAllProcesses;

impl ProcessClassifier for AcceptAllProcesses {
    open spec fn accepts(&self, p: InfoView) -> bool {
        true
    }

    fn accept(&self, pi: &ProcessInfo) -> (r: bool) {
        true
    }
}

/// Classifier that accepts the processes with given identifiers.
pub struct AcceptProcesses {
    pub pids: Vec<i32>,
}

impl AcceptProcesses {
    pub fn with_pids(pids: &[i32]) -> (c: AcceptProcesses)
        ensures
            c.pids@ == pids@,
    {
        let mut v: Vec<i32> = Vec::new();
        let mut i: usize = 0;
        while i < pids.len()
            invariant
                i <= pids.len(),
                v@ == pids@.take(i as int),
            decreases pids.len() - i,
        {
            v.push(pids[i]);
            assert(pids@.take(i + 1) =~= pids@.take(i as int).push(pids@[i as int]));
            i = i + 1;
        }
        assert(pids@.take(pids.len() as int) =~= pids@);
        AcceptProcesses { pids: v }
    }

    /// Whether a process identifier is accepted.
    pub fn contains(&self, pid: i32) -> (b: bool)
        ensures
            b == self.pids@.contains(pid),
    {
        let mut i: usize = 0;
        while i < self.pids.len()
            invariant
                i <= self.pids.len(),
                forall|j: int| 0 <= j < i ==> self.pids@[j] != pid,
            decreases self.pids.len() - i,
        {
            if self.pids[i] == pid {
                return true;
            }
            i = i + 1;
        }
        false
    }
}

impl ProcessClassifier for AcceptProcesses {
    open spec fn accepts(&self, p: InfoView) -> bool {
        self.pids@.contains(p.pid)
    }

    fn accept(&self, pi: &ProcessInfo) -> (r: bool) {
        self.contains(pi.pid)
    }
}

/// The views of a list of processes.
pub open spec fn views(s: Seq<ProcessInfo>) -> Seq<InfoView> {
    s.map_values(|p: ProcessInfo| p@)
}

/// Whether the identifiers of a list of processes are strictly increasing.
pub open spec fn pids_sorted(s: Seq<InfoView>) -> bool {
    forall|i: int, j: int| 0 <= i < j < s.len() ==> s[i].pid < s[j].pid
}

/// Whether a list of processes holds a given identifier.
pub open spec fn has_pid(s: Seq<InfoView>, pid: i32) -> bool {
    exists|i: int| 0 <= i < s.len() && s[i].pid == pid
}

/// The processes of a list by identifier.
pub open spec fn info_map(s: Seq<InfoView>) -> Map<i32, InfoView> {
    Map::new(
        |pid: i32| has_pid(s, pid),
        |pid: i32| s[choose|i: int| 0 <= i < s.len() && s[i].pid == pid],
    )
}

/// In a sorted list, the process with an identifier is the one at its index.
pub proof fn lemma_info_map_at(s: Seq<InfoView>, i: int)
    requires
        pids_sorted(s),
        0 <= i < s.len(),
    ensures
        info_map(s).dom().contains(s[i].pid),
        info_map(s)[s[i].pid] == s[i],
{
    assert(has_pid(s, s[i].pid));
    let j = choose|j: int| 0 <= j < s.len() && s[j].pid == s[i].pid;
    if j < i {
        assert(s[j].pid < s[i].pid);
    } else if i < j {
        assert(s[i].pid < s[j].pid);
    }
}

/// Parent of a process in a set of processes: none when the parent is not
/// in the set, or is the process itself.
pub open spec fn parent_in(m: Map<i32, InfoView>, pid: i32) -> Option<i32> {
    if m.dom().contains(pid) && m[pid].parent_pid != pid && m.dom().contains(m[pid].parent_pid) {
        Some(m[pid].parent_pid)
    } else {
        None
    }
}

/// The ancestor of a process `t` generations up, the process itself for 0.
pub open spec fn walk(m: Map<i32, InfoView>, pid: i32, t: nat) -> Option<i32>
    decreases t,
{
    if t == 0 {
        if m.dom().contains(pid) { Some(pid) } else { None }
    } else {
        match walk(m, pid, (t - 1) as nat) {
            Some(q) => parent_in(m, q),
            None => None,
        }
    }
}

/// Whether `anc` is `pid` or one of its ancestors less than `n` generations up.
pub open spec fn ancestor_within(m: Map<i32, InfoView>, pid: i32, anc: i32, n: nat) -> bool {
    exists|t: nat| t < n && walk(m, pid, t) == Some(anc)
}

/// Once a walk up the tree has stopped, it stays stopped.
proof fn lemma_walk_stops(m: Map<i32, InfoView>, pid: i32, t: nat, u: nat)
    requires
        walk(m, pid, t) is None,
        t <= u,
    ensures
        walk(m, pid, u) is None,
    decreases u - t,
{
    if t < u {
        lemma_walk_stops(m, pid, t, (u - 1) as nat);
    }
}

/// Whether a process is listed among the statuses.
pub open spec fn listed(st: Seq<ProcessStatus>, pid: i32) -> bool {
    exists|k: int| 0 <= k < st.len() && st[k].pid == pid
}

/// The first status of a process: when a process is listed twice, the
/// second status is ignored.
pub open spec fn first_status(st: Seq<ProcessStatus>, pid: i32) -> ProcessStatus
    decreases st.len(),
{
    if st.len() > 0 && listed(st.drop_last(), pid) {
        first_status(st.drop_last(), pid)
    } else {
        st.last()
    }
}

/// Whether a known process survives with its status: it is listed and it
/// started at the same time.
pub open spec fn survives(old: Map<i32, InfoView>, st: Seq<ProcessStatus>, pid: i32) -> bool {
    &&& old.dom().contains(pid)
    &&& listed(st, pid)
    &&& old[pid].start_time == first_status(st, pid).start_time
}

/// A listed process: the known one refreshed when it survives, or else a new one.
pub open spec fn candidate(old: Map<i32, InfoView>, st: Seq<ProcessStatus>, pid: i32) -> InfoView {
    if survives(old, st, pid) {
        refreshed_info(old[pid], first_status(st, pid))
    } else {
        new_info(first_status(st, pid))
    }
}

/// All the listed processes.
pub open spec fn candidates(old: Map<i32, InfoView>, st: Seq<ProcessStatus>) -> Map<i32, InfoView> {
    Map::new(|pid: i32| listed(st, pid), |pid: i32| candidate(old, st, pid))
}

/// The forest after a refresh: the listed processes that are accepted and
/// their ancestors, each hidden unless it is accepted.
pub open spec fn refreshed_forest<C: ProcessClassifier>(
    old: Map<i32, InfoView>,
    st: Seq<ProcessStatus>,
    c: C,
) -> Map<i32, InfoView> {
    let cands = candidates(old, st);
    Map::new(
        |pid: i32|
            cands.dom().contains(pid) && exists|a: i32|
                cands.dom().contains(a) && c.accepts(#[trigger] cands[a]) && ancestor_within(
                    cands,
                    a,
                    pid,
                    st.len() as nat,
                ),
        |pid: i32| InfoView { hidden: !c.accepts(cands[pid]), ..cands[pid] },
    )
}

/// Whether a refresh changes the forest: a listed process enters or leaves
/// it, or a process that survives is accepted. A process that is no longer
/// listed leaves silently.
pub open spec fn refresh_changes<C: ProcessClassifier>(
    old: Map<i32, InfoView>,
    st: Seq<ProcessStatus>,
    c: C,
) -> bool {
    let cands = candidates(old, st);
    let new = refreshed_forest(old, st, c);
    ||| exists|pid: i32| #[trigger] cands.dom().contains(pid) && (new.dom().contains(pid) != survives(old, st, pid))
    ||| exists|pid: i32| #[trigger] survives(old, st, pid) && c.accepts(cands[pid])
}

/// Forest of processes.
///
/// There may be multiple roots. All processes accepted by a classifier plus
/// their ancestors are in the forest.
pub struct Forest {
    nodes: Vec<ProcessInfo>,
}

impl View for Forest {
    type V = Map<i32, InfoView>;

    closed spec fn view(&self) -> Map<i32, InfoView> {
        info_map(views(self.nodes@))
    }
}

impl Forest {
    /// The processes of the forest by increasing identifier.
    pub closed spec fn nodes(&self) -> Seq<InfoView> {
        views(self.nodes@)
    }

    /// The forest is well formed: its processes are sorted by identifier.
    pub closed spec fn wf(&self) -> bool {
        pids_sorted(self.nodes())
    }

    pub proof fn lemma_view(&self)
        ensures
            self@ == info_map(self.nodes()),
    {
    }

    /// An empty forest.
    pub fn new() -> (f: Forest)
        ensures
            f.wf(),
            f@ == Map::<i32, InfoView>::empty(),
    {
        let f = Forest { nodes: Vec::new() };
        assert(f@ =~= Map::<i32, InfoView>::empty());
        f
    }

    /// Number of processes.
    pub fn size(&self) -> (n: usize)
        requires
            self.wf(),
        ensures
            n == self@.len(),
    {
        proof { self.lemma_dom_len(); }
        self.nodes.len()
    }

    proof fn lemma_dom_len(&self)
        requires
            self.wf(),
        ensures
            self@.dom().finite(),
            self@.len() == self.nodes().len(),
    {
        let s = self.nodes();
        let pids = Seq::new(s.len(), |i: int| s[i].pid);
        assert forall|i: int| 0 <= i < s.len() implies #[trigger] info_map(s).dom().contains(pids[i]) by {
            lemma_info_map_at(s, i);
        }
        assert(pids.to_set() =~= info_map(s).dom()) by {
            assert forall|q: i32| info_map(s).dom().contains(q) implies pids.to_set().contains(q) by {
                let i = choose|i: int| 0 <= i < s.len() && s[i].pid == q;
                assert(pids[i] == q);
            }
        }
        assert(pids.no_duplicates()) by {
            assert forall|i: int, j: int| 0 <= i < pids.len() && 0 <= j < pids.len() && i != j implies pids[i] != pids[j] by {
                if i < j { assert(s[i].pid < s[j].pid); } else { assert(s[j].pid < s[i].pid); }
            }
        }
        pids.unique_seq_to_set();
    }

    /// Index of a process in the forest.
    fn find(&self, pid: i32) -> (r: Option<usize>)
        requires
            self.wf(),
        ensures
            match r {
                Some(i) => i < self.nodes().len() && self.nodes()[i as int].pid == pid,
                None => !self@.dom().contains(pid),
            },
    {
        find_pid(&self.nodes, pid)
    }

    /// Whether a process is in the forest.
    pub fn has_process(&self, pid: i32) -> (b: bool)
        requires
            self.wf(),
        ensures
            b == self@.dom().contains(pid),
    {
        match self.find(pid) {
            Some(i) => {
                proof { lemma_info_map_at(self.nodes(), i as int); }
                true
            },
            None => false,
        }
    }

    /// A process of the forest.
    pub fn get_process(&self, pid: i32) -> (r: Option<&ProcessInfo>)
        requires
            self.wf(),
        ensures
            match r {
                Some(p) => self@.dom().contains(pid) && p@ == self@[pid],
                None => !self@.dom().contains(pid),
            },
    {
        match self.find(pid) {
            Some(i) => {
                proof { lemma_info_map_at(self.nodes(), i as int); }
                Some(&self.nodes[i])
            },
            None => None,
        }
    }
}

/// Index of a process in a list sorted by identifier.
fn find_pid(v: &Vec<ProcessInfo>, pid: i32) -> (r: Option<usize>)
    requires
        pids_sorted(views(v@)),
    ensures
        match r {
            Some(i) => i < v.len() && v@[i as int].pid == pid,
            None => !info_map(views(v@)).dom().contains(pid),
        },
{
    let mut i: usize = 0;
    while i < v.len()
        invariant
            i <= v.len(),
            forall|j: int| 0 <= j < i ==> v@[j].pid != pid,
        decreases v.len() - i,
    {
        if v[i].pid == pid {
            return Some(i);
        }
        i = i + 1;
    }
    proof {
        let s = views(v@);
        if has_pid(s, pid) {
            let j = choose|j: int| 0 <= j < s.len() && s[j].pid == pid;
            assert(v@[j].pid == pid);
        }
    }
    None
}


/// First index in a sorted list whose identifier is above a given one.
fn insertion_point(v: &Vec<ProcessInfo>, pid: i32) -> (pos: usize)
    requires
        pids_sorted(views(v@)),
        !info_map(views(v@)).dom().contains(pid),
    ensures
        pos <= v.len(),
        forall|i: int| 0 <= i < pos ==> v@[i].pid < pid,
        forall|i: int| pos <= i < v.len() ==> pid < v@[i].pid,
{
    let mut i: usize = 0;
    while i < v.len() && v[i].pid < pid
        invariant
            i <= v.len(),
            forall|j: int| 0 <= j < i ==> v@[j].pid < pid,
        decreases v.len() - i,
    {
        i = i + 1;
    }
    proof {
        let s = views(v@);
        assert forall|j: int| i <= j < v.len() implies pid < v@[j].pid by {
            if v@[j].pid == pid {
                assert(has_pid(s, pid) && s[j].pid == pid);
            }
            if j > i {
                assert(s[i as int].pid < s[j].pid);
            }
        }
    }
    i
}

/// Inserting a process at its place keeps the list sorted and adds it to the map.
proof fn lemma_insert_sorted(s: Seq<InfoView>, pos: int, x: InfoView)
    requires
        pids_sorted(s),
        0 <= pos <= s.len(),
        forall|i: int| 0 <= i < pos ==> s[i].pid < x.pid,
        forall|i: int| pos <= i < s.len() ==> x.pid < s[i].pid,
    ensures
        pids_sorted(s.insert(pos, x)),
        info_map(s.insert(pos, x)) == info_map(s).insert(x.pid, x),
{
    let t = s.insert(pos, x);
    assert(pids_sorted(t));
    assert forall|q: i32| #[trigger] info_map(t).dom().contains(q) == info_map(s).insert(x.pid, x).dom().contains(q) by {
        if has_pid(t, q) {
            let i = choose|i: int| 0 <= i < t.len() && t[i].pid == q;
            if i < pos {
                assert(s[i].pid == q);
            } else if i > pos {
                assert(s[i - 1].pid == q);
            }
        }
        if has_pid(s, q) {
            let i = choose|i: int| 0 <= i < s.len() && s[i].pid == q;
            if i < pos {
                assert(t[i].pid == q);
            } else {
                assert(t[i + 1].pid == q);
            }
        }
        if q == x.pid {
            assert(t[pos].pid == q);
        }
    }
    assert forall|q: i32| #[trigger] info_map(t).dom().contains(q) implies info_map(t)[q] == info_map(s).insert(x.pid, x)[q] by {
        let i = choose|i: int| 0 <= i < t.len() && t[i].pid == q;
        lemma_info_map_at(t, i);
        if i < pos {
            lemma_info_map_at(s, i);
        } else if i > pos {
            lemma_info_map_at(s, i - 1);
        }
    }
    assert(info_map(t) =~= info_map(s).insert(x.pid, x));
}

/// Listing one more status adds the process if it was not listed yet; the
/// processes already listed keep their first status.
proof fn lemma_listing_extends(st: Seq<ProcessStatus>, k: int, q: i32)
    requires
        0 <= k < st.len(),
    ensures
        listed(st.take(k + 1), q) == (listed(st.take(k), q) || st[k].pid == q),
        listed(st.take(k), q) ==> first_status(st.take(k + 1), q) == first_status(st.take(k), q),
        !listed(st.take(k), q) && st[k].pid == q ==> first_status(st.take(k + 1), q) == st[k],
{
    assert(st.take(k + 1).drop_last() =~= st.take(k));
    if listed(st.take(k + 1), q) {
        let j = choose|j: int| 0 <= j < k + 1 && #[trigger] st.take(k + 1)[j].pid == q;
        if j < k {
            assert(st.take(k)[j].pid == q);
        }
    }
    if listed(st.take(k), q) {
        let j = choose|j: int| 0 <= j < k && #[trigger] st.take(k)[j].pid == q;
        assert(st.take(k + 1)[j].pid == q);
    }
    if st[k].pid == q {
        assert(st.take(k + 1)[k].pid == q);
    }
}

impl Forest {
    /// Refreshes the forest with the statuses of the processes of the system
    /// and returns whether it has changed.
    ///
    /// A known process is refreshed with its status; it is replaced when its
    /// identifier has been reused, and leaves when it is not listed. The
    /// forest then holds the listed processes that the classifier accepts,
    /// shown, and their ancestors, hidden.
    pub fn refresh_from<C: ProcessClassifier>(&mut self, statuses: &[ProcessStatus], classifier: &C) -> (changed: bool)
        requires
            old(self).wf(),
        ensures
            final(self).wf(),
            final(self)@ == refreshed_forest(old(self)@, statuses@, *classifier),
            changed == refresh_changes(old(self)@, statuses@, *classifier),
    {
        let ghost old_map = self@;
        let ghost st = statuses@;
        let mut all: Vec<ProcessInfo> = Vec::new();
        let mut shown: Vec<bool> = Vec::new();
        let mut survivor: Vec<bool> = Vec::new();
        let mut k: usize = 0;
        while k < statuses.len()
            invariant
                k <= statuses.len(),
                st == statuses@,
                self.wf(),
                self@ == old_map,
                all.len() == shown.len(),
                all.len() == survivor.len(),
                all.len() <= k,
                pids_sorted(views(all@)),
                info_map(views(all@)) == candidates(old_map, st.take(k as int)),
                forall|i: int| 0 <= i < all.len() ==> shown@[i] == classifier.accepts(#[trigger] views(all@)[i]),
                forall|i: int| 0 <= i < all.len() ==> survivor@[i] == survives(old_map, st.take(k as int), #[trigger] views(all@)[i].pid),
            decreases statuses.len() - k,
        {
            let s = &statuses[k];
            let ghost before = views(all@);
            proof {
                assert forall|q: i32| true implies #[trigger] listed(st.take(k + 1), q) == (listed(st.take(k as int), q) || st[k as int].pid == q) by {
                    lemma_listing_extends(st, k as int, q);
                }
            }
            match find_pid(&all, s.pid) {
                Some(found) => {
                    proof {
                        lemma_info_map_at(before, found as int);
                        assert forall|q: i32| #[trigger] listed(st.take(k + 1), q) implies candidate(old_map, st.take(k + 1), q) == candidate(old_map, st.take(k as int), q)
                            && survives(old_map, st.take(k + 1), q) == survives(old_map, st.take(k as int), q) by {
                            lemma_listing_extends(st, k as int, q);
                        }
                        assert(candidates(old_map, st.take(k + 1)) =~= candidates(old_map, st.take(k as int)));
                        assert forall|i: int| 0 <= i < all.len() implies survivor@[i] == survives(old_map, st.take(k + 1), #[trigger] views(all@)[i].pid) by {
                            lemma_info_map_at(before, i);
                        }
                    }
                },
                None => {
                    let (info, surv) = match self.find(s.pid) {
                        Some(i) => {
                            if self.nodes[i].start_time == s.start_time {
                                let mut p = self.nodes[i].duplicate();
                                let _ = p.refresh(Some(s));
                                (p, true)
                            } else {
                                (ProcessInfo::new(s), false)
                            }
                        },
                        None => (ProcessInfo::new(s), false),
                    };
                    let acc = classifier.accept(&info);
                    let pos = insertion_point(&all, s.pid);
                    proof {
                        lemma_listing_extends(st, k as int, s.pid);
                        if let Some(i) = self.find_spec(s.pid) {
                            lemma_info_map_at(self.nodes(), i);
                        }
                        assert(info@ == candidate(old_map, st.take(k + 1), s.pid));
                        assert(surv == survives(old_map, st.take(k + 1), s.pid));
                        lemma_insert_sorted(before, pos as int, info@);
                        assert forall|q: i32| #[trigger] listed(st.take(k as int), q) implies candidate(old_map, st.take(k + 1), q) == candidate(old_map, st.take(k as int), q)
                            && survives(old_map, st.take(k + 1), q) == survives(old_map, st.take(k as int), q) by {
                            lemma_listing_extends(st, k as int, q);
                        }
                        assert(candidates(old_map, st.take(k + 1)) =~= candidates(old_map, st.take(k as int)).insert(s.pid, info@));
                    }
                    all.insert(pos, info);
                    shown.insert(pos, acc);
                    survivor.insert(pos, surv);
                    proof {
                        assert(views(all@) =~= before.insert(pos as int, info@));
                        assert forall|i: int| 0 <= i < all.len() implies survivor@[i] == survives(old_map, st.take(k + 1), #[trigger] views(all@)[i].pid) by {
                            if i < pos {
                                lemma_info_map_at(before, i);
                            } else if i > pos {
                                lemma_info_map_at(before, i - 1);
                            }
                        }
                    }
                },
            }
            k = k + 1;
        }
        proof {
            assert(st.take(st.len() as int) =~= st);
        }
        let ghost av = views(all@);
        let ghost m = info_map(av);
        let ghost bound = statuses.len() as nat;
        let n = all.len();
        let mut marks: Vec<bool> = Vec::new();
        while marks.len() < n
            invariant
                marks.len() <= n,
                forall|j: int| 0 <= j < marks.len() ==> !marks@[j],
            decreases n - marks.len(),
        {
            marks.push(false);
        }
        let mut i: usize = 0;
        while i < n
            invariant
                i <= n,
                n == all.len(),
                av == views(all@),
                m == info_map(av),
                pids_sorted(av),
                n <= bound,
                bound == statuses.len(),
                shown.len() == n,
                marks.len() == n,
                forall|j: int| 0 <= j < n ==> #[trigger] marks@[j] == exists|i2: int|
                    0 <= i2 < i && shown@[i2] && ancestor_within(m, av[i2].pid, av[j].pid, bound),
            decreases n - i,
        {
            if shown[i] {
                let mut cur: usize = i;
                let mut t: usize = 0;
                proof {
                    lemma_info_map_at(av, i as int);
                }
                loop
                    invariant_except_break
                        cur < n,
                        t < bound,
                        walk(m, av[i as int].pid, t as nat) == Some(av[cur as int].pid),
                        forall|j: int| 0 <= j < n ==> #[trigger] marks@[j] == ((exists|i2: int|
                            0 <= i2 < i && shown@[i2] && ancestor_within(m, av[i2].pid, av[j].pid, bound))
                            || exists|t2: nat| t2 < t && walk(m, av[i as int].pid, t2) == Some(av[j].pid)),
                    invariant
                        i < n,
                        n == all.len(),
                        av == views(all@),
                        m == info_map(av),
                        pids_sorted(av),
                        n <= bound,
                        bound == statuses.len(),
                        shown.len() == n,
                        marks.len() == n,
                    ensures
                        forall|j: int| 0 <= j < n ==> #[trigger] marks@[j] == ((exists|i2: int|
                            0 <= i2 < i && shown@[i2] && ancestor_within(m, av[i2].pid, av[j].pid, bound))
                            || ancestor_within(m, av[i as int].pid, av[j].pid, bound)),
                    decreases bound - t,
                {
                    marks.set(cur, true);
                    let ghost tn = t as nat;
                    proof {
                        lemma_info_map_at(av, cur as int);
                        assert forall|j: int| 0 <= j < n implies #[trigger] marks@[j] == ((exists|i2: int|
                            0 <= i2 < i && shown@[i2] && ancestor_within(m, av[i2].pid, av[j].pid, bound))
                            || exists|t2: nat| t2 < t + 1 && walk(m, av[i as int].pid, t2) == Some(av[j].pid)) by {
                            if j == cur {
                                assert(walk(m, av[i as int].pid, tn) == Some(av[j].pid));
                            } else {
                                if exists|t2: nat| t2 < t + 1 && walk(m, av[i as int].pid, t2) == Some(av[j].pid) {
                                    let t2 = choose|t2: nat| t2 < t + 1 && walk(m, av[i as int].pid, t2) == Some(av[j].pid);
                                    if t2 == tn {
                                        assert(av[j].pid == av[cur as int].pid);
                                        assert(av[j].pid < av[cur as int].pid || av[cur as int].pid < av[j].pid);
                                    }
                                }
                            }
                        }
                    }
                    let p = all[cur].parent_pid;
                    if p == all[cur].pid {
                        proof {
                            assert(walk(m, av[i as int].pid, tn + 1) is None);
                            self.lemma_marks_complete(m, av, marks@, shown@, i as int, tn, bound);
                        }
                        break;
                    }
                    match find_pid(&all, p) {
                        None => {
                            proof {
                                assert(walk(m, av[i as int].pid, tn + 1) is None);
                                self.lemma_marks_complete(m, av, marks@, shown@, i as int, tn, bound);
                            }
                            break;
                        },
                        Some(j) => {
                            if t + 1 >= statuses.len() {
                                proof {
                                    self.lemma_marks_complete(m, av, marks@, shown@, i as int, tn, bound);
                                }
                                break;
                            }
                            proof {
                                lemma_info_map_at(av, j as int);
                                assert(walk(m, av[i as int].pid, tn + 1) == Some(av[j as int].pid));
                            }
                            cur = j;
                            t = t + 1;
                        },
                    }
                }
            }
            proof {
                assert forall|j: int| 0 <= j < n implies #[trigger] marks@[j] == exists|i2: int|
                    0 <= i2 < i + 1 && shown@[i2] && ancestor_within(m, av[i2].pid, av[j].pid, bound) by {
                    if exists|i2: int| 0 <= i2 < i + 1 && shown@[i2] && ancestor_within(m, av[i2].pid, av[j].pid, bound) {
                        let i2 = choose|i2: int| 0 <= i2 < i + 1 && shown@[i2] && ancestor_within(m, av[i2].pid, av[j].pid, bound);
                        if i2 < i {
                        }
                    }
                }
            }
            i = i + 1;
        }
        proof {
            self.lemma_marks_membership(old_map, st, *classifier, av, shown@, marks@);
        }
        let mut nodes: Vec<ProcessInfo> = Vec::new();
        let ghost mut idx: Seq<int> = Seq::empty();
        let mut changed = false;
        let mut i: usize = 0;
        while i < n
            invariant
                i <= n,
                n == all.len(),
                av == views(all@),
                pids_sorted(av),
                shown.len() == n,
                marks.len() == n,
                survivor.len() == n,
                nodes.len() == idx.len(),
                forall|x: int| 0 <= x < idx.len() ==> 0 <= #[trigger] idx[x] < i && marks@[idx[x]],
                forall|x: int, y: int| 0 <= x < y < idx.len() ==> idx[x] < idx[y],
                forall|x: int| 0 <= x < idx.len() ==> #[trigger] views(nodes@)[x] == (InfoView { hidden: !shown@[idx[x]], ..av[idx[x]] }),
                forall|j: int| 0 <= j < i && #[trigger] marks@[j] ==> exists|x: int| 0 <= x < idx.len() && idx[x] == j,
                changed == exists|j: int| 0 <= j < i && ((#[trigger] survivor@[j] && shown@[j]) || marks@[j] != survivor@[j]),
            decreases n - i,
        {
            let ghost old_idx = idx;
            if marks[i] {
                let mut p = all[i].duplicate();
                p.hidden = !shown[i];
                let ghost before = views(nodes@);
                let ghost pv = p@;
                nodes.push(p);
                proof {
                    idx = idx.push(i as int);
                    assert(views(nodes@) =~= before.push(pv));
                    assert(idx[idx.len() - 1] == i);
                }
            }
            proof {
                assert forall|j: int| 0 <= j < i + 1 && #[trigger] marks@[j] implies exists|x: int| 0 <= x < idx.len() && idx[x] == j by {
                    if j < i {
                        let x = choose|x: int| 0 <= x < old_idx.len() && old_idx[x] == j;
                        assert(idx[x] == j);
                    } else {
                        assert(idx[idx.len() - 1] == j);
                    }
                }
            }
            changed = changed || (survivor[i] && shown[i]) || marks[i] != survivor[i];
            i = i + 1;
        }
        proof {
            let nv = views(nodes@);
            assert(pids_sorted(nv)) by {
                assert forall|x: int, y: int| 0 <= x < y < nv.len() implies nv[x].pid < nv[y].pid by {
                    assert(idx[x] < idx[y]);
                    assert(av[idx[x]].pid < av[idx[y]].pid);
                }
            }
            self.lemma_result(old_map, st, *classifier, av, shown@, marks@, survivor@, nv, idx, changed);
        }
        self.nodes = nodes;
        changed
    }

    /// The marked processes are those of the refreshed forest.
    proof fn lemma_marks_membership<C: ProcessClassifier>(&self, old: Map<i32, InfoView>, st: Seq<ProcessStatus>, c: C,
        av: Seq<InfoView>, shown: Seq<bool>, marks: Seq<bool>)
        requires
            pids_sorted(av),
            info_map(av) == candidates(old, st),
            shown.len() == av.len(),
            marks.len() == av.len(),
            forall|i: int| 0 <= i < av.len() ==> shown[i] == c.accepts(#[trigger] av[i]),
            forall|j: int| 0 <= j < av.len() ==> #[trigger] marks[j] == exists|i2: int|
                0 <= i2 < av.len() && shown[i2] && ancestor_within(info_map(av), av[i2].pid, av[j].pid, st.len() as nat),
        ensures
            forall|j: int| 0 <= j < av.len() ==> marks[j] == #[trigger] refreshed_forest(old, st, c).dom().contains(av[j].pid),
            forall|j: int| 0 <= j < av.len() && marks[j] ==> refreshed_forest(old, st, c)[#[trigger] av[j].pid] == (InfoView { hidden: !shown[j], ..av[j] }),
            forall|q: i32| #[trigger] refreshed_forest(old, st, c).dom().contains(q) ==> has_pid(av, q),
    {
        let m = info_map(av);
        let f = refreshed_forest(old, st, c);
        assert forall|j: int| 0 <= j < av.len() implies marks[j] == #[trigger] f.dom().contains(av[j].pid) by {
            lemma_info_map_at(av, j);
            if marks[j] {
                let i2 = choose|i2: int| 0 <= i2 < av.len() && shown[i2] && ancestor_within(m, av[i2].pid, av[j].pid, st.len() as nat);
                lemma_info_map_at(av, i2);
                assert(m.dom().contains(av[i2].pid) && c.accepts(m[av[i2].pid]));
            }
            if f.dom().contains(av[j].pid) {
                let a = choose|a: i32| m.dom().contains(a) && c.accepts(#[trigger] m[a]) && ancestor_within(m, a, av[j].pid, st.len() as nat);
                let i2 = choose|i2: int| 0 <= i2 < av.len() && av[i2].pid == a;
                lemma_info_map_at(av, i2);
                assert(shown[i2]);
            }
        }
        assert forall|j: int| 0 <= j < av.len() && marks[j] implies f[#[trigger] av[j].pid] == (InfoView { hidden: !shown[j], ..av[j] }) by {
            lemma_info_map_at(av, j);
            let pid = av[j].pid;
            assert(f.dom().contains(pid));
            assert(candidates(old, st)[pid] == av[j]);
        }
    }

    /// The list built from the marks is the refreshed forest.
    proof fn lemma_result<C: ProcessClassifier>(&self, old: Map<i32, InfoView>, st: Seq<ProcessStatus>, c: C,
        av: Seq<InfoView>, shown: Seq<bool>, marks: Seq<bool>, survivor: Seq<bool>, nv: Seq<InfoView>, idx: Seq<int>, changed: bool)
        requires
            pids_sorted(av),
            pids_sorted(nv),
            info_map(av) == candidates(old, st),
            shown.len() == av.len(),
            marks.len() == av.len(),
            survivor.len() == av.len(),
            nv.len() == idx.len(),
            forall|i: int| 0 <= i < av.len() ==> survivor[i] == survives(old, st, #[trigger] av[i].pid),
            forall|i: int| 0 <= i < av.len() ==> shown[i] == c.accepts(#[trigger] av[i]),
            forall|j: int| 0 <= j < av.len() ==> marks[j] == #[trigger] refreshed_forest(old, st, c).dom().contains(av[j].pid),
            forall|j: int| 0 <= j < av.len() && marks[j] ==> refreshed_forest(old, st, c)[#[trigger] av[j].pid] == (InfoView { hidden: !shown[j], ..av[j] }),
            forall|q: i32| #[trigger] refreshed_forest(old, st, c).dom().contains(q) ==> has_pid(av, q),
            forall|x: int| 0 <= x < idx.len() ==> 0 <= #[trigger] idx[x] < av.len() && marks[idx[x]],
            forall|x: int| 0 <= x < idx.len() ==> #[trigger] nv[x] == (InfoView { hidden: !shown[idx[x]], ..av[idx[x]] }),
            forall|j: int| 0 <= j < av.len() && #[trigger] marks[j] ==> exists|x: int| 0 <= x < idx.len() && idx[x] == j,
            changed == exists|j: int| 0 <= j < av.len() && ((#[trigger] survivor[j] && shown[j]) || marks[j] != survivor[j]),
        ensures
            info_map(nv) == refreshed_forest(old, st, c),
            changed == refresh_changes(old, st, c),
    {
        let f = refreshed_forest(old, st, c);
        let cands = candidates(old, st);
        assert forall|q: i32| #[trigger] info_map(nv).dom().contains(q) == f.dom().contains(q) by {
            if has_pid(nv, q) {
                let x = choose|x: int| 0 <= x < nv.len() && nv[x].pid == q;
                assert(av[idx[x]].pid == q);
            }
            if f.dom().contains(q) {
                let j = choose|j: int| 0 <= j < av.len() && av[j].pid == q;
                let x = choose|x: int| 0 <= x < idx.len() && idx[x] == j;
                assert(nv[x].pid == q);
            }
        }
        assert forall|q: i32| #[trigger] info_map(nv).dom().contains(q) implies info_map(nv)[q] == f[q] by {
            let x = choose|x: int| 0 <= x < nv.len() && nv[x].pid == q;
            lemma_info_map_at(nv, x);
            assert(av[idx[x]].pid == q);
        }
        assert(info_map(nv) =~= f);
        let changes = refresh_changes(old, st, c);
        if changed {
            let j = choose|j: int| 0 <= j < av.len() && ((#[trigger] survivor[j] && shown[j]) || marks[j] != survivor[j]);
            lemma_info_map_at(av, j);
            assert(cands.dom().contains(av[j].pid));
            if survivor[j] && shown[j] {
                assert(survives(old, st, av[j].pid) && c.accepts(cands[av[j].pid]));
            } else {
                assert(cands.dom().contains(av[j].pid) && (f.dom().contains(av[j].pid) != survives(old, st, av[j].pid)));
            }
        }
        if changes {
            if exists|pid: i32| #[trigger] cands.dom().contains(pid) && (f.dom().contains(pid) != survives(old, st, pid)) {
                let pid = choose|pid: i32| #[trigger] cands.dom().contains(pid) && (f.dom().contains(pid) != survives(old, st, pid));
                let j = choose|j: int| 0 <= j < av.len() && av[j].pid == pid;
                assert((survivor[j] && shown[j]) || marks[j] != survivor[j]);
            } else {
                let pid = choose|pid: i32| #[trigger] survives(old, st, pid) && c.accepts(cands[pid]);
                assert(cands.dom().contains(pid));
                let j = choose|j: int| 0 <= j < av.len() && av[j].pid == pid;
                lemma_info_map_at(av, j);
                assert((survivor[j] && shown[j]) || marks[j] != survivor[j]);
            }
        }
    }

    /// A walk that has stopped within the bound has marked all it could.
    proof fn lemma_marks_complete(&self, m: Map<i32, InfoView>, av: Seq<InfoView>, marks: Seq<bool>, shown: Seq<bool>, i: int, t: nat, bound: nat)
        requires
            t < bound,
            walk(m, av[i].pid, t + 1) is None || t + 1 >= bound,
            forall|j: int| 0 <= j < av.len() ==> #[trigger] marks[j] == ((exists|i2: int|
                0 <= i2 < i && shown[i2] && ancestor_within(m, av[i2].pid, av[j].pid, bound))
                || exists|t2: nat| t2 < t + 1 && walk(m, av[i].pid, t2) == Some(av[j].pid)),
        ensures
            forall|j: int| 0 <= j < av.len() ==> #[trigger] marks[j] == ((exists|i2: int|
                0 <= i2 < i && shown[i2] && ancestor_within(m, av[i2].pid, av[j].pid, bound))
                || ancestor_within(m, av[i].pid, av[j].pid, bound)),
    {
        assert forall|j: int| 0 <= j < av.len() implies #[trigger] marks[j] == ((exists|i2: int|
            0 <= i2 < i && shown[i2] && ancestor_within(m, av[i2].pid, av[j].pid, bound))
            || ancestor_within(m, av[i].pid, av[j].pid, bound)) by {
            if ancestor_within(m, av[i].pid, av[j].pid, bound) {
                let t2 = choose|t2: nat| t2 < bound && walk(m, av[i].pid, t2) == Some(av[j].pid);
                if t2 > t {
                    lemma_walk_stops(m, av[i].pid, t + 1, t2);
                }
                assert(t2 < t + 1 && walk(m, av[i].pid, t2) == Some(av[j].pid));
            }
        }
    }

    /// Index of a process in the forest, in specifications.
    spec fn find_spec(&self, pid: i32) -> Option<int> {
        if has_pid(self.nodes(), pid) {
            Some(choose|i: int| 0 <= i < self.nodes().len() && self.nodes()[i].pid == pid)
        } else {
            None
        }
    }
}


/// Whether a process of a list is a root: its parent is not in the list, or
/// is itself.
pub open spec fn is_root(all: Seq<InfoView>, x: InfoView) -> bool {
    x.parent_pid == x.pid || !has_pid(all, x.parent_pid)
}

/// The roots among the first processes of a list, in order.
pub open spec fn roots_in(prefix: Seq<InfoView>, all: Seq<InfoView>) -> Seq<i32>
    decreases prefix.len(),
{
    if prefix.len() == 0 {
        Seq::empty()
    } else {
        let rest = roots_in(prefix.drop_last(), all);
        if is_root(all, prefix.last()) { rest.push(prefix.last().pid) } else { rest }
    }
}

/// The children of a process among the first processes of a list, in order.
pub open spec fn children_in(prefix: Seq<InfoView>, pid: i32) -> Seq<i32>
    decreases prefix.len(),
{
    if prefix.len() == 0 {
        Seq::empty()
    } else {
        let rest = children_in(prefix.drop_last(), pid);
        let x = prefix.last();
        if x.parent_pid == pid && x.pid != pid { rest.push(x.pid) } else { rest }
    }
}

/// A process followed by its descendants, depth first, down to `fuel` generations.
pub open spec fn preorder(all: Seq<InfoView>, pid: i32, fuel: nat) -> Seq<i32>
    decreases fuel, 0nat,
{
    if fuel == 0 {
        Seq::empty()
    } else {
        seq![pid] + preorder_list(all, children_in(all, pid), (fuel - 1) as nat)
    }
}

/// The processes of a list each followed by its descendants.
pub open spec fn preorder_list(all: Seq<InfoView>, pids: Seq<i32>, fuel: nat) -> Seq<i32>
    decreases fuel, pids.len() + 1,
{
    if pids.len() == 0 {
        Seq::empty()
    } else {
        preorder(all, pids[0], fuel) + preorder_list(all, pids.drop_first(), fuel)
    }
}

/// Walking a list one more process further.
proof fn lemma_preorder_list_push(all: Seq<InfoView>, pids: Seq<i32>, x: i32, fuel: nat)
    ensures
        preorder_list(all, pids.push(x), fuel) == preorder_list(all, pids, fuel) + preorder(all, x, fuel),
    decreases pids.len(),
{
    if pids.len() == 0 {
        assert(pids.push(x).drop_first() =~= Seq::<i32>::empty());
        assert(preorder_list(all, Seq::<i32>::empty(), fuel) == Seq::<i32>::empty());
        assert(preorder_list(all, pids.push(x), fuel) =~= preorder(all, x, fuel));
    } else {
        assert(pids.push(x).drop_first() =~= pids.drop_first().push(x));
        lemma_preorder_list_push(all, pids.drop_first(), x, fuel);
        assert(preorder_list(all, pids.push(x), fuel) =~= preorder_list(all, pids, fuel) + preorder(all, x, fuel));
    }
}

/// All the processes of a forest, each root followed by its descendants.
pub open spec fn tree_order(all: Seq<InfoView>) -> Seq<i32> {
    preorder_list(all, roots_in(all, all), all.len())
}

impl Forest {
    /// Identifiers of the roots, in increasing order.
    pub fn root_pids(&self) -> (r: Vec<i32>)
        requires
            self.wf(),
        ensures
            r@ == roots_in(self.nodes(), self.nodes()),
    {
        let ghost all = self.nodes();
        let mut r: Vec<i32> = Vec::new();
        let mut i: usize = 0;
        while i < self.nodes.len()
            invariant
                i <= self.nodes.len(),
                all == self.nodes(),
                self.wf(),
                r@ == roots_in(all.take(i as int), all),
            decreases self.nodes.len() - i,
        {
            let x = &self.nodes[i];
            let root = if x.parent_pid == x.pid {
                true
            } else {
                match self.find(x.parent_pid) {
                    Some(j) => {
                        proof { assert(all[j as int].pid == x.parent_pid); }
                        false
                    },
                    None => {
                        proof {
                            if has_pid(all, x.parent_pid) {
                                let j = choose|j: int| 0 <= j < all.len() && all[j].pid == x.parent_pid;
                                lemma_info_map_at(all, j);
                            }
                        }
                        true
                    },
                }
            };
            if root {
                r.push(x.pid);
            }
            proof {
                assert(all.take(i + 1).drop_last() =~= all.take(i as int));
                assert(all.take(i + 1).last() == all[i as int]);
            }
            i = i + 1;
        }
        proof {
            assert(all.take(all.len() as int) =~= all);
        }
        r
    }

    /// Append a process and its descendants, depth first, down to `fuel` generations.
    fn collect_preorder(&self, pid: i32, fuel: usize, out: &mut Vec<i32>)
        requires
            self.wf(),
        ensures
            final(out)@ == old(out)@ + preorder(self.nodes(), pid, fuel as nat),
        decreases fuel, 0nat,
    {
        let ghost all = self.nodes();
        if fuel == 0 {
            assert(old(out)@ + preorder(all, pid, 0) =~= old(out)@);
            return;
        }
        out.push(pid);
        let ghost start = out@;
        let mut i: usize = 0;
        while i < self.nodes.len()
            invariant
                i <= self.nodes.len(),
                fuel > 0,
                all == self.nodes(),
                self.wf(),
                out@ == start + preorder_list(all, children_in(all.take(i as int), pid), (fuel - 1) as nat),
            decreases self.nodes.len() - i,
        {
            let ghost kids = children_in(all.take(i as int), pid);
            let x = &self.nodes[i];
            proof {
                assert(all.take(i + 1).drop_last() =~= all.take(i as int));
                assert(all.take(i + 1).last() == all[i as int]);
            }
            if x.parent_pid == pid && x.pid != pid {
                let ghost before = out@;
                self.collect_preorder(x.pid, fuel - 1, out);
                proof {
                    lemma_preorder_list_push(all, kids, x.pid, (fuel - 1) as nat);
                    assert(out@ =~= start + preorder_list(all, children_in(all.take(i + 1), pid), (fuel - 1) as nat));
                }
            }
            i = i + 1;
        }
        proof {
            assert(all.take(all.len() as int) =~= all);
            assert(out@ =~= old(out)@ + preorder(all, pid, fuel as nat));
        }
    }

    /// A process followed by its descendants, depth first.
    pub fn descendants(&self, pid: i32) -> (r: Result<Vec<i32>, ProcessError>)
        requires
            self.wf(),
        ensures
            self@.dom().contains(pid) ==> r == Ok::<Vec<i32>, ProcessError>(r->Ok_0) && r->Ok_0@ == preorder(self.nodes(), pid, self.nodes().len()),
            !self@.dom().contains(pid) ==> r == Err::<Vec<i32>, ProcessError>(ProcessError::UnknownProcess(pid)),
    {
        if self.has_process(pid) {
            let mut out: Vec<i32> = Vec::new();
            self.collect_preorder(pid, self.nodes.len(), &mut out);
            assert(out@ =~= preorder(self.nodes(), pid, self.nodes().len()));
            Ok(out)
        } else {
            Err(ProcessError::UnknownProcess(pid))
        }
    }

    /// All processes, each root followed by its descendants.
    pub fn tree_order(&self) -> (r: Vec<i32>)
        requires
            self.wf(),
        ensures
            r@ == tree_order(self.nodes()),
    {
        let ghost all = self.nodes();
        let roots = self.root_pids();
        let mut out: Vec<i32> = Vec::new();
        let mut i: usize = 0;
        while i < roots.len()
            invariant
                i <= roots.len(),
                all == self.nodes(),
                self.wf(),
                out@ == preorder_list(all, roots@.take(i as int), all.len()),
            decreases roots.len() - i,
        {
            let ghost before = out@;
            self.collect_preorder(roots[i], self.nodes.len(), &mut out);
            proof {
                lemma_preorder_list_push(all, roots@.take(i as int), roots@[i as int], all.len());
                assert(roots@.take(i + 1) =~= roots@.take(i as int).push(roots@[i as int]));
            }
            i = i + 1;
        }
        proof {
            assert(roots@.take(roots.len() as int) =~= roots@);
        }
        out
    }
}


/// A listed process that the classifier accepts is in the refreshed forest, shown.
pub proof fn law_accepted_is_shown<C: ProcessClassifier>(old: Map<i32, InfoView>, st: Seq<ProcessStatus>, c: C, pid: i32)
    requires
        listed(st, pid),
        c.accepts(candidate(old, st, pid)),
    ensures
        refreshed_forest(old, st, c).dom().contains(pid),
        !refreshed_forest(old, st, c)[pid].hidden,
{
    let cands = candidates(old, st);
    assert(cands.dom().contains(pid));
    assert(cands[pid] == candidate(old, st, pid));
    assert(c.accepts(cands[pid]));
    assert(st.len() > 0);
    assert(walk(cands, pid, 0) == Some(pid));
    assert(ancestor_within(cands, pid, pid, st.len() as nat));
}

/// A process of the refreshed forest is hidden exactly when the classifier
/// does not accept it.
pub proof fn law_hidden_iff_rejected<C: ProcessClassifier>(old: Map<i32, InfoView>, st: Seq<ProcessStatus>, c: C, pid: i32)
    requires
        refreshed_forest(old, st, c).dom().contains(pid),
    ensures
        refreshed_forest(old, st, c)[pid].hidden == !c.accepts(candidate(old, st, pid)),
{
}

/// The processes of the refreshed forest are listed, and each is an accepted
/// process or one of its ancestors.
pub proof fn law_members_are_accepted_or_ancestors<C: ProcessClassifier>(old: Map<i32, InfoView>, st: Seq<ProcessStatus>, c: C, pid: i32)
    requires
        refreshed_forest(old, st, c).dom().contains(pid),
    ensures
        listed(st, pid),
        exists|a: i32| listed(st, a) && #[trigger] c.accepts(candidate(old, st, a))
            && ancestor_within(candidates(old, st), a, pid, st.len() as nat),
{
    let cands = candidates(old, st);
    let a = choose|a: i32| cands.dom().contains(a) && c.accepts(#[trigger] cands[a]) && ancestor_within(cands, a, pid, st.len() as nat);
    assert(listed(st, a) && c.accepts(candidate(old, st, a)));
}

/// Whether `anc` is `pid` or one of its ancestors, however many generations up.
pub open spec fn is_ancestor(m: Map<i32, InfoView>, pid: i32, anc: i32) -> bool {
    exists|t: nat| #[trigger] walk(m, pid, t) == Some(anc)
}

/// A walk up the tree only meets processes of the map.
proof fn lemma_walk_in_map(m: Map<i32, InfoView>, pid: i32, t: nat)
    requires
        walk(m, pid, t) is Some,
    ensures
        m.dom().contains(walk(m, pid, t)->0),
    decreases t,
{
    if t > 0 {
        lemma_walk_in_map(m, pid, (t - 1) as nat);
    }
}

/// Two walks that meet go on together.
proof fn lemma_walk_shift(m: Map<i32, InfoView>, pid: i32, i: nat, j: nat, k: nat)
    requires
        walk(m, pid, i) == walk(m, pid, j),
    ensures
        walk(m, pid, i + k) == walk(m, pid, j + k),
    decreases k,
{
    if k > 0 {
        lemma_walk_shift(m, pid, i, j, (k - 1) as nat);
        assert(walk(m, pid, i + k) == match walk(m, pid, (i + k - 1) as nat) {
            Some(q) => parent_in(m, q),
            None => None,
        });
        assert(walk(m, pid, j + k) == match walk(m, pid, (j + k - 1) as nat) {
            Some(q) => parent_in(m, q),
            None => None,
        });
        assert((i + k - 1) as nat == i + (k - 1) as nat);
        assert((j + k - 1) as nat == j + (k - 1) as nat);
    }
}

/// An ancestor among the listed processes is less generations up than there
/// are statuses: a longer walk would meet some process twice and could be
/// cut short.
proof fn lemma_ancestor_is_near(old: Map<i32, InfoView>, st: Seq<ProcessStatus>, pid: i32, anc: i32, t: nat)
    requires
        walk(candidates(old, st), pid, t) == Some(anc),
    ensures
        ancestor_within(candidates(old, st), pid, anc, st.len() as nat),
    decreases t,
{
    let m = candidates(old, st);
    if t < st.len() {
        assert(walk(m, pid, t) == Some(anc));
    } else {
        assert forall|x: nat| x <= t implies #[trigger] walk(m, pid, x) is Some by {
            if walk(m, pid, x) is None {
                lemma_walk_stops(m, pid, x, t);
            }
        }
        let w = Seq::new((t + 1) as nat, |x: int| walk(m, pid, x as nat)->0);
        let pids = st.map_values(|s: ProcessStatus| s.pid);
        assert forall|q: i32| w.to_set().contains(q) implies pids.to_set().contains(q) by {
            let x = choose|x: int| 0 <= x < w.len() && w[x] == q;
            assert(walk(m, pid, x as nat) is Some);
            lemma_walk_in_map(m, pid, x as nat);
            let k = choose|k: int| 0 <= k < st.len() && st[k].pid == q;
            assert(pids[k] == q);
        }
        pids.lemma_cardinality_of_set();
        vstd::set_lib::lemma_len_subset(w.to_set(), pids.to_set());
        if w.no_duplicates() {
            w.unique_seq_to_set();
            assert(false);
        }
        let (i, j) = choose|i: int, j: int| 0 <= i < w.len() && 0 <= j < w.len() && i != j && w[i] == w[j];
        let (lo, hi) = if i < j { (i, j) } else { (j, i) };
        assert(walk(m, pid, lo as nat) is Some && walk(m, pid, hi as nat) is Some);
        assert(walk(m, pid, lo as nat) == walk(m, pid, hi as nat));
        lemma_walk_shift(m, pid, lo as nat, hi as nat, (t - hi) as nat);
        assert(hi + (t - hi) as nat == t);
        lemma_ancestor_is_near(old, st, pid, anc, (lo + (t - hi)) as nat);
    }
}

/// A process is in the refreshed forest exactly when it is an accepted
/// listed process or an ancestor of one, and it is hidden exactly when the
/// classifier does not accept it.
pub proof fn law_kept_iff_accepted_or_ancestor<C: ProcessClassifier>(old: Map<i32, InfoView>, st: Seq<ProcessStatus>, c: C, pid: i32)
    ensures
        refreshed_forest(old, st, c).dom().contains(pid) <==> exists|a: i32|
            listed(st, a) && #[trigger] c.accepts(candidate(old, st, a)) && is_ancestor(candidates(old, st), a, pid),
        refreshed_forest(old, st, c).dom().contains(pid) ==> refreshed_forest(old, st, c)[pid].hidden == !c.accepts(candidate(old, st, pid)),
{
    let cands = candidates(old, st);
    if refreshed_forest(old, st, c).dom().contains(pid) {
        let a = choose|a: i32| cands.dom().contains(a) && c.accepts(#[trigger] cands[a]) && ancestor_within(cands, a, pid, st.len() as nat);
        let t = choose|t: nat| t < st.len() && walk(cands, a, t) == Some(pid);
        assert(is_ancestor(cands, a, pid));
        assert(listed(st, a) && c.accepts(candidate(old, st, a)));
    }
    if exists|a: i32| listed(st, a) && #[trigger] c.accepts(candidate(old, st, a)) && is_ancestor(cands, a, pid) {
        let a = choose|a: i32| listed(st, a) && #[trigger] c.accepts(candidate(old, st, a)) && is_ancestor(cands, a, pid);
        let t = choose|t: nat| #[trigger] walk(cands, a, t) == Some(pid);
        lemma_ancestor_is_near(old, st, a, pid, t);
        lemma_walk_in_map(cands, a, t);
        assert(cands.dom().contains(a) && c.accepts(cands[a]));
        assert(refreshed_forest(old, st, c).dom().contains(pid));
    }
}

/// The listed parent of a shown process is in the refreshed forest.
pub proof fn law_parent_of_shown_is_kept<C: ProcessClassifier>(old: Map<i32, InfoView>, st: Seq<ProcessStatus>, c: C, pid: i32)
    requires
        listed(st, pid),
        c.accepts(candidate(old, st, pid)),
        candidate(old, st, pid).parent_pid != pid,
        listed(st, candidate(old, st, pid).parent_pid),
    ensures
        refreshed_forest(old, st, c).dom().contains(candidate(old, st, pid).parent_pid),
{
    let cands = candidates(old, st);
    let p = candidate(old, st, pid).parent_pid;
    let k1 = choose|k: int| 0 <= k < st.len() && st[k].pid == pid;
    let k2 = choose|k: int| 0 <= k < st.len() && st[k].pid == p;
    assert(k1 != k2);
    assert(st.len() >= 2);
    assert(walk(cands, pid, 0) == Some(pid));
    assert(walk(cands, pid, 1) == Some(p));
    assert(ancestor_within(cands, pid, p, st.len() as nat));
    assert(cands.dom().contains(pid) && c.accepts(cands[pid]));
}

/// When every process is accepted, the refreshed forest holds exactly the
/// listed processes, all shown.
pub proof fn law_accept_all_keeps_listed(old: Map<i32, InfoView>, st: Seq<ProcessStatus>, pid: i32)
    ensures
        refreshed_forest(old, st, AcceptAllProcesses).dom().contains(pid) == listed(st, pid),
        listed(st, pid) ==> !refreshed_forest(old, st, AcceptAllProcesses)[pid].hidden,
{
    if listed(st, pid) {
        law_accepted_is_shown(old, st, AcceptAllProcesses, pid);
    }
}

/// A process whose identifier has been reused is seen anew: its activity
/// starts again from its new statistics.
pub proof fn law_reused_pid_is_new(old: Map<i32, InfoView>, st: Seq<ProcessStatus>, pid: i32)
    requires
        old.dom().contains(pid),
        listed(st, pid),
        old[pid].start_time != first_status(st, pid).start_time,
    ensures
        candidate(old, st, pid) == new_info(first_status(st, pid)),
{
}

/// A process that keeps running without using the CPU grows idle by one at
/// each refresh; as soon as it uses the CPU its idleness drops to zero.
pub proof fn law_idleness(old: Map<i32, InfoView>, st: Seq<ProcessStatus>, pid: i32)
    requires
        survives(old, st, pid),
    ensures
        cpu_total(first_status(st, pid).utime, first_status(st, pid).stime) > old[pid].cpu_time
            ==> candidate(old, st, pid).idleness == 0,
        cpu_total(first_status(st, pid).utime, first_status(st, pid).stime) <= old[pid].cpu_time && old[pid].idleness < u16::MAX
            ==> candidate(old, st, pid).idleness == old[pid].idleness + 1,
{
}

/// The forest after successive refreshes, every process being accepted.
pub open spec fn refreshes(old: Map<i32, InfoView>, sts: Seq<Seq<ProcessStatus>>) -> Map<i32, InfoView>
    decreases sts.len(),
{
    if sts.len() == 0 {
        old
    } else {
        refreshed_forest(refreshes(old, sts.drop_last()), sts.last(), AcceptAllProcesses)
    }
}

/// A process that keeps running without using the CPU over successive
/// refreshes grows idle by one at each of them, up to the largest idleness,
/// and keeps its CPU time.
pub proof fn law_idleness_accumulates(old: Map<i32, InfoView>, sts: Seq<Seq<ProcessStatus>>, pid: i32)
    requires
        old.dom().contains(pid),
        forall|k: int| 0 <= k < sts.len() ==> #[trigger] listed(sts[k], pid)
            && first_status(sts[k], pid).start_time == old[pid].start_time
            && cpu_total(first_status(sts[k], pid).utime, first_status(sts[k], pid).stime) <= old[pid].cpu_time,
    ensures
        refreshes(old, sts).dom().contains(pid),
        refreshes(old, sts)[pid].start_time == old[pid].start_time,
        refreshes(old, sts)[pid].cpu_time == old[pid].cpu_time,
        refreshes(old, sts)[pid].idleness == if old[pid].idleness + sts.len() > u16::MAX {
            u16::MAX as int
        } else {
            old[pid].idleness + sts.len()
        },
    decreases sts.len(),
{
    if sts.len() > 0 {
        let prefix = sts.drop_last();
        assert forall|k: int| 0 <= k < prefix.len() implies #[trigger] listed(prefix[k], pid)
            && first_status(prefix[k], pid).start_time == old[pid].start_time
            && cpu_total(first_status(prefix[k], pid).utime, first_status(prefix[k], pid).stime) <= old[pid].cpu_time by {
            assert(prefix[k] == sts[k]);
            assert(listed(sts[k], pid));
        }
        law_idleness_accumulates(old, prefix, pid);
        let prev = refreshes(old, prefix);
        let st = sts.last();
        assert(listed(sts[sts.len() - 1], pid));
        assert(survives(prev, st, pid));
        law_accept_all_keeps_listed(prev, st, pid);
    }
}

/// The descendants of a process start with the process itself.
pub proof fn law_descendants_start_with_process(all: Seq<InfoView>, pid: i32, fuel: nat)
    requires
        fuel > 0,
    ensures
        preorder(all, pid, fuel).len() > 0,
        preorder(all, pid, fuel)[0] == pid,
{
}

/// Identifiers of the listed processes whose executable has a given name,
/// in the order of the list.
pub open spec fn pids_named(statuses: Seq<ProcessStatus>, name: Seq<char>) -> Seq<i32>
    decreases statuses.len(),
{
    if statuses.len() == 0 {
        Seq::empty()
    } else {
        let rest = pids_named(statuses.drop_last(), name);
        match statuses.last().exe_name {
            Some(exe) if exe@ == name => rest.push(statuses.last().pid),
            _ => rest,
        }
    }
}

/// Identifiers of the processes whose executable has a given name.
pub fn processes_named(statuses: &[ProcessStatus], name: &str) -> (r: Vec<i32>)
    ensures
        r@ == pids_named(statuses@, name@),
{
    let mut r: Vec<i32> = Vec::new();
    let mut i: usize = 0;
    while i < statuses.len()
        invariant
            i <= statuses@.len(),
            r@ == pids_named(statuses@.take(i as int), name@),
        decreases statuses@.len() - i,
    {
        assert(statuses@.take(i + 1).drop_last() =~= statuses@.take(i as int));
        let matches = match &statuses[i].exe_name {
            Some(exe) => crate::strings::str_eq(exe.as_str(), name),
            None => false,
        };
        if matches {
            r.push(statuses[i].pid);
        }
        i = i + 1;
    }
    assert(statuses@.take(statuses@.len() as int) =~= statuses@);
    r
}

} // verus!
