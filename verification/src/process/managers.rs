//! How processes are selected for display.

use vstd::prelude::*;
use crate::process::forest::{
    AcceptProcesses,
    AcceptAllProcesses, Forest, InfoView, ProcessClassifier, ProcessInfo, ProcessStatus,
    preorder, refresh_changes, refreshed_forest, tree_order,
};

verus! {

/// High-level filter on processes.
#[derive(Clone, Copy, Debug, PartialEq, Eq, Structural)]
pub enum ProcessFilter {
    /// All processes.
    NoFilter,
    /// Processes that are not kernel threads.
    UserLand,
    /// Processes that used the processor recently.
    Active,
    /// Processes of the current user.
    CurrentUser,
}

impl Default for ProcessFilter {
    /// Processes that are not kernel threads.
    fn default() -> (f: Self)
        ensures
            f == ProcessFilter::UserLand,
    {
        ProcessFilter::UserLand
    }
}


/// Number of idle cycles after which a process is inactive.
pub const INACTIVITY: u16 = 5;

/// Classifier that accepts the processes that are not kernel threads.
pub struct AcceptUserLand;

impl ProcessClassifier for AcceptUserLand {
    open spec fn accepts(&self, p: InfoView) -> bool {
        !p.is_kernel
    }

    fn accept(&self, pi: &ProcessInfo) -> (r: bool) {
        !pi.is_kernel
    }
}

/// Classifier that accepts the processes of a user.
pub struct AcceptUser {
    pub uid: u32,
}

impl ProcessClassifier for AcceptUser {
    open spec fn accepts(&self, p: InfoView) -> bool {
        p.uid == Some(self.uid)
    }

    fn accept(&self, pi: &ProcessInfo) -> (r: bool) {
        match pi.uid {
            Some(uid) => uid == self.uid,
            None => false,
        }
    }
}

/// The shown processes of a list that are displayed: all of them, or with
/// `active_only` those that used the processor within the last `inactivity` cycles.
pub open spec fn displayed(m: Map<i32, InfoView>, pids: Seq<i32>, active_only: bool, inactivity: u16) -> Seq<i32>
    decreases pids.len(),
{
    if pids.len() == 0 {
        Seq::empty()
    } else {
        let rest = displayed(m, pids.drop_last(), active_only, inactivity);
        let p = m[pids.last()];
        if m.dom().contains(pids.last()) && !p.hidden && (!active_only || p.idleness < inactivity) {
            rest.push(pids.last())
        } else {
            rest
        }
    }
}

/// Process manager that follows the tree of processes.
pub struct ForestProcessManager {
    pub forest: Forest,
    pub filter: ProcessFilter,
    /// Number of refreshes, up to the inactivity limit.
    pub inactivity: u16,
    /// The user whose processes are shown with the current user filter.
    pub uid: u32,
}

impl ForestProcessManager {
    /// A manager with an empty forest and the default filter, for a user.
    pub fn new(uid: u32) -> (m: ForestProcessManager)
        ensures
            m.forest.wf(),
            m.forest@ == Map::<i32, InfoView>::empty(),
            m.filter == ProcessFilter::UserLand,
            m.inactivity == 0,
            m.uid == uid,
    {
        ForestProcessManager { forest: Forest::new(), filter: ProcessFilter::UserLand, inactivity: 0, uid }
    }

    pub fn set_filter(&mut self, filter: ProcessFilter)
        ensures
            final(self).filter == filter,
            final(self).forest == old(self).forest,
            final(self).inactivity == old(self).inactivity,
            final(self).uid == old(self).uid,
    {
        self.filter = filter;
    }

    /// Refreshes the forest with the statuses of the processes, and returns
    /// whether it has changed and the processes to display, in tree order.
    pub fn refresh(&mut self, statuses: &[ProcessStatus]) -> (r: (bool, Vec<i32>))
        requires
            old(self).forest.wf(),
        ensures
            final(self).forest.wf(),
            final(self).filter == old(self).filter,
            final(self).uid == old(self).uid,
            final(self).inactivity == (if old(self).inactivity < INACTIVITY { old(self).inactivity + 1 } else { old(self).inactivity as int }),
            old(self).filter == ProcessFilter::NoFilter ==> {
                &&& final(self).forest@ == refreshed_forest(old(self).forest@, statuses@, AcceptAllProcesses)
                &&& r.0 == refresh_changes(old(self).forest@, statuses@, AcceptAllProcesses)
            },
            (old(self).filter == ProcessFilter::UserLand || old(self).filter == ProcessFilter::Active) ==> {
                &&& final(self).forest@ == refreshed_forest(old(self).forest@, statuses@, AcceptUserLand)
                &&& r.0 == refresh_changes(old(self).forest@, statuses@, AcceptUserLand)
            },
            old(self).filter == ProcessFilter::CurrentUser ==> {
                &&& final(self).forest@ == refreshed_forest(old(self).forest@, statuses@, AcceptUser { uid: old(self).uid })
                &&& r.0 == refresh_changes(old(self).forest@, statuses@, AcceptUser { uid: old(self).uid })
            },
            r.1@ == displayed(final(self).forest@, tree_order(final(self).forest.nodes()),
                old(self).filter == ProcessFilter::Active, final(self).inactivity),
    {
        if self.inactivity < INACTIVITY {
            self.inactivity = self.inactivity + 1;
        }
        let changed = match self.filter {
            ProcessFilter::NoFilter => self.forest.refresh_from(statuses, &AcceptAllProcesses),
            ProcessFilter::UserLand | ProcessFilter::Active => self.forest.refresh_from(statuses, &AcceptUserLand),
            ProcessFilter::CurrentUser => self.forest.refresh_from(statuses, &AcceptUser { uid: self.uid }),
        };
        let active_only = match self.filter {
            ProcessFilter::Active => true,
            _ => false,
        };
        let order = self.forest.tree_order();
        let mut shown: Vec<i32> = Vec::new();
        let mut i: usize = 0;
        while i < order.len()
            invariant
                i <= order.len(),
                self.forest.wf(),
                order@ == tree_order(self.forest.nodes()),
                shown@ == displayed(self.forest@, order@.take(i as int), active_only, self.inactivity),
            decreases order.len() - i,
        {
            proof {
                assert(order@.take(i + 1).drop_last() =~= order@.take(i as int));
            }
            match self.forest.get_process(order[i]) {
                Some(p) => {
                    if !p.hidden && (!active_only || p.idleness < self.inactivity) {
                        shown.push(order[i]);
                    }
                },
                None => {},
            }
            i = i + 1;
        }
        proof {
            assert(order@.take(order.len() as int) =~= order@);
        }
        (changed, shown)
    }
}

/// Process manager for a fixed list of target processes, shown with their
/// parents.
pub struct FlatProcessManager {
    pub forest: Forest,
}

impl FlatProcessManager {
    pub fn new() -> (m: FlatProcessManager)
        ensures
            m.forest.wf(),
            m.forest@ == Map::<i32, InfoView>::empty(),
    {
        FlatProcessManager { forest: Forest::new() }
    }

    /// Refresh the processes from their statuses, keeping the targets and
    /// their parents; returns whether the processes changed and the targets
    /// shown, in tree order.
    pub fn refresh(&mut self, statuses: &[ProcessStatus], targets: &AcceptProcesses) -> (r: (bool, Vec<i32>))
        requires
            old(self).forest.wf(),
        ensures
            final(self).forest.wf(),
            final(self).forest@ == refreshed_forest(old(self).forest@, statuses@, *targets),
            r.0 == refresh_changes(old(self).forest@, statuses@, *targets),
            r.1@ == displayed(final(self).forest@, tree_order(final(self).forest.nodes()), false, 0),
    {
        let changed = self.forest.refresh_from(statuses, targets);
        let order = self.forest.tree_order();
        let mut shown: Vec<i32> = Vec::new();
        let mut i: usize = 0;
        while i < order.len()
            invariant
                i <= order.len(),
                self.forest.wf(),
                order@ == tree_order(self.forest.nodes()),
                shown@ == displayed(self.forest@, order@.take(i as int), false, 0),
            decreases order.len() - i,
        {
            proof {
                assert(order@.take(i + 1).drop_last() =~= order@.take(i as int));
            }
            match self.forest.get_process(order[i]) {
                Some(p) => {
                    if !p.hidden {
                        shown.push(order[i]);
                    }
                },
                None => {},
            }
            i = i + 1;
        }
        proof {
            assert(order@.take(order.len() as int) =~= order@);
        }
        (changed, shown)
    }
}


/// The processes of a list that are also in another, in the order of the
/// first.
pub open spec fn kept_in(pids: Seq<i32>, allowed: Seq<i32>) -> Seq<i32>
    decreases pids.len(),
{
    if pids.len() == 0 {
        Seq::empty()
    } else {
        let rest = kept_in(pids.drop_last(), allowed);
        if allowed.contains(pids.last()) { rest.push(pids.last()) } else { rest }
    }
}

/// The shown processes that lie under a root: with a root that is in the
/// forest, those among the root and its descendants, in the same order;
/// otherwise all of them.
pub open spec fn shown_under(forest: Map<i32, InfoView>, nodes: Seq<InfoView>, pids: Seq<i32>, root: Option<i32>) -> Seq<i32> {
    match root {
        Some(r) => if forest.dom().contains(r) { kept_in(pids, preorder(nodes, r, nodes.len())) } else { pids },
        None => pids,
    }
}

/// The shown processes that lie under a root, if there is one.
pub fn under_root(forest: &Forest, pids: Vec<i32>, root: Option<i32>) -> (r: Vec<i32>)
    requires
        forest.wf(),
    ensures
        r@ == shown_under(forest@, forest.nodes(), pids@, root),
{
    let subtree = match root {
        Some(p) => match forest.descendants(p) {
            Ok(d) => d,
            Err(_) => return pids,
        },
        None => return pids,
    };
    let mut out: Vec<i32> = Vec::new();
    let mut i: usize = 0;
    while i < pids.len()
        invariant
            i <= pids.len(),
            out@ == kept_in(pids@.take(i as int), subtree@),
        decreases pids.len() - i,
    {
        assert(pids@.take(i + 1).drop_last() =~= pids@.take(i as int));
        let p = pids[i];
        let mut found = false;
        let mut k: usize = 0;
        while k < subtree.len()
            invariant
                k <= subtree.len(),
                found == subtree@.take(k as int).contains(p),
            decreases subtree.len() - k,
        {
            let ghost before = subtree@.take(k as int);
            let ghost after = subtree@.take(k + 1);
            assert(after =~= before.push(subtree@[k as int]));
            assert(after.contains(p) == (before.contains(p) || subtree@[k as int] == p)) by {
                if before.contains(p) {
                    let j = choose|j: int| 0 <= j < before.len() && before[j] == p;
                    assert(after[j] == p);
                }
                if subtree@[k as int] == p {
                    assert(after[k as int] == p);
                }
                if after.contains(p) {
                    let j = choose|j: int| 0 <= j < after.len() && after[j] == p;
                    if j < k {
                        assert(before[j] == p);
                    }
                }
            }
            if subtree[k] == p {
                found = true;
            }
            k = k + 1;
        }
        assert(subtree@.take(subtree.len() as int) =~= subtree@);
        if found {
            out.push(p);
        }
        i = i + 1;
    }
    assert(pids@.take(pids.len() as int) =~= pids@);
    out
}

} // verus!
