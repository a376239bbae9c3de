//! PID namespaces: isolated process-ID numbering.
//!
//! Each namespace allocates PIDs from 1 upward, strictly monotonically, up
//! to `pid_max`; a PID is never reused within a namespace. A task is
//! registered in its owning namespace and in every ancestor, with a fresh
//! PID in each. The task owning PID 1 becomes the namespace's child reaper.
//!
//! The process-wide set of namespaces is held as an arena (`PidTable`);
//! entry 0 is the root namespace and every child's parent has a smaller
//! index, so parent chains terminate.

use vstd::prelude::*;

verus! {

/// Global task identifier.
pub type Tid = u64;

/// Maximum PID namespace nesting level.
pub const MAX_PID_NS_LEVEL: u32 = 32;

/// Default maximum PID value.
pub const PID_MAX_DEFAULT: u32 = 32768;

/// The value the first matching key maps to, scanning front to back.
pub open spec fn spec_assoc_pid(s: Seq<(u32, Tid)>, key: u32) -> Option<Tid>
    decreases s.len(),
{
    if s.len() == 0 {
        None
    } else if s[0].0 == key {
        Some(s[0].1)
    } else {
        spec_assoc_pid(s.skip(1), key)
    }
}

/// The value the first matching key maps to, scanning front to back.
pub open spec fn spec_assoc_tid(s: Seq<(Tid, u32)>, key: Tid) -> Option<u32>
    decreases s.len(),
{
    if s.len() == 0 {
        None
    } else if s[0].0 == key {
        Some(s[0].1)
    } else {
        spec_assoc_tid(s.skip(1), key)
    }
}

/// The sequence with every pair whose key equals `key` removed.
pub open spec fn spec_remove_pid_key(s: Seq<(u32, Tid)>, key: u32) -> Seq<(u32, Tid)>
    decreases s.len(),
{
    if s.len() == 0 {
        Seq::empty()
    } else if s.last().0 == key {
        spec_remove_pid_key(s.drop_last(), key)
    } else {
        spec_remove_pid_key(s.drop_last(), key).push(s.last())
    }
}

/// The sequence with every pair whose key equals `key` removed.
pub open spec fn spec_remove_tid_key(s: Seq<(Tid, u32)>, key: Tid) -> Seq<(Tid, u32)>
    decreases s.len(),
{
    if s.len() == 0 {
        Seq::empty()
    } else if s.last().0 == key {
        spec_remove_tid_key(s.drop_last(), key)
    } else {
        spec_remove_tid_key(s.drop_last(), key).push(s.last())
    }
}

/// Remove every pair with the given PID key, keeping the others in order.
#[verifier::loop_isolation(false)]
fn remove_pid_key(v: &Vec<(u32, Tid)>, key: u32) -> (r: Vec<(u32, Tid)>)
    ensures
        r@ == spec_remove_pid_key(v@, key),
{
    let mut out: Vec<(u32, Tid)> = Vec::new();
    let mut i: usize = 0;
    while i < v.len()
        invariant
            i <= v@.len(),
            out@ == spec_remove_pid_key(v@.take(i as int), key),
        decreases v@.len() - i,
    {
        let pair = v[i];
        proof {
            assert(v@.take(i + 1).drop_last() =~= v@.take(i as int));
            assert(v@.take(i + 1).last() == v@[i as int]);
        }
        if pair.0 != key {
            out.push(pair);
        }
        i = i + 1;
    }
    proof {
        assert(v@.take(v@.len() as int) =~= v@);
    }
    out
}

/// Remove every pair with the given TID key, keeping the others in order.
#[verifier::loop_isolation(false)]
fn remove_tid_key(v: &Vec<(Tid, u32)>, key: Tid) -> (r: Vec<(Tid, u32)>)
    ensures
        r@ == spec_remove_tid_key(v@, key),
{
    let mut out: Vec<(Tid, u32)> = Vec::new();
    let mut i: usize = 0;
    while i < v.len()
        invariant
            i <= v@.len(),
            out@ == spec_remove_tid_key(v@.take(i as int), key),
        decreases v@.len() - i,
    {
        let pair = v[i];
        proof {
            assert(v@.take(i + 1).drop_last() =~= v@.take(i as int));
            assert(v@.take(i + 1).last() == v@[i as int]);
        }
        if pair.0 != key {
            out.push(pair);
        }
        i = i + 1;
    }
    proof {
        assert(v@.take(v@.len() as int) =~= v@);
    }
    out
}

/// A PID namespace: PID allocator, nesting level, parent link (an index
/// into the namespace table), child reaper, and the two lookup directions.
#[derive(Clone, Debug)]
pub struct PidNamespace {
    /// Next PID to hand out.
    pub next_pid: u32,
    /// Largest PID value this namespace may allocate (exclusive bound).
    pub pid_max: u32,
    /// Nesting level (0 = root).
    pub level: u32,
    /// Parent namespace, as an index into the table (None for the root).
    pub parent: Option<usize>,
    /// The task holding PID 1, which reaps orphans of this namespace.
    pub child_reaper: Option<Tid>,
    /// PID to global-TID mapping.
    pub pid_map: Vec<(u32, Tid)>,
    /// Global-TID to PID mapping.
    pub tid_map: Vec<(Tid, u32)>,
}

/// What `register` leaves behind: both directions hold the new pair (any
/// stale pair under the same key is dropped), the task becomes child
/// reaper when it takes PID 1 of an unreaped namespace, and everything
/// else is untouched.
pub open spec fn spec_register_post(o: PidNamespace, n: PidNamespace, pid: u32, tid: Tid) -> bool {
    &&& n.pid_map@ == spec_remove_pid_key(o.pid_map@, pid).push((pid, tid))
    &&& n.tid_map@ == spec_remove_tid_key(o.tid_map@, tid).push((tid, pid))
    &&& n.child_reaper == if pid == 1 && o.child_reaper is None {
        Some(tid)
    } else {
        o.child_reaper
    }
    &&& n.next_pid == o.next_pid
    &&& n.pid_max == o.pid_max
    &&& n.level == o.level
    &&& n.parent == o.parent
}

/// What `unregister` leaves behind: the task is gone from both directions
/// (its PID entry, when it had one, is dropped with it) and everything
/// else is untouched.
pub open spec fn spec_unregister_post(o: PidNamespace, n: PidNamespace, tid: Tid) -> bool {
    &&& n.tid_map@ == spec_remove_tid_key(o.tid_map@, tid)
    &&& n.pid_map@ == match spec_assoc_tid(o.tid_map@, tid) {
        Some(pid) => spec_remove_pid_key(o.pid_map@, pid),
        None => o.pid_map@,
    }
    &&& n.child_reaper == o.child_reaper
    &&& n.next_pid == o.next_pid
    &&& n.pid_max == o.pid_max
    &&& n.level == o.level
    &&& n.parent == o.parent
}

/// What one allocate-and-register step leaves behind: when a PID was
/// available the task is registered under it, otherwise nothing changes.
pub open spec fn spec_alloc_register_post(o: PidNamespace, n: PidNamespace, tid: Tid) -> bool {
    if o.next_pid < o.pid_max {
        &&& n.next_pid == o.next_pid + 1
        &&& n.pid_map@ == spec_remove_pid_key(o.pid_map@, o.next_pid).push((o.next_pid, tid))
        &&& n.tid_map@ == spec_remove_tid_key(o.tid_map@, tid).push((tid, o.next_pid))
        &&& n.child_reaper == if o.next_pid == 1 && o.child_reaper is None {
            Some(tid)
        } else {
            o.child_reaper
        }
        &&& n.pid_max == o.pid_max
        &&& n.level == o.level
        &&& n.parent == o.parent
    } else {
        n == o
    }
}

impl PidNamespace {
    /// Allocate the next PID. Fails with EAGAIN (11) exactly when the
    /// namespace has reached `pid_max`; each success returns a PID
    /// strictly greater than every PID allocated before it, so no PID is
    /// ever reused within the namespace.
    pub fn alloc_pid(&mut self) -> (r: Result<u32, i32>)
        ensures
            r is Ok <==> old(self).next_pid < old(self).pid_max,
            r is Ok ==> {
                &&& r->Ok_0 == old(self).next_pid
                &&& *final(self) == (PidNamespace {
                    next_pid: (old(self).next_pid + 1) as u32,
                    ..*old(self)
                })
            },
            r is Err ==> *final(self) == *old(self) && r->Err_0 == 11,
    {
        if self.next_pid >= self.pid_max {
            return Err(11);
        }
        let pid = self.next_pid;
        self.next_pid = self.next_pid + 1;
        Ok(pid)
    }

    /// Register a task under a PID, in both lookup directions. The first
    /// task to take PID 1 becomes the child reaper.
    pub fn register(&mut self, pid: u32, tid: Tid)
        ensures
            spec_register_post(*old(self), *final(self), pid, tid),
    {
        let new_pid_map = remove_pid_key(&self.pid_map, pid);
        self.pid_map = new_pid_map;
        self.pid_map.push((pid, tid));
        let new_tid_map = remove_tid_key(&self.tid_map, tid);
        self.tid_map = new_tid_map;
        self.tid_map.push((tid, pid));
        if pid == 1 {
            if self.child_reaper.is_none() {
                self.child_reaper = Some(tid);
            }
        }
    }

    /// Remove a task from both lookup directions when it exits.
    pub fn unregister(&mut self, tid: Tid)
        ensures
            spec_unregister_post(*old(self), *final(self), tid),
    {
        let pid = self.get_pid(tid);
        let new_tid_map = remove_tid_key(&self.tid_map, tid);
        self.tid_map = new_tid_map;
        match pid {
            Some(p) => {
                let new_pid_map = remove_pid_key(&self.pid_map, p);
                self.pid_map = new_pid_map;
            },
            None => {},
        }
    }

    /// The TID registered under a PID in this namespace.
    pub fn get_tid(&self, pid: u32) -> (r: Option<Tid>)
        ensures
            r == spec_assoc_pid(self.pid_map@, pid),
    {
        let n: usize = self.pid_map.len();
        proof {
            assert(self.pid_map@.skip(0) =~= self.pid_map@);
        }
        let mut i: usize = 0;
        while i < n
            invariant
                n == self.pid_map@.len(),
                i <= n,
                spec_assoc_pid(self.pid_map@, pid) == spec_assoc_pid(
                    self.pid_map@.skip(i as int),
                    pid,
                ),
            decreases n - i,
        {
            let pair = self.pid_map[i];
            proof {
                assert(self.pid_map@.skip(i as int)[0] == self.pid_map@[i as int]);
                assert(self.pid_map@.skip(i as int).skip(1) =~= self.pid_map@.skip(i + 1));
            }
            if pair.0 == pid {
                return Some(pair.1);
            }
            i = i + 1;
        }
        None
    }

    /// The PID a task holds in this namespace; `None` when the task is not
    /// visible here.
    pub fn get_pid(&self, tid: Tid) -> (r: Option<u32>)
        ensures
            r == spec_assoc_tid(self.tid_map@, tid),
    {
        let n: usize = self.tid_map.len();
        proof {
            assert(self.tid_map@.skip(0) =~= self.tid_map@);
        }
        let mut i: usize = 0;
        while i < n
            invariant
                n == self.tid_map@.len(),
                i <= n,
                spec_assoc_tid(self.tid_map@, tid) == spec_assoc_tid(
                    self.tid_map@.skip(i as int),
                    tid,
                ),
            decreases n - i,
        {
            let pair = self.tid_map[i];
            proof {
                assert(self.tid_map@.skip(i as int)[0] == self.tid_map@[i as int]);
                assert(self.tid_map@.skip(i as int).skip(1) =~= self.tid_map@.skip(i + 1));
            }
            if pair.0 == tid {
                return Some(pair.1);
            }
            i = i + 1;
        }
        None
    }

    /// The child reaper of this namespace: the task holding PID 1.
    pub fn get_child_reaper(&self) -> (r: Option<Tid>)
        ensures
            r == self.child_reaper,
    {
        self.child_reaper
    }
}

/// Consecutive successful allocations return strictly increasing PIDs: a
/// namespace never hands the same PID out twice.
pub proof fn lemma_pid_alloc_monotonic(ns: PidNamespace)
    requires
        ns.next_pid < ns.pid_max,
    ensures
        (PidNamespace { next_pid: (ns.next_pid + 1) as u32, ..ns }).next_pid > ns.next_pid,
        (PidNamespace { next_pid: (ns.next_pid + 1) as u32, ..ns }).next_pid < ns.pid_max + 1,
{
}

/// The process-wide set of PID namespaces, held as an arena; entry 0 is
/// the root namespace and every other entry's parent has a smaller index.
pub struct PidTable {
    /// All namespaces; index is the namespace identity.
    pub spaces: Vec<PidNamespace>,
}

/// Table shape: entry 0 is the root; parents come before children and the
/// level increases by one from parent to child.
pub open spec fn spec_pid_table_wf(t: PidTable) -> bool {
    &&& t.spaces@.len() >= 1
    &&& t.spaces@[0].parent is None
    &&& t.spaces@[0].level == 0
    &&& forall|i: int|
        1 <= i < t.spaces@.len() ==> {
            &&& (#[trigger] t.spaces@[i]).parent is Some
            &&& t.spaces@[i].parent->0 < i
            &&& t.spaces@[i].level == t.spaces@[t.spaces@[i].parent->0 as int].level + 1
        }
}

/// Create the table holding only the root namespace.
pub fn new_init_pid_ns() -> (r: PidTable)
    ensures
        spec_pid_table_wf(r),
        r.spaces@.len() == 1,
        r.spaces@[0].next_pid == 1,
        r.spaces@[0].pid_max == PID_MAX_DEFAULT,
        r.spaces@[0].child_reaper is None,
        r.spaces@[0].pid_map@.len() == 0,
        r.spaces@[0].tid_map@.len() == 0,
{
    let root = PidNamespace {
        next_pid: 1,
        pid_max: PID_MAX_DEFAULT,
        level: 0,
        parent: None,
        child_reaper: None,
        pid_map: Vec::new(),
        tid_map: Vec::new(),
    };
    let mut spaces: Vec<PidNamespace> = Vec::new();
    spaces.push(root);
    PidTable { spaces }
}

/// Create a child namespace of `parent`, numbering from 1. Fails with
/// EAGAIN (11) exactly when the maximum nesting level is reached. Returns
/// the new namespace's index.
pub fn clone_pid_ns(table: &mut PidTable, parent: usize) -> (r: Result<usize, i32>)
    requires
        spec_pid_table_wf(*old(table)),
        parent < old(table).spaces@.len(),
    ensures
        spec_pid_table_wf(*final(table)),
        r is Ok <==> old(table).spaces@[parent as int].level < MAX_PID_NS_LEVEL,
        r is Err ==> *final(table) == *old(table) && r->Err_0 == 11,
        r is Ok ==> {
            &&& r->Ok_0 == old(table).spaces@.len()
            &&& final(table).spaces@.len() == old(table).spaces@.len() + 1
            &&& final(table).spaces@.subrange(0, old(table).spaces@.len() as int) == old(
                table,
            ).spaces@
            &&& final(table).spaces@.last().next_pid == 1
            &&& final(table).spaces@.last().pid_max == old(table).spaces@[parent as int].pid_max
            &&& final(table).spaces@.last().level == old(table).spaces@[parent as int].level + 1
            &&& final(table).spaces@.last().parent == Some(parent)
            &&& final(table).spaces@.last().child_reaper is None
            &&& final(table).spaces@.last().pid_map@.len() == 0
            &&& final(table).spaces@.last().tid_map@.len() == 0
        },
{
    let level = table.spaces[parent].level;
    if level >= MAX_PID_NS_LEVEL {
        return Err(11);
    }
    let pid_max = table.spaces[parent].pid_max;
    let ns = PidNamespace {
        next_pid: 1,
        pid_max,
        level: level + 1,
        parent: Some(parent),
        child_reaper: None,
        pid_map: Vec::new(),
        tid_map: Vec::new(),
    };
    let idx = table.spaces.len();
    table.spaces.push(ns);
    Ok(idx)
}

/// Whether namespace `a` is an ancestor of namespace `b`: `a` appears on
/// the parent chain of `b`, with `b` itself excluded.
pub open spec fn spec_pid_is_ancestor(spaces: Seq<PidNamespace>, a: int, b: int) -> bool
    decreases b,
{
    if !(0 <= b < spaces.len()) {
        false
    } else {
        match spaces[b].parent {
            Some(p) => if (p as int) < b {
                p as int == a || spec_pid_is_ancestor(spaces, a, p as int)
            } else {
                false
            },
            None => false,
        }
    }
}

/// Walk the parent chain of `b`, comparing each ancestor to `a` by
/// namespace identity (table index).
pub fn pid_is_ancestor_of(table: &PidTable, a: usize, b: usize) -> (r: bool)
    requires
        spec_pid_table_wf(*table),
        a < table.spaces@.len(),
        b < table.spaces@.len(),
    ensures
        r == spec_pid_is_ancestor(table.spaces@, a as int, b as int),
{
    let mut cur: usize = b;
    loop
        invariant
            spec_pid_table_wf(*table),
            cur < table.spaces@.len(),
            spec_pid_is_ancestor(table.spaces@, a as int, b as int) == spec_pid_is_ancestor(
                table.spaces@,
                a as int,
                cur as int,
            ),
        decreases cur,
    {
        match table.spaces[cur].parent {
            Some(p) => {
                if p == a {
                    return true;
                }
                cur = p;
            },
            None => {
                return false;
            },
        }
    }
}

/// A task's PID as seen from a namespace; 0 when the task is not visible
/// there.
pub fn task_pid_nr_ns(table: &PidTable, tid: Tid, ns: usize) -> (r: u32)
    requires
        ns < table.spaces@.len(),
    ensures
        r == match spec_assoc_tid(table.spaces@[ns as int].tid_map@, tid) {
            Some(pid) => pid,
            None => 0u32,
        },
{
    match table.spaces[ns].get_pid(tid) {
        Some(pid) => pid,
        None => 0,
    }
}

/// A task's PID in the root namespace: the globally visible PID.
pub fn task_pid_nr(table: &PidTable, tid: Tid) -> (r: u32)
    requires
        spec_pid_table_wf(*table),
    ensures
        r == match spec_assoc_tid(table.spaces@[0].tid_map@, tid) {
            Some(pid) => pid,
            None => 0u32,
        },
{
    task_pid_nr_ns(table, tid, 0)
}

/// The task holding a PID in a namespace; `None` when no task does.
pub fn find_task_by_pid_ns(table: &PidTable, pid: u32, ns: usize) -> (r: Option<Tid>)
    requires
        ns < table.spaces@.len(),
    ensures
        r == spec_assoc_pid(table.spaces@[ns as int].pid_map@, pid),
{
    table.spaces[ns].get_tid(pid)
}

/// Whether namespace `j` lies on the parent chain of `start`, `start`
/// itself included.
pub open spec fn spec_pid_in_chain(spaces: Seq<PidNamespace>, start: int, j: int) -> bool
    decreases start,
{
    if !(0 <= start < spaces.len()) {
        false
    } else if j == start {
        true
    } else {
        match spaces[start].parent {
            Some(p) => if (p as int) < start {
                spec_pid_in_chain(spaces, p as int, j)
            } else {
                false
            },
            None => false,
        }
    }
}

/// Chain members never lie above their start: parents have smaller
/// indices.
proof fn lemma_chain_le(spaces: Seq<PidNamespace>, start: int, j: int)
    requires
        spec_pid_in_chain(spaces, start, j),
    ensures
        j <= start,
    decreases start,
{
    if j != start {
        match spaces[start].parent {
            Some(p) => {
                lemma_chain_le(spaces, p as int, j);
            },
            None => {},
        }
    }
}

/// The chain extends through a member's parent.
proof fn lemma_chain_step(spaces: Seq<PidNamespace>, start: int, c: int, p: usize)
    requires
        spec_pid_in_chain(spaces, start, c),
        0 <= c < spaces.len(),
        spaces[c].parent == Some(p),
        p < c,
    ensures
        spec_pid_in_chain(spaces, start, p as int),
    decreases start,
{
    if c != start {
        match spaces[start].parent {
            Some(q) => {
                lemma_chain_step(spaces, q as int, c, p);
            },
            None => {},
        }
    } else {
        assert(spec_pid_in_chain(spaces, p as int, p as int));
    }
}

/// Register a new task: allocate a PID in its owning namespace, register
/// it there, then walk the ancestors and register it in each under a
/// fresh PID of that namespace (skipping any ancestor whose PIDs are
/// exhausted). Returns the PID in the owning namespace; fails with
/// EAGAIN (11), changing nothing, exactly when the owning namespace has
/// no PID left.
#[verifier::loop_isolation(false)]
pub fn register_task_pids(table: &mut PidTable, tid: Tid, ns: usize) -> (r: Result<u32, i32>)
    requires
        spec_pid_table_wf(*old(table)),
        ns < old(table).spaces@.len(),
    ensures
        spec_pid_table_wf(*final(table)),
        final(table).spaces@.len() == old(table).spaces@.len(),
        r is Ok <==> old(table).spaces@[ns as int].next_pid < old(table).spaces@[ns as int].pid_max,
        r is Err ==> *final(table) == *old(table) && r->Err_0 == 11,
        r is Ok ==> r->Ok_0 == old(table).spaces@[ns as int].next_pid,
        r is Ok ==> spec_alloc_register_post(
            old(table).spaces@[ns as int],
            final(table).spaces@[ns as int],
            tid,
        ),
        r is Ok ==> forall|j: int|
            0 <= j < old(table).spaces@.len() && j != ns ==> if #[trigger] spec_pid_in_chain(
                old(table).spaces@,
                ns as int,
                j,
            ) {
                spec_alloc_register_post(old(table).spaces@[j], final(table).spaces@[j], tid)
            } else {
                final(table).spaces@[j] == old(table).spaces@[j]
            },
    {
    let ghost old_spaces = table.spaces@;
    if table.spaces[ns].next_pid >= table.spaces[ns].pid_max {
        return Err(11);
    }
    let mut owner_ns = table.spaces[ns].clone_data();
    let pid = match owner_ns.alloc_pid() {
        Ok(p) => p,
        Err(_) => {
            return Err(11);
        },
    };
    owner_ns.register(pid, tid);
    table.spaces[ns] = owner_ns;
    proof {
        assert(spec_alloc_register_post(old_spaces[ns as int], table.spaces@[ns as int], tid));
        assert(forall|j: int|
            0 <= j < old_spaces.len() && j != ns ==> #[trigger] table.spaces@[j] == old_spaces[j]);
    }
    let mut cur: usize = ns;
    loop
        invariant
            table.spaces@.len() == old_spaces.len(),
            cur < table.spaces@.len(),
            spec_pid_in_chain(old_spaces, ns as int, cur as int),
            spec_alloc_register_post(old_spaces[ns as int], table.spaces@[ns as int], tid),
            forall|j: int|
                0 <= j < old_spaces.len() && j != ns && #[trigger] spec_pid_in_chain(
                    old_spaces,
                    ns as int,
                    j,
                ) && (!spec_pid_in_chain(old_spaces, cur as int, j) || j == cur)
                    ==> spec_alloc_register_post(old_spaces[j], table.spaces@[j], tid),
            forall|j: int|
                0 <= j < old_spaces.len() && j != ns && j != cur && #[trigger] spec_pid_in_chain(
                    old_spaces,
                    cur as int,
                    j,
                ) ==> table.spaces@[j] == old_spaces[j],
            forall|j: int|
                0 <= j < old_spaces.len() && j != ns && !(#[trigger] spec_pid_in_chain(
                    old_spaces,
                    ns as int,
                    j,
                )) ==> table.spaces@[j] == old_spaces[j],
            forall|j: int|
                0 <= j < old_spaces.len() ==> {
                    &&& (#[trigger] table.spaces@[j]).parent == old_spaces[j].parent
                    &&& table.spaces@[j].level == old_spaces[j].level
                },
            spec_pid_table_wf(*table),
        decreases cur,
    {
        let parent = table.spaces[cur].parent;
        match parent {
            Some(p) => {
                proof {
                    assert(old_spaces[cur as int].parent == Some(p));
                    lemma_chain_step(old_spaces, ns as int, cur as int, p);
                    assert(spec_pid_in_chain(old_spaces, p as int, p as int));
                    assert(spec_pid_in_chain(old_spaces, cur as int, p as int));
                    if spec_pid_in_chain(old_spaces, p as int, cur as int) {
                        lemma_chain_le(old_spaces, p as int, cur as int);
                    }
                    assert(!spec_pid_in_chain(old_spaces, p as int, cur as int));
                }
                if p != ns {
                    let mut ancestor = table.spaces[p].clone_data();
                    let ghost pre = table.spaces@[p as int];
                    proof {
                        assert(pre == old_spaces[p as int]);
                    }
                    match ancestor.alloc_pid() {
                        Ok(ancestor_pid) => {
                            ancestor.register(ancestor_pid, tid);
                            table.spaces[p] = ancestor;
                            proof {
                                assert(spec_alloc_register_post(
                                    old_spaces[p as int],
                                    table.spaces@[p as int],
                                    tid,
                                ));
                            }
                        },
                        Err(_) => {
                            proof {
                                assert(spec_alloc_register_post(
                                    old_spaces[p as int],
                                    table.spaces@[p as int],
                                    tid,
                                ));
                            }
                        },
                    }
                }
                proof {
                    assert forall|j: int|
                        0 <= j < old_spaces.len() && j != ns && j != p
                            && #[trigger] spec_pid_in_chain(old_spaces, p as int, j) implies
                        table.spaces@[j] == old_spaces[j] by {
                        lemma_chain_le(old_spaces, p as int, j);
                        assert(spec_pid_in_chain(old_spaces, cur as int, j));
                    }
                    assert forall|j: int|
                        0 <= j < old_spaces.len() && j != ns && #[trigger] spec_pid_in_chain(
                            old_spaces,
                            ns as int,
                            j,
                        ) && (!spec_pid_in_chain(old_spaces, p as int, j) || j == p) implies
                        spec_alloc_register_post(old_spaces[j], table.spaces@[j], tid) by {
                        if j == p {
                        } else if !spec_pid_in_chain(old_spaces, cur as int, j) || j == cur {
                        } else {
                            assert(spec_pid_in_chain(old_spaces, cur as int, j) && j != cur);
                            assert(spec_pid_in_chain(old_spaces, p as int, j));
                            assert(false);
                        }
                    }
                }
                cur = p;
            },
            None => {
                proof {
                    assert forall|j: int|
                        0 <= j < old_spaces.len() && j != ns && #[trigger] spec_pid_in_chain(
                            old_spaces,
                            ns as int,
                            j,
                        ) implies spec_alloc_register_post(old_spaces[j], table.spaces@[j], tid) by {
                        if spec_pid_in_chain(old_spaces, cur as int, j) && j != cur {
                            assert(old_spaces[cur as int].parent is None);
                            assert(false);
                        }
                    }
                }
                break ;
            },
        }
    }
    Ok(pid)
}

/// Remove an exiting task from its owning namespace and from every
/// ancestor.
#[verifier::loop_isolation(false)]
pub fn unregister_task_pids(table: &mut PidTable, tid: Tid, ns: usize)
    requires
        spec_pid_table_wf(*old(table)),
        ns < old(table).spaces@.len(),
    ensures
        spec_pid_table_wf(*final(table)),
        final(table).spaces@.len() == old(table).spaces@.len(),
        spec_unregister_post(
            old(table).spaces@[ns as int],
            final(table).spaces@[ns as int],
            tid,
        ),
        forall|j: int|
            0 <= j < old(table).spaces@.len() && j != ns ==> if #[trigger] spec_pid_in_chain(
                old(table).spaces@,
                ns as int,
                j,
            ) {
                spec_unregister_post(old(table).spaces@[j], final(table).spaces@[j], tid)
            } else {
                final(table).spaces@[j] == old(table).spaces@[j]
            },
{
    let ghost old_spaces = table.spaces@;
    let mut owner_ns = table.spaces[ns].clone_data();
    owner_ns.unregister(tid);
    table.spaces[ns] = owner_ns;
    let mut cur: usize = ns;
    loop
        invariant
            table.spaces@.len() == old_spaces.len(),
            cur < table.spaces@.len(),
            spec_pid_in_chain(old_spaces, ns as int, cur as int),
            spec_unregister_post(old_spaces[ns as int], table.spaces@[ns as int], tid),
            forall|j: int|
                0 <= j < old_spaces.len() && j != ns && #[trigger] spec_pid_in_chain(
                    old_spaces,
                    ns as int,
                    j,
                ) && (!spec_pid_in_chain(old_spaces, cur as int, j) || j == cur)
                    ==> spec_unregister_post(old_spaces[j], table.spaces@[j], tid),
            forall|j: int|
                0 <= j < old_spaces.len() && j != ns && j != cur && #[trigger] spec_pid_in_chain(
                    old_spaces,
                    cur as int,
                    j,
                ) ==> table.spaces@[j] == old_spaces[j],
            forall|j: int|
                0 <= j < old_spaces.len() && j != ns && !(#[trigger] spec_pid_in_chain(
                    old_spaces,
                    ns as int,
                    j,
                )) ==> table.spaces@[j] == old_spaces[j],
            forall|j: int|
                0 <= j < old_spaces.len() ==> {
                    &&& (#[trigger] table.spaces@[j]).parent == old_spaces[j].parent
                    &&& table.spaces@[j].level == old_spaces[j].level
                },
            spec_pid_table_wf(*table),
        decreases cur,
    {
        let parent = table.spaces[cur].parent;
        match parent {
            Some(p) => {
                proof {
                    assert(old_spaces[cur as int].parent == Some(p));
                    lemma_chain_step(old_spaces, ns as int, cur as int, p);
                    assert(spec_pid_in_chain(old_spaces, p as int, p as int));
                    assert(spec_pid_in_chain(old_spaces, cur as int, p as int));
                    if spec_pid_in_chain(old_spaces, p as int, cur as int) {
                        lemma_chain_le(old_spaces, p as int, cur as int);
                    }
                    assert(!spec_pid_in_chain(old_spaces, p as int, cur as int));
                }
                if p != ns {
                    let mut ancestor = table.spaces[p].clone_data();
                    let ghost pre = table.spaces@[p as int];
                    proof {
                        assert(pre == old_spaces[p as int]);
                    }
                    ancestor.unregister(tid);
                    table.spaces[p] = ancestor;
                    proof {
                        assert(spec_unregister_post(old_spaces[p as int], table.spaces@[p as int], tid));
                    }
                }
                proof {
                    assert forall|j: int|
                        0 <= j < old_spaces.len() && j != ns && j != p
                            && #[trigger] spec_pid_in_chain(old_spaces, p as int, j) implies
                        table.spaces@[j] == old_spaces[j] by {
                        lemma_chain_le(old_spaces, p as int, j);
                        assert(spec_pid_in_chain(old_spaces, cur as int, j));
                    }
                    assert forall|j: int|
                        0 <= j < old_spaces.len() && j != ns && #[trigger] spec_pid_in_chain(
                            old_spaces,
                            ns as int,
                            j,
                        ) && (!spec_pid_in_chain(old_spaces, p as int, j) || j == p) implies
                        spec_unregister_post(old_spaces[j], table.spaces@[j], tid) by {
                        if j == p {
                        } else if !spec_pid_in_chain(old_spaces, cur as int, j) || j == cur {
                        } else {
                            assert(spec_pid_in_chain(old_spaces, cur as int, j) && j != cur);
                            assert(spec_pid_in_chain(old_spaces, p as int, j));
                            assert(false);
                        }
                    }
                }
                cur = p;
            },
            None => {
                proof {
                    assert forall|j: int|
                        0 <= j < old_spaces.len() && j != ns && #[trigger] spec_pid_in_chain(
                            old_spaces,
                            ns as int,
                            j,
                        ) implies spec_unregister_post(old_spaces[j], table.spaces@[j], tid) by {
                        if spec_pid_in_chain(old_spaces, cur as int, j) && j != cur {
                            assert(old_spaces[cur as int].parent is None);
                            assert(false);
                        }
                    }
                }
                break ;
            },
        }
    }
}

impl PidNamespace {
    /// An owned copy of this namespace's data.
    pub fn clone_data(&self) -> (r: PidNamespace)
        ensures
            r.next_pid == self.next_pid,
            r.pid_max == self.pid_max,
            r.level == self.level,
            r.parent == self.parent,
            r.child_reaper == self.child_reaper,
            r.pid_map@ == self.pid_map@,
            r.tid_map@ == self.tid_map@,
    {
        let mut pid_map: Vec<(u32, Tid)> = Vec::new();
        let mut i: usize = 0;
        while i < self.pid_map.len()
            invariant
                i <= self.pid_map@.len(),
                pid_map@ == self.pid_map@.take(i as int),
            decreases self.pid_map@.len() - i,
        {
            pid_map.push(self.pid_map[i]);
            proof {
                assert(pid_map@ =~= self.pid_map@.take(i + 1));
            }
            i = i + 1;
        }
        let mut tid_map: Vec<(Tid, u32)> = Vec::new();
        let mut j: usize = 0;
        while j < self.tid_map.len()
            invariant
                j <= self.tid_map@.len(),
                tid_map@ == self.tid_map@.take(j as int),
            decreases self.tid_map@.len() - j,
        {
            tid_map.push(self.tid_map[j]);
            proof {
                assert(tid_map@ =~= self.tid_map@.take(j + 1));
            }
            j = j + 1;
        }
        proof {
            assert(pid_map@ =~= self.pid_map@);
            assert(tid_map@ =~= self.tid_map@);
        }
        PidNamespace {
            next_pid: self.next_pid,
            pid_max: self.pid_max,
            level: self.level,
            parent: self.parent,
            child_reaper: self.child_reaper,
            pid_map,
            tid_map,
        }
    }
}

} // verus!
