//! User namespaces: isolation of UID/GID numbering.
//!
//! Each namespace carries a UID map and a GID map. A map is a sequence of
//! extents translating a range of IDs in this namespace to a range in the
//! parent namespace. A map may be set once; re-setting it with the
//! identical extents is a harmless no-op, while a differing second set
//! fails with EPERM. Extents must not overlap, on either side of the
//! translation. The root namespace has
//! identity maps covering the whole 32-bit range [0, 2^32). Translation
//! to and from the kernel-visible IDs chains through the ancestors.

use vstd::prelude::*;

verus! {

/// Maximum user namespace nesting level.
pub const MAX_USER_NS_LEVEL: u32 = 32;

/// One UID/GID mapping extent: `count` consecutive IDs starting at `first`
/// in this namespace map to the IDs starting at `lower_first` in the parent.
#[derive(Clone, Copy, PartialEq, Eq, Structural, Debug)]
pub struct UidGidExtent {
    /// First ID in this namespace
    pub first: u32,
    /// First ID in the parent namespace
    pub lower_first: u32,
    /// Number of consecutive IDs in the range
    pub count: u32,
}

/// `a + b` capped at the largest 32-bit value.
pub open spec fn spec_sat_add(a: u32, b: u32) -> int {
    if a + b > u32::MAX {
        u32::MAX as int
    } else {
        a + b
    }
}

/// Whether `id` falls in the this-namespace side of an extent: the
/// half-open range of `count` IDs from `first` (the end computed exactly,
/// so a range may reach the top ID).
pub open spec fn spec_ext_holds_down(e: UidGidExtent, id: u32) -> bool {
    e.first <= id < e.first + e.count
}

/// Whether `id` falls in the parent side of an extent.
pub open spec fn spec_ext_holds_up(e: UidGidExtent, id: u32) -> bool {
    e.lower_first <= id < e.lower_first + e.count
}

/// The parent-namespace ID an extent gives for `id` on the way down.
pub open spec fn spec_ext_down(e: UidGidExtent, id: u32) -> u32 {
    spec_sat_add(e.lower_first, (id - e.first) as u32) as u32
}

/// The this-namespace ID an extent gives for `id` on the way up.
pub open spec fn spec_ext_up(e: UidGidExtent, id: u32) -> u32 {
    spec_sat_add(e.first, (id - e.lower_first) as u32) as u32
}

/// The ID the first extent whose this-namespace range holds `id`
/// translates it to; `None` when no extent does.
pub open spec fn spec_map_down(s: Seq<UidGidExtent>, id: u32) -> Option<u32>
    decreases s.len(),
{
    if s.len() == 0 {
        None
    } else if spec_ext_holds_down(s[0], id) {
        Some(spec_ext_down(s[0], id))
    } else {
        spec_map_down(s.skip(1), id)
    }
}

/// The ID the first extent whose parent range holds `id` translates it
/// to; `None` when no extent does.
pub open spec fn spec_map_up(s: Seq<UidGidExtent>, id: u32) -> Option<u32>
    decreases s.len(),
{
    if s.len() == 0 {
        None
    } else if spec_ext_holds_up(s[0], id) {
        Some(spec_ext_up(s[0], id))
    } else {
        spec_map_up(s.skip(1), id)
    }
}

/// Two extents translate disjoint ranges, on both sides.
pub open spec fn spec_pair_disjoint(a: UidGidExtent, b: UidGidExtent) -> bool {
    !spec_overlap_down(a, b) && !spec_overlap_up(a, b)
}

/// Extents are pairwise disjoint, on both the this-namespace ranges and the
/// parent ranges.
pub open spec fn spec_extents_disjoint(s: Seq<UidGidExtent>) -> bool {
    forall|i: int, j: int| 0 <= i < j < s.len() ==> #[trigger] spec_pair_disjoint(s[i], s[j])
}

/// Half-open int ranges `[s1, e1)` and `[s2, e2)` share a point.
pub open spec fn spec_ranges_overlap(s1: int, e1: int, s2: int, e2: int) -> bool {
    let lo = if s1 >= s2 {
        s1
    } else {
        s2
    };
    lo < e1 && lo < e2
}

/// The this-namespace ranges of two extents intersect: some ID is held by
/// both.
pub open spec fn spec_overlap_down(a: UidGidExtent, b: UidGidExtent) -> bool {
    spec_ranges_overlap(
        a.first as int,
        a.first + a.count,
        b.first as int,
        b.first + b.count,
    )
}

/// The parent ranges of two extents intersect: some ID is held by both.
pub open spec fn spec_overlap_up(a: UidGidExtent, b: UidGidExtent) -> bool {
    spec_ranges_overlap(
        a.lower_first as int,
        a.lower_first + a.count,
        b.lower_first as int,
        b.lower_first + b.count,
    )
}

/// A UID or GID map: a set of translation extents, empty until set.
#[derive(Clone, Debug)]
pub struct UidGidMap {
    /// Mapping extents; empty means the map has not been set.
    pub extents: Vec<UidGidExtent>,
}

/// A set map holds pairwise disjoint extents.
pub open spec fn spec_map_wf(m: UidGidMap) -> bool {
    spec_extents_disjoint(m.extents@)
}

/// The extents of the root namespace's identity maps: all 2^32 IDs map
/// to themselves, in two extents because one extent's count field cannot
/// express 2^32.
pub open spec fn spec_identity_extents() -> Seq<UidGidExtent> {
    seq![
        UidGidExtent { first: 0u32, lower_first: 0u32, count: u32::MAX },
        UidGidExtent { first: u32::MAX, lower_first: u32::MAX, count: 1u32 },
    ]
}

impl UidGidMap {
    /// Create a new, unset map.
    pub fn new() -> (r: Self)
        ensures
            r.extents@.len() == 0,
            spec_map_wf(r),
    {
        UidGidMap { extents: Vec::new() }
    }

    /// Create an identity map covering the whole 32-bit ID range
    /// [0, 2^32), for the root namespace: every ID translates to itself,
    /// in both directions.
    pub fn new_identity() -> (r: Self)
        ensures
            r.extents@ == spec_identity_extents(),
            spec_map_wf(r),
            forall|id: u32| #[trigger] spec_map_down(r.extents@, id) == Some(id),
            forall|id: u32| #[trigger] spec_map_up(r.extents@, id) == Some(id),
    {
        let mut map = Self::new();
        let mut exts: Vec<UidGidExtent> = Vec::new();
        exts.push(UidGidExtent { first: 0, lower_first: 0, count: u32::MAX });
        exts.push(UidGidExtent { first: u32::MAX, lower_first: u32::MAX, count: 1 });
        proof {
            assert(exts@ =~= spec_identity_extents());
        }
        let res = map.set_mapping(exts);
        proof {
            assert(res is Ok);
            lemma_identity_map_total();
        }
        map
    }

    /// Translate an ID from this namespace to the parent namespace.
    /// Returns the translation of the first extent whose this-namespace
    /// range holds the ID, `None` when no extent does.
    pub fn map_id_down(&self, id: u32) -> (r: Option<u32>)
        ensures
            r == spec_map_down(self.extents@, id),
    {
        let n: usize = self.extents.len();
        proof {
            assert(self.extents@.skip(0) =~= self.extents@);
        }
        let mut i: usize = 0;
        while i < n
            invariant
                n == self.extents@.len(),
                i <= n,
                spec_map_down(self.extents@, id) == spec_map_down(
                    self.extents@.skip(i as int),
                    id,
                ),
            decreases n - i,
        {
            let ext = self.extents[i];
            proof {
                assert(self.extents@.skip(i as int)[0] == self.extents@[i as int]);
                assert(self.extents@.skip(i as int).skip(1) =~= self.extents@.skip(i + 1));
            }
            if id >= ext.first && (id as u64) < ext.first as u64 + ext.count as u64 {
                return Some(ext.lower_first.saturating_add(id - ext.first));
            }
            i = i + 1;
        }
        None
    }

    /// Translate an ID from the parent namespace to this namespace.
    /// Returns the translation of the first extent whose parent range holds
    /// the ID, `None` when no extent does.
    pub fn map_id_up(&self, id: u32) -> (r: Option<u32>)
        ensures
            r == spec_map_up(self.extents@, id),
    {
        let n: usize = self.extents.len();
        proof {
            assert(self.extents@.skip(0) =~= self.extents@);
        }
        let mut i: usize = 0;
        while i < n
            invariant
                n == self.extents@.len(),
                i <= n,
                spec_map_up(self.extents@, id) == spec_map_up(self.extents@.skip(i as int), id),
            decreases n - i,
        {
            let ext = self.extents[i];
            proof {
                assert(self.extents@.skip(i as int)[0] == self.extents@[i as int]);
                assert(self.extents@.skip(i as int).skip(1) =~= self.extents@.skip(i + 1));
            }
            if id >= ext.lower_first && (id as u64) < ext.lower_first as u64 + ext.count as u64 {
                return Some(ext.first.saturating_add(id - ext.lower_first));
            }
            i = i + 1;
        }
        None
    }

    /// Set the mapping: on an unset map, store the extents when they are
    /// pairwise disjoint on both sides, else fail with EINVAL (22). On a
    /// set map the operation is idempotent exactly for the identical
    /// extents (a no-op Ok); a differing second set fails with EPERM (1).
    /// The map never changes after a failure, and after any Ok it holds
    /// exactly the given extents.
    pub fn set_mapping(&mut self, new_extents: Vec<UidGidExtent>) -> (r: Result<(), i32>)
        ensures
            r is Ok <==> (old(self).extents@.len() == 0 && spec_extents_disjoint(new_extents@))
                || old(self).extents@ == new_extents@,
            r is Ok ==> final(self).extents@ == new_extents@,
            r is Err ==> *final(self) == *old(self),
            r is Err ==> r->Err_0 == if old(self).extents@.len() > 0 {
                1int as i32
            } else {
                22
            },
            spec_map_wf(*old(self)) ==> spec_map_wf(*final(self)),
    {
        if self.extents.len() > 0 {
            if extents_equal(&self.extents, &new_extents) {
                return Ok(());
            }
            return Err(1);
        }
        if !extents_disjoint(&new_extents) {
            return Err(22);
        }
        self.extents = new_extents;
        Ok(())
    }

    /// Whether the map has been set.
    pub fn is_set(&self) -> (r: bool)
        ensures
            r == (self.extents@.len() > 0),
    {
        self.extents.len() > 0
    }
}

/// The identity extents translate every 32-bit ID to itself, in both
/// directions: the first extent covers [0, 2^32 - 1) and the second the
/// top ID.
pub proof fn lemma_identity_map_total()
    ensures
        forall|id: u32| #[trigger] spec_map_down(spec_identity_extents(), id) == Some(id),
        forall|id: u32| #[trigger] spec_map_up(spec_identity_extents(), id) == Some(id),
{
    let s = spec_identity_extents();
    let e1 = UidGidExtent { first: 0u32, lower_first: 0u32, count: u32::MAX };
    let e2 = UidGidExtent { first: u32::MAX, lower_first: u32::MAX, count: 1u32 };
    let tail = seq![e2];
    assert(s.len() == 2 && s[0] == e1 && s[1] == e2);
    assert(s.skip(1) =~= tail);
    assert(tail[0] == e2 && tail.len() == 1);
    assert forall|id: u32| #[trigger] spec_map_down(s, id) == Some(id) by {
        if id < u32::MAX {
            assert(spec_ext_holds_down(e1, id));
            assert(spec_ext_down(e1, id) == id);
            assert(spec_map_down(s, id) == Some(spec_ext_down(e1, id)));
        } else {
            assert(!spec_ext_holds_down(e1, id));
            assert(spec_map_down(s, id) == spec_map_down(tail, id));
            assert(spec_ext_holds_down(e2, id));
            assert(spec_map_down(tail, id) == Some(spec_ext_down(e2, id)));
            assert(spec_ext_down(e2, id) == id);
        }
    }
    assert forall|id: u32| #[trigger] spec_map_up(s, id) == Some(id) by {
        if id < u32::MAX {
            assert(spec_ext_holds_up(e1, id));
            assert(spec_ext_up(e1, id) == id);
            assert(spec_map_up(s, id) == Some(spec_ext_up(e1, id)));
        } else {
            assert(!spec_ext_holds_up(e1, id));
            assert(spec_map_up(s, id) == spec_map_up(tail, id));
            assert(spec_ext_holds_up(e2, id));
            assert(spec_map_up(tail, id) == Some(spec_ext_up(e2, id)));
            assert(spec_ext_up(e2, id) == id);
        }
    }
}

/// Whether two extent vectors hold exactly the same extents, in order.
fn extents_equal(a: &Vec<UidGidExtent>, b: &Vec<UidGidExtent>) -> (r: bool)
    ensures
        r == (a@ == b@),
{
    if a.len() != b.len() {
        proof {
            assert(a@.len() != b@.len());
        }
        return false;
    }
    let n: usize = a.len();
    let mut i: usize = 0;
    while i < n
        invariant
            n == a@.len(),
            n == b@.len(),
            i <= n,
            forall|j: int| 0 <= j < i ==> a@[j] == b@[j],
        decreases n - i,
    {
        if a[i] != b[i] {
            return false;
        }
        i = i + 1;
    }
    proof {
        assert(a@ =~= b@);
    }
    true
}

/// Check that two extents are disjoint on both sides.
fn ext_pair_disjoint(a: &UidGidExtent, b: &UidGidExtent) -> (r: bool)
    ensures
        r == spec_pair_disjoint(*a, *b),
{
    let a_down_end: u64 = a.first as u64 + a.count as u64;
    let b_down_end: u64 = b.first as u64 + b.count as u64;
    let a_up_end: u64 = a.lower_first as u64 + a.count as u64;
    let b_up_end: u64 = b.lower_first as u64 + b.count as u64;
    let down_lo: u32 = if a.first >= b.first {
        a.first
    } else {
        b.first
    };
    let up_lo: u32 = if a.lower_first >= b.lower_first {
        a.lower_first
    } else {
        b.lower_first
    };
    let down_ok = (down_lo as u64) >= a_down_end || (down_lo as u64) >= b_down_end;
    let up_ok = (up_lo as u64) >= a_up_end || (up_lo as u64) >= b_up_end;
    down_ok && up_ok
}

/// Check that a whole extent vector is pairwise disjoint on both sides.
#[verifier::loop_isolation(false)]
fn extents_disjoint(exts: &Vec<UidGidExtent>) -> (r: bool)
    ensures
        r == spec_extents_disjoint(exts@),
{
    let n: usize = exts.len();
    let mut i: usize = 0;
    while i < n
        invariant
            n == exts@.len(),
            i <= n,
            forall|p: int, q: int|
                0 <= p < q < n && p < i ==> #[trigger] spec_pair_disjoint(exts@[p], exts@[q]),
        decreases n - i,
    {
        let mut j: usize = i + 1;
        while j < n
            invariant
                i < j,
                forall|q: int|
                    i < q < j ==> #[trigger] spec_pair_disjoint(exts@[i as int], exts@[q]),
            decreases n - j,
        {
            let ea: UidGidExtent = exts[i];
            let eb: UidGidExtent = exts[j];
            proof {
                assert(ea == exts@[i as int] && eb == exts@[j as int]);
            }
            let ok = ext_pair_disjoint(&ea, &eb);
            if !ok {
                proof {
                    let ii = i as int;
                    let jj = j as int;
                    assert(!spec_pair_disjoint(exts@[ii], exts@[jj]));
                    if spec_extents_disjoint(exts@) {
                        lemma_disjoint_instance(exts@, ii, jj);
                    }
                }
                return false;
            }
            proof {
                assert(spec_pair_disjoint(exts@[i as int], exts@[j as int]));
            }
            j = j + 1;
        }
        proof {
            assert forall|p: int, q: int|
                0 <= p < q < n && p < i + 1 implies #[trigger] spec_pair_disjoint(
                exts@[p],
                exts@[q],
            ) by {
                if p == i {
                    assert(spec_pair_disjoint(exts@[i as int], exts@[q]));
                }
            }
        }
        i = i + 1;
    }
    true
}

/// A disjoint extent sequence has no overlap at any ordered pair.
proof fn lemma_disjoint_instance(s: Seq<UidGidExtent>, i: int, j: int)
    requires
        spec_extents_disjoint(s),
        0 <= i < j < s.len(),
    ensures
        spec_pair_disjoint(s[i], s[j]),
{
}

/// A user namespace: UID and GID maps, nesting level, parent link (an index
/// into the namespace table), and the creator's credentials in the parent.
#[derive(Clone, Debug)]
pub struct UserNamespace {
    /// UID mapping
    pub uid_map: UidGidMap,
    /// GID mapping
    pub gid_map: UidGidMap,
    /// Nesting level (0 = root)
    pub level: u32,
    /// Parent namespace, as an index into the table (None for the root)
    pub parent: Option<usize>,
    /// Creator's UID in the parent namespace
    pub owner: u32,
    /// Creator's GID in the parent namespace
    pub group: u32,
}

impl UserNamespace {
    /// The parent-namespace UID for a UID of this namespace: one level of
    /// the downward chain.
    pub fn to_kuid(&self, uid: u32) -> (r: Option<u32>)
        ensures
            r == spec_map_down(self.uid_map.extents@, uid),
    {
        self.uid_map.map_id_down(uid)
    }

    /// The UID in this namespace for a parent-namespace UID: one level of
    /// the upward chain.
    pub fn from_kuid(&self, kuid: u32) -> (r: Option<u32>)
        ensures
            r == spec_map_up(self.uid_map.extents@, kuid),
    {
        self.uid_map.map_id_up(kuid)
    }

    /// The parent-namespace GID for a GID of this namespace.
    pub fn to_kgid(&self, gid: u32) -> (r: Option<u32>)
        ensures
            r == spec_map_down(self.gid_map.extents@, gid),
    {
        self.gid_map.map_id_down(gid)
    }

    /// The GID in this namespace for a parent-namespace GID.
    pub fn from_kgid(&self, kgid: u32) -> (r: Option<u32>)
        ensures
            r == spec_map_up(self.gid_map.extents@, kgid),
    {
        self.gid_map.map_id_up(kgid)
    }
}

/// The process-wide set of user namespaces, held as an arena; entry 0 is
/// the root namespace and every other entry's parent has a smaller index.
pub struct UserNsTable {
    /// All namespaces; index is the namespace identity.
    pub spaces: Vec<UserNamespace>,
}

/// Table shape: entry 0 is the root; parents come before children and the
/// level increases by one from parent to child.
pub open spec fn spec_user_table_wf(t: UserNsTable) -> bool {
    &&& t.spaces@.len() >= 1
    &&& t.spaces@[0].parent is None
    &&& t.spaces@[0].level == 0
    &&& forall|i: int|
        1 <= i < t.spaces@.len() ==> {
            &&& (#[trigger] t.spaces@[i]).parent is Some
            &&& t.spaces@[i].parent->0 < i
            &&& t.spaces@[i].level == t.spaces@[t.spaces@[i].parent->0 as int].level + 1
        }
}

/// The kernel-visible UID a namespace UID chains down to: translate in
/// this namespace, then in each ancestor in turn, up to the root.
pub open spec fn spec_chain_to_kuid(spaces: Seq<UserNamespace>, i: int, uid: u32) -> Option<u32>
    decreases i,
{
    if !(0 <= i < spaces.len()) {
        None
    } else {
        match spec_map_down(spaces[i].uid_map.extents@, uid) {
            None => None,
            Some(v) => match spaces[i].parent {
                Some(p) => if (p as int) < i {
                    spec_chain_to_kuid(spaces, p as int, v)
                } else {
                    None
                },
                None => Some(v),
            },
        }
    }
}

/// The namespace UID a kernel-visible UID chains up to: translate at the
/// root first, then at each namespace down the path to `i`.
pub open spec fn spec_chain_from_kuid(spaces: Seq<UserNamespace>, i: int, kuid: u32) -> Option<
    u32,
>
    decreases i,
{
    if !(0 <= i < spaces.len()) {
        None
    } else {
        match spaces[i].parent {
            None => spec_map_up(spaces[i].uid_map.extents@, kuid),
            Some(p) => if (p as int) < i {
                match spec_chain_from_kuid(spaces, p as int, kuid) {
                    None => None,
                    Some(v) => spec_map_up(spaces[i].uid_map.extents@, v),
                }
            } else {
                None
            },
        }
    }
}

/// The kernel-visible GID a namespace GID chains down to.
pub open spec fn spec_chain_to_kgid(spaces: Seq<UserNamespace>, i: int, gid: u32) -> Option<u32>
    decreases i,
{
    if !(0 <= i < spaces.len()) {
        None
    } else {
        match spec_map_down(spaces[i].gid_map.extents@, gid) {
            None => None,
            Some(v) => match spaces[i].parent {
                Some(p) => if (p as int) < i {
                    spec_chain_to_kgid(spaces, p as int, v)
                } else {
                    None
                },
                None => Some(v),
            },
        }
    }
}

/// The namespace GID a kernel-visible GID chains up to.
pub open spec fn spec_chain_from_kgid(spaces: Seq<UserNamespace>, i: int, kgid: u32) -> Option<
    u32,
>
    decreases i,
{
    if !(0 <= i < spaces.len()) {
        None
    } else {
        match spaces[i].parent {
            None => spec_map_up(spaces[i].gid_map.extents@, kgid),
            Some(p) => if (p as int) < i {
                match spec_chain_from_kgid(spaces, p as int, kgid) {
                    None => None,
                    Some(v) => spec_map_up(spaces[i].gid_map.extents@, v),
                }
            } else {
                None
            },
        }
    }
}

/// Chain a UID of namespace `ns` down through every ancestor to the
/// kernel-visible UID; `None` as soon as a level leaves it unmapped.
pub fn to_kuid_ns(table: &UserNsTable, ns: usize, uid: u32) -> (r: Option<u32>)
    requires
        spec_user_table_wf(*table),
        ns < table.spaces@.len(),
    ensures
        r == spec_chain_to_kuid(table.spaces@, ns as int, uid),
{
    let mut cur: usize = ns;
    let mut val: u32 = uid;
    loop
        invariant
            spec_user_table_wf(*table),
            cur < table.spaces@.len(),
            spec_chain_to_kuid(table.spaces@, ns as int, uid) == spec_chain_to_kuid(
                table.spaces@,
                cur as int,
                val,
            ),
        decreases cur,
    {
        match table.spaces[cur].to_kuid(val) {
            None => {
                return None;
            },
            Some(v) => {
                match table.spaces[cur].parent {
                    Some(p) => {
                        cur = p;
                        val = v;
                    },
                    None => {
                        return Some(v);
                    },
                }
            },
        }
    }
}

/// Chain a kernel-visible UID up from the root to its UID in namespace
/// `ns`; `None` as soon as a level leaves it unmapped.
pub fn from_kuid_ns(table: &UserNsTable, ns: usize, kuid: u32) -> (r: Option<u32>)
    requires
        spec_user_table_wf(*table),
        ns < table.spaces@.len(),
    ensures
        r == spec_chain_from_kuid(table.spaces@, ns as int, kuid),
    decreases ns,
{
    match table.spaces[ns].parent {
        None => table.spaces[ns].from_kuid(kuid),
        Some(p) => {
            match from_kuid_ns(table, p, kuid) {
                None => None,
                Some(v) => table.spaces[ns].from_kuid(v),
            }
        },
    }
}

/// Chain a GID of namespace `ns` down to the kernel-visible GID.
pub fn to_kgid_ns(table: &UserNsTable, ns: usize, gid: u32) -> (r: Option<u32>)
    requires
        spec_user_table_wf(*table),
        ns < table.spaces@.len(),
    ensures
        r == spec_chain_to_kgid(table.spaces@, ns as int, gid),
{
    let mut cur: usize = ns;
    let mut val: u32 = gid;
    loop
        invariant
            spec_user_table_wf(*table),
            cur < table.spaces@.len(),
            spec_chain_to_kgid(table.spaces@, ns as int, gid) == spec_chain_to_kgid(
                table.spaces@,
                cur as int,
                val,
            ),
        decreases cur,
    {
        match table.spaces[cur].to_kgid(val) {
            None => {
                return None;
            },
            Some(v) => {
                match table.spaces[cur].parent {
                    Some(p) => {
                        cur = p;
                        val = v;
                    },
                    None => {
                        return Some(v);
                    },
                }
            },
        }
    }
}

/// Chain a kernel-visible GID up from the root to namespace `ns`.
pub fn from_kgid_ns(table: &UserNsTable, ns: usize, kgid: u32) -> (r: Option<u32>)
    requires
        spec_user_table_wf(*table),
        ns < table.spaces@.len(),
    ensures
        r == spec_chain_from_kgid(table.spaces@, ns as int, kgid),
    decreases ns,
{
    match table.spaces[ns].parent {
        None => table.spaces[ns].from_kgid(kgid),
        Some(p) => {
            match from_kgid_ns(table, p, kgid) {
                None => None,
                Some(v) => table.spaces[ns].from_kgid(v),
            }
        },
    }
}

/// Create the table holding only the root namespace, with identity UID and
/// GID maps owned by root.
pub fn new_init_user_ns() -> (r: UserNsTable)
    ensures
        spec_user_table_wf(r),
        r.spaces@.len() == 1,
        r.spaces@[0].uid_map.extents@ == spec_identity_extents(),
        r.spaces@[0].gid_map.extents@ == spec_identity_extents(),
        forall|id: u32| #[trigger]
            spec_map_down(r.spaces@[0].uid_map.extents@, id) == Some(id),
        forall|id: u32| #[trigger] spec_map_up(r.spaces@[0].uid_map.extents@, id) == Some(id),
        forall|id: u32| #[trigger]
            spec_map_down(r.spaces@[0].gid_map.extents@, id) == Some(id),
        forall|id: u32| #[trigger] spec_map_up(r.spaces@[0].gid_map.extents@, id) == Some(id),
        r.spaces@[0].owner == 0,
        r.spaces@[0].group == 0,
{
    let root = UserNamespace {
        uid_map: UidGidMap::new_identity(),
        gid_map: UidGidMap::new_identity(),
        level: 0,
        parent: None,
        owner: 0,
        group: 0,
    };
    let mut spaces: Vec<UserNamespace> = Vec::new();
    spaces.push(root);
    UserNsTable { spaces }
}

/// Create a child namespace of `parent`, owned by the creator's credentials
/// in the parent namespace. Fails with EAGAIN (11) exactly when the
/// maximum nesting level is reached. Returns the new namespace's index.
pub fn clone_user_ns(table: &mut UserNsTable, parent: usize, owner: u32, group: u32) -> (r: Result<
    usize,
    i32,
>)
    requires
        spec_user_table_wf(*old(table)),
        parent < old(table).spaces@.len(),
    ensures
        spec_user_table_wf(*final(table)),
        r is Ok <==> old(table).spaces@[parent as int].level < MAX_USER_NS_LEVEL,
        r is Err ==> *final(table) == *old(table) && r->Err_0 == 11,
        r is Ok ==> {
            &&& r->Ok_0 == old(table).spaces@.len()
            &&& final(table).spaces@.len() == old(table).spaces@.len() + 1
            &&& final(table).spaces@.subrange(0, old(table).spaces@.len() as int) == old(
                table,
            ).spaces@
            &&& final(table).spaces@.last().uid_map.extents@.len() == 0
            &&& final(table).spaces@.last().gid_map.extents@.len() == 0
            &&& final(table).spaces@.last().level == old(table).spaces@[parent as int].level + 1
            &&& final(table).spaces@.last().parent == Some(parent)
            &&& final(table).spaces@.last().owner == owner
            &&& final(table).spaces@.last().group == group
        },
{
    let level = table.spaces[parent].level;
    if level >= MAX_USER_NS_LEVEL {
        return Err(11);
    }
    let ns = UserNamespace {
        uid_map: UidGidMap::new(),
        gid_map: UidGidMap::new(),
        level: level + 1,
        parent: Some(parent),
        owner,
        group,
    };
    let idx = table.spaces.len();
    table.spaces.push(ns);
    Ok(idx)
}

/// Whether namespace `a` is an ancestor of namespace `b`: `a` appears on
/// the parent chain of `b`, with `b` itself excluded.
pub open spec fn spec_user_is_ancestor(spaces: Seq<UserNamespace>, a: int, b: int) -> bool
    decreases b,
{
    if !(0 <= b < spaces.len()) {
        false
    } else {
        match spaces[b].parent {
            Some(p) => if (p as int) < b {
                p as int == a || spec_user_is_ancestor(spaces, a, p as int)
            } else {
                false
            },
            None => false,
        }
    }
}

/// Walk the parent chain of `b`, comparing each ancestor to `a` by
/// namespace identity (table index).
pub fn user_is_ancestor_of(table: &UserNsTable, a: usize, b: usize) -> (r: bool)
    requires
        spec_user_table_wf(*table),
        a < table.spaces@.len(),
        b < table.spaces@.len(),
    ensures
        r == spec_user_is_ancestor(table.spaces@, a as int, b as int),
{
    let mut cur: usize = b;
    loop
        invariant
            spec_user_table_wf(*table),
            cur < table.spaces@.len(),
            spec_user_is_ancestor(table.spaces@, a as int, b as int) == spec_user_is_ancestor(
                table.spaces@,
                a as int,
                cur as int,
            ),
        decreases cur,
    {
        match table.spaces[cur].parent {
            Some(p) => {
                if p == a {
                    return true;
                }
                cur = p;
            },
            None => {
                return false;
            },
        }
    }
}

/// Whether a caller may set UID/GID maps for a target namespace: only a
/// task whose effective UID is 0 may.
pub fn can_set_uid_gid_map(euid: u32) -> (r: bool)
    ensures
        r == (euid == 0),
{
    euid == 0
}

} // verus!
