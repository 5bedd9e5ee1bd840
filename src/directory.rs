use vstd::prelude::*;

use std::collections::HashMap;

use crate::handle::WindowHandle;
use crate::title::{parse_slot_title, slot_of_title};

verus! {

broadcast use vstd::std_specs::hash::group_hash_axioms;

/// What the windowing system reports of a registered handle at scan time: whether it is still
/// a live window, and its current title.
#[derive(Clone, Debug)]
pub struct HandleStatus {
    pub handle: WindowHandle,
    pub alive: bool,
    pub title: Vec<u16>,
}

/// The registry shared by the discoverer and the workers: the set of registered window
/// handles, and the association of slots with handles.
pub struct Directory {
    handles: HandleList,
    slots: HashMap<usize, WindowHandle>,
}

/// The positive slots below `m`.
pub open spec fn slots_below(m: int) -> Set<usize> {
    Set::new(|k: usize| 1 <= k < m)
}

/// `r` is the smallest positive integer that `used` lacks.
pub open spec fn is_lowest_free(used: Set<usize>, r: usize) -> bool {
    &&& r >= 1
    &&& !used.contains(r)
    &&& forall|k: usize| 1 <= k < r ==> #[trigger] used.contains(k)
}

/// A status reports a live registered window whose title names `slot`.
pub open spec fn names_slot(st: HandleStatus, registered: Set<WindowHandle>, slot: usize) -> bool {
    st.alive && registered.contains(st.handle) && slot_of_title(st.title@) == Some(slot)
}

/// The slots that the live registered windows of a scan hold by their titles.
pub open spec fn used_slots(statuses: Seq<HandleStatus>, registered: Set<WindowHandle>) -> Set<
    usize,
> {
    Set::new(
        |slot: usize|
            exists|i: int| 0 <= i < statuses.len() && names_slot(#[trigger] statuses[i], registered, slot),
    )
}

/// The handles that a scan reports dead.
pub open spec fn dead_handles(statuses: Seq<HandleStatus>) -> Set<WindowHandle> {
    Set::new(
        |h: WindowHandle|
            exists|i: int| 0 <= i < statuses.len() && !(#[trigger] statuses[i]).alive && statuses[i].handle == h,
    )
}

proof fn lemma_slots_below_len(m: int)
    requires
        1 <= m <= usize::MAX + 1,
    ensures
        slots_below(m).finite(),
        slots_below(m).len() == m - 1,
    decreases m,
{
    if m == 1 {
        assert(slots_below(m) =~= Set::empty());
    } else {
        lemma_slots_below_len(m - 1);
        assert(slots_below(m) =~= slots_below(m - 1).insert((m - 1) as usize));
    }
}

proof fn lemma_dead_handles_push(s: Seq<HandleStatus>, x: HandleStatus)
    ensures
        dead_handles(s.push(x)) == if !x.alive {
            dead_handles(s).insert(x.handle)
        } else {
            dead_handles(s)
        },
{
    let t = s.push(x);
    assert forall|j: int| 0 <= j < s.len() implies t[j] == s[j] by {}
    assert(t[s.len() as int] == x);
    let expected = if !x.alive {
        dead_handles(s).insert(x.handle)
    } else {
        dead_handles(s)
    };
    assert forall|h: WindowHandle| dead_handles(t).contains(h) <==> expected.contains(h) by {
        if dead_handles(s).contains(h) {
            let j = choose|j: int| 0 <= j < s.len() && !(#[trigger] s[j]).alive && s[j].handle == h;
            assert(!t[j].alive && t[j].handle == h);
        }
    }
    assert(dead_handles(t) =~= expected);
}

proof fn lemma_used_slots_push(s: Seq<HandleStatus>, registered: Set<WindowHandle>, x: HandleStatus)
    ensures
        used_slots(s.push(x), registered) == match slot_of_title(x.title@) {
            Some(k) => if x.alive && registered.contains(x.handle) {
                used_slots(s, registered).insert(k)
            } else {
                used_slots(s, registered)
            },
            None => used_slots(s, registered),
        },
{
    let t = s.push(x);
    assert forall|j: int| 0 <= j < s.len() implies t[j] == s[j] by {}
    assert(t[s.len() as int] == x);
    let expected = match slot_of_title(x.title@) {
        Some(k) => if x.alive && registered.contains(x.handle) {
            used_slots(s, registered).insert(k)
        } else {
            used_slots(s, registered)
        },
        None => used_slots(s, registered),
    };
    assert forall|k: usize| used_slots(t, registered).contains(k) <==> expected.contains(k) by {
        if used_slots(s, registered).contains(k) {
            let j = choose|j: int| 0 <= j < s.len() && names_slot(#[trigger] s[j], registered, k);
            assert(names_slot(t[j], registered, k));
        }
        if used_slots(t, registered).contains(k) {
            let j = choose|j: int| 0 <= j < t.len() && names_slot(#[trigger] t[j], registered, k);
            if j < s.len() {
                assert(names_slot(s[j], registered, k));
            }
        }
    }
    assert(used_slots(t, registered) =~= expected);
}

/// Whether `v` holds `x`.
fn holds_slot(v: &Vec<usize>, x: usize) -> (r: bool)
    ensures
        r == v@.contains(x),
{
    let mut i: usize = 0;
    while i < v.len()
        invariant
            i <= v@.len(),
            forall|j: int| 0 <= j < i ==> v@[j] != x,
        decreases v@.len() - i,
    {
        if v[i] == x {
            return true;
        }
        i = i + 1;
    }
    false
}

/// Whether `v` holds `h`.
fn holds_handle(v: &Vec<WindowHandle>, h: WindowHandle) -> (r: bool)
    ensures
        r == v@.contains(h),
{
    let mut i: usize = 0;
    while i < v.len()
        invariant
            i <= v@.len(),
            forall|j: int| 0 <= j < i ==> v@[j] != h,
        decreases v@.len() - i,
    {
        if v[i] == h {
            return true;
        }
        i = i + 1;
    }
    false
}

/// The handles of `v` that `drop` does not hold.
pub(crate) fn without(v: &Vec<WindowHandle>, drop: &Vec<WindowHandle>) -> (r: Vec<WindowHandle>)
    ensures
        r@.to_set() == v@.to_set().difference(drop@.to_set()),
        v@.no_duplicates() ==> r@.no_duplicates(),
{
    let mut out: Vec<WindowHandle> = Vec::new();
    let mut i: usize = 0;
    assert(out@.to_set() =~= v@.take(0).to_set().difference(drop@.to_set()));
    while i < v.len()
        invariant
            i <= v@.len(),
            out@.to_set() == v@.take(i as int).to_set().difference(drop@.to_set()),
            v@.no_duplicates() ==> out@.no_duplicates(),
        decreases v@.len() - i,
    {
        let h = v[i];
        proof {
            if v@.no_duplicates() && v@.take(i as int).contains(h) {
                let j = choose|j: int| 0 <= j < i && v@.take(i as int)[j] == h;
                assert(v@[j] == v@[i as int]);
            }
        }
        let ghost before = out@;
        assert(v@.take(i + 1) =~= v@.take(i as int).push(h));
        proof {
            v@.take(i as int).lemma_push_to_set_commute(h);
        }
        if !holds_handle(drop, h) {
            out.push(h);
            proof {
                before.lemma_push_to_set_commute(h);
                if v@.no_duplicates() {
                    assert(!before.to_set().contains(h));
                    assert forall|a: int, b: int|
                        0 <= a < out@.len() && 0 <= b < out@.len() && a != b implies out@[a]
                        != out@[b] by {
                        if a < before.len() && b < before.len() {
                            assert(out@[a] == before[a] && out@[b] == before[b]);
                        } else if a < before.len() {
                            assert(before.contains(out@[a]));
                        } else if b < before.len() {
                            assert(before.contains(out@[b]));
                        }
                    }
                }
            }
            assert(out@.to_set() =~= v@.take(i + 1).to_set().difference(drop@.to_set()));
        } else {
            assert(out@.to_set() =~= v@.take(i + 1).to_set().difference(drop@.to_set()));
        }
        i = i + 1;
    }
    assert(v@.take(v@.len() as int) =~= v@);
    out
}

/// The smallest positive integer that `used` lacks.
pub fn lowest_free(used: &Vec<usize>) -> (r: usize)
    requires
        used@.len() < usize::MAX,
    ensures
        is_lowest_free(used@.to_set(), r),
        r <= used@.len() + 1,
{
    let mut c: usize = 1;
    while holds_slot(used, c)
        invariant
            1 <= c <= used@.len() + 1,
            used@.len() < usize::MAX,
            forall|k: usize| 1 <= k < c ==> #[trigger] used@.to_set().contains(k),
        decreases used@.len() + 1 - c,
    {
        proof {
            lemma_slots_below_len(c + 1);
            used@.lemma_cardinality_of_set();
            assert(used@.to_set().contains(c));
            assert(slots_below(c + 1).subset_of(used@.to_set()));
            vstd::set_lib::lemma_len_subset(slots_below(c + 1), used@.to_set());
        }
        c = c + 1;
    }
    c
}

/// A list of window handles that holds each at most once.
struct HandleList {
    items: Vec<WindowHandle>,
}

impl HandleList {
    #[verifier::type_invariant]
    spec fn distinct(&self) -> bool {
        self.items@.no_duplicates()
    }

    closed spec fn set(&self) -> Set<WindowHandle> {
        self.items@.to_set()
    }

    fn new() -> (r: HandleList)
        ensures
            r.set() == Set::<WindowHandle>::empty(),
    {
        let r = HandleList { items: Vec::new() };
        assert(r.set() =~= Set::<WindowHandle>::empty());
        r
    }

    fn contains(&self, h: WindowHandle) -> (r: bool)
        ensures
            r == self.set().contains(h),
    {
        holds_handle(&self.items, h)
    }

    fn insert(&mut self, h: WindowHandle) -> (added: bool)
        ensures
            added == !old(self).set().contains(h),
            final(self).set() == old(self).set().insert(h),
    {
        if holds_handle(&self.items, h) {
            assert(self.set() =~= self.set().insert(h));
            return false;
        }
        proof {
            use_type_invariant(&*self);
        }
        let ghost before = self.items@;
        let mut items = self.items.clone();
        assert(items@ =~= before);
        items.push(h);
        proof {
            before.lemma_push_to_set_commute(h);
            assert forall|a: int, b: int|
                0 <= a < items@.len() && 0 <= b < items@.len() && a != b implies items@[a]
                != items@[b] by {
                if a < before.len() && b < before.len() {
                    assert(items@[a] == before[a] && items@[b] == before[b]);
                } else if a < before.len() {
                    assert(before.contains(items@[a]));
                } else if b < before.len() {
                    assert(before.contains(items@[b]));
                }
            }
        }
        self.items = items;
        true
    }

    fn remove_all(&mut self, drop: &Vec<WindowHandle>)
        ensures
            final(self).set() == old(self).set().difference(drop@.to_set()),
    {
        proof {
            use_type_invariant(&*self);
        }
        self.items = without(&self.items, drop);
    }

    fn to_vec(&self) -> (r: Vec<WindowHandle>)
        ensures
            r@.to_set() == self.set(),
            r@.no_duplicates(),
    {
        proof {
            use_type_invariant(&*self);
        }
        let r = self.items.clone();
        assert(r@ =~= self.items@);
        r
    }
}

impl Directory {
    /// The handles that are registered.
    pub closed spec fn registered(&self) -> Set<WindowHandle> {
        self.handles.set()
    }

    /// The association of slots with handles.
    pub closed spec fn slot_map(&self) -> Map<usize, WindowHandle> {
        self.slots@
    }

    /// An empty directory.
    pub fn new() -> (r: Directory)
        ensures
            r.registered() == Set::<WindowHandle>::empty(),
            r.slot_map() == Map::<usize, WindowHandle>::empty(),
    {
        Directory { handles: HandleList::new(), slots: HashMap::new() }
    }

    /// Whether `h` is registered.
    pub fn is_registered(&self, h: WindowHandle) -> (r: bool)
        ensures
            r == self.registered().contains(h),
    {
        self.handles.contains(h)
    }

    /// Registers `h` unless it is registered already; tells whether it was added.
    pub fn try_register(&mut self, h: WindowHandle) -> (added: bool)
        ensures
            added == !old(self).registered().contains(h),
            final(self).registered() == old(self).registered().insert(h),
            final(self).slot_map() == old(self).slot_map(),
    {
        self.handles.insert(h)
    }

    /// Removes `h` from the registered handles.
    pub fn unregister(&mut self, h: WindowHandle)
        ensures
            final(self).registered() == old(self).registered().remove(h),
            final(self).slot_map() == old(self).slot_map(),
    {
        let drop = vec![h];
        assert(drop@.to_set() =~= set![h]);
        self.handles.remove_all(&drop);
        assert(old(self).registered().difference(set![h]) =~= old(self).registered().remove(h));
    }

    /// The registered handles, each once, in no particular order.
    pub fn handles(&self) -> (r: Vec<WindowHandle>)
        ensures
            r@.to_set() == self.registered(),
            r@.no_duplicates(),
    {
        self.handles.to_vec()
    }

    /// Associates `slot` with `h`, replacing any earlier association of the slot.
    pub fn bind_slot(&mut self, slot: usize, h: WindowHandle)
        ensures
            final(self).slot_map() == old(self).slot_map().insert(slot, h),
            final(self).registered() == old(self).registered(),
    {
        self.slots.insert(slot, h);
    }

    /// The handle associated with `slot`, if any.
    pub fn lookup_slot(&self, slot: usize) -> (r: Option<WindowHandle>)
        ensures
            r == if self.slot_map().contains_key(slot) {
                Some(self.slot_map()[slot])
            } else {
                None
            },
    {
        match self.slots.get(&slot) {
            Some(h) => Some(*h),
            None => None,
        }
    }

    /// Drops any association of `slot`.
    pub fn release_slot(&mut self, slot: usize)
        ensures
            final(self).slot_map() == old(self).slot_map().remove(slot),
            final(self).registered() == old(self).registered(),
    {
        self.slots.remove(&slot);
    }

    /// What a worker does when its window is gone: the handle leaves the directory, and so does
    /// the worker's slot if it is still associated with that handle.
    pub fn release_window(&mut self, h: WindowHandle, slot: Option<usize>)
        ensures
            final(self).registered() == old(self).registered().remove(h),
            final(self).slot_map() == match slot {
                Some(s) => if old(self).slot_map().contains_key(s) && old(self).slot_map()[s]
                    == h {
                    old(self).slot_map().remove(s)
                } else {
                    old(self).slot_map()
                },
                None => old(self).slot_map(),
            },
    {
        self.unregister(h);
        if let Some(s) = slot {
            if let Some(bound) = self.lookup_slot(s) {
                if bound == h {
                    self.release_slot(s);
                }
            }
        }
    }

    /// The window to exchange geometry with when the window in `own_slot` asks to swap with
    /// `target`: the one associated with `target`, provided the asking window holds a slot
    /// and `target` differs from it.
    pub fn swap_partner(&self, own_slot: Option<usize>, target: u8) -> (r: Option<WindowHandle>)
        ensures
            r == match own_slot {
                Some(own) => if own != target as usize && self.slot_map().contains_key(
                    target as usize,
                ) {
                    Some(self.slot_map()[target as usize])
                } else {
                    None
                },
                None => None,
            },
    {
        match own_slot {
            Some(own) => if own != target as usize {
                self.lookup_slot(target as usize)
            } else {
                None
            },
            None => None,
        }
    }

    /// Scans the registered windows as `statuses` reports them: the dead ones leave the
    /// directory, and the result is the smallest positive slot that no live registered window
    /// names in its title.
    pub fn lowest_free_slot(&mut self, statuses: &Vec<HandleStatus>) -> (r: usize)
        requires
            statuses@.len() < usize::MAX,
        ensures
            is_lowest_free(used_slots(statuses@, old(self).registered()), r),
            final(self).registered() == old(self).registered().difference(
                dead_handles(statuses@),
            ),
            final(self).slot_map() == old(self).slot_map(),
    {
        let ghost registered = self.registered();
        let mut dead: Vec<WindowHandle> = Vec::new();
        let mut used: Vec<usize> = Vec::new();
        let mut i: usize = 0;
        assert(dead@.to_set() =~= dead_handles(statuses@.take(0)));
        assert(used@.to_set() =~= used_slots(statuses@.take(0), registered));
        while i < statuses.len()
            invariant
                i <= statuses@.len(),
                statuses@.len() < usize::MAX,
                used@.len() <= i,
                registered == self.registered(),
                dead@.to_set() == dead_handles(statuses@.take(i as int)),
                used@.to_set() == used_slots(statuses@.take(i as int), registered),
            decreases statuses@.len() - i,
        {
            let st = &statuses[i];
            let ghost dead_before = dead@;
            let ghost used_before = used@;
            assert(statuses@.take(i + 1) =~= statuses@.take(i as int).push(*st));
            proof {
                lemma_dead_handles_push(statuses@.take(i as int), *st);
                lemma_used_slots_push(statuses@.take(i as int), registered, *st);
                dead_before.lemma_push_to_set_commute(st.handle);
            }
            if !st.alive {
                dead.push(st.handle);
            } else if self.is_registered(st.handle) {
                if let Some(s) = parse_slot_title(&st.title) {
                    used.push(s);
                    proof {
                        used_before.lemma_push_to_set_commute(s);
                    }
                }
            }
            i = i + 1;
        }
        assert(statuses@.take(statuses@.len() as int) =~= statuses@);
        if dead.len() > 0 {
            self.handles.remove_all(&dead);
        }
        assert(self.registered() =~= registered.difference(dead_handles(statuses@)));
        lowest_free(&used)
    }
}

/// A scan that reports a registered window dead leaves it out of the directory, and a slot
/// that only dead windows name in their titles counts as free.
pub proof fn lemma_scan_prunes_dead(
    registered: Set<WindowHandle>,
    statuses: Seq<HandleStatus>,
    i: int,
    slot: usize,
)
    requires
        0 <= i < statuses.len(),
        !statuses[i].alive,
        forall|j: int|
            0 <= j < statuses.len() && slot_of_title((#[trigger] statuses[j]).title@) == Some(slot)
                ==> !statuses[j].alive,
    ensures
        !registered.difference(dead_handles(statuses)).contains(statuses[i].handle),
        !used_slots(statuses, registered).contains(slot),
{
    assert(dead_handles(statuses).contains(statuses[i].handle));
}

} // verus!
