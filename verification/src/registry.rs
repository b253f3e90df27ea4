//! The tab registry: the authoritative mapping from tab id to surface
//! handle, title and presentation order, together with the active
//! selection.
//!
//! The registry is one aggregate; callers reach its state only through the
//! transactional operations here, each of which preserves well-formedness:
//! the key sets of the surface map, the title map and the order sequence
//! always agree, the order has no duplicates, and the active id (when set)
//! is a member of the order.

use vstd::prelude::*;

use crate::errors::TabError;

verus! {

broadcast use vstd::seq_lib::group_seq_properties;

/// Mathematical content of one surface map entry.
pub struct SurfaceInfo {
    pub id: u32,
    pub handle: u32,
    pub locator: Seq<char>,
}

/// Mathematical content of one title map entry.
pub struct TitleInfo {
    pub id: u32,
    pub title: Seq<char>,
}

/// The registry state as mathematics: the three keyed collections and the
/// active selection.
#[verifier::ext_equal]
pub struct RegistryView {
    pub surfaces: Seq<SurfaceInfo>,
    pub titles: Seq<TitleInfo>,
    pub order: Seq<u32>,
    pub active: Option<u32>,
}

impl RegistryView {
    /// The registry with no tabs.
    pub open spec fn empty() -> RegistryView {
        RegistryView {
            surfaces: Seq::empty(),
            titles: Seq::empty(),
            order: Seq::empty(),
            active: None,
        }
    }

    /// The keys of the surface map, in insertion order.
    pub open spec fn surface_ids(self) -> Seq<u32> {
        self.surfaces.map_values(|e: SurfaceInfo| e.id)
    }

    /// The keys of the title map, in insertion order.
    pub open spec fn title_ids(self) -> Seq<u32> {
        self.titles.map_values(|e: TitleInfo| e.id)
    }

    /// Whether a tab with this id is registered.
    pub open spec fn has_id(self, id: u32) -> bool {
        self.surface_ids().contains(id)
    }

    /// The position of a registered id in the surface and title maps.
    pub open spec fn index_of_id(self, id: u32) -> int {
        self.surface_ids().index_of(id)
    }

    /// The title of a registered tab.
    pub open spec fn title_of(self, id: u32) -> Seq<char> {
        self.titles[self.index_of_id(id)].title
    }

    /// The resource locator of a registered tab.
    pub open spec fn locator_of(self, id: u32) -> Seq<char> {
        self.surfaces[self.index_of_id(id)].locator
    }

    /// Well-formedness: the surface and title maps are aligned with equal
    /// distinct key sequences, the order is a duplicate-free sequence over
    /// exactly those keys, and the active id (when set) is one of them.
    /// The active id may be unset while tabs exist only transiently, between
    /// a removal and the reactivation that the lifecycle layer performs.
    pub open spec fn wf(self) -> bool {
        &&& self.titles.len() == self.surfaces.len()
        &&& (forall|i: int|
            0 <= i < self.surfaces.len() ==> (#[trigger] self.titles[i].id) == self.surfaces[i].id)
        &&& self.surface_ids().no_duplicates()
        &&& self.order.no_duplicates()
        &&& self.order.to_set() == self.surface_ids().to_set()
        &&& self.order.len() == self.surfaces.len()
        &&& (match self.active {
            Some(a) => self.order.contains(a),
            None => true,
        })
        &&& (self.order.len() == 0 ==> self.active is None)
    }

    /// The state after inserting a fresh tab: appended to all three
    /// collections, the active selection untouched.
    pub open spec fn inserted(self, id: u32, handle: u32, locator: Seq<char>, title: Seq<char>) -> RegistryView {
        RegistryView {
            surfaces: self.surfaces.push(SurfaceInfo { id, handle, locator }),
            titles: self.titles.push(TitleInfo { id, title }),
            order: self.order.push(id),
            active: self.active,
        }
    }

    /// The state after removing a registered tab: taken out of all three
    /// collections; the active selection is cleared when it was the removed
    /// tab.
    pub open spec fn removed(self, id: u32) -> RegistryView {
        RegistryView {
            surfaces: self.surfaces.remove(self.index_of_id(id)),
            titles: self.titles.remove(self.index_of_id(id)),
            order: self.order.remove(self.order.index_of(id)),
            active: if self.active == Some(id) {
                None
            } else {
                self.active
            },
        }
    }

    /// The state after selecting a registered tab as active.
    pub open spec fn activated(self, id: u32) -> RegistryView {
        RegistryView { active: Some(id), ..self }
    }

    /// The state after overwriting the title of a registered tab.
    pub open spec fn retitled(self, id: u32, title: Seq<char>) -> RegistryView {
        RegistryView {
            titles: self.titles.update(self.index_of_id(id), TitleInfo { id, title }),
            ..self
        }
    }

    /// The state after replacing the presentation order.
    pub open spec fn reordered(self, new_order: Seq<u32>) -> RegistryView {
        RegistryView { order: new_order, ..self }
    }
}

/// Whether `new` is a permutation of `cur` in the sense the reorder
/// operation accepts: same length and same element set.
pub open spec fn is_reorder_of(new: Seq<u32>, cur: Seq<u32>) -> bool {
    new.len() == cur.len() && new.to_set() == cur.to_set()
}

/// A registered id occupies exactly one position in the surface map, so the
/// position found by a scan is the one the specification functions speak of.
pub proof fn lemma_surface_index_unique(v: RegistryView, j: int, id: u32)
    requires
        v.wf(),
        0 <= j < v.surfaces.len(),
        v.surfaces[j].id == id,
    ensures
        v.has_id(id),
        v.index_of_id(id) == j,
{
    assert(v.surface_ids()[j] == id);
    assert(v.has_id(id));
    let i = v.surface_ids().index_of(id);
    assert(0 <= i < v.surface_ids().len() && v.surface_ids()[i] == id);
    if i != j {
        assert(v.surface_ids()[i] == v.surface_ids()[j]);
        assert(false);
    }
}

/// The same for a position in the order sequence.
pub proof fn lemma_order_index_unique(v: RegistryView, k: int, id: u32)
    requires
        v.wf(),
        0 <= k < v.order.len(),
        v.order[k] == id,
    ensures
        v.order.contains(id),
        v.order.index_of(id) == k,
{
    assert(v.order.contains(id));
    let i = v.order.index_of(id);
    assert(0 <= i < v.order.len() && v.order[i] == id);
    if i != k {
        assert(v.order[i] == v.order[k]);
        assert(false);
    }
}

/// Removing one position from a duplicate-free sequence removes exactly
/// that element from its set and keeps the rest duplicate-free.
pub proof fn lemma_remove_keeps_distinct(s: Seq<u32>, k: int)
    requires
        s.no_duplicates(),
        0 <= k < s.len(),
    ensures
        s.remove(k).no_duplicates(),
        s.remove(k).to_set() =~= s.to_set().remove(s[k]),
{
    s.remove_ensures(k);
    let r = s.remove(k);
    assert forall|i: int, j: int| 0 <= i < j < r.len() implies r[i] != r[j] by {
        let oi: int = if i < k { i } else { i + 1 };
        let oj: int = if j < k { j } else { j + 1 };
        assert(r[i] == s[oi]);
        assert(r[j] == s[oj]);
    }
    assert forall|x: u32| r.to_set().contains(x) implies s.to_set().remove(s[k]).contains(x) by {
        let i = choose|i: int| 0 <= i < r.len() && r[i] == x;
        let oi: int = if i < k { i } else { i + 1 };
        assert(s[oi] == x);
        assert(s.contains(x));
        assert(oi != k);
        assert(x != s[k]);
    }
    assert forall|x: u32| s.to_set().remove(s[k]).contains(x) implies r.to_set().contains(x) by {
        assert(s.contains(x));
        let i = choose|i: int| 0 <= i < s.len() && s[i] == x;
        assert(i != k);
        if i < k {
            assert(r[i] == x);
        } else {
            assert(r[i - 1] == x);
        }
        assert(r.contains(x));
    }
}

/// One entry of the executable surface map.
struct SurfaceEntry {
    id: u32,
    handle: u32,
    locator: String,
}

/// One entry of the executable title map.
struct TitleEntry {
    id: u32,
    title: String,
}

/// The tab registry. State is reachable only through the operations below,
/// each of which preserves well-formedness of the view.
pub struct TabRegistry {
    surfaces: Vec<SurfaceEntry>,
    titles: Vec<TitleEntry>,
    order: Vec<u32>,
    active: Option<u32>,
}

impl View for TabRegistry {
    type V = RegistryView;

    closed spec fn view(&self) -> RegistryView {
        RegistryView {
            surfaces: self.surfaces@.map_values(
                |e: SurfaceEntry| SurfaceInfo { id: e.id, handle: e.handle, locator: e.locator@ },
            ),
            titles: self.titles@.map_values(|e: TitleEntry| TitleInfo { id: e.id, title: e.title@ }),
            order: self.order@,
            active: self.active,
        }
    }
}

impl TabRegistry {
    /// A registry with no tabs.
    pub fn new() -> (r: TabRegistry)
        ensures
            r@ == RegistryView::empty(),
            r@.wf(),
    {
        let r = TabRegistry { surfaces: Vec::new(), titles: Vec::new(), order: Vec::new(), active: None };
        proof {
            assert(r@ =~= RegistryView::empty());
            assert(r@.surface_ids() =~= Seq::<u32>::empty());
            assert(r@.title_ids() =~= Seq::<u32>::empty());
            assert(r@.order.to_set() =~= r@.surface_ids().to_set());
        }
        r
    }

    /// The number of registered tabs.
    pub fn count(&self) -> (n: usize)
        ensures
            n == self@.surfaces.len(),
    {
        self.surfaces.len()
    }

    /// The active tab id, if any.
    pub fn active(&self) -> (a: Option<u32>)
        ensures
            a == self@.active,
    {
        self.active
    }

    /// Whether a tab with this id is registered.
    pub fn contains_id(&self, id: u32) -> (b: bool)
        ensures
            b == self@.has_id(id),
    {
        match self.find_index(id) {
            Some(j) => {
                proof {
                    assert(self@.surface_ids()[j as int] == id);
                    assert(self@.has_id(id));
                }
                true
            }
            None => false,
        }
    }

    /// A copy of the presentation order.
    pub fn order_ids(&self) -> (r: Vec<u32>)
        ensures
            r@ == self@.order,
    {
        let mut r: Vec<u32> = Vec::new();
        let mut i: usize = 0;
        while i < self.order.len()
            invariant
                i <= self.order@.len(),
                r@ == self.order@.take(i as int),
            decreases self.order@.len() - i,
        {
            r.push(self.order[i]);
            proof {
                assert(self.order@.take(i + 1 as int) =~= self.order@.take(i as int).push(
                    self.order@[i as int],
                ));
            }
            i += 1;
        }
        proof {
            assert(self.order@.take(self.order@.len() as int) =~= self.order@);
        }
        r
    }

    /// Scan the surface map for an id.
    fn find_index(&self, id: u32) -> (r: Option<usize>)
        ensures
            match r {
                Some(j) => j < self@.surfaces.len() && self@.surfaces[j as int].id == id,
                None => !self@.has_id(id),
            },
    {
        let mut i: usize = 0;
        while i < self.surfaces.len()
            invariant
                i <= self.surfaces@.len(),
                forall|k: int| 0 <= k < i ==> (#[trigger] self@.surfaces[k].id) != id,
            decreases self.surfaces@.len() - i,
        {
            if self.surfaces[i].id == id {
                return Some(i);
            }
            i += 1;
        }
        proof {
            if self@.has_id(id) {
                let w = choose|w: int|
                    0 <= w < self@.surface_ids().len() && self@.surface_ids()[w] == id;
                assert(self@.surfaces[w].id == id);
            }
        }
        None
    }

    /// Add a fresh tab: appended to the surface map, the title map and the
    /// presentation order; the active selection is untouched. Fails with
    /// `DuplicateId` when the id is already registered, leaving the state
    /// unchanged.
    pub fn insert(&mut self, id: u32, handle: u32, locator: String, title: String) -> (r: Result<
        (),
        TabError,
    >)
        requires
            old(self)@.wf(),
        ensures
            final(self)@.wf(),
            old(self)@.has_id(id) ==> r == Err::<(), TabError>(TabError::DuplicateId)
                && final(self)@ == old(self)@,
            !old(self)@.has_id(id) ==> r == Ok::<(), TabError>(()) && final(self)@ == old(self)@.inserted(id, handle, locator@, title@),
    {
        if self.contains_id(id) {
            return Err(TabError::DuplicateId);
        }
        let ghost pre = self@;
        self.surfaces.push(SurfaceEntry { id, handle, locator });
        self.titles.push(TitleEntry { id, title });
        self.order.push(id);
        proof {
            let post = self@;
            let target = pre.inserted(id, handle, locator@, title@);
            assert(post.surfaces =~= target.surfaces);
            assert(post.titles =~= target.titles);
            assert(post =~= target);
            lemma_inserted_wf(pre, id, handle, locator@, title@);
        }
        Ok(())
    }

    /// Scan the presentation order for an id.
    fn find_order_index(&self, id: u32) -> (r: Option<usize>)
        ensures
            match r {
                Some(k) => k < self@.order.len() && self@.order[k as int] == id,
                None => !self@.order.contains(id),
            },
    {
        let mut i: usize = 0;
        while i < self.order.len()
            invariant
                i <= self.order@.len(),
                forall|k: int| 0 <= k < i ==> (#[trigger] self.order@[k]) != id,
            decreases self.order@.len() - i,
        {
            if self.order[i] == id {
                return Some(i);
            }
            i += 1;
        }
        None
    }

    /// Remove a registered tab from all three collections; the active
    /// selection is cleared when it was the removed tab. Returns whether the
    /// removed tab was active, and the remaining presentation order. Fails
    /// with `NotFound` when the id is not registered, leaving the state
    /// unchanged.
    pub fn remove(&mut self, id: u32) -> (r: Result<(bool, Vec<u32>), TabError>)
        requires
            old(self)@.wf(),
        ensures
            final(self)@.wf(),
            !old(self)@.has_id(id) ==> r == Err::<(bool, Vec<u32>), TabError>(TabError::NotFound)
                && final(self)@ == old(self)@,
            old(self)@.has_id(id) ==> (r matches Ok(p) && p.0 == (old(self)@.active == Some(id))
                && p.1@ == final(self)@.order && final(self)@ == old(self)@.removed(id)),
    {
        let j = match self.find_index(id) {
            Some(j) => j,
            None => {
                return Err(TabError::NotFound);
            }
        };
        let ghost pre = self@;
        proof {
            lemma_surface_index_unique(pre, j as int, id);
            assert(pre.order.to_set().contains(id));
            assert(pre.order.contains(id));
        }
        let k = match self.find_order_index(id) {
            Some(k) => k,
            None => {
                proof {
                    assert(false);
                }
                unreached()
            }
        };
        proof {
            lemma_order_index_unique(pre, k as int, id);
            assert(self.titles@.len() == self.surfaces@.len());
        }
        let was_active = match self.active {
            Some(a) => a == id,
            None => false,
        };
        self.surfaces.remove(j);
        self.titles.remove(j);
        self.order.remove(k);
        if was_active {
            self.active = None;
        }
        proof {
            let post = self@;
            let target = pre.removed(id);
            pre.surfaces.remove_ensures(j as int);
            pre.titles.remove_ensures(j as int);
            assert(post.surfaces =~= target.surfaces);
            assert(post.titles =~= target.titles);
            assert(post =~= target);
            lemma_removed_wf(pre, id);
        }
        let remaining = self.order_ids();
        Ok((was_active, remaining))
    }

    /// Select a registered tab as the active one. Fails with `NotFound` when
    /// the id is not registered, leaving the state unchanged.
    pub fn set_active(&mut self, id: u32) -> (r: Result<(), TabError>)
        requires
            old(self)@.wf(),
        ensures
            final(self)@.wf(),
            !old(self)@.has_id(id) ==> r == Err::<(), TabError>(TabError::NotFound) && final(self)@ == old(self)@,
            old(self)@.has_id(id) ==> r == Ok::<(), TabError>(()) && final(self)@ == old(self)@.activated(id),
    {
        if !self.contains_id(id) {
            return Err(TabError::NotFound);
        }
        self.active = Some(id);
        proof {
            let pre = old(self)@;
            assert(self@ =~= pre.activated(id));
            assert(pre.surface_ids().to_set().contains(id));
            assert(pre.order.to_set().contains(id));
            assert(pre.order.contains(id));
        }
        Ok(())
    }

    /// Overwrite the title of a registered tab. Fails with `NotFound` when
    /// the id is not registered, leaving the state unchanged.
    pub fn set_title(&mut self, id: u32, title: String) -> (r: Result<(), TabError>)
        requires
            old(self)@.wf(),
        ensures
            final(self)@.wf(),
            !old(self)@.has_id(id) ==> r == Err::<(), TabError>(TabError::NotFound) && final(self)@ == old(self)@,
            old(self)@.has_id(id) ==> r == Ok::<(), TabError>(()) && final(self)@ == old(self)@.retitled(id, title@),
    {
        let j = match self.find_index(id) {
            Some(j) => j,
            None => {
                return Err(TabError::NotFound);
            }
        };
        let ghost pre = self@;
        proof {
            lemma_surface_index_unique(pre, j as int, id);
            assert(self.titles@.len() == self.surfaces@.len());
        }
        self.titles.remove(j);
        self.titles.insert(j, TitleEntry { id, title });
        proof {
            let post = self@;
            let target = pre.retitled(id, title@);
            pre.titles.remove_ensures(j as int);
            assert(post.titles =~= target.titles);
            assert(post =~= target);
            assert(target.title_ids() =~= pre.title_ids());
            assert(target.wf());
        }
        Ok(())
    }

    /// Replace the presentation order by a permutation of itself. Fails with
    /// `OrderMismatch` unless the new order has the same length and the same
    /// id set as the current one, leaving the state unchanged.
    pub fn reorder(&mut self, new_order: Vec<u32>) -> (r: Result<(), TabError>)
        requires
            old(self)@.wf(),
        ensures
            final(self)@.wf(),
            is_reorder_of(new_order@, old(self)@.order) ==> r == Ok::<(), TabError>(()) && final(self)@ == old(self)@.reordered(new_order@),
            !is_reorder_of(new_order@, old(self)@.order) ==> r == Err::<(), TabError>(
                TabError::OrderMismatch,
            ) && final(self)@ == old(self)@,
    {
        let ghost pre = self@;
        if new_order.len() != self.order.len() {
            return Err(TabError::OrderMismatch);
        }
        let mut i: usize = 0;
        while i < new_order.len()
            invariant
                i <= new_order@.len(),
                pre == self@,
                pre == old(self)@,
                pre.wf(),
                forall|m: int| 0 <= m < i ==> pre.order.contains(#[trigger] new_order@[m]),
            decreases new_order@.len() - i,
        {
            if !vec_has(&self.order, new_order[i]) {
                proof {
                    assert(new_order@.to_set().contains(new_order@[i as int]));
                    assert(!pre.order.to_set().contains(new_order@[i as int]));
                }
                return Err(TabError::OrderMismatch);
            }
            i += 1;
        }
        let mut i2: usize = 0;
        while i2 < self.order.len()
            invariant
                i2 <= self.order@.len(),
                pre == self@,
                pre == old(self)@,
                pre.wf(),
                forall|m: int| 0 <= m < i2 ==> new_order@.contains(#[trigger] pre.order[m]),
            decreases self.order@.len() - i2,
        {
            if !vec_has(&new_order, self.order[i2]) {
                proof {
                    assert(pre.order.to_set().contains(pre.order[i2 as int]));
                    assert(!new_order@.to_set().contains(pre.order[i2 as int]));
                }
                return Err(TabError::OrderMismatch);
            }
            i2 += 1;
        }
        proof {
            assert forall|x: u32| new_order@.to_set().contains(x) implies pre.order.to_set()
                .contains(x) by {
                let m = choose|m: int| 0 <= m < new_order@.len() && new_order@[m] == x;
                assert(pre.order.contains(new_order@[m]));
            }
            assert forall|x: u32| pre.order.to_set().contains(x) implies new_order@.to_set()
                .contains(x) by {
                let m = choose|m: int| 0 <= m < pre.order.len() && pre.order[m] == x;
                assert(new_order@.contains(pre.order[m]));
            }
            assert(new_order@.to_set() =~= pre.order.to_set());
            assert(is_reorder_of(new_order@, pre.order));
            lemma_reordered_wf(pre, new_order@);
        }
        self.order = new_order;
        proof {
            assert(self@ =~= pre.reordered(new_order@));
        }
        Ok(())
    }

    /// A read-only consistent view for publishing to the chrome surface: the
    /// tabs in presentation order, each with its id, title and locator, and
    /// the active selection.
    pub fn snapshot(&self) -> (s: Snapshot)
        requires
            self@.wf(),
        ensures
            s.active == self@.active,
            s.tabs@.len() == self@.order.len(),
            forall|m: int|
                0 <= m < self@.order.len() ==> (#[trigger] s.tabs@[m]).id == self@.order[m]
                    && s.tabs@[m].title@ == self@.title_of(self@.order[m]) && s.tabs@[m].locator@
                    == self@.locator_of(self@.order[m]),
    {
        let ghost v = self@;
        let mut tabs: Vec<TabInfo> = Vec::new();
        let mut k: usize = 0;
        while k < self.order.len()
            invariant
                v == self@,
                v.wf(),
                k <= v.order.len(),
                tabs@.len() == k,
                forall|m: int|
                    0 <= m < k ==> (#[trigger] tabs@[m]).id == v.order[m] && tabs@[m].title@
                        == v.title_of(v.order[m]) && tabs@[m].locator@ == v.locator_of(v.order[m]),
            decreases v.order.len() - k,
        {
            let id = self.order[k];
            proof {
                assert(v.order.contains(id));
                assert(v.order.to_set().contains(id));
                assert(v.surface_ids().to_set().contains(id));
                assert(v.has_id(id));
            }
            let j = match self.find_index(id) {
                Some(j) => j,
                None => {
                    proof {
                        assert(false);
                    }
                    unreached()
                }
            };
            proof {
                lemma_surface_index_unique(v, j as int, id);
                assert(self.titles@.len() == self.surfaces@.len());
            }
            let title = self.titles[j].title.clone();
            let loc = self.surfaces[j].locator.clone();
            tabs.push(TabInfo { id, title, locator: loc });
            k += 1;
        }
        Snapshot { tabs, active: self.active }
    }
}

/// One published tab: its id, current title and resource locator.
pub struct TabInfo {
    pub id: u32,
    pub title: String,
    pub locator: String,
}

/// The full authoritative description of current tabs and the active
/// selection, emitted after every state-changing operation.
pub struct Snapshot {
    pub tabs: Vec<TabInfo>,
    pub active: Option<u32>,
}

/// Whether a plain vector of ids holds an id.
fn vec_has(v: &Vec<u32>, id: u32) -> (b: bool)
    ensures
        b == v@.contains(id),
{
    let mut i: usize = 0;
    while i < v.len()
        invariant
            i <= v@.len(),
            forall|k: int| 0 <= k < i ==> (#[trigger] v@[k]) != id,
        decreases v@.len() - i,
    {
        if v[i] == id {
            return true;
        }
        i += 1;
    }
    false
}

/// Inserting a fresh id preserves well-formedness.
proof fn lemma_inserted_wf(v: RegistryView, id: u32, handle: u32, locator: Seq<char>, title: Seq<char>)
    requires
        v.wf(),
        !v.has_id(id),
    ensures
        v.inserted(id, handle, locator, title).wf(),
{
    let w = v.inserted(id, handle, locator, title);
    assert(w.surface_ids() =~= v.surface_ids().push(id));
    assert(w.title_ids() =~= v.title_ids().push(id));
    assert(w.surface_ids().no_duplicates()) by {
        assert(forall|i: int|
            0 <= i < v.surface_ids().len() ==> (#[trigger] v.surface_ids()[i]) != id);
    }
    assert(w.order.no_duplicates()) by {
        assert(forall|i: int| 0 <= i < v.order.len() ==> (#[trigger] v.order[i]) != id) by {
            assert forall|i: int| 0 <= i < v.order.len() implies (#[trigger] v.order[i]) != id by {
                if v.order[i] == id {
                    assert(v.order.to_set().contains(id));
                    assert(v.surface_ids().to_set().contains(id));
                    assert(v.surface_ids().contains(id));
                }
            }
        }
    }
    assert(w.order.to_set() =~= w.surface_ids().to_set()) by {
        assert forall|x: u32| w.order.to_set().contains(x) implies w.surface_ids().to_set().contains(
            x,
        ) by {
            if x == id {
                assert(w.surface_ids()[v.surface_ids().len() as int] == id);
                assert(w.surface_ids().contains(x));
            } else {
                let i = choose|i: int| 0 <= i < w.order.len() && w.order[i] == x;
                assert(v.order[i] == x);
                assert(v.order.to_set().contains(x));
                let j = choose|j: int| 0 <= j < v.surface_ids().len() && v.surface_ids()[j] == x;
                assert(w.surface_ids()[j] == x);
                assert(w.surface_ids().contains(x));
            }
        }
        assert forall|x: u32| w.surface_ids().to_set().contains(x) implies w.order.to_set().contains(
            x,
        ) by {
            if x == id {
                assert(w.order[v.order.len() as int] == id);
                assert(w.order.contains(x));
            } else {
                let i = choose|i: int|
                    0 <= i < w.surface_ids().len() && w.surface_ids()[i] == x;
                assert(v.surface_ids()[i] == x);
                assert(v.surface_ids().to_set().contains(x));
                let j = choose|j: int| 0 <= j < v.order.len() && v.order[j] == x;
                assert(w.order[j] == x);
                assert(w.order.contains(x));
            }
        }
    }
    match w.active {
        Some(a) => {
            assert(v.order.contains(a));
            let j = choose|j: int| 0 <= j < v.order.len() && v.order[j] == a;
            assert(w.order[j] == a);
            assert(w.order.contains(a));
        }
        None => {}
    }
}

/// Removing a registered id preserves well-formedness, and changes
/// membership for no other id.
pub proof fn lemma_removed_wf(v: RegistryView, id: u32)
    requires
        v.wf(),
        v.has_id(id),
    ensures
        v.removed(id).wf(),
        !v.removed(id).has_id(id),
        forall|x: u32| x != id ==> (v.removed(id).has_id(x) <==> v.has_id(x)),
{
    let w = v.removed(id);
    let j = v.index_of_id(id);
    assert(0 <= j < v.surface_ids().len() && v.surface_ids()[j] == id);
    assert(v.order.to_set().contains(id));
    assert(v.order.contains(id));
    let k = v.order.index_of(id);
    assert(0 <= k < v.order.len() && v.order[k] == id);
    v.surfaces.remove_ensures(j);
    v.titles.remove_ensures(j);
    v.order.remove_ensures(k);
    assert(w.surface_ids() =~= v.surface_ids().remove(j)) by {
        v.surfaces.remove_ensures(j);
    }
    assert(w.title_ids() =~= v.title_ids().remove(j));
    lemma_remove_keeps_distinct(v.surface_ids(), j);
    lemma_remove_keeps_distinct(v.order, k);
    assert(w.surface_ids().no_duplicates());
    assert(w.order.no_duplicates());
    assert(w.order.to_set() =~= v.order.to_set().remove(id));
    assert(w.surface_ids().to_set() =~= v.surface_ids().to_set().remove(id));
    assert(w.order.to_set() =~= w.surface_ids().to_set());
    assert(forall|i: int|
        0 <= i < w.surfaces.len() ==> (#[trigger] w.titles[i].id) == w.surfaces[i].id);
    assert(!w.surface_ids().to_set().contains(id));
    assert(!w.has_id(id)) by {
        if w.surface_ids().contains(id) {
            assert(w.surface_ids().to_set().contains(id));
        }
    }
    assert forall|x: u32| x != id implies (w.has_id(x) <==> v.has_id(x)) by {
        if w.surface_ids().contains(x) {
            assert(w.surface_ids().to_set().contains(x));
            assert(v.surface_ids().to_set().contains(x));
            assert(v.surface_ids().contains(x));
        }
        if v.surface_ids().contains(x) {
            assert(v.surface_ids().to_set().contains(x));
            assert(w.surface_ids().to_set().contains(x));
            assert(w.surface_ids().contains(x));
        }
    }
    match w.active {
        Some(a) => {
            assert(v.active == Some(a) && a != id);
            assert(v.order.contains(a));
            assert(v.order.to_set().contains(a));
            assert(w.order.to_set().contains(a));
            assert(w.order.contains(a));
        }
        None => {}
    }
    if w.order.len() == 0 {
        assert(v.order.len() == 1);
        assert(v.order[0] == id) by {
            assert(v.order[k] == id);
        }
        match v.active {
            Some(a) => {
                assert(v.order.contains(a));
                let m = choose|m: int| 0 <= m < v.order.len() && v.order[m] == a;
                assert(m == 0);
                assert(a == id);
                assert(w.active is None);
            }
            None => {}
        }
    }
}

/// Replacing the order by a permutation of itself preserves
/// well-formedness.
pub proof fn lemma_reordered_wf(v: RegistryView, s: Seq<u32>)
    requires
        v.wf(),
        is_reorder_of(s, v.order),
    ensures
        v.reordered(s).wf(),
{
    let w = v.reordered(s);
    v.order.unique_seq_to_set();
    assert(s.to_set().len() == s.len());
    s.lemma_no_dup_set_cardinality();
    assert(w.order.no_duplicates());
    assert(w.order.to_set() == w.surface_ids().to_set());
    match w.active {
        Some(a) => {
            assert(v.order.contains(a));
            assert(v.order.to_set().contains(a));
            assert(s.to_set().contains(a));
            assert(s.contains(a));
        }
        None => {}
    }
}

} // verus!
