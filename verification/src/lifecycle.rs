//! The tab lifecycle manager: the user-facing operations.
//!
//! Each operation is one transaction over the registry followed by the side
//! effects it implies, expressed as command values for the embedding host.
//! The host executes the commands and then publishes the snapshot; the
//! snapshot is always read from the state after the mutation, so a stale
//! publication can never show two visible surfaces.

use vstd::prelude::*;

use crate::coordinator::{apply_visibility, compute_resize, resize_commands, visibility_commands, SurfaceCommand};
use crate::errors::TabError;
use crate::geometry::{chrome_strip, content_rect, full_rect, LogicalSize, Rect, CHROME_HEIGHT};
use crate::locator::{locator_is_valid, locator_is_well_formed};
use crate::registry::{is_reorder_of, RegistryView, Snapshot, TabRegistry};

verus! {

/// Manager state as mathematics: the registry plus the monotone id counter.
#[verifier::ext_equal]
pub struct ManagerView {
    pub registry: RegistryView,
    pub next_id: u32,
}

impl ManagerView {
    /// The invariant of every reachable manager state: the registry is
    /// well-formed, a tab is active whenever any tab exists, and every
    /// registered id lies below the counter, so freshly allocated ids are
    /// never in use.
    pub open spec fn inv(self) -> bool {
        &&& self.registry.wf()
        &&& (self.registry.order.len() > 0 ==> self.registry.active is Some)
        &&& (forall|i: int|
            0 <= i < self.registry.surfaces.len() ==> (#[trigger] self.registry.surfaces[i].id)
                < self.next_id)
    }
}

/// The request to create one content surface, handed to the embedding host.
/// The surface must be created hidden; it is revealed by the page-load
/// notification or by a later activation.
#[derive(Debug)]
pub struct CreateRequest {
    /// The handle the host must bind the new surface to; it equals the tab id.
    pub id: u32,
    /// The resource the surface renders.
    pub locator: String,
    /// The content area the surface initially occupies.
    pub rect: Rect,
}

/// The result of opening a tab: the new id, the surface creation request,
/// and the commands to run after the surface exists.
#[derive(Debug)]
pub struct TabCreation {
    pub id: u32,
    pub request: CreateRequest,
    pub commands: Vec<SurfaceCommand>,
}

/// The result of closing a tab: the id that is active afterwards, if any,
/// and the commands to run.
#[derive(Debug)]
pub struct CloseOutcome {
    pub new_active: Option<u32>,
    pub commands: Vec<SurfaceCommand>,
}

/// The commands that follow the creation of a tab's surface: when the tab is
/// the first one, the chrome shrinks from the full window to the strip; then
/// every other surface is hidden and the new one shown, and finally the new
/// surface is hidden again, to stay invisible until its first page load.
pub open spec fn add_tab_commands(
    was_empty: bool,
    window: LogicalSize,
    id: u32,
    order_after: Seq<u32>,
) -> Seq<SurfaceCommand> {
    let prefix: Seq<SurfaceCommand> = if was_empty {
        seq![SurfaceCommand::ResizeChrome { rect: chrome_strip(window) }]
    } else {
        Seq::empty()
    };
    prefix + visibility_commands(Some(id), order_after) + seq![
        SurfaceCommand::HideSurface { id },
    ]
}

/// The commands that follow the removal of a tab: its surface is destroyed;
/// when it was the last tab the chrome grows back to the full window; when
/// it was the active tab the first remaining tab in display order is
/// activated.
pub open spec fn close_tab_commands(
    id: u32,
    was_active: bool,
    remaining: Seq<u32>,
    window: LogicalSize,
) -> Seq<SurfaceCommand> {
    let base = seq![SurfaceCommand::CloseSurface { id }];
    if remaining.len() == 0 {
        base + seq![SurfaceCommand::ResizeChrome { rect: full_rect(window) }]
    } else if was_active {
        base + visibility_commands(Some(remaining[0]), remaining)
    } else {
        base
    }
}

/// The tab lifecycle manager. It owns the registry and the id counter; all
/// state changes go through the operations below, and every operation
/// re-establishes the invariant.
pub struct TabManager {
    registry: TabRegistry,
    next_id: u32,
}

impl View for TabManager {
    type V = ManagerView;

    closed spec fn view(&self) -> ManagerView {
        ManagerView { registry: self.registry@, next_id: self.next_id }
    }
}

impl TabManager {
    /// A manager with no tabs and the counter at zero.
    pub fn new() -> (m: TabManager)
        ensures
            m@.inv(),
            m@.registry == RegistryView::empty(),
            m@.next_id == 0,
    {
        TabManager { registry: TabRegistry::new(), next_id: 0 }
    }

    /// The number of open tabs.
    pub fn count(&self) -> (n: usize)
        ensures
            n == self@.registry.surfaces.len(),
    {
        self.registry.count()
    }

    /// The active tab id, if any.
    pub fn active(&self) -> (a: Option<u32>)
        ensures
            a == self@.registry.active,
    {
        self.registry.active()
    }

    /// A copy of the presentation order.
    pub fn order_ids(&self) -> (r: Vec<u32>)
        ensures
            r@ == self@.registry.order,
    {
        self.registry.order_ids()
    }

    /// The id the next opened tab will get. The counter is monotone and
    /// never reused; opening a tab needs it below `u32::MAX`.
    pub fn next_id(&self) -> (n: u32)
        ensures
            n == self@.next_id,
    {
        self.next_id
    }

    /// Open a tab on a resource: validates the locator, allocates the next
    /// id, registers the tab with an empty title at the end of the order,
    /// and activates it. Returns the surface creation request together with
    /// the follow-up commands. Fails with `InvalidLocator` exactly when the
    /// locator is not a well-formed absolute URL, leaving the state
    /// unchanged.
    pub fn add_tab(&mut self, locator: String, window: LogicalSize) -> (r: Result<
        TabCreation,
        TabError,
    >)
        requires
            old(self)@.inv(),
            old(self)@.next_id < u32::MAX,
        ensures
            final(self)@.inv(),
            !locator_is_well_formed(locator@) ==> (r matches Err(e) && e
                == TabError::InvalidLocator && final(self)@ == old(self)@),
            locator_is_well_formed(locator@) ==> (r matches Ok(c) && {
                let id = old(self)@.next_id;
                &&& c.id == id
                &&& final(self)@.next_id == id + 1
                &&& final(self)@.registry == old(self)@.registry.inserted(
                    id,
                    id,
                    locator@,
                    Seq::<char>::empty(),
                ).activated(id)
                &&& c.request.id == id
                &&& c.request.locator@ == locator@
                &&& c.request.rect == content_rect(window)
                &&& c.commands@ == add_tab_commands(
                    old(self)@.registry.order.len() == 0,
                    window,
                    id,
                    old(self)@.registry.order.push(id),
                )
            }),
    {
        if !locator_is_valid(locator.as_str()) {
            return Err(TabError::InvalidLocator);
        }
        let ghost pre = old(self)@;
        let id = self.next_id;
        self.next_id = id + 1;
        let was_empty = self.registry.count() == 0;
        let content_height: u32 = if window.height >= CHROME_HEIGHT {
            window.height - CHROME_HEIGHT
        } else {
            0
        };
        let request = CreateRequest {
            id,
            locator: locator.clone(),
            rect: Rect { x: 0, y: CHROME_HEIGHT, width: window.width, height: content_height },
        };
        proof {
            if pre.registry.surface_ids().contains(id) {
                let i = choose|i: int|
                    0 <= i < pre.registry.surface_ids().len() && pre.registry.surface_ids()[i]
                        == id;
                assert(pre.registry.surfaces[i].id == id);
                assert(false);
            }
            assert(!pre.registry.has_id(id));
        }
        match self.registry.insert(id, id, locator, String::new()) {
            Ok(_) => {}
            Err(_) => unreached(),
        }
        proof {
            assert(self.registry@.surface_ids() =~= pre.registry.surface_ids().push(id));
            assert(self.registry@.surface_ids()[pre.registry.surface_ids().len() as int] == id);
            assert(self.registry@.has_id(id));
        }
        match self.registry.set_active(id) {
            Ok(_) => {}
            Err(_) => unreached(),
        }
        let order_after = self.registry.order_ids();
        let mut commands: Vec<SurfaceCommand> = Vec::new();
        if was_empty {
            commands.push(
                SurfaceCommand::ResizeChrome {
                    rect: Rect { x: 0, y: 0, width: window.width, height: CHROME_HEIGHT },
                },
            );
        }
        let mut vis = apply_visibility(Some(id), &order_after);
        commands.append(&mut vis);
        commands.push(SurfaceCommand::HideSurface { id });
        proof {
            assert(commands@ =~= add_tab_commands(
                pre.registry.order.len() == 0,
                window,
                id,
                pre.registry.order.push(id),
            ));
            let post = self@;
            assert(post.registry.surfaces =~= pre.registry.surfaces.push(
                crate::registry::SurfaceInfo { id, handle: id, locator: locator@ },
            ));
            assert forall|i: int| 0 <= i < post.registry.surfaces.len() implies (
            #[trigger] post.registry.surfaces[i].id) < post.next_id by {
                if i < pre.registry.surfaces.len() {
                    assert(pre.registry.surfaces[i].id < pre.next_id);
                }
            }
        }
        Ok(TabCreation { id, request, commands })
    }

    /// Make a registered tab the active one; every other surface is hidden
    /// and the target shown. Fails with `NotFound` exactly when the id is
    /// not registered, leaving the state unchanged.
    pub fn set_active_tab(&mut self, id: u32) -> (r: Result<Vec<SurfaceCommand>, TabError>)
        requires
            old(self)@.inv(),
        ensures
            final(self)@.inv(),
            !old(self)@.registry.has_id(id) ==> (r matches Err(e) && e == TabError::NotFound
                && final(self)@ == old(self)@),
            old(self)@.registry.has_id(id) ==> (r matches Ok(cmds) && final(self)@.registry == old(self)@.registry.activated(id) && final(self)@.next_id == old(self)@.next_id && cmds@
                == visibility_commands(Some(id), old(self)@.registry.order)),
    {
        match self.registry.set_active(id) {
            Ok(_) => {}
            Err(_) => {
                return Err(TabError::NotFound);
            }
        }
        let order = self.registry.order_ids();
        let cmds = apply_visibility(Some(id), &order);
        Ok(cmds)
    }

    /// Close a registered tab: it leaves all three collections and its
    /// surface is destroyed. Closing the last tab returns the chrome to the
    /// full window; closing the active tab activates the first remaining tab
    /// in display order. Returns the id that is active afterwards, if any.
    /// Fails with `NotFound` exactly when the id is not registered, leaving
    /// the state unchanged.
    pub fn close_tab(&mut self, id: u32, window: LogicalSize) -> (r: Result<CloseOutcome, TabError>)
        requires
            old(self)@.inv(),
        ensures
            final(self)@.inv(),
            !old(self)@.registry.has_id(id) ==> (r matches Err(e) && e == TabError::NotFound
                && final(self)@ == old(self)@),
            old(self)@.registry.has_id(id) ==> (r matches Ok(out) && {
                let removed = old(self)@.registry.removed(id);
                let was_active = old(self)@.registry.active == Some(id);
                &&& final(self)@.next_id == old(self)@.next_id
                &&& (removed.order.len() == 0 ==> final(self)@.registry == removed)
                &&& (removed.order.len() > 0 && was_active ==> final(self)@.registry
                    == removed.activated(removed.order[0]))
                &&& (removed.order.len() > 0 && !was_active ==> final(self)@.registry == removed)
                &&& out.new_active == final(self)@.registry.active
                &&& out.commands@ == close_tab_commands(id, was_active, removed.order, window)
            }),
    {
        let ghost pre = old(self)@;
        let (was_active, remaining) = match self.registry.remove(id) {
            Ok(p) => p,
            Err(_) => {
                return Err(TabError::NotFound);
            }
        };
        let ghost removed = pre.registry.removed(id);
        let mut commands: Vec<SurfaceCommand> = Vec::new();
        commands.push(SurfaceCommand::CloseSurface { id });
        if remaining.len() == 0 {
            commands.push(
                SurfaceCommand::ResizeChrome {
                    rect: Rect { x: 0, y: 0, width: window.width, height: window.height },
                },
            );
        } else if was_active {
            let new_active = remaining[0];
            proof {
                assert(removed.order.contains(new_active));
                assert(removed.order.to_set().contains(new_active));
                assert(removed.surface_ids().to_set().contains(new_active));
                assert(removed.has_id(new_active));
            }
            match self.registry.set_active(new_active) {
                Ok(_) => {}
                Err(_) => unreached(),
            }
            let mut vis = apply_visibility(Some(new_active), &remaining);
            commands.append(&mut vis);
        }
        let new_active_now = self.registry.active();
        proof {
            assert(commands@ =~= close_tab_commands(id, was_active, removed.order, window));
            let post = self@;
            crate::registry::lemma_removed_wf(pre.registry, id);
            let j = pre.registry.index_of_id(id);
            assert(0 <= j < pre.registry.surface_ids().len() && pre.registry.surface_ids()[j]
                == id);
            pre.registry.surfaces.remove_ensures(j);
            assert forall|i: int| 0 <= i < post.registry.surfaces.len() implies (
            #[trigger] post.registry.surfaces[i].id) < post.next_id by {
                assert(post.registry.surfaces =~= pre.registry.surfaces.remove(j));
                let oi: int = if i < j {
                    i
                } else {
                    i + 1
                };
                assert(post.registry.surfaces[i] == pre.registry.surfaces[oi]);
                assert(pre.registry.surfaces[oi].id < pre.next_id);
            }
            if removed.order.len() > 0 && !was_active {
                assert(pre.registry.order.len() > 0);
                assert(pre.registry.active is Some);
                assert(removed.active == pre.registry.active);
                assert(post.registry.active is Some);
            }
        }
        Ok(CloseOutcome { new_active: new_active_now, commands })
    }

    /// Overwrite the title of a registered tab; nothing else changes. Fails
    /// with `NotFound` exactly when the id is not registered, leaving the
    /// state unchanged.
    pub fn update_tab(&mut self, id: u32, title: String) -> (r: Result<(), TabError>)
        requires
            old(self)@.inv(),
        ensures
            final(self)@.inv(),
            !old(self)@.registry.has_id(id) ==> (r matches Err(e) && e == TabError::NotFound
                && final(self)@ == old(self)@),
            old(self)@.registry.has_id(id) ==> (r matches Ok(u) && final(self)@.registry == old(self)@.registry.retitled(id, title@) && final(self)@.next_id == old(self)@.next_id),
    {
        match self.registry.set_title(id, title) {
            Ok(_) => Ok(()),
            Err(_) => Err(TabError::NotFound),
        }
    }

    /// Replace the presentation order by a permutation of itself; which
    /// surface is visible does not change. Fails with `OrderMismatch` unless
    /// the new order has the same length and the same id set as the current
    /// one, leaving the state unchanged.
    pub fn reorder_tabs(&mut self, new_order: Vec<u32>) -> (r: Result<(), TabError>)
        requires
            old(self)@.inv(),
        ensures
            final(self)@.inv(),
            is_reorder_of(new_order@, old(self)@.registry.order) ==> (r matches Ok(u) && final(self)@.registry == old(self)@.registry.reordered(new_order@) && final(self)@.next_id == old(self)@.next_id),
            !is_reorder_of(new_order@, old(self)@.registry.order) ==> (r matches Err(e) && e
                == TabError::OrderMismatch && final(self)@ == old(self)@),
    {
        let ghost no = new_order@;
        match self.registry.reorder(new_order) {
            Ok(_) => Ok(()),
            Err(_) => Err(TabError::OrderMismatch),
        }
    }

    /// Recompute geometry for the current tab count after a window resize:
    /// the chrome and every content surface are resized; registry state is
    /// untouched.
    pub fn on_window_resized(&self, window: LogicalSize) -> (cmds: Vec<SurfaceCommand>)
        ensures
            cmds@ == resize_commands(self@.registry.order, window),
    {
        let ids = self.registry.order_ids();
        compute_resize(&ids, window)
    }

    /// React to a surface's first page-load completion: the surface is
    /// revealed. A notification for a tab that has since been closed is a
    /// no-op, not an error.
    pub fn on_page_load_finished(&self, id: u32) -> (cmd: Option<SurfaceCommand>)
        ensures
            self@.registry.has_id(id) ==> cmd == Some(SurfaceCommand::ShowSurface { id }),
            !self@.registry.has_id(id) ==> cmd is None,
    {
        if self.registry.contains_id(id) {
            Some(SurfaceCommand::ShowSurface { id })
        } else {
            None
        }
    }

    /// The full authoritative snapshot for publishing to the chrome surface.
    pub fn snapshot(&self) -> (s: Snapshot)
        requires
            self@.inv(),
        ensures
            s.active == self@.registry.active,
            s.tabs@.len() == self@.registry.order.len(),
            forall|m: int|
                0 <= m < self@.registry.order.len() ==> (#[trigger] s.tabs@[m]).id
                    == self@.registry.order[m] && s.tabs@[m].title@ == self@.registry.title_of(
                    self@.registry.order[m],
                ) && s.tabs@[m].locator@ == self@.registry.locator_of(self@.registry.order[m]),
    {
        self.registry.snapshot()
    }
}

/// Every reachable manager state is consistent: the order, the surface map
/// and the title map hold exactly the same ids, and the active id is a
/// member of the order, or absent exactly when no tab exists.
pub proof fn lemma_state_consistency(m: ManagerView)
    requires
        m.inv(),
    ensures
        m.registry.order.to_set() == m.registry.surface_ids().to_set(),
        m.registry.surface_ids().to_set() == m.registry.title_ids().to_set(),
        match m.registry.active {
            Some(a) => m.registry.order.contains(a),
            None => m.registry.order.len() == 0,
        },
{
    assert(m.registry.title_ids() =~= m.registry.surface_ids());
}

/// Activating a tab is idempotent: a second activation of the same tab
/// leaves the state exactly as after the first, and issues exactly the same
/// visibility commands, one hide-all/show-target pass. The published
/// snapshot is a function of the state, so it is the same both times too.
pub proof fn lemma_activate_tab_idempotent(r: RegistryView, id: u32)
    requires
        r.wf(),
        r.has_id(id),
    ensures
        r.activated(id).activated(id) == r.activated(id),
        visibility_commands(Some(id), r.activated(id).order) == visibility_commands(
            Some(id),
            r.order,
        ),
{
    assert(r.activated(id).activated(id) =~= r.activated(id));
}

/// Reordering to a permutation and then taking a snapshot lists the tabs in
/// exactly the requested order: the reordered state is well-formed and its
/// order is the requested sequence, and the snapshot contract lists tabs in
/// state order.
pub proof fn lemma_reorder_round_trip(r: RegistryView, new_order: Seq<u32>)
    requires
        r.wf(),
        is_reorder_of(new_order, r.order),
    ensures
        r.reordered(new_order).wf(),
        r.reordered(new_order).order == new_order,
{
    crate::registry::lemma_reordered_wf(r, new_order);
}

} // verus!
