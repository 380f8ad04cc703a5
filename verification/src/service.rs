//! Service state and the caller-facing facade: the lock-protected snapshot
//! of tray visibility, texts, icon buffers and the current menu tree,
//! together with a monotonically increasing layout revision.  Every query
//! the two bus objects answer is a function of this state; every publish
//! replaces it atomically and bumps the revision.  The adapter owns the
//! lock, the bus connection and the queues; this engine owns the logic.

use vstd::prelude::*;
use vstd::string::StringExecFns;
use crate::error::TrayError;
use crate::events::{NativeEvent, activation_event, menu_click_of};
use crate::icon::{Pixmap, PixmapShape, icon_error, icon_pixmaps, icon_pixmaps_ok, icon_valid};
use crate::layout::{DBusMenuLayoutItem, layout_of};
use crate::menu::{
    DBusMenu, MenuProperty, MenuShape, PropertyValue, build_menu, count_items, empty_menu,
    group_props_of, names_shape, property_value_of,
};
use crate::tray::TrayItem;
use crate::wf::{lemma_build_menu_wf, menu_wf, node_ok};

verus! {

/// The wire tooltip: an icon, a title and a longer description.
#[derive(Debug)]
pub struct ToolTip {
    pub icon_name: String,
    pub icon_pixmap: Vec<Pixmap>,
    pub title: String,
    pub description: String,
}

/// The mathematical shape of a wire tooltip.
#[verifier::ext_equal]
pub struct ToolTipShape {
    pub icon_name: Seq<char>,
    pub icon_pixmap: Seq<PixmapShape>,
    pub title: Seq<char>,
    pub description: Seq<char>,
}

impl View for ToolTip {
    type V = ToolTipShape;

    open spec fn view(&self) -> ToolTipShape {
        ToolTipShape {
            icon_name: self.icon_name@,
            icon_pixmap: self.icon_pixmap@.map_values(|p: Pixmap| p@),
            title: self.title@,
            description: self.description@,
        }
    }
}

/// The denormalized, independently-settable fields of the item object.
#[derive(Debug)]
struct StatusNotifierItemState {
    visible: bool,
    title: String,
    icon_pixmaps: Vec<Pixmap>,
    tooltip: String,
    description: String,
}

/// The mathematical shape of the whole service.
#[verifier::ext_equal]
pub struct ServiceShape {
    pub initialized: bool,
    pub visible: bool,
    pub title: Seq<char>,
    pub tooltip: Seq<char>,
    pub description: Seq<char>,
    pub icon_pixmaps: Seq<PixmapShape>,
    pub menu: MenuShape,
    pub revision: u32,
}

/// The tray menu protocol engine: one per registered tray icon.  The
/// adapter keeps it behind its state lock and calls in for every bus
/// query, publish and event.
pub struct TrayService {
    initialized: bool,
    state: StatusNotifierItemState,
    menu: DBusMenu,
    revision: u32,
}

impl View for TrayService {
    type V = ServiceShape;

    closed spec fn view(&self) -> ServiceShape {
        ServiceShape {
            initialized: self.initialized,
            visible: self.state.visible,
            title: self.state.title@,
            tooltip: self.state.tooltip@,
            description: self.state.description@,
            icon_pixmaps: self.state.icon_pixmaps@.map_values(|p: Pixmap| p@),
            menu: self.menu@,
            revision: self.revision,
        }
    }
}

/// The service invariant: the published menu tree is well formed.
pub open spec fn service_inv(s: ServiceShape) -> bool {
    menu_wf(s.menu)
}

/// The revision after one successful publish: one more, held at the
/// numeric ceiling it can never reach in practice.
pub open spec fn next_revision(r: u32) -> u32 {
    if r < u32::MAX {
        (r + 1) as u32
    } else {
        r
    }
}

/// Law: below the ceiling, each successful publish raises the revision by
/// exactly one, so the emitted revisions of consecutive publishes
/// strictly increase in steps of one.
pub proof fn lemma_revision_strictly_increases(r: u32)
    requires
        r < u32::MAX,
    ensures
        next_revision(r) == r + 1,
        next_revision(r) > r,
{
}

/// Law: below the ceiling, the revision a successful publish leaves
/// behind — and emits on its layout-changed signal — is exactly one more
/// than the revision before it.
pub proof fn lemma_publish_revision(pre: ServiceShape, post: ServiceShape, item: TrayItem)
    requires
        published(post, item, next_revision(pre.revision)),
        pre.revision < u32::MAX,
    ensures
        post.revision == pre.revision + 1,
{
}

/// What one publish leaves behind: the item's fields, its icon ladder,
/// its freshly built menu tree, and the given revision.
pub open spec fn published(post: ServiceShape, item: TrayItem, revision: u32) -> bool {
    &&& post.visible == item.visible
    &&& post.title == item.title@
    &&& post.tooltip == item.tooltip@
    &&& post.description == item.description@
    &&& icon_pixmaps_ok(item.icon, post.icon_pixmaps)
    &&& post.menu == build_menu(item.submenus@)
    &&& post.revision == revision
}

impl TrayService {
    /// A fresh, unregistered service: not yet visible, empty texts, no
    /// pixmaps, only the implicit menu root, revision counter at 1.
    pub fn new() -> (r: Self)
        ensures
            r@.initialized == false,
            r@.visible == false,
            r@.title == Seq::<char>::empty(),
            r@.tooltip == Seq::<char>::empty(),
            r@.description == Seq::<char>::empty(),
            r@.icon_pixmaps == Seq::<PixmapShape>::empty(),
            r@.menu == empty_menu(),
            r@.revision == 1,
            service_inv(r@),
    {
        let r = TrayService {
            initialized: false,
            state: StatusNotifierItemState {
                visible: false,
                title: String::new(),
                icon_pixmaps: Vec::new(),
                tooltip: String::new(),
                description: String::new(),
            },
            menu: DBusMenu::new(),
            revision: 1,
        };
        proof {
            assert(r@.icon_pixmaps =~= Seq::<PixmapShape>::empty());
            assert(node_ok(empty_menu(), 0));
            assert(menu_wf(empty_menu()));
        }
        r
    }

    /// Replaces the snapshot with the item's fields and menu and bumps the
    /// revision: the shared publish path of setup and re-publish.
    fn publish(&mut self, item: TrayItem) -> (r: Result<(), TrayError>)
        requires
            1 + count_items(item.submenus@) <= i32::MAX as int,
        ensures
            match r {
                Ok(()) => icon_valid(item.icon) && published(
                    final(self)@,
                    item,
                    next_revision(old(self)@.revision),
                ) && final(self)@.initialized == old(self)@.initialized && service_inv(
                    final(self)@,
                ),
                Err(e) => !icon_valid(item.icon) && e == icon_error(item.icon) && final(self)@
                    == old(self)@,
            },
    {
        let pixmaps = match icon_pixmaps(&item.icon) {
            Ok(ps) => ps,
            Err(e) => {
                return Err(e);
            },
        };
        let menu = DBusMenu::from_tray_menu_items(&item.submenus);
        proof {
            lemma_build_menu_wf(item.submenus@);
        }
        let TrayItem { visible, title, tooltip, description, .. } = item;
        self.state = StatusNotifierItemState {
            visible,
            title,
            icon_pixmaps: pixmaps,
            tooltip,
            description,
        };
        self.menu = menu;
        self.revision = if self.revision < u32::MAX {
            self.revision + 1
        } else {
            self.revision
        };
        Ok(())
    }

    /// One-time registration of the tray.  A second call fails fast and
    /// leaves the running instance untouched; otherwise the item is
    /// published as the initial snapshot, through the same path every
    /// later publish takes.  Menu ids live in the wire's signed 32-bit id
    /// space, so the entry count must fit it; the adapter checks that
    /// before calling in.
    pub fn set_up_tray(&mut self, item: TrayItem) -> (r: Result<(), TrayError>)
        requires
            1 + count_items(item.submenus@) <= i32::MAX as int,
        ensures
            old(self)@.initialized ==> r == Err::<(), TrayError>(TrayError::AlreadyInitialized)
                && final(self)@ == old(self)@,
            !old(self)@.initialized && !icon_valid(item.icon) ==> r == Err::<(), TrayError>(
                icon_error(item.icon),
            ) && final(self)@ == old(self)@,
            !old(self)@.initialized && icon_valid(item.icon) ==> r == Ok::<(), TrayError>(())
                && final(self)@.initialized && published(
                final(self)@,
                item,
                next_revision(old(self)@.revision),
            ) && service_inv(final(self)@),
    {
        if self.initialized {
            return Err(TrayError::AlreadyInitialized);
        }
        let r = self.publish(item);
        match r {
            Ok(()) => {
                self.initialized = true;
                Ok(())
            },
            Err(e) => Err(e),
        }
    }

    /// Idempotent re-publish of a new item.  A no-op success while the
    /// tray was never set up; a malformed icon fails the call and leaves
    /// the previous snapshot — its icon included — untouched.
    pub fn sync_tray(&mut self, item: TrayItem) -> (r: Result<(), TrayError>)
        requires
            1 + count_items(item.submenus@) <= i32::MAX as int,
        ensures
            !old(self)@.initialized ==> r == Ok::<(), TrayError>(()) && final(self)@ == old(
                self,
            )@,
            old(self)@.initialized && !icon_valid(item.icon) ==> r == Err::<(), TrayError>(
                icon_error(item.icon),
            ) && final(self)@ == old(self)@,
            old(self)@.initialized && icon_valid(item.icon) ==> r == Ok::<(), TrayError>(())
                && final(self)@.initialized && published(
                final(self)@,
                item,
                next_revision(old(self)@.revision),
            ) && service_inv(final(self)@),
    {
        if !self.initialized {
            return Ok(());
        }
        match self.publish(item) {
            Ok(()) => Ok(()),
            Err(e) => Err(e),
        }
    }

    /// The current layout revision: what the layout-changed signal for
    /// the latest publish carries.
    pub fn revision(&self) -> (r: u32)
        ensures
            r == self@.revision,
    {
        self.revision
    }

    /// Whether the tray was already set up.
    pub fn is_initialized(&self) -> (r: bool)
        ensures
            r == self@.initialized,
    {
        self.initialized
    }

    /// Answers a layout query: the current revision and the serialized
    /// subtree at `parent_id`.
    pub fn get_layout(
        &self,
        parent_id: i32,
        recursion_depth: i32,
        property_names: &Vec<String>,
    ) -> (r: (u32, DBusMenuLayoutItem))
        requires
            service_inv(self@),
        ensures
            r.0 == self@.revision,
            r.1@ == layout_of(
                self@.menu,
                parent_id as int,
                recursion_depth as int,
                names_shape(property_names@),
            ),
    {
        (self.revision, self.menu.to_layout(parent_id, recursion_depth, property_names))
    }

    /// Answers a grouped property query: one entry per requested id, an
    /// empty bag for unknown ids.
    pub fn get_group_properties(&self, ids: &Vec<i32>, property_names: &Vec<String>) -> (r: Vec<
        (i32, Vec<MenuProperty>),
    >)
        ensures
            r@.len() == ids@.len(),
            forall|t: int| 0 <= t < ids@.len() ==> (#[trigger] r@[t]).0 == ids@[t],
            forall|t: int|
                0 <= t < ids@.len() ==> (#[trigger] r@[t]).1@.map_values(|p: MenuProperty| p@)
                    == group_props_of(self@.menu, ids@[t] as int, names_shape(property_names@)),
    {
        self.menu.get_group_properties(ids, property_names)
    }

    /// Answers a single-property query: the value, or an empty string for
    /// an unknown node or property — never an error.
    pub fn get_property(&self, id: i32, name: &String) -> (v: PropertyValue)
        ensures
            v@ == property_value_of(self@.menu, id as int, name@),
    {
        self.menu.get_property(id, name)
    }

    /// Handles one menu event: a whitelisted activation spelling on a
    /// node with a caller id dispatches a menu click carrying that id;
    /// everything else dispatches nothing.
    pub fn event(&self, id: i32, event_id: &str) -> (r: Option<NativeEvent>)
        ensures
            match r {
                Some(ev) => ev matches NativeEvent::MenuClick(u) && menu_click_of(
                    self@.menu,
                    id as int,
                    event_id@,
                ) == Some(u@),
                None => menu_click_of(self@.menu, id as int, event_id@) is None,
            },
    {
        if !activation_event(event_id) {
            return None;
        }
        match self.menu.user_id_for_node(id) {
            Some(user_id) => Some(NativeEvent::MenuClick(user_id)),
            None => None,
        }
    }

    /// Handles a batch of menu events through the very same logic as the
    /// singular entry point, in order.
    pub fn event_group(&self, events: &Vec<(i32, String)>) -> (r: Vec<NativeEvent>)
        ensures
            r@.map_values(|ev: NativeEvent| ev->MenuClick_0@) == group_clicks_from(
                self@.menu,
                events@,
                0,
            ),
            forall|t: int| 0 <= t < r@.len() ==> (#[trigger] r@[t]) matches NativeEvent::MenuClick(
                _,
            ),
    {
        let mut r: Vec<NativeEvent> = Vec::new();
        let mut t: usize = 0;
        while t < events.len()
            invariant
                0 <= t <= events@.len(),
                forall|u: int|
                    0 <= u < r@.len() ==> (#[trigger] r@[u]) matches NativeEvent::MenuClick(_),
                r@.map_values(|ev: NativeEvent| ev->MenuClick_0@) + group_clicks_from(
                    self@.menu,
                    events@,
                    t as int,
                ) == group_clicks_from(self@.menu, events@, 0),
            decreases events@.len() - t,
        {
            let ghost pre = r@;
            match self.event(events[t].0, events[t].1.as_str()) {
                Some(ev) => {
                    r.push(ev);
                    proof {
                        assert(r@.map_values(|ev: NativeEvent| ev->MenuClick_0@) =~= pre.map_values(
                            |ev: NativeEvent| ev->MenuClick_0@,
                        ).push(r@[pre.len() as int]->MenuClick_0@));
                    }
                },
                None => {},
            }
            t += 1;
        }
        proof {
            assert(r@.map_values(|ev: NativeEvent| ev->MenuClick_0@) =~= r@.map_values(
                |ev: NativeEvent| ev->MenuClick_0@,
            ) + group_clicks_from(self@.menu, events@, events@.len() as int));
        }
        r
    }

    /// The wire `Status` property: `Active` while visible, else
    /// `Passive`.
    pub fn status(&self) -> (r: String)
        ensures
            self@.visible ==> r@ == "Active"@,
            !self@.visible ==> r@ == "Passive"@,
    {
        if self.state.visible {
            String::from_str("Active")
        } else {
            String::from_str("Passive")
        }
    }

    /// The wire `Title` property.
    pub fn title(&self) -> (r: String)
        ensures
            r@ == self@.title,
    {
        self.state.title.clone()
    }

    /// The wire `IconPixmap` property: the published icon ladder.
    pub fn icon_pixmap(&self) -> (r: &Vec<Pixmap>)
        ensures
            r@.map_values(|p: Pixmap| p@) == self@.icon_pixmaps,
    {
        &self.state.icon_pixmaps
    }

    /// The wire `ToolTip` property: no separate tooltip icon, the icon
    /// ladder, the tooltip text as title, and the description.
    pub fn tool_tip(&self) -> (r: ToolTip)
        ensures
            r@.icon_name == Seq::<char>::empty(),
            r@.icon_pixmap == self@.icon_pixmaps,
            r@.title == self@.tooltip,
            r@.description == self@.description,
    {
        let ghost all = self.state.icon_pixmaps@.map_values(|p: Pixmap| p@);
        let mut pixmaps: Vec<Pixmap> = Vec::new();
        let mut i: usize = 0;
        while i < self.state.icon_pixmaps.len()
            invariant
                0 <= i <= all.len(),
                all == self.state.icon_pixmaps@.map_values(|p: Pixmap| p@),
                all.len() == self.state.icon_pixmaps@.len(),
                pixmaps@.map_values(|p: Pixmap| p@) == all.take(i as int),
            decreases all.len() - i,
        {
            let d = self.state.icon_pixmaps[i].duplicate();
            let ghost pre = pixmaps@;
            pixmaps.push(d);
            proof {
                assert(d@ == all[i as int]);
                assert(pixmaps@ == pre.push(d));
                assert(all.take(i as int).len() == i as int);
                assert(pre.map_values(|p: Pixmap| p@) == all.take(i as int));
                assert(pre.map_values(|p: Pixmap| p@).len() == pre.len());
                assert(pre.len() == i as int);
                assert(pixmaps@.map_values(|p: Pixmap| p@).len() == i as int + 1);
                let m2 = pixmaps@.map_values(|p: Pixmap| p@);
                assert forall|j: int| 0 <= j < i as int + 1 implies #[trigger] m2[j] == all.take(
                    i as int + 1,
                )[j] by {
                    if j < i as int {
                        assert(pixmaps@[j] == pre[j]);
                        assert(pre.map_values(|p: Pixmap| p@)[j] == all.take(i as int)[j]);
                    } else {
                        assert(pixmaps@[j] == d);
                    }
                }
                assert(pixmaps@.map_values(|p: Pixmap| p@) =~= all.take(i as int + 1));
            }
            i += 1;
        }
        proof {
            assert(all.take(all.len() as int) =~= all);
        }
        ToolTip {
            icon_name: String::new(),
            icon_pixmap: pixmaps,
            title: self.state.tooltip.clone(),
            description: self.state.description.clone(),
        }
    }

    /// The wire `Category` property, a constant.
    pub fn category(&self) -> (r: String)
        ensures
            r@ == "ApplicationStatus"@,
    {
        String::from_str("ApplicationStatus")
    }

    /// The wire `Id` property, a constant stable identifier.
    pub fn id(&self) -> (r: String)
        ensures
            r@ == "sni-tray"@,
    {
        String::from_str("sni-tray")
    }

    /// The wire `IconName` property: a theme fallback for hosts that
    /// ignore pixmaps.
    pub fn icon_name(&self) -> (r: String)
        ensures
            r@ == "application-x-executable"@,
    {
        String::from_str("application-x-executable")
    }

    /// The wire `ItemIsMenu` property, a constant.
    pub fn item_is_menu(&self) -> (r: bool)
        ensures
            r == false,
    {
        false
    }

    /// The wire `Menu` property: the object path of the menu object.
    pub fn menu_path(&self) -> (r: String)
        ensures
            r@ == "/MenuBar"@,
    {
        String::from_str("/MenuBar")
    }

    /// The menu object's `Version` property, a constant.
    pub fn version(&self) -> (r: u32)
        ensures
            r == 4,
    {
        4
    }

    /// `AboutToShow`: lazy population is not supported, so the menu never
    /// asks the host to wait.
    pub fn about_to_show(&self, _id: i32) -> (r: bool)
        ensures
            r == false,
    {
        false
    }
}

/// The caller ids dispatched for a batch of menu events from position `k`
/// on, in order, skipping events that dispatch nothing.
pub open spec fn group_clicks_from(m: MenuShape, events: Seq<(i32, String)>, k: int) -> Seq<
    Seq<char>,
>
    decreases events.len() - k,
{
    if 0 <= k < events.len() {
        let rest = group_clicks_from(m, events, k + 1);
        match menu_click_of(m, events[k].0 as int, events[k].1@) {
            Some(u) => seq![u] + rest,
            None => rest,
        }
    } else {
        Seq::empty()
    }
}

/// Law: the batched entry point agrees with the singular one — a batch
/// of one event dispatches exactly what the single event does.
pub proof fn lemma_event_group_singleton(m: MenuShape, id: i32, event_id: String)
    ensures
        group_clicks_from(m, seq![(id, event_id)], 0) == match menu_click_of(
            m,
            id as int,
            event_id@,
        ) {
            Some(u) => seq![u],
            None => Seq::<Seq<char>>::empty(),
        },
{
    let evs = seq![(id, event_id)];
    assert(group_clicks_from(m, evs, 1) == Seq::<Seq<char>>::empty());
    match menu_click_of(m, id as int, event_id@) {
        Some(u) => {
            assert(group_clicks_from(m, evs, 0) =~= seq![u]);
        },
        None => {},
    }
}

} // verus!
