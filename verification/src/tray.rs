//! The caller-facing data model: declarative menu entries, the tray item
//! value handed in on each publish, and the event vocabulary handed back.

use vstd::prelude::*;

verus! {

/// An icon displayed in a tray menu: either a theme icon name or raw
/// 32-bit pixels in wire byte order.
#[derive(Debug)]
pub enum TrayIcon {
    /// Freedesktop theme icon name.
    Name(String),
    /// Raw 4-byte-per-pixel icon bytes in wire order.
    Image { width: u32, height: u32, bytes: Vec<u8> },
}

/// Toggle descriptor of a menu entry, with its checked state.
#[derive(Clone, Copy, Debug, PartialEq, Eq, Structural)]
pub enum TrayToggleType {
    Checkbox(bool),
    Radio(bool),
}

/// Item used to describe a tray context menu.
#[derive(Debug)]
pub enum TrayMenuItem {
    Separator {
        label: Option<String>,
    },
    Submenu {
        id: String,
        label: String,
        toggle_type: Option<TrayToggleType>,
        children: Vec<TrayMenuItem>,
    },
}

/// The mathematical shape of a menu entry: labels and ids as character
/// sequences, children as a sequence of shapes.
pub enum ItemShape {
    Separator {
        label: Option<Seq<char>>,
    },
    Submenu {
        id: Seq<char>,
        label: Seq<char>,
        toggle_type: Option<TrayToggleType>,
        children: Seq<ItemShape>,
    },
}

/// The shape of an optional label.
pub open spec fn option_str_shape(label: Option<String>) -> Option<Seq<char>> {
    match label {
        Some(l) => Some(l@),
        None => None,
    }
}

/// The shape of one menu entry.
pub open spec fn item_shape(item: TrayMenuItem) -> ItemShape
    decreases item, 0int, 0int,
{
    match item {
        TrayMenuItem::Separator { label } => ItemShape::Separator { label: option_str_shape(label) },
        TrayMenuItem::Submenu { id, label, toggle_type, children } => ItemShape::Submenu {
            id: id@,
            label: label@,
            toggle_type,
            children: item_shapes_from(children@, 0),
        },
    }
}

/// The shapes of the entries of `items` from position `k` on.
pub open spec fn item_shapes_from(items: Seq<TrayMenuItem>, k: int) -> Seq<ItemShape>
    decreases items, 1int, items.len() - k,
{
    if 0 <= k < items.len() {
        seq![item_shape(items[k])] + item_shapes_from(items, k + 1)
    } else {
        Seq::empty()
    }
}

/// The shape of a whole menu entry list.
pub open spec fn item_shapes(items: Seq<TrayMenuItem>) -> Seq<ItemShape> {
    item_shapes_from(items, 0)
}

/// `item_shapes` maps `item_shape` over the list, position for position.
pub proof fn lemma_item_shapes_from(items: Seq<TrayMenuItem>, k: int)
    requires
        0 <= k <= items.len(),
    ensures
        item_shapes_from(items, k).len() == items.len() - k,
        forall|i: int|
            0 <= i < items.len() - k ==> #[trigger] item_shapes_from(items, k)[i]
                == item_shape(items[k + i]),
    decreases items.len() - k,
{
    if k < items.len() {
        lemma_item_shapes_from(items, k + 1);
    }
}

impl TrayMenuItem {
    /// An unlabeled separator line.
    pub fn separator() -> (r: Self)
        ensures
            item_shape(r) == (ItemShape::Separator { label: None }),
    {
        Self::Separator { label: None }
    }

    /// A separator line with a section label.
    pub fn labeled_separator(label: String) -> (r: Self)
        ensures
            item_shape(r) == (ItemShape::Separator { label: Some(label@) }),
    {
        Self::Separator { label: Some(label) }
    }

    /// A (possibly nested) menu entry without a toggle.
    pub fn menu(id: String, label: String, children: Vec<TrayMenuItem>) -> (r: Self)
        ensures
            item_shape(r) == (ItemShape::Submenu {
                id: id@,
                label: label@,
                toggle_type: None,
                children: item_shapes(children@),
            }),
    {
        Self::Submenu { id, label, toggle_type: None, children }
    }

    /// A leaf entry with a checkmark toggle.
    pub fn checkbox(id: String, label: String, checked: bool) -> (r: Self)
        ensures
            item_shape(r) == (ItemShape::Submenu {
                id: id@,
                label: label@,
                toggle_type: Some(TrayToggleType::Checkbox(checked)),
                children: Seq::empty(),
            }),
    {
        let r = Self::Submenu { id, label, toggle_type: Some(TrayToggleType::Checkbox(checked)), children: Vec::new() };
        proof {
            reveal_with_fuel(item_shapes_from, 1);
        }
        r
    }

    /// A leaf entry with a radio toggle.
    pub fn radio(id: String, label: String, checked: bool) -> (r: Self)
        ensures
            item_shape(r) == (ItemShape::Submenu {
                id: id@,
                label: label@,
                toggle_type: Some(TrayToggleType::Radio(checked)),
                children: Seq::empty(),
            }),
    {
        let r = Self::Submenu { id, label, toggle_type: Some(TrayToggleType::Radio(checked)), children: Vec::new() };
        proof {
            reveal_with_fuel(item_shapes_from, 1);
        }
        r
    }
}

/// Mouse button of a click on the tray icon itself.
#[derive(Clone, Copy, Debug, PartialEq, Eq, Structural)]
pub enum MouseButton {
    Left,
    Middle,
}

/// A point on the screen, or a scroll delta, in pixels.
#[derive(Clone, Copy, Debug, PartialEq, Eq, Structural)]
pub struct Point {
    pub x: i32,
    pub y: i32,
}

/// An interaction event handed back to the owning application.
#[derive(Debug)]
pub enum TrayEvent {
    TrayClick { button: MouseButton, position: Point },
    Scroll { scroll_detal: Point },
    MenuClick { id: String },
}

/// The full description of the tray icon and its context menu, consumed
/// into engine state on each publish.
#[derive(Debug)]
pub struct TrayItem {
    pub visible: bool,
    pub icon: TrayIcon,
    pub title: String,
    pub tooltip: String,
    pub description: String,
    pub submenus: Vec<TrayMenuItem>,
}

impl TrayItem {
    /// A visible tray item with an empty theme icon name and no menu.
    pub fn new() -> (r: Self)
        ensures
            r.visible == true,
            r.icon is Name,
            r.icon->Name_0@ == Seq::<char>::empty(),
            r.title@ == Seq::<char>::empty(),
            r.tooltip@ == Seq::<char>::empty(),
            r.description@ == Seq::<char>::empty(),
            r.submenus@ == Seq::<TrayMenuItem>::empty(),
    {
        Self {
            visible: true,
            icon: TrayIcon::Name(String::new()),
            title: String::new(),
            tooltip: String::new(),
            description: String::new(),
            submenus: Vec::new(),
        }
    }

    pub fn visible(self, visible: bool) -> (r: Self)
        ensures
            r == (Self { visible, ..self }),
    {
        Self { visible, ..self }
    }

    pub fn icon(self, icon: TrayIcon) -> (r: Self)
        ensures
            r == (Self { icon, ..self }),
    {
        Self { icon, ..self }
    }

    pub fn title(self, title: String) -> (r: Self)
        ensures
            r == (Self { title, ..self }),
    {
        Self { title, ..self }
    }

    pub fn tooltip(self, tooltip: String) -> (r: Self)
        ensures
            r == (Self { tooltip, ..self }),
    {
        Self { tooltip, ..self }
    }

    pub fn description(self, description: String) -> (r: Self)
        ensures
            r == (Self { description, ..self }),
    {
        Self { description, ..self }
    }

    /// Appends one more top-level menu entry.
    pub fn submenu(self, submenu: TrayMenuItem) -> (r: Self)
        ensures
            r.visible == self.visible,
            r.icon == self.icon,
            r.title == self.title,
            r.tooltip == self.tooltip,
            r.description == self.description,
            r.submenus@ == self.submenus@.push(submenu),
    {
        let mut submenus = self.submenus;
        submenus.push(submenu);
        Self { submenus, ..self }
    }
}

} // verus!
