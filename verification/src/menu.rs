//! The menu tree model: an addressable node graph built from declarative
//! menu entries by a pre-order depth-first walk.  Numeric node ids are
//! assigned in walk order starting at 1; id 0 is the implicit root.  The
//! nodes live in a vector indexed by id, so the id assignment is dense and
//! deterministic by construction.

use vstd::prelude::*;
use vstd::string::StringExecFns;
use crate::tray::{TrayMenuItem, TrayToggleType, item_shape, item_shapes, item_shapes_from, lemma_item_shapes_from};

verus! {

/// Wire `type` property of a node.
#[derive(Clone, Copy, Debug, PartialEq, Eq, Structural)]
pub enum MenuItemType {
    Standard,
    Separator,
}

/// Wire `toggle-type` property of a node.
#[derive(Clone, Copy, Debug, PartialEq, Eq, Structural)]
pub enum MenuToggleType {
    Checkmark,
    Radio,
}

/// One entry of a node's property bag.  The protocol emits a fixed, known
/// vocabulary of property names, so the bag is a closed enumeration rather
/// than a freeform string map.
#[derive(Debug)]
pub enum MenuProperty {
    Type(MenuItemType),
    Label(String),
    Enabled(bool),
    Visible(bool),
    ToggleType(MenuToggleType),
    ToggleState(i32),
    /// Synthetic marker injected into layouts for nodes with children.
    ChildrenDisplay,
}

/// The mathematical shape of a property-bag entry.
#[verifier::ext_equal]
pub enum PropShape {
    Type(MenuItemType),
    Label(Seq<char>),
    Enabled(bool),
    Visible(bool),
    ToggleType(MenuToggleType),
    ToggleState(int),
    ChildrenDisplay,
}

impl View for MenuProperty {
    type V = PropShape;

    open spec fn view(&self) -> PropShape {
        match self {
            MenuProperty::Type(t) => PropShape::Type(*t),
            MenuProperty::Label(l) => PropShape::Label(l@),
            MenuProperty::Enabled(b) => PropShape::Enabled(*b),
            MenuProperty::Visible(b) => PropShape::Visible(*b),
            MenuProperty::ToggleType(t) => PropShape::ToggleType(*t),
            MenuProperty::ToggleState(s) => PropShape::ToggleState(*s as int),
            MenuProperty::ChildrenDisplay => PropShape::ChildrenDisplay,
        }
    }
}

/// The wire name under which a property is published and queried.
pub open spec fn prop_name(p: PropShape) -> Seq<char> {
    match p {
        PropShape::Type(_) => "type"@,
        PropShape::Label(_) => "label"@,
        PropShape::Enabled(_) => "enabled"@,
        PropShape::Visible(_) => "visible"@,
        PropShape::ToggleType(_) => "toggle-type"@,
        PropShape::ToggleState(_) => "toggle-state"@,
        PropShape::ChildrenDisplay => "children-display"@,
    }
}

impl MenuProperty {
    /// The wire name of this property.
    pub fn name(&self) -> (r: &'static str)
        ensures
            r@ == prop_name(self@),
    {
        match self {
            MenuProperty::Type(_) => "type",
            MenuProperty::Label(_) => "label",
            MenuProperty::Enabled(_) => "enabled",
            MenuProperty::Visible(_) => "visible",
            MenuProperty::ToggleType(_) => "toggle-type",
            MenuProperty::ToggleState(_) => "toggle-state",
            MenuProperty::ChildrenDisplay => "children-display",
        }
    }
}

/// An internal menu node: engine-assigned numeric id, optional
/// back-reference to the caller-assigned id, property bag, and the numeric
/// ids of the children in insertion order.
#[derive(Debug)]
pub struct MenuNode {
    pub id: i32,
    pub user_id: Option<String>,
    pub properties: Vec<MenuProperty>,
    pub children: Vec<i32>,
}

/// The mathematical shape of a menu node.
#[verifier::ext_equal]
pub struct NodeShape {
    pub id: int,
    pub user_id: Option<Seq<char>>,
    pub properties: Seq<PropShape>,
    pub children: Seq<int>,
}

impl View for MenuNode {
    type V = NodeShape;

    open spec fn view(&self) -> NodeShape {
        NodeShape {
            id: self.id as int,
            user_id: match self.user_id {
                Some(u) => Some(u@),
                None => None,
            },
            properties: self.properties@.map_values(|p: MenuProperty| p@),
            children: self.children@.map_values(|c: i32| c as int),
        }
    }
}

/// The mathematical shape of a whole menu: the node arena (indexed by id)
/// and, for every node, the end of the contiguous id range its subtree
/// occupies.  Pre-order id assignment makes the subtree of node `i` exactly
/// the ids `i .. spans[i]`.
#[verifier::ext_equal]
pub struct MenuShape {
    pub nodes: Seq<NodeShape>,
    pub spans: Seq<int>,
}

/// The addressable node graph of one published menu.
pub struct DBusMenu {
    nodes: Vec<MenuNode>,
    spans: Ghost<Seq<int>>,
}

impl View for DBusMenu {
    type V = MenuShape;

    closed spec fn view(&self) -> MenuShape {
        MenuShape { nodes: self.nodes@.map_values(|n: MenuNode| n@), spans: self.spans@ }
    }
}

// ---------------------------------------------------------------------------
// The specification of the builder.
// ---------------------------------------------------------------------------

/// Properties of the implicit root node.  Hosts may treat missing
/// properties as false, so `enabled` and `visible` are explicit.
pub open spec fn root_props() -> Seq<PropShape> {
    seq![PropShape::Enabled(true), PropShape::Visible(true)]
}

/// Properties of a separator node.
pub open spec fn separator_props() -> Seq<PropShape> {
    seq![
        PropShape::Type(MenuItemType::Separator),
        PropShape::Enabled(true),
        PropShape::Visible(true),
    ]
}

/// The two toggle properties a toggle descriptor contributes.
pub open spec fn toggle_props(t: TrayToggleType) -> Seq<PropShape> {
    match t {
        TrayToggleType::Checkbox(checked) => seq![
            PropShape::ToggleType(MenuToggleType::Checkmark),
            PropShape::ToggleState(if checked { 1int } else { 0int }),
        ],
        TrayToggleType::Radio(checked) => seq![
            PropShape::ToggleType(MenuToggleType::Radio),
            PropShape::ToggleState(if checked { 1int } else { 0int }),
        ],
    }
}

/// Properties of a submenu node.
pub open spec fn submenu_props(label: Seq<char>, toggle: Option<TrayToggleType>) -> Seq<PropShape> {
    let base = seq![
        PropShape::Type(MenuItemType::Standard),
        PropShape::Label(label),
        PropShape::Enabled(true),
        PropShape::Visible(true),
    ];
    match toggle {
        None => base,
        Some(t) => base + toggle_props(t),
    }
}

/// A menu holding only the implicit root.
pub open spec fn empty_menu() -> MenuShape {
    MenuShape {
        nodes: seq![
            NodeShape { id: 0, user_id: None, properties: root_props(), children: Seq::empty() },
        ],
        spans: seq![1int],
    }
}

/// Allocates the next id for a fresh childless node, attaches it to
/// `parent`, and gives it the provisional span of a leaf.
pub open spec fn attach_node(
    m: MenuShape,
    parent: int,
    user_id: Option<Seq<char>>,
    props: Seq<PropShape>,
) -> MenuShape {
    let id = m.nodes.len() as int;
    let old_parent = m.nodes[parent];
    let with_child = m.nodes.update(
        parent,
        NodeShape { children: old_parent.children.push(id), ..old_parent },
    );
    MenuShape {
        nodes: with_child.push(
            NodeShape { id, user_id, properties: props, children: Seq::empty() },
        ),
        spans: m.spans.push(id + 1),
    }
}

/// Records that the subtree of node `i` ends just before `e`.
pub open spec fn set_span(m: MenuShape, i: int, e: int) -> MenuShape {
    MenuShape { spans: m.spans.update(i, e), ..m }
}

/// The menu after attaching `item` (and, recursively, its children) under
/// `parent`, exactly as the pre-order walk does.
pub open spec fn add_item_spec(m: MenuShape, parent: int, item: TrayMenuItem) -> MenuShape
    decreases item, 0int, 0int,
{
    match item {
        TrayMenuItem::Separator { .. } => attach_node(m, parent, None, separator_props()),
        TrayMenuItem::Submenu { id: user_id, label, toggle_type, children } => {
            let id = m.nodes.len() as int;
            let m1 = attach_node(m, parent, Some(user_id@), submenu_props(label@, toggle_type));
            let m2 = add_items_spec(m1, id, children@, 0);
            set_span(m2, id, m2.nodes.len() as int)
        },
    }
}

/// The menu after attaching the items of `items` from position `k` on
/// under `parent`, left to right.
pub open spec fn add_items_spec(m: MenuShape, parent: int, items: Seq<TrayMenuItem>, k: int) -> MenuShape
    decreases items, 1int, items.len() - k,
{
    if 0 <= k < items.len() {
        add_items_spec(add_item_spec(m, parent, items[k]), parent, items, k + 1)
    } else {
        m
    }
}

/// The menu built from a whole top-level entry list.
pub open spec fn build_menu(items: Seq<TrayMenuItem>) -> MenuShape {
    let m = add_items_spec(empty_menu(), 0, items, 0);
    set_span(m, 0, m.nodes.len() as int)
}

// ---------------------------------------------------------------------------
// Node counting, for the i32 id space bound.
// ---------------------------------------------------------------------------

/// How many nodes `item` contributes to the arena.
pub open spec fn count_item(item: TrayMenuItem) -> int
    decreases item, 0int, 0int,
{
    match item {
        TrayMenuItem::Separator { .. } => 1,
        TrayMenuItem::Submenu { children, .. } => 1 + count_items_from(children@, 0),
    }
}

/// How many nodes the entries of `items` from position `k` on contribute.
pub open spec fn count_items_from(items: Seq<TrayMenuItem>, k: int) -> int
    decreases items, 1int, items.len() - k,
{
    if 0 <= k < items.len() {
        count_item(items[k]) + count_items_from(items, k + 1)
    } else {
        0
    }
}

/// How many nodes a whole entry list contributes.
pub open spec fn count_items(items: Seq<TrayMenuItem>) -> int {
    count_items_from(items, 0)
}

pub proof fn lemma_count_item_pos(item: TrayMenuItem)
    ensures
        count_item(item) >= 1,
    decreases item, 0int, 0int,
{
    match item {
        TrayMenuItem::Separator { .. } => {},
        TrayMenuItem::Submenu { children, .. } => {
            lemma_count_items_from_nonneg(children@, 0);
        },
    }
}

pub proof fn lemma_count_items_from_nonneg(items: Seq<TrayMenuItem>, k: int)
    ensures
        count_items_from(items, k) >= 0,
    decreases items, 1int, items.len() - k,
{
    if 0 <= k < items.len() {
        lemma_count_item_pos(items[k]);
        lemma_count_items_from_nonneg(items, k + 1);
    }
}

/// Attaching `item` grows the arena by exactly `count_item(item)` nodes,
/// and keeps the span table parallel to the arena.
pub proof fn lemma_add_item_len(m: MenuShape, parent: int, item: TrayMenuItem)
    requires
        m.spans.len() == m.nodes.len(),
        0 <= parent < m.nodes.len(),
    ensures
        add_item_spec(m, parent, item).nodes.len() == m.nodes.len() + count_item(item),
        add_item_spec(m, parent, item).spans.len() == add_item_spec(m, parent, item).nodes.len(),
    decreases item, 0int, 0int,
{
    match item {
        TrayMenuItem::Separator { .. } => {},
        TrayMenuItem::Submenu { id: user_id, label, toggle_type, children } => {
            let id = m.nodes.len() as int;
            let m1 = attach_node(m, parent, Some(user_id@), submenu_props(label@, toggle_type));
            lemma_count_items_from_nonneg(children@, 0);
            lemma_add_items_len(m1, id, children@, 0);
        },
    }
}

pub proof fn lemma_add_items_len(m: MenuShape, parent: int, items: Seq<TrayMenuItem>, k: int)
    requires
        m.spans.len() == m.nodes.len(),
        0 <= parent < m.nodes.len(),
    ensures
        add_items_spec(m, parent, items, k).nodes.len() == m.nodes.len() + count_items_from(items, k),
        add_items_spec(m, parent, items, k).spans.len() == add_items_spec(m, parent, items, k).nodes.len(),
    decreases items, 1int, items.len() - k,
{
    if 0 <= k < items.len() {
        lemma_count_item_pos(items[k]);
        lemma_add_item_len(m, parent, items[k]);
        lemma_add_items_len(add_item_spec(m, parent, items[k]), parent, items, k + 1);
    }
}

// ---------------------------------------------------------------------------
// The executable builder.
// ---------------------------------------------------------------------------

/// The property bag of a separator node.
fn separator_properties() -> (ps: Vec<MenuProperty>)
    ensures
        ps@.map_values(|p: MenuProperty| p@) == separator_props(),
{
    let mut ps: Vec<MenuProperty> = Vec::new();
    ps.push(MenuProperty::Type(MenuItemType::Separator));
    ps.push(MenuProperty::Enabled(true));
    ps.push(MenuProperty::Visible(true));
    proof {
        assert(ps@.map_values(|p: MenuProperty| p@) =~= separator_props());
    }
    ps
}

/// The property bag of a submenu node.
fn submenu_properties(label: &String, toggle_type: &Option<TrayToggleType>) -> (ps: Vec<MenuProperty>)
    ensures
        ps@.map_values(|p: MenuProperty| p@) == submenu_props(label@, *toggle_type),
{
    let mut ps: Vec<MenuProperty> = Vec::new();
    ps.push(MenuProperty::Type(MenuItemType::Standard));
    ps.push(MenuProperty::Label(label.clone()));
    ps.push(MenuProperty::Enabled(true));
    ps.push(MenuProperty::Visible(true));
    match toggle_type {
        None => {},
        Some(TrayToggleType::Checkbox(checked)) => {
            ps.push(MenuProperty::ToggleType(MenuToggleType::Checkmark));
            ps.push(MenuProperty::ToggleState(if *checked { 1 } else { 0 }));
        },
        Some(TrayToggleType::Radio(checked)) => {
            ps.push(MenuProperty::ToggleType(MenuToggleType::Radio));
            ps.push(MenuProperty::ToggleState(if *checked { 1 } else { 0 }));
        },
    }
    proof {
        assert(ps@.map_values(|p: MenuProperty| p@) =~= submenu_props(label@, *toggle_type));
    }
    ps
}

impl DBusMenu {
    /// A menu holding only the implicit root node.
    pub fn new() -> (r: Self)
        ensures
            r@ == empty_menu(),
    {
        let mut props: Vec<MenuProperty> = Vec::new();
        props.push(MenuProperty::Enabled(true));
        props.push(MenuProperty::Visible(true));
        let root = MenuNode { id: 0, user_id: None, properties: props, children: Vec::new() };
        let mut nodes: Vec<MenuNode> = Vec::new();
        nodes.push(root);
        let ghost spans0: Seq<int> = seq![1int];
        let r = DBusMenu { nodes, spans: Ghost(spans0) };
        proof {
            assert(r@ =~~= empty_menu());
        }
        r
    }

    /// Builds the node graph for a whole top-level entry list by a
    /// pre-order depth-first walk.  Node ids live in the wire's signed
    /// 32-bit id space, so the entry count must fit it.
    #[verifier::loop_isolation(false)]
    pub fn from_tray_menu_items(items: &Vec<TrayMenuItem>) -> (r: Self)
        requires
            1 + count_items(items@) <= i32::MAX as int,
        ensures
            r@ == build_menu(items@),
    {
        let mut menu = DBusMenu::new();
        let ghost m0 = menu@;
        let mut j: usize = 0;
        while j < items.len()
            invariant
                0 <= j <= items@.len(),
                menu@.spans.len() == menu@.nodes.len(),
                menu@.nodes.len() >= 1,
                menu@.nodes.len() + count_items_from(items@, j as int) <= i32::MAX as int,
                add_items_spec(menu@, 0, items@, j as int) == add_items_spec(m0, 0, items@, 0),
            decreases items@.len() - j,
        {
            proof {
                lemma_count_item_pos(items@[j as int]);
                lemma_count_items_from_nonneg(items@, j as int + 1);
            }
            menu.add_item(0, &items[j]);
            j += 1;
        }
        let ghost n = menu@.nodes.len() as int;
        menu.spans = Ghost(menu.spans@.update(0, n));
        proof {
            assert(menu@ =~~= build_menu(items@));
        }
        menu
    }

    /// Attaches one entry (and its children) under `parent_id`, assigning
    /// ids in pre-order.
    #[verifier::loop_isolation(false)]
    fn add_item(&mut self, parent_id: i32, item: &TrayMenuItem)
        requires
            old(self)@.spans.len() == old(self)@.nodes.len(),
            0 <= parent_id < old(self)@.nodes.len(),
            old(self)@.nodes.len() + count_item(*item) <= i32::MAX as int,
        ensures
            final(self)@ == add_item_spec(old(self)@, parent_id as int, *item),
            final(self)@.spans.len() == final(self)@.nodes.len(),
            final(self)@.nodes.len() == old(self)@.nodes.len() + count_item(*item),
        decreases *item,
    {
        proof {
            lemma_count_item_pos(*item);
            lemma_add_item_len(old(self)@, parent_id as int, *item);
        }
        match item {
            TrayMenuItem::Separator { .. } => {
                let id: i32 = self.nodes.len() as i32;
                let node = MenuNode {
                    id,
                    user_id: None,
                    properties: separator_properties(),
                    children: Vec::new(),
                };
                self.insert_node(parent_id, node);
            },
            TrayMenuItem::Submenu { id: user_id, label, toggle_type, children } => {
                let ghost pre = self@;
                let id: i32 = self.nodes.len() as i32;
                let node = MenuNode {
                    id,
                    user_id: Some(user_id.clone()),
                    properties: submenu_properties(label, toggle_type),
                    children: Vec::new(),
                };
                self.insert_node(parent_id, node);
                let ghost m1 = self@;
                proof {
                    lemma_count_items_from_nonneg(children@, 0);
                }
                let mut j: usize = 0;
                while j < children.len()
                    invariant
                        0 <= j <= children@.len(),
                        self@.spans.len() == self@.nodes.len(),
                        id as int + 1 <= self@.nodes.len(),
                        self@.nodes.len() + count_items_from(children@, j as int)
                            <= i32::MAX as int,
                        add_items_spec(self@, id as int, children@, j as int)
                            == add_items_spec(m1, id as int, children@, 0),
                    decreases children@.len() - j,
                {
                    proof {
                        lemma_count_item_pos(children@[j as int]);
                        lemma_count_items_from_nonneg(children@, j as int + 1);
                    }
                    self.add_item(id, &children[j]);
                    j += 1;
                }
                let ghost n = self@.nodes.len() as int;
                self.spans = Ghost(self.spans@.update(id as int, n));
                proof {
                    assert(self@ =~~= add_item_spec(pre, parent_id as int, *item));
                }
            },
        }
    }

    /// Appends a fresh childless node to the arena and registers it as the
    /// last child of `parent_id`.
    fn insert_node(&mut self, parent_id: i32, node: MenuNode)
        requires
            old(self)@.spans.len() == old(self)@.nodes.len(),
            0 <= parent_id < old(self)@.nodes.len(),
            old(self)@.nodes.len() < i32::MAX as int,
            node.id as int == old(self)@.nodes.len(),
            node.children@.len() == 0,
        ensures
            final(self)@ == attach_node(old(self)@, parent_id as int, node@.user_id, node@.properties),
    {
        let ghost pre = self@;
        let id = node.id;
        let pidx: usize = parent_id as usize;
        let parent = &mut self.nodes[pidx];
        parent.children.push(id);
        self.nodes.push(node);
        self.spans = Ghost(self.spans@.push(id as int + 1));
        proof {
            assert(self@ =~~= attach_node(pre, parent_id as int, node@.user_id, node@.properties));
        }
    }

    /// The caller-assigned id recorded on node `id`, if any.
    pub fn user_id_for_node(&self, id: i32) -> (r: Option<String>)
        ensures
            match r {
                Some(u) => user_id_of(self@, id as int) == Some(u@),
                None => user_id_of(self@, id as int) is None,
            },
    {
        if id >= 0 && (id as usize) < self.nodes.len() {
            match &self.nodes[id as usize].user_id {
                Some(u) => Some(u.clone()),
                None => None,
            }
        } else {
            None
        }
    }

    /// How many nodes the arena holds, the implicit root included.
    pub fn node_count(&self) -> (n: usize)
        ensures
            n == self@.nodes.len(),
    {
        self.nodes.len()
    }

    /// The node with numeric id `id`, if it is part of the tree.
    pub fn get_node(&self, id: i32) -> (r: Option<&MenuNode>)
        ensures
            match r {
                Some(node) => 0 <= (id as int) && (id as int) < self@.nodes.len() && node@
                    == self@.nodes[id as int],
                None => !(0 <= (id as int) && (id as int) < self@.nodes.len()),
            },
    {
        if id >= 0 && (id as usize) < self.nodes.len() {
            Some(&self.nodes[id as usize])
        } else {
            None
        }
    }
}

/// The caller-assigned id recorded on node `id` of `m`, if `id` is a known
/// node and carries one.
pub open spec fn user_id_of(m: MenuShape, id: int) -> Option<Seq<char>> {
    if 0 <= id < m.nodes.len() {
        m.nodes[id].user_id
    } else {
        None
    }
}

// ---------------------------------------------------------------------------
// Property queries.
// ---------------------------------------------------------------------------

/// A wire property value: the closed property vocabulary only ever carries
/// strings, booleans and 32-bit integers.
#[derive(Debug)]
pub enum PropertyValue {
    Text(String),
    Flag(bool),
    Number(i32),
}

/// The mathematical shape of a wire value.
#[verifier::ext_equal]
pub enum ValueShape {
    Text(Seq<char>),
    Flag(bool),
    Number(int),
}

impl View for PropertyValue {
    type V = ValueShape;

    open spec fn view(&self) -> ValueShape {
        match self {
            PropertyValue::Text(s) => ValueShape::Text(s@),
            PropertyValue::Flag(b) => ValueShape::Flag(*b),
            PropertyValue::Number(n) => ValueShape::Number(*n as int),
        }
    }
}

/// The wire spelling of a node type.
pub open spec fn type_name_of(t: MenuItemType) -> Seq<char> {
    match t {
        MenuItemType::Standard => "standard"@,
        MenuItemType::Separator => "separator"@,
    }
}

/// The wire spelling of a toggle type.
pub open spec fn toggle_name_of(t: MenuToggleType) -> Seq<char> {
    match t {
        MenuToggleType::Checkmark => "checkmark"@,
        MenuToggleType::Radio => "radio"@,
    }
}

/// The wire value a property serializes to.
pub open spec fn prop_value(p: PropShape) -> ValueShape {
    match p {
        PropShape::Type(t) => ValueShape::Text(type_name_of(t)),
        PropShape::Label(l) => ValueShape::Text(l),
        PropShape::Enabled(b) => ValueShape::Flag(b),
        PropShape::Visible(b) => ValueShape::Flag(b),
        PropShape::ToggleType(t) => ValueShape::Text(toggle_name_of(t)),
        PropShape::ToggleState(s) => ValueShape::Number(s),
        PropShape::ChildrenDisplay => ValueShape::Text("submenu"@),
    }
}

impl MenuProperty {
    /// The wire value of this property.
    pub fn to_value(&self) -> (v: PropertyValue)
        ensures
            v@ == prop_value(self@),
    {
        match self {
            MenuProperty::Type(MenuItemType::Standard) => PropertyValue::Text(
                String::from_str("standard"),
            ),
            MenuProperty::Type(MenuItemType::Separator) => PropertyValue::Text(
                String::from_str("separator"),
            ),
            MenuProperty::Label(l) => PropertyValue::Text(l.clone()),
            MenuProperty::Enabled(b) => PropertyValue::Flag(*b),
            MenuProperty::Visible(b) => PropertyValue::Flag(*b),
            MenuProperty::ToggleType(MenuToggleType::Checkmark) => PropertyValue::Text(
                String::from_str("checkmark"),
            ),
            MenuProperty::ToggleType(MenuToggleType::Radio) => PropertyValue::Text(
                String::from_str("radio"),
            ),
            MenuProperty::ToggleState(s) => PropertyValue::Number(*s),
            MenuProperty::ChildrenDisplay => PropertyValue::Text(String::from_str("submenu")),
        }
    }

    /// A fresh property holding the same name and value.
    pub fn duplicate(&self) -> (r: Self)
        ensures
            r@ == self@,
    {
        match self {
            MenuProperty::Type(t) => MenuProperty::Type(*t),
            MenuProperty::Label(l) => MenuProperty::Label(l.clone()),
            MenuProperty::Enabled(b) => MenuProperty::Enabled(*b),
            MenuProperty::Visible(b) => MenuProperty::Visible(*b),
            MenuProperty::ToggleType(t) => MenuProperty::ToggleType(*t),
            MenuProperty::ToggleState(s) => MenuProperty::ToggleState(*s),
            MenuProperty::ChildrenDisplay => MenuProperty::ChildrenDisplay,
        }
    }
}

/// The shapes of a list of requested property names.
pub open spec fn names_shape(names: Seq<String>) -> Seq<Seq<char>> {
    names.map_values(|s: String| s@)
}

/// Property filtering: an empty request means every property; otherwise
/// only the properties whose wire name was requested are kept.
pub open spec fn filter_props(props: Seq<PropShape>, names: Seq<Seq<char>>) -> Seq<PropShape> {
    if names.len() == 0 {
        props
    } else {
        props.filter(|p: PropShape| names.contains(prop_name(p)))
    }
}

proof fn lemma_filter_props_push(props: Seq<PropShape>, names: Seq<Seq<char>>, p: PropShape)
    requires
        names.len() > 0,
    ensures
        filter_props(props.push(p), names) == if names.contains(prop_name(p)) {
            filter_props(props, names).push(p)
        } else {
            filter_props(props, names)
        },
{
    reveal(Seq::filter);
    assert(props.push(p).drop_last() =~= props);
    assert(props.push(p).last() == p);
}

/// Whether the wire name of `prop` is among the requested names.
#[verifier::loop_isolation(false)]
fn name_requested(names: &Vec<String>, prop: &MenuProperty) -> (r: bool)
    ensures
        r == names_shape(names@).contains(prop_name(prop@)),
{
    let key = prop.name();
    let mut j: usize = 0;
    while j < names.len()
        invariant
            0 <= j <= names@.len(),
            forall|t: int| 0 <= t < j ==> names_shape(names@)[t] != prop_name(prop@),
        decreases names@.len() - j,
    {
        if crate::text::str_eq(names[j].as_str(), key) {
            proof {
                assert(names_shape(names@)[j as int] == prop_name(prop@));
            }
            return true;
        }
        j += 1;
    }
    false
}

/// The property bag of a node filtered by the requested names, as fresh
/// values.
#[verifier::loop_isolation(false)]
pub(crate) fn filtered_properties(props: &Vec<MenuProperty>, names: &Vec<String>) -> (r: Vec<MenuProperty>)
    ensures
        r@.map_values(|p: MenuProperty| p@) == filter_props(
            props@.map_values(|p: MenuProperty| p@),
            names_shape(names@),
        ),
{
    let ghost ps = props@.map_values(|p: MenuProperty| p@);
    let mut r: Vec<MenuProperty> = Vec::new();
    if names.len() == 0 {
        let mut i: usize = 0;
        while i < props.len()
            invariant
                0 <= i <= props@.len(),
                r@.map_values(|p: MenuProperty| p@) == ps.take(i as int),
            decreases props@.len() - i,
        {
            r.push(props[i].duplicate());
            proof {
                assert(r@.map_values(|p: MenuProperty| p@) =~= ps.take(i as int + 1));
            }
            i += 1;
        }
        proof {
            assert(ps.take(props@.len() as int) =~= ps);
        }
        r
    } else {
        let mut i: usize = 0;
        while i < props.len()
            invariant
                0 <= i <= props@.len(),
                r@.map_values(|p: MenuProperty| p@) == filter_props(
                    ps.take(i as int),
                    names_shape(names@),
                ),
            decreases props@.len() - i,
        {
            let wanted = name_requested(names, &props[i]);
            proof {
                assert(ps[i as int] == props@[i as int]@);
                assert(ps.take(i as int + 1) =~= ps.take(i as int).push(ps[i as int]));
                lemma_filter_props_push(ps.take(i as int), names_shape(names@), ps[i as int]);
            }
            if wanted {
                r.push(props[i].duplicate());
                proof {
                    assert(r@.map_values(|p: MenuProperty| p@) =~= filter_props(
                        ps.take(i as int),
                        names_shape(names@),
                    ).push(ps[i as int]));
                }
            }
            i += 1;
        }
        proof {
            assert(ps.take(props@.len() as int) =~= ps);
        }
        r
    }
}

/// The first property of `props` published under `name`, looking from
/// position `k` on.
pub open spec fn lookup_prop_from(props: Seq<PropShape>, name: Seq<char>, k: int) -> Option<
    PropShape,
>
    decreases props.len() - k,
{
    if 0 <= k < props.len() {
        if prop_name(props[k]) == name {
            Some(props[k])
        } else {
            lookup_prop_from(props, name, k + 1)
        }
    } else {
        None
    }
}

/// The first property of `props` published under `name`.
pub open spec fn lookup_prop(props: Seq<PropShape>, name: Seq<char>) -> Option<PropShape> {
    lookup_prop_from(props, name, 0)
}

/// What a property query answers: the value of the named property of the
/// named node, and the empty string for an unknown node or name.
pub open spec fn property_value_of(m: MenuShape, id: int, name: Seq<char>) -> ValueShape {
    if 0 <= id < m.nodes.len() {
        match lookup_prop(m.nodes[id].properties, name) {
            Some(p) => prop_value(p),
            None => ValueShape::Text(Seq::empty()),
        }
    } else {
        ValueShape::Text(Seq::empty())
    }
}

/// The filtered property bag of node `id` of `m`, empty for an unknown id.
pub open spec fn group_props_of(m: MenuShape, id: int, names: Seq<Seq<char>>) -> Seq<PropShape> {
    if 0 <= id < m.nodes.len() {
        filter_props(m.nodes[id].properties, names)
    } else {
        Seq::empty()
    }
}

impl DBusMenu {
    /// Answers a single-property query.  Never an error: an unknown node or
    /// property name yields an empty string value.
    #[verifier::loop_isolation(false)]
    pub fn get_property(&self, id: i32, name: &String) -> (v: PropertyValue)
        ensures
            v@ == property_value_of(self@, id as int, name@),
    {
        if id >= 0 && (id as usize) < self.nodes.len() {
            let node = &self.nodes[id as usize];
            let ghost props = node@.properties;
            proof {
                assert(self@.nodes[id as int] == node@);
            }
            let mut k: usize = 0;
            while k < node.properties.len()
                invariant
                    0 <= k <= props.len(),
                    lookup_prop(props, name@) == lookup_prop_from(props, name@, k as int),
                decreases props.len() - k,
            {
                if crate::text::str_eq(node.properties[k].name(), name.as_str()) {
                    proof {
                        assert(props[k as int] == node.properties@[k as int]@);
                    }
                    return node.properties[k].to_value();
                }
                k += 1;
            }
            PropertyValue::Text(String::new())
        } else {
            PropertyValue::Text(String::new())
        }
    }

    /// Answers a grouped property query: one entry per requested id, in
    /// request order, each carrying the node's filtered property bag —
    /// empty for ids absent from the tree.
    #[verifier::loop_isolation(false)]
    pub fn get_group_properties(&self, ids: &Vec<i32>, property_names: &Vec<String>) -> (r: Vec<
        (i32, Vec<MenuProperty>),
    >)
        ensures
            r@.len() == ids@.len(),
            forall|t: int| 0 <= t < ids@.len() ==> (#[trigger] r@[t]).0 == ids@[t],
            forall|t: int|
                0 <= t < ids@.len() ==> (#[trigger] r@[t]).1@.map_values(|p: MenuProperty| p@)
                    == group_props_of(self@, ids@[t] as int, names_shape(property_names@)),
    {
        let mut r: Vec<(i32, Vec<MenuProperty>)> = Vec::new();
        let mut t: usize = 0;
        while t < ids.len()
            invariant
                0 <= t <= ids@.len(),
                r@.len() == t,
                forall|u: int| 0 <= u < t ==> (#[trigger] r@[u]).0 == ids@[u],
                forall|u: int|
                    0 <= u < t ==> (#[trigger] r@[u]).1@.map_values(|p: MenuProperty| p@)
                        == group_props_of(self@, ids@[u] as int, names_shape(property_names@)),
            decreases ids@.len() - t,
        {
            let id = ids[t];
            let props: Vec<MenuProperty> = if id >= 0 && (id as usize) < self.nodes.len() {
                proof {
                    assert(self@.nodes[id as int] == self.nodes@[id as int]@);
                }
                filtered_properties(&self.nodes[id as usize].properties, property_names)
            } else {
                Vec::new()
            };
            r.push((id, props));
            t += 1;
        }
        r
    }
}

// ---------------------------------------------------------------------------
// Determinism of the builder.
// ---------------------------------------------------------------------------

/// Entries of equal shape attach identically: the walk reads nothing but
/// the shape.
proof fn lemma_add_item_shape(m: MenuShape, parent: int, x: TrayMenuItem, y: TrayMenuItem)
    requires
        item_shape(x) == item_shape(y),
    ensures
        add_item_spec(m, parent, x) == add_item_spec(m, parent, y),
    decreases x, 0int, 0int,
{
    match x {
        TrayMenuItem::Separator { .. } => {
            match y {
                TrayMenuItem::Separator { .. } => {},
                TrayMenuItem::Submenu { .. } => {
                    assert(false);
                },
            }
        },
        TrayMenuItem::Submenu { id: xid, label: xlabel, toggle_type: xtoggle, children: xchildren } => {
            match y {
                TrayMenuItem::Separator { .. } => {
                    assert(false);
                },
                TrayMenuItem::Submenu {
                    id: yid,
                    label: ylabel,
                    toggle_type: ytoggle,
                    children: ychildren,
                } => {
                    assert(xid@ == yid@ && xlabel@ == ylabel@ && xtoggle == ytoggle
                        && item_shapes_from(xchildren@, 0) == item_shapes_from(ychildren@, 0));
                    let id = m.nodes.len() as int;
                    let m1 = attach_node(m, parent, Some(xid@), submenu_props(xlabel@, xtoggle));
                    lemma_add_items_shape(m1, id, xchildren@, ychildren@, 0);
                },
            }
        },
    }
}

/// Sibling runs of equal shape attach identically, position for position.
proof fn lemma_add_items_shape(
    m: MenuShape,
    parent: int,
    xs: Seq<TrayMenuItem>,
    ys: Seq<TrayMenuItem>,
    k: int,
)
    requires
        item_shapes_from(xs, k) == item_shapes_from(ys, k),
    ensures
        add_items_spec(m, parent, xs, k) == add_items_spec(m, parent, ys, k),
    decreases xs, 1int, xs.len() - k,
{
    if 0 <= k < xs.len() {
        assert(item_shapes_from(xs, k)[0] == item_shape(xs[k]));
        assert(0 <= k < ys.len()) by {
            if !(k < ys.len()) {
                assert(item_shapes_from(ys, k).len() == 0);
                assert(item_shapes_from(xs, k).len() >= 1);
            }
        }
        assert(item_shapes_from(ys, k)[0] == item_shape(ys[k]));
        assert(item_shape(xs[k]) == item_shape(ys[k]));
        assert(item_shapes_from(xs, k + 1) =~= item_shapes_from(ys, k + 1)) by {
            lemma_item_shapes_from(xs, k);
            lemma_item_shapes_from(ys, k);
            lemma_item_shapes_from(xs, k + 1);
            lemma_item_shapes_from(ys, k + 1);
            assert forall|j: int|
                0 <= j < item_shapes_from(xs, k + 1).len() implies #[trigger] item_shapes_from(
                xs,
                k + 1,
            )[j] == item_shapes_from(ys, k + 1)[j] by {
                assert(item_shapes_from(xs, k)[j + 1] == item_shape(xs[k + 1 + j]));
                assert(item_shapes_from(ys, k)[j + 1] == item_shape(ys[k + 1 + j]));
            }
        }
        lemma_add_item_shape(m, parent, xs[k], ys[k]);
        lemma_add_items_shape(add_item_spec(m, parent, xs[k]), parent, xs, ys, k + 1);
        assert(add_items_spec(add_item_spec(m, parent, ys[k]), parent, ys, k + 1)
            == add_items_spec(m, parent, ys, k));
    } else {
        assert(add_items_spec(m, parent, xs, k) == m);
        if 0 <= k < ys.len() {
            assert(item_shapes_from(ys, k).len() >= 1);
            assert(item_shapes_from(xs, k).len() == 0);
        }
        assert(add_items_spec(m, parent, ys, k) == m);
    }
}

/// Law: rebuilding the menu tree from entry lists of identical shape
/// yields the identical node arena — in particular, numeric ids are
/// assigned position for position by the traversal alone, never from
/// caller ids, the clock or the environment.
pub proof fn lemma_build_deterministic(a: Seq<TrayMenuItem>, b: Seq<TrayMenuItem>)
    requires
        item_shapes(a) == item_shapes(b),
    ensures
        build_menu(a) == build_menu(b),
{
    lemma_add_items_shape(empty_menu(), 0, a, b, 0);
}

} // verus!
