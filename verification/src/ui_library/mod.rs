//! The widget tree: node kinds, identity keys, and the common protocol
//! (measure, layout, rebuild, draw, event dispatch) every node answers to.
//!
//! The tree is a closed sum over the node kinds. A node is either a box
//! primitive that owns its children directly, or a compound node that
//! describes itself through a cached build: the subtree its most recent
//! rebuild produced.

pub mod compound;
pub mod container;
pub mod expanded;
pub mod laws;
pub mod list;
pub mod padding;
pub mod sized_box;

use vstd::prelude::*;

use crate::event_handlers::HandledEventInfo;
use crate::graphics::{cadd, fill_rect_commands, DrawCommand, Position, Size};
use crate::state::{StateManager, StateValue};
use crate::App;
use self::laws::{
    lemma_any_captures_index, lemma_capture_key_seq_at, lemma_crank_seq_bound,
    lemma_expands_any_index, lemma_has_keys_seq, lemma_is_built_seq, lemma_rebuilt_from_weq,
    lemma_rebuilt_from_mono, lemma_same_skeleton_seq_index, lemma_skeleton_measures,
    lemma_skeleton_seq_measures,
    lemma_weq_crank, lemma_weq_refl, lemma_weq_seq_index, lemma_weq_skeleton,
};
use compound::button::Button;
use compound::hoverable::{Hoverable, HoverableState};
use container::Container;
use expanded::Expanded;
use list::List;
use padding::Padding;
use sized_box::SizedBox;

verus! {

/// The type tag a node contributes to its identity key.
#[derive(Clone, Copy, Debug, PartialEq, Eq, Structural)]
pub enum WidgetTag {
    App,
    Button,
    Container,
    Expanded,
    Hoverable,
    List,
    Padding,
    SizedBox,
}

/// One step of an identity key: either a node's type tag, or the index of
/// the traversal step that led to it.
#[derive(Clone, Copy, Debug, PartialEq, Eq, Structural)]
pub enum KeySeg {
    Tag(WidgetTag),
    Index(usize),
}

/// A node's structural identity: the path of type tags and child indices
/// from the root down to the node. Two nodes that occupy the same
/// structural position in consecutive rebuilds receive equal keys,
/// whatever data they carry.
#[derive(Debug)]
pub struct Key {
    pub segments: Vec<KeySeg>,
}

impl View for Key {
    type V = Seq<KeySeg>;

    open spec fn view(&self) -> Seq<KeySeg> {
        self.segments@
    }
}

impl Key {
    /// An empty path: the parent key of the root node.
    pub fn new() -> (r: Self)
        ensures
            r@ == Seq::<KeySeg>::empty(),
    {
        Key { segments: Vec::new() }
    }

    /// An independent copy of this key.
    pub fn duplicate(&self) -> (r: Self)
        ensures
            r@ == self@,
    {
        let mut segments: Vec<KeySeg> = Vec::new();
        let mut i: usize = 0;
        while i < self.segments.len()
            invariant
                i <= self.segments.len(),
                segments@ =~= self.segments@.subrange(0, i as int),
            decreases self.segments.len() - i,
        {
            segments.push(self.segments[i]);
            i = i + 1;
        }
        proof {
            assert(segments@ =~= self@);
        }
        Key { segments }
    }

    /// This key extended by one segment.
    pub fn child(&self, seg: KeySeg) -> (r: Self)
        ensures
            r@ == self@.push(seg),
    {
        let mut r = self.duplicate();
        r.segments.push(seg);
        r
    }

    /// Whether two keys name the same structural position.
    pub fn same_key(&self, other: &Key) -> (r: bool)
        ensures
            r == (self@ =~= other@),
    {
        if self.segments.len() != other.segments.len() {
            return false;
        }
        let mut i: usize = 0;
        while i < self.segments.len()
            invariant
                i <= self.segments.len(),
                self.segments.len() == other.segments.len(),
                forall|j: int| 0 <= j < i ==> self.segments@[j] == other.segments@[j],
            decreases self.segments.len() - i,
        {
            if !(self.segments[i] == other.segments[i]) {
                return false;
            }
            i = i + 1;
        }
        true
    }
}

/// The fields every box-model node carries: its identity key (absent until
/// the first rebuild assigns it), its position relative to its parent, and
/// the space constraint its parent most recently handed down.
#[derive(Debug)]
pub struct WidgetData {
    pub key: Option<Key>,
    pub position: Position,
    pub available_space: Size,
}

impl WidgetData {
    /// The fields of a freshly described node, before any rebuild or
    /// layout has visited it.
    pub open spec fn spec_new() -> WidgetData {
        WidgetData { key: None, position: Position::spec_origin(), available_space: Size::spec_zero() }
    }

    pub fn new() -> (r: Self)
        ensures
            r == WidgetData::spec_new(),
    {
        WidgetData { key: None, position: Position { x: 0, y: 0 }, available_space: Size { width: 0, height: 0 } }
    }
}

/// `WidgetData` plus the cached build: the fully materialised subtree the
/// most recent rebuild produced for a compound node. Absent until the
/// first rebuild.
#[derive(Debug)]
pub struct CompoundWidgetData {
    pub key: Option<Key>,
    pub cached_build: Option<Box<Widget>>,
    pub position: Position,
    pub available_space: Size,
}

impl CompoundWidgetData {
    /// The fields of a freshly described compound node.
    pub open spec fn spec_new() -> CompoundWidgetData {
        CompoundWidgetData {
            key: None,
            cached_build: None,
            position: Position::spec_origin(),
            available_space: Size::spec_zero(),
        }
    }

    pub fn new() -> (r: Self)
        ensures
            r == CompoundWidgetData::spec_new(),
    {
        CompoundWidgetData {
            key: None,
            cached_build: None,
            position: Position { x: 0, y: 0 },
            available_space: Size { width: 0, height: 0 },
        }
    }
}

/// What a stateful node's event handler reports back to the dispatch
/// machinery: whether it captured the event, and whether its subtree must
/// be rebuilt before the next layout or draw.
#[derive(Clone, Copy, Debug, PartialEq, Eq, Structural)]
pub struct StatefulWidgetEventHandlerInfo {
    pub was_captured: bool,
    pub needs_rebuild: bool,
}

impl StatefulWidgetEventHandlerInfo {
    pub fn new() -> (r: Self)
        ensures
            !r.was_captured,
            !r.needs_rebuild,
    {
        StatefulWidgetEventHandlerInfo { was_captured: false, needs_rebuild: false }
    }
}

/// A node of the UI tree.
#[derive(Debug)]
pub enum Widget {
    App(App),
    Button(Button),
    Container(Container),
    Expanded(Expanded),
    Hoverable(Hoverable),
    List(List),
    Padding(Padding),
    SizedBox(SizedBox),
}

impl Widget {
    /// The type tag this node contributes to its identity key.
    pub open spec fn tag(self) -> WidgetTag {
        match self {
            Widget::App(_) => WidgetTag::App,
            Widget::Button(_) => WidgetTag::Button,
            Widget::Container(_) => WidgetTag::Container,
            Widget::Expanded(_) => WidgetTag::Expanded,
            Widget::Hoverable(_) => WidgetTag::Hoverable,
            Widget::List(_) => WidgetTag::List,
            Widget::Padding(_) => WidgetTag::Padding,
            Widget::SizedBox(_) => WidgetTag::SizedBox,
        }
    }

    /// The node's identity key, as a segment path, if one was assigned.
    pub open spec fn skey(self) -> Option<Seq<KeySeg>> {
        match self.data_key() {
            Some(k) => Some(k@),
            None => None,
        }
    }

    /// The stored key.
    pub open spec fn data_key(self) -> Option<Key> {
        match self {
            Widget::App(w) => w.data.key,
            Widget::Button(w) => w.data.key,
            Widget::Container(w) => w.data.key,
            Widget::Expanded(w) => w.data.key,
            Widget::Hoverable(w) => w.data.key,
            Widget::List(w) => w.data.key,
            Widget::Padding(w) => w.data.key,
            Widget::SizedBox(w) => w.data.key,
        }
    }

    /// The node's position, relative to its parent.
    pub open spec fn pos(self) -> Position {
        match self {
            Widget::App(w) => w.data.position,
            Widget::Button(w) => w.data.position,
            Widget::Container(w) => w.data.position,
            Widget::Expanded(w) => w.data.position,
            Widget::Hoverable(w) => w.data.position,
            Widget::List(w) => w.data.position,
            Widget::Padding(w) => w.data.position,
            Widget::SizedBox(w) => w.data.position,
        }
    }

    /// The space constraint the node's parent most recently committed.
    pub open spec fn avail(self) -> Size {
        match self {
            Widget::App(w) => w.data.available_space,
            Widget::Button(w) => w.data.available_space,
            Widget::Container(w) => w.data.available_space,
            Widget::Expanded(w) => w.data.available_space,
            Widget::Hoverable(w) => w.data.available_space,
            Widget::List(w) => w.data.available_space,
            Widget::Padding(w) => w.data.available_space,
            Widget::SizedBox(w) => w.data.available_space,
        }
    }

    /// The node's identity key. Reading the key of a node the rebuild
    /// protocol has not visited is a programming error, so callers must
    /// show one was assigned.
    pub fn get_key(&self) -> (r: &Key)
        requires
            self.data_key() is Some,
        ensures
            Some(*r) == self.data_key(),
    {
        let data_key = match self {
            Widget::App(w) => &w.data.key,
            Widget::Button(w) => &w.data.key,
            Widget::Container(w) => &w.data.key,
            Widget::Expanded(w) => &w.data.key,
            Widget::Hoverable(w) => &w.data.key,
            Widget::List(w) => &w.data.key,
            Widget::Padding(w) => &w.data.key,
            Widget::SizedBox(w) => &w.data.key,
        };
        match data_key {
            Some(k) => k,
            None => vstd::pervasive::unreached(),
        }
    }

    /// Structural equality of two keys-if-present.
    pub open spec fn opt_key_eq(a: Option<Key>, b: Option<Key>) -> bool {
        match (a, b) {
            (Option::None, Option::None) => true,
            (Option::Some(ka), Option::Some(kb)) => ka@ == kb@,
            _ => false,
        }
    }

    /// Equality of the shared node fields, up to key representation.
    pub open spec fn data_eq(a: WidgetData, b: WidgetData) -> bool {
        &&& Widget::opt_key_eq(a.key, b.key)
        &&& a.position == b.position
        &&& a.available_space == b.available_space
    }

    /// Structural equality of two trees: the same kinds, configurations,
    /// keys, committed geometry, children and cached builds throughout.
    /// This is the equality the contracts use; it identifies trees that
    /// no observation can tell apart.
    pub open spec fn weq(a: Widget, b: Widget) -> bool
        decreases a, 1nat,
    {
        match (a, b) {
            (Widget::App(x), Widget::App(y)) => {
                &&& Widget::opt_key_eq(x.data.key, y.data.key)
                &&& x.data.position == y.data.position
                &&& x.data.available_space == y.data.available_space
                &&& match (x.data.cached_build, y.data.cached_build) {
                    (Option::None, Option::None) => true,
                    (Option::Some(p), Option::Some(q)) => Widget::weq(*p, *q),
                    _ => false,
                }
            },
            (Widget::Button(x), Widget::Button(y)) => {
                &&& Widget::opt_key_eq(x.data.key, y.data.key)
                &&& x.data.position == y.data.position
                &&& x.data.available_space == y.data.available_space
                &&& match (x.data.cached_build, y.data.cached_build) {
                    (Option::None, Option::None) => true,
                    (Option::Some(p), Option::Some(q)) => Widget::weq(*p, *q),
                    _ => false,
                }
                &&& x.background_color == y.background_color
                &&& x.hovered_background_color == y.hovered_background_color
            },
            (Widget::Container(x), Widget::Container(y)) => {
                &&& Widget::data_eq(x.data, y.data)
                &&& x.background == y.background
                &&& Widget::weq(*x.child, *y.child)
            },
            (Widget::Expanded(x), Widget::Expanded(y)) => Widget::data_eq(x.data, y.data),
            (Widget::Hoverable(x), Widget::Hoverable(y)) => {
                &&& Widget::opt_key_eq(x.data.key, y.data.key)
                &&& x.data.position == y.data.position
                &&& x.data.available_space == y.data.available_space
                &&& match (x.data.cached_build, y.data.cached_build) {
                    (Option::None, Option::None) => true,
                    (Option::Some(p), Option::Some(q)) => Widget::weq(*p, *q),
                    _ => false,
                }
                &&& Widget::weq(*x.normal_child, *y.normal_child)
                &&& Widget::weq(*x.hovered_child, *y.hovered_child)
            },
            (Widget::List(x), Widget::List(y)) => {
                &&& Widget::data_eq(x.data, y.data)
                &&& x.direction == y.direction
                &&& x.main_axis_alignment == y.main_axis_alignment
                &&& x.cross_axis_alignment == y.cross_axis_alignment
                &&& x.main_axis_size == y.main_axis_size
                &&& x.cross_axis_size == y.cross_axis_size
                &&& Widget::weq_seq(x.children@, y.children@)
            },
            (Widget::Padding(x), Widget::Padding(y)) => {
                &&& Widget::data_eq(x.data, y.data)
                &&& x.padding == y.padding
                &&& match (x.child, y.child) {
                    (Option::None, Option::None) => true,
                    (Option::Some(p), Option::Some(q)) => Widget::weq(*p, *q),
                    _ => false,
                }
            },
            (Widget::SizedBox(x), Widget::SizedBox(y)) => {
                &&& Widget::data_eq(x.data, y.data)
                &&& x.size == y.size
                &&& Widget::weq(*x.child, *y.child)
            },
            _ => false,
        }
    }

    /// Pairwise structural equality of two child sequences.
    pub open spec fn weq_seq(a: Seq<Widget>, b: Seq<Widget>) -> bool
        decreases a, 0nat,
    {
        &&& a.len() == b.len()
        &&& (a.len() == 0 || {
            &&& Widget::weq(a.last(), b.last())
            &&& Widget::weq_seq(a.drop_last(), b.drop_last())
        })
    }

    /// Structural equality of two optional subtrees.
    pub open spec fn weq_opt_box(a: Option<Box<Widget>>, b: Option<Box<Widget>>) -> bool
        decreases a, 0nat,
    {
        match (a, b) {
            (Option::None, Option::None) => true,
            (Option::Some(x), Option::Some(y)) => Widget::weq(*x, *y),
            _ => false,
        }
    }

    /// Equality of everything but committed geometry: the same kinds,
    /// configurations, keys, children and cached builds throughout, while
    /// stored positions and space constraints may differ. Layout changes
    /// a tree only up to this relation.
    pub open spec fn same_skeleton(a: Widget, b: Widget) -> bool
        decreases a, 1nat,
    {
        match (a, b) {
            (Widget::App(x), Widget::App(y)) => {
                &&& Widget::opt_key_eq(x.data.key, y.data.key)
                &&& match (x.data.cached_build, y.data.cached_build) {
                    (Option::None, Option::None) => true,
                    (Option::Some(p), Option::Some(q)) => Widget::same_skeleton(*p, *q),
                    _ => false,
                }
            },
            (Widget::Button(x), Widget::Button(y)) => {
                &&& Widget::opt_key_eq(x.data.key, y.data.key)
                &&& x.background_color == y.background_color
                &&& x.hovered_background_color == y.hovered_background_color
                &&& match (x.data.cached_build, y.data.cached_build) {
                    (Option::None, Option::None) => true,
                    (Option::Some(p), Option::Some(q)) => Widget::same_skeleton(*p, *q),
                    _ => false,
                }
            },
            (Widget::Container(x), Widget::Container(y)) => {
                &&& Widget::opt_key_eq(x.data.key, y.data.key)
                &&& x.background == y.background
                &&& Widget::same_skeleton(*x.child, *y.child)
            },
            (Widget::Expanded(x), Widget::Expanded(y)) => Widget::opt_key_eq(x.data.key, y.data.key),
            (Widget::Hoverable(x), Widget::Hoverable(y)) => {
                &&& Widget::opt_key_eq(x.data.key, y.data.key)
                &&& Widget::weq(*x.normal_child, *y.normal_child)
                &&& Widget::weq(*x.hovered_child, *y.hovered_child)
                &&& match (x.data.cached_build, y.data.cached_build) {
                    (Option::None, Option::None) => true,
                    (Option::Some(p), Option::Some(q)) => Widget::same_skeleton(*p, *q),
                    _ => false,
                }
            },
            (Widget::List(x), Widget::List(y)) => {
                &&& Widget::opt_key_eq(x.data.key, y.data.key)
                &&& x.direction == y.direction
                &&& x.main_axis_alignment == y.main_axis_alignment
                &&& x.cross_axis_alignment == y.cross_axis_alignment
                &&& x.main_axis_size == y.main_axis_size
                &&& x.cross_axis_size == y.cross_axis_size
                &&& Widget::same_skeleton_seq(x.children@, y.children@)
            },
            (Widget::Padding(x), Widget::Padding(y)) => {
                &&& Widget::opt_key_eq(x.data.key, y.data.key)
                &&& x.padding == y.padding
                &&& match (x.child, y.child) {
                    (Option::None, Option::None) => true,
                    (Option::Some(p), Option::Some(q)) => Widget::same_skeleton(*p, *q),
                    _ => false,
                }
            },
            (Widget::SizedBox(x), Widget::SizedBox(y)) => {
                &&& Widget::opt_key_eq(x.data.key, y.data.key)
                &&& x.size == y.size
                &&& Widget::same_skeleton(*x.child, *y.child)
            },
            _ => false,
        }
    }

    /// Pairwise skeleton equality of two child sequences.
    pub open spec fn same_skeleton_seq(a: Seq<Widget>, b: Seq<Widget>) -> bool
        decreases a, 0nat,
    {
        &&& a.len() == b.len()
        &&& (a.len() == 0 || {
            &&& Widget::same_skeleton(a.last(), b.last())
            &&& Widget::same_skeleton_seq(a.drop_last(), b.drop_last())
        })
    }

    /// Whether the node claims the remaining main-axis space of an
    /// enclosing list: an expanding box does, a fixed-size box never
    /// does, and every other node expands exactly when some child does.
    pub open spec fn expands(self) -> bool
        decreases self, 1nat,
    {
        match self {
            Widget::App(w) => w.data.cached_build matches Some(b) && Widget::expands(*b),
            Widget::Button(w) => w.data.cached_build matches Some(b) && Widget::expands(*b),
            Widget::Container(w) => Widget::expands(*w.child),
            Widget::Expanded(_) => true,
            Widget::Hoverable(w) => w.data.cached_build matches Some(b) && Widget::expands(*b),
            Widget::List(w) => Widget::expands_any(w.children@),
            Widget::Padding(w) => w.child matches Some(c) && Widget::expands(*c),
            Widget::SizedBox(_) => false,
        }
    }

    /// Whether any node of the sequence expands.
    pub open spec fn expands_any(children: Seq<Widget>) -> bool
        decreases children, 0nat,
    {
        children.len() != 0 && (Widget::expands(children.last()) || Widget::expands_any(
            children.drop_last(),
        ))
    }

    /// Whether every compound node of the tree holds a cached build:
    /// true after a rebuild, and required by every pass that walks the
    /// tree (measure, layout, draw, dispatch).
    pub open spec fn is_built(self) -> bool
        decreases self, 1nat,
    {
        match self {
            Widget::App(w) => w.data.cached_build matches Some(b) && Widget::is_built(*b),
            Widget::Button(w) => w.data.cached_build matches Some(b) && Widget::is_built(*b),
            Widget::Container(w) => Widget::is_built(*w.child),
            Widget::Expanded(_) => true,
            Widget::Hoverable(w) => w.data.cached_build matches Some(b) && Widget::is_built(*b),
            Widget::List(w) => Widget::is_built_seq(w.children@),
            Widget::Padding(w) => match w.child {
                Option::Some(c) => Widget::is_built(*c),
                Option::None => true,
            },
            Widget::SizedBox(w) => Widget::is_built(*w.child),
        }
    }

    /// Whether every compound node of every tree in the sequence holds a
    /// cached build.
    pub open spec fn is_built_seq(children: Seq<Widget>) -> bool
        decreases children, 0nat,
    {
        children.len() == 0 || (Widget::is_built(children.last()) && Widget::is_built_seq(
            children.drop_last(),
        ))
    }

    /// Whether every node of the tree, cached builds included, carries an
    /// identity key: true after a rebuild.
    pub open spec fn has_keys(self) -> bool
        decreases self, 1nat,
    {
        self.data_key() is Some && match self {
            Widget::App(w) => match w.data.cached_build {
                Option::Some(b) => Widget::has_keys(*b),
                Option::None => true,
            },
            Widget::Button(w) => match w.data.cached_build {
                Option::Some(b) => Widget::has_keys(*b),
                Option::None => true,
            },
            Widget::Container(w) => Widget::has_keys(*w.child),
            Widget::Expanded(_) => true,
            Widget::Hoverable(w) => match w.data.cached_build {
                Option::Some(b) => Widget::has_keys(*b),
                Option::None => true,
            },
            Widget::List(w) => Widget::has_keys_seq(w.children@),
            Widget::Padding(w) => match w.child {
                Option::Some(c) => Widget::has_keys(*c),
                Option::None => true,
            },
            Widget::SizedBox(w) => Widget::has_keys(*w.child),
        }
    }

    /// Whether every node of every tree in the sequence carries a key.
    pub open spec fn has_keys_seq(children: Seq<Widget>) -> bool
        decreases children, 0nat,
    {
        children.len() == 0 || (Widget::has_keys(children.last()) && Widget::has_keys_seq(
            children.drop_last(),
        ))
    }

    /// A tree both built and keyed: what a rebuild establishes and every
    /// later pass relies on.
    pub open spec fn ready(self) -> bool {
        self.is_built() && self.has_keys()
    }

    /// The node's natural size under a hypothetical constraint: a pure
    /// function of the constraint and the node's own configuration and
    /// children, independent of any committed geometry.
    ///
    /// A fixed-size box reports its fixed size regardless of the
    /// constraint; an expanding box reports the whole constraint; a
    /// padded box reports its child's size under the reduced constraint
    /// plus the inset; a backdrop reports its child's size; a list
    /// reports the pairwise reduction of its children (sum along the main
    /// axis, maximum across it), each axis widened to the constraint when
    /// the list's sizing for that axis is greedy; a compound node reports
    /// the size of its cached build, or nothing while it has none.
    pub open spec fn nat_size(self, available_space: Size) -> Size
        decreases self, 1nat,
    {
        match self {
            Widget::App(w) => match w.data.cached_build {
                Option::Some(b) => Widget::nat_size(*b, available_space),
                Option::None => Size::spec_zero(),
            },
            Widget::Button(w) => match w.data.cached_build {
                Option::Some(b) => Widget::nat_size(*b, available_space),
                Option::None => Size::spec_zero(),
            },
            Widget::Container(w) => Widget::nat_size(*w.child, available_space),
            Widget::Expanded(_) => available_space,
            Widget::Hoverable(w) => match w.data.cached_build {
                Option::Some(b) => Widget::nat_size(*b, available_space),
                Option::None => Size::spec_zero(),
            },
            Widget::List(w) => {
                let total = Widget::total_natural(w.children@, available_space, w.direction);
                let main_real = match w.main_axis_size {
                    list::MainAxisSize::Max => list::main_of(available_space, w.direction),
                    list::MainAxisSize::Min => list::main_of(total, w.direction),
                };
                let cross_real = match w.cross_axis_size {
                    list::CrossAxisSize::Max => list::cross_of(available_space, w.direction),
                    list::CrossAxisSize::Min => list::cross_of(total, w.direction),
                };
                list::size_from_axes(main_real, cross_real, w.direction)
            },
            Widget::Padding(w) => {
                let child_size = match w.child {
                    Option::Some(c) => Widget::nat_size(
                        *c,
                        Padding::spec_child_constraint(w.padding, available_space),
                    ),
                    Option::None => Size::spec_zero(),
                };
                Size {
                    width: cadd(
                        child_size.width as int,
                        cadd(w.padding.left as int, w.padding.right as int),
                    ) as u32,
                    height: cadd(
                        child_size.height as int,
                        cadd(w.padding.top as int, w.padding.bottom as int),
                    ) as u32,
                }
            },
            Widget::SizedBox(w) => w.size,
        }
    }

    /// The pairwise reduction of the children's natural sizes under one
    /// shared constraint: clamped sum along the main axis, maximum along
    /// the cross axis.
    pub open spec fn total_natural(
        children: Seq<Widget>,
        available_space: Size,
        direction: list::ListDirection,
    ) -> Size
        decreases children, 0nat,
    {
        if children.len() == 0 {
            Size::spec_zero()
        } else {
            let acc = Widget::total_natural(children.drop_last(), available_space, direction);
            let s = Widget::nat_size(children.last(), available_space);
            let main = cadd(list::main_of(acc, direction), list::main_of(s, direction));
            let cross = if list::cross_of(acc, direction) >= list::cross_of(s, direction) {
                list::cross_of(acc, direction)
            } else {
                list::cross_of(s, direction)
            };
            list::size_from_axes(main, cross, direction)
        }
    }

    /// The children's natural sizes, one per child, under one shared
    /// constraint.
    pub open spec fn natural_sizes(children: Seq<Widget>, available_space: Size) -> Seq<Size> {
        Seq::new(children.len(), |i: int| Widget::nat_size(children[i], available_space))
    }

    /// Which children expand, one flag per child.
    pub open spec fn expand_flags(children: Seq<Widget>) -> Seq<bool> {
        Seq::new(children.len(), |i: int| Widget::expands(children[i]))
    }

    /// Measure this node under a hypothetical constraint. Measuring
    /// commits nothing: it takes the tree by shared reference and is a
    /// pure function of the constraint and the tree, so a layout query
    /// never alters any node's stored position or committed space.
    #[verifier::loop_isolation(false)]
    pub fn get_size(&self, available_space: &Size) -> (r: Size)
        requires
            self.is_built(),
        ensures
            r == self.nat_size(*available_space),
        decreases *self,
    {
        match self {
            Widget::App(w) => match &w.data.cached_build {
                Some(b) => b.get_size(available_space),
                None => vstd::pervasive::unreached(),
            },
            Widget::Button(w) => match &w.data.cached_build {
                Some(b) => b.get_size(available_space),
                None => vstd::pervasive::unreached(),
            },
            Widget::Container(w) => w.child.get_size(available_space),
            Widget::Expanded(_) => *available_space,
            Widget::Hoverable(w) => match &w.data.cached_build {
                Some(b) => b.get_size(available_space),
                None => vstd::pervasive::unreached(),
            },
            Widget::List(w) => {
                let mut main: u32 = 0;
                let mut cross: u32 = 0;
                let mut i: usize = 0;
                proof {
                    lemma_is_built_seq(w.children@);
                }
                while i < w.children.len()
                    invariant
                        i <= w.children@.len(),
                        forall|j: int| 0 <= j < w.children@.len() ==> Widget::is_built(
                            #[trigger] w.children@[j],
                        ),
                        list::size_from_axes(main as int, cross as int, w.direction)
                            == Widget::total_natural(
                            w.children@.subrange(0, i as int),
                            *available_space,
                            w.direction,
                        ),
                        main as int == list::main_of(
                            Widget::total_natural(
                                w.children@.subrange(0, i as int),
                                *available_space,
                                w.direction,
                            ),
                            w.direction,
                        ),
                        cross as int == list::cross_of(
                            Widget::total_natural(
                                w.children@.subrange(0, i as int),
                                *available_space,
                                w.direction,
                            ),
                            w.direction,
                        ),
                    decreases w.children@.len() - i,
                {
                    let child_size = w.children[i].get_size(available_space);
                    let child_main: u32;
                    let child_cross: u32;
                    match w.direction {
                        list::ListDirection::Column => {
                            child_main = child_size.height;
                            child_cross = child_size.width;
                        },
                        list::ListDirection::Row => {
                            child_main = child_size.width;
                            child_cross = child_size.height;
                        },
                    }
                    let new_main = crate::graphics::sat_add(main, child_main);
                    let new_cross = if cross >= child_cross {
                        cross
                    } else {
                        child_cross
                    };
                    proof {
                        let prefix = w.children@.subrange(0, i as int);
                        let next = w.children@.subrange(0, i + 1 as int);
                        assert(next.drop_last() =~= prefix);
                        assert(next.last() == w.children@[i as int]);
                    }
                    main = new_main;
                    cross = new_cross;
                    i = i + 1;
                }
                proof {
                    assert(w.children@.subrange(0, w.children@.len() as int) =~= w.children@);
                }
                let main_real: u32 = match w.main_axis_size {
                    list::MainAxisSize::Max => match w.direction {
                        list::ListDirection::Column => available_space.height,
                        list::ListDirection::Row => available_space.width,
                    },
                    list::MainAxisSize::Min => main,
                };
                let cross_real: u32 = match w.cross_axis_size {
                    list::CrossAxisSize::Max => match w.direction {
                        list::ListDirection::Column => available_space.width,
                        list::ListDirection::Row => available_space.height,
                    },
                    list::CrossAxisSize::Min => cross,
                };
                match w.direction {
                    list::ListDirection::Column => Size { width: cross_real, height: main_real },
                    list::ListDirection::Row => Size { width: main_real, height: cross_real },
                }
            },
            Widget::Padding(w) => {
                let child_constraint = w.get_available_space_for_child(available_space);
                let child_size = match &w.child {
                    Some(c) => c.get_size(&child_constraint),
                    None => Size { width: 0, height: 0 },
                };
                Size {
                    width: crate::graphics::sat_add(
                        child_size.width,
                        crate::graphics::sat_add(w.padding.left, w.padding.right),
                    ),
                    height: crate::graphics::sat_add(
                        child_size.height,
                        crate::graphics::sat_add(w.padding.top, w.padding.bottom),
                    ),
                }
            },
            Widget::SizedBox(w) => w.size,
        }
    }

    /// Measure this node's width under a hypothetical constraint,
    /// committing nothing.
    pub fn get_width(&self, available_space: &Size) -> (r: u32)
        requires
            self.is_built(),
        ensures
            r == self.nat_size(*available_space).width,
    {
        self.get_size(available_space).width
    }

    /// Measure this node's height under a hypothetical constraint,
    /// committing nothing.
    pub fn get_height(&self, available_space: &Size) -> (r: u32)
        requires
            self.is_built(),
        ensures
            r == self.nat_size(*available_space).height,
    {
        self.get_size(available_space).height
    }

    /// Whether this node claims the remaining main-axis space of an
    /// enclosing list.
    #[verifier::loop_isolation(false)]
    pub fn does_expand(&self) -> (r: bool)
        requires
            self.is_built(),
        ensures
            r == self.expands(),
        decreases *self,
    {
        match self {
            Widget::App(w) => match &w.data.cached_build {
                Some(b) => b.does_expand(),
                None => vstd::pervasive::unreached(),
            },
            Widget::Button(w) => match &w.data.cached_build {
                Some(b) => b.does_expand(),
                None => vstd::pervasive::unreached(),
            },
            Widget::Container(w) => w.child.does_expand(),
            Widget::Expanded(_) => true,
            Widget::Hoverable(w) => match &w.data.cached_build {
                Some(b) => b.does_expand(),
                None => vstd::pervasive::unreached(),
            },
            Widget::List(w) => {
                proof {
                    lemma_is_built_seq(w.children@);
                    lemma_expands_any_index(w.children@);
                }
                let mut i: usize = 0;
                while i < w.children.len()
                    invariant
                        i <= w.children@.len(),
                        forall|j: int| 0 <= j < w.children@.len() ==> Widget::is_built(
                            #[trigger] w.children@[j],
                        ),
                        Widget::expands_any(w.children@) <==> (exists|j: int|
                            0 <= j < w.children@.len() && Widget::expands(#[trigger] w.children@[j])),
                        forall|j: int| 0 <= j < i ==> !Widget::expands(#[trigger] w.children@[j]),
                    decreases w.children@.len() - i,
                {
                    if w.children[i].does_expand() {
                        return true;
                    }
                    i = i + 1;
                }
                false
            },
            Widget::Padding(w) => match &w.child {
                Some(c) => c.does_expand(),
                None => false,
            },
            Widget::SizedBox(_) => false,
        }
    }

    /// An independent copy of this tree, structurally equal to it.
    #[verifier::loop_isolation(false)]
    pub fn deep_clone(&self) -> (r: Widget)
        ensures
            Widget::weq(r, *self),
        decreases *self,
    {
        match self {
            Widget::App(w) => Widget::App(App { data: Widget::clone_compound_data(&w.data) }),
            Widget::Button(w) => Widget::Button(Button {
                data: Widget::clone_compound_data(&w.data),
                background_color: w.background_color,
                hovered_background_color: w.hovered_background_color,
            }),
            Widget::Container(w) => Widget::Container(Container {
                data: Widget::clone_data(&w.data),
                background: w.background,
                child: Box::new(w.child.deep_clone()),
            }),
            Widget::Expanded(w) => Widget::Expanded(Expanded { data: Widget::clone_data(&w.data) }),
            Widget::Hoverable(w) => Widget::Hoverable(Hoverable {
                data: Widget::clone_compound_data(&w.data),
                normal_child: Box::new(w.normal_child.deep_clone()),
                hovered_child: Box::new(w.hovered_child.deep_clone()),
            }),
            Widget::List(w) => {
                let mut children: Vec<Widget> = Vec::new();
                let mut i: usize = 0;
                while i < w.children.len()
                    invariant
                        i <= w.children@.len(),
                        children@.len() == i,
                        forall|j: int| 0 <= j < i ==> Widget::weq(
                            #[trigger] children@[j],
                            w.children@[j],
                        ),
                    decreases w.children@.len() - i,
                {
                    children.push(w.children[i].deep_clone());
                    i = i + 1;
                }
                proof {
                    lemma_weq_seq_index(children@, w.children@);
                }
                Widget::List(List {
                    data: Widget::clone_data(&w.data),
                    direction: w.direction,
                    main_axis_alignment: w.main_axis_alignment,
                    cross_axis_alignment: w.cross_axis_alignment,
                    main_axis_size: w.main_axis_size,
                    cross_axis_size: w.cross_axis_size,
                    children,
                })
            },
            Widget::Padding(w) => {
                let child: Option<Box<Widget>> = match &w.child {
                    Some(c) => Some(Box::new(c.deep_clone())),
                    None => None,
                };
                Widget::Padding(Padding { data: Widget::clone_data(&w.data), padding: w.padding, child })
            },
            Widget::SizedBox(w) => Widget::SizedBox(SizedBox {
                data: Widget::clone_data(&w.data),
                size: w.size,
                child: Box::new(w.child.deep_clone()),
            }),
        }
    }

    /// An independent copy of the shared node fields.
    fn clone_data(data: &WidgetData) -> (r: WidgetData)
        ensures
            Widget::data_eq(r, *data),
    {
        let key: Option<Key> = match &data.key {
            Some(k) => Some(k.duplicate()),
            None => None,
        };
        WidgetData { key, position: data.position, available_space: data.available_space }
    }

    /// An independent copy of a compound node's shared fields, its
    /// cached build included.
    fn clone_compound_data(data: &CompoundWidgetData) -> (r: CompoundWidgetData)
        ensures
            Widget::opt_key_eq(r.key, data.key),
            r.position == data.position,
            r.available_space == data.available_space,
            Widget::weq_opt_box(r.cached_build, data.cached_build),
        decreases *data,
    {
        let key: Option<Key> = match &data.key {
            Some(k) => Some(k.duplicate()),
            None => None,
        };
        let cached_build: Option<Box<Widget>> = match &data.cached_build {
            Some(b) => Some(Box::new(b.deep_clone())),
            None => None,
        };
        CompoundWidgetData {
            key,
            cached_build,
            position: data.position,
            available_space: data.available_space,
        }
    }

    /// Whether the tree's committed geometry is internally consistent
    /// with the layout algorithm: every node's children sit at the
    /// positions and under the constraints that the node's kind and its
    /// own committed constraint dictate.
    ///
    /// Together with skeleton preservation and the root's committed
    /// fields, this pins every position and constraint a layout pass
    /// assigns: a fixed-size box gives its child its fixed size at the
    /// origin; a backdrop passes its own constraint through; a padded box
    /// indents its child by the left and top inset under the reduced
    /// constraint; a compound node wraps its cached build at the origin
    /// under its own constraint; a list assigns each child the rectangle
    /// of the flex algorithm.
    pub open spec fn laid_out(self) -> bool
        decreases self, 1nat,
    {
        match self {
            Widget::App(w) => match w.data.cached_build {
                Option::Some(b) => b.pos() == Position::spec_origin() && b.avail()
                    == w.data.available_space && Widget::laid_out(*b),
                Option::None => false,
            },
            Widget::Button(w) => match w.data.cached_build {
                Option::Some(b) => b.pos() == Position::spec_origin() && b.avail()
                    == w.data.available_space && Widget::laid_out(*b),
                Option::None => false,
            },
            Widget::Container(w) => {
                &&& w.child.pos() == Position::spec_origin()
                &&& w.child.avail() == w.data.available_space
                &&& Widget::laid_out(*w.child)
            },
            Widget::Expanded(_) => true,
            Widget::Hoverable(w) => match w.data.cached_build {
                Option::Some(b) => b.pos() == Position::spec_origin() && b.avail()
                    == w.data.available_space && Widget::laid_out(*b),
                Option::None => false,
            },
            Widget::List(w) => {
                let sizes = Widget::natural_sizes(w.children@, w.data.available_space);
                let flags = Widget::expand_flags(w.children@);
                forall|i: int|
                    0 <= i < w.children@.len() ==> {
                        let rect = list::child_rect(
                            sizes,
                            flags,
                            w.direction,
                            w.main_axis_alignment,
                            w.cross_axis_alignment,
                            w.main_axis_size,
                            w.cross_axis_size,
                            w.data.available_space,
                            i,
                        );
                        &&& (#[trigger] w.children@[i]).pos() == rect.0
                        &&& w.children@[i].avail() == rect.1
                        &&& Widget::laid_out(w.children@[i])
                    }
            },
            Widget::Padding(w) => match w.child {
                Option::Some(c) => {
                    &&& c.pos() == Padding::spec_child_origin(w.padding)
                    &&& c.avail() == Padding::spec_child_constraint(
                        w.padding,
                        w.data.available_space,
                    )
                    &&& Widget::laid_out(*c)
                },
                Option::None => true,
            },
            Widget::SizedBox(w) => {
                &&& w.child.pos() == Position::spec_origin()
                &&& w.child.avail() == w.size
                &&& Widget::laid_out(*w.child)
            },
        }
    }

    /// Commit final geometry: store this node's position and space
    /// constraint and recursively lay out its children under the
    /// constraints its kind dictates. Layout never rebuilds and never
    /// touches keys or configuration: the tree changes only up to
    /// `same_skeleton`, and afterwards its geometry satisfies `laid_out`.
    pub fn set_layout(&mut self, position: Position, available_space: Size)
        requires
            old(self).is_built(),
        ensures
            Widget::same_skeleton(*final(self), *old(self)),
            final(self).pos() == position,
            final(self).avail() == available_space,
            final(self).laid_out(),
            final(self).is_built(),
    {
        let mut tmp = Expanded::new();
        core::mem::swap(self, &mut tmp);
        let result = tmp.layout_run(position, available_space);
        *self = result;
    }

    /// The layout pass on an owned tree; `set_layout` is its in-place
    /// form.
    #[verifier::loop_isolation(false)]
    pub fn layout_run(self, position: Position, available_space: Size) -> (r: Widget)
        requires
            self.is_built(),
        ensures
            Widget::same_skeleton(r, self),
            r.pos() == position,
            r.avail() == available_space,
            r.laid_out(),
            r.is_built(),
        decreases self,
    {
        let ghost orig = self;
        match self {
            Widget::App(w) => {
                let cached = match w.data.cached_build {
                    Some(b) => b,
                    None => vstd::pervasive::unreached(),
                };
                let laid = (*cached).layout_run(Position { x: 0, y: 0 }, available_space);
                Widget::App(App {
                    data: CompoundWidgetData {
                        key: w.data.key,
                        cached_build: Some(Box::new(laid)),
                        position,
                        available_space,
                    },
                })
            },
            Widget::Button(w) => {
                let cached = match w.data.cached_build {
                    Some(b) => b,
                    None => vstd::pervasive::unreached(),
                };
                let laid = (*cached).layout_run(Position { x: 0, y: 0 }, available_space);
                Widget::Button(Button {
                    data: CompoundWidgetData {
                        key: w.data.key,
                        cached_build: Some(Box::new(laid)),
                        position,
                        available_space,
                    },
                    background_color: w.background_color,
                    hovered_background_color: w.hovered_background_color,
                })
            },
            Widget::Container(w) => {
                let laid = (*w.child).layout_run(Position { x: 0, y: 0 }, available_space);
                Widget::Container(Container {
                    data: WidgetData { key: w.data.key, position, available_space },
                    background: w.background,
                    child: Box::new(laid),
                })
            },
            Widget::Expanded(w) => Widget::Expanded(Expanded {
                data: WidgetData { key: w.data.key, position, available_space },
            }),
            Widget::Hoverable(w) => {
                let cached = match w.data.cached_build {
                    Some(b) => b,
                    None => vstd::pervasive::unreached(),
                };
                let laid = (*cached).layout_run(Position { x: 0, y: 0 }, available_space);
                proof {
                    lemma_weq_refl(*w.normal_child);
                    lemma_weq_refl(*w.hovered_child);
                }
                Widget::Hoverable(Hoverable {
                    data: CompoundWidgetData {
                        key: w.data.key,
                        cached_build: Some(Box::new(laid)),
                        position,
                        available_space,
                    },
                    normal_child: w.normal_child,
                    hovered_child: w.hovered_child,
                })
            },
            Widget::List(w) => Widget::layout_list(w, position, available_space),
            Widget::Padding(w) => {
                let child: Option<Box<Widget>> = match w.child {
                    Some(c) => {
                        let constraint = Size {
                            width: crate::graphics::sat_sub(
                                available_space.width,
                                crate::graphics::sat_add(w.padding.left, w.padding.right),
                            ),
                            height: crate::graphics::sat_sub(
                                available_space.height,
                                crate::graphics::sat_add(w.padding.top, w.padding.bottom),
                            ),
                        };
                        let laid = (*c).layout_run(
                            Position { x: w.padding.left, y: w.padding.top },
                            constraint,
                        );
                        Some(Box::new(laid))
                    },
                    None => None,
                };
                Widget::Padding(Padding {
                    data: WidgetData { key: w.data.key, position, available_space },
                    padding: w.padding,
                    child,
                })
            },
            Widget::SizedBox(w) => {
                let laid = (*w.child).layout_run(Position { x: 0, y: 0 }, w.size);
                Widget::SizedBox(SizedBox {
                    data: WidgetData { key: w.data.key, position, available_space },
                    size: w.size,
                    child: Box::new(laid),
                })
            },
        }
    }

    /// The flex algorithm: measure every child under the list's
    /// constraint, grant the single expanding child the remaining
    /// main-axis space, resolve the list's own extent from its sizing
    /// modes, and place each child along the axes according to the two
    /// alignments; then commit each child's rectangle recursively.
    #[verifier::loop_isolation(false)]
    #[verifier::rlimit(100)]
    fn layout_list(w: List, position: Position, available_space: Size) -> (r: Widget)
        requires
            Widget::is_built_seq(w.children@),
        ensures
            Widget::same_skeleton(r, Widget::List(w)),
            r.pos() == position,
            r.avail() == available_space,
            r.laid_out(),
            r.is_built(),
        decreases w,
    {
        let ghost children0 = w.children@;
        let ghost gsizes = Widget::natural_sizes(children0, available_space);
        let ghost gflags = Widget::expand_flags(children0);
        let direction = w.direction;
        let n = w.children.len();
        proof {
            lemma_is_built_seq(children0);
        }

        // Measure every child under the full constraint.
        let mut sizes: Vec<Size> = Vec::new();
        let mut i: usize = 0;
        while i < n
            invariant
                i <= n,
                sizes@.len() == i,
                forall|j: int| 0 <= j < i ==> sizes@[j] == gsizes[j],
            decreases n - i,
        {
            sizes.push(w.children[i].get_size(&available_space));
            i = i + 1;
        }
        proof {
            assert(sizes@ =~= gsizes);
        }

        // Reduce the natural sizes pairwise.
        let mut total_main: u32 = 0;
        let mut total_cross: u32 = 0;
        i = 0;
        while i < n
            invariant
                i <= n,
                total_main as int == list::main_of(
                    list::total_prefix(gsizes, direction, i as int),
                    direction,
                ),
                total_cross as int == list::cross_of(
                    list::total_prefix(gsizes, direction, i as int),
                    direction,
                ),
            decreases n - i,
        {
            let child_main = list::main_axis_of(sizes[i], direction);
            let child_cross = list::cross_axis_of(sizes[i], direction);
            let ghost prev = list::total_prefix(gsizes, direction, i as int);
            total_main = crate::graphics::sat_add(total_main, child_main);
            total_cross = if total_cross >= child_cross {
                total_cross
            } else {
                child_cross
            };
            proof {
                let cur = list::total_prefix(gsizes, direction, i + 1 as int);
                assert(cur == {
                    let main = cadd(
                        list::main_of(prev, direction),
                        list::main_of(gsizes[i as int], direction),
                    );
                    let cross = if list::cross_of(prev, direction) >= list::cross_of(
                        gsizes[i as int],
                        direction,
                    ) {
                        list::cross_of(prev, direction)
                    } else {
                        list::cross_of(gsizes[i as int], direction)
                    };
                    list::size_from_axes(main, cross, direction)
                });
            }
            i = i + 1;
        }
        proof {
            assert(list::total_prefix(gsizes, direction, n as int) == list::total_size(
                gsizes,
                direction,
            ));
        }

        // Find the single expanding child, if any.
        let mut expander: usize = n;
        i = 0;
        while i < n
            invariant
                i <= n,
                expander == n,
                forall|j: int| 0 <= j < i ==> !Widget::expands(#[trigger] children0[j]),
            decreases n - i,
        {
            if w.children[i].does_expand() {
                expander = i;
                break;
            }
            i = i + 1;
        }
        proof {
            assert forall|j: int| 0 <= j < children0.len() implies gflags[j] == Widget::expands(
                #[trigger] children0[j],
            ) by {}
            if expander < n {
                assert(gflags[expander as int]);
                assert(!list::has_expander_before(gflags, expander as int));
                assert(list::has_expander(gflags));
            } else {
                assert(!list::has_expander(gflags));
            }
        }

        // Grant the expanding child the remaining main-axis space.
        let available_main = list::main_axis_of(available_space, direction);
        let adjusted_total_main: u32;
        if expander < n {
            let own_main = list::main_axis_of(sizes[expander], direction);
            let own_cross = list::cross_axis_of(sizes[expander], direction);
            let granted = crate::graphics::sat_sub(
                crate::graphics::sat_add(available_main, own_main),
                total_main,
            );
            let new_size = list::make_size(granted, own_cross, direction);
            sizes.set(expander, new_size);
            adjusted_total_main = available_main;
        } else {
            adjusted_total_main = total_main;
        }
        let ghost gadjusted = list::adjusted_sizes(
            gsizes,
            gflags,
            direction,
            list::main_of(available_space, direction),
        );
        proof {
            assert forall|j: int| 0 <= j < n implies sizes@[j] == gadjusted[j] by {
                if gflags[j] && !list::has_expander_before(gflags, j) {
                    assert(j == expander as int);
                } else {
                    if j == expander as int && expander < n {
                        assert(gflags[j] && !list::has_expander_before(gflags, j));
                    }
                }
            }
            assert(sizes@ =~= gadjusted);
        }

        // Resolve the list's own extent and the main-axis slack.
        let main_real: u32 = match w.main_axis_size {
            list::MainAxisSize::Max => available_main,
            list::MainAxisSize::Min => adjusted_total_main,
        };
        let cross_real: u32 = match w.cross_axis_size {
            list::CrossAxisSize::Max => list::cross_axis_of(available_space, direction),
            list::CrossAxisSize::Min => total_cross,
        };
        let slack: u32 = crate::graphics::sat_sub(main_real, adjusted_total_main);
        proof {
            let placed = list::placement(
                gsizes,
                gflags,
                direction,
                w.main_axis_size,
                w.cross_axis_size,
                available_space,
            );
            assert(placed.0 == gadjusted);
            assert(placed.1 == main_real as int);
            assert(placed.2 == cross_real as int);
            assert(placed.3 == slack as int);
        }

        // Place and commit each child.
        let mut children = w.children;
        let mut out: Vec<Widget> = Vec::new();
        let mut used: u32 = 0;
        i = 0;
        while i < n
            invariant
                i <= n,
                children@ =~= children0.subrange(i as int, n as int),
                out@.len() == i,
                used as int == list::used_before(gadjusted, direction, w.main_axis_alignment, slack as int, i as int),
                forall|j: int| 0 <= j < i ==> Widget::same_skeleton(#[trigger] out@[j], children0[j]),
                forall|j: int|
                    0 <= j < i ==> {
                        let rect = list::child_rect(
                            gsizes,
                            gflags,
                            direction,
                            w.main_axis_alignment,
                            w.cross_axis_alignment,
                            w.main_axis_size,
                            w.cross_axis_size,
                            available_space,
                            j,
                        );
                        &&& (#[trigger] out@[j]).pos() == rect.0
                        &&& out@[j].avail() == rect.1
                        &&& Widget::laid_out(out@[j])
                        &&& out@[j].is_built()
                    },
            decreases n - i,
        {
            let child = children.remove(0);
            proof {
                assert(child == children0[i as int]);
                assert(decreases_to!(w => child));
            }
            let extra: u32 = match w.main_axis_alignment {
                list::MainAxisAlignment::SpaceBetween => {
                    if i == 0 || n <= 1 {
                        0
                    } else {
                        let d: u64 = (slack as u64) / ((n - 1) as u64);
                        proof {
                            assert(d <= slack as u64) by {
                                vstd::arithmetic::div_mod::lemma_div_is_ordered_by_denominator(
                                    slack as int,
                                    1,
                                    (n - 1) as int,
                                );
                            }
                        }
                        d as u32
                    }
                },
                list::MainAxisAlignment::SpaceAround => {
                    if (n as u64) >= (slack as u64) {
                        proof {
                            vstd::arithmetic::div_mod::lemma_basic_div(
                                slack as int,
                                n as int + 1,
                            );
                        }
                        0
                    } else {
                        let d: u64 = (slack as u64) / ((n as u64) + 1);
                        proof {
                            assert(d <= slack as u64) by {
                                vstd::arithmetic::div_mod::lemma_div_is_ordered_by_denominator(
                                    slack as int,
                                    1,
                                    n as int + 1,
                                );
                            }
                        }
                        d as u32
                    }
                },
                _ => 0,
            };
            proof {
                assert(extra as int == list::extra_before(
                    w.main_axis_alignment,
                    slack as int,
                    n as int,
                    i as int,
                ));
            }
            let main_pos: u32 = match w.main_axis_alignment {
                list::MainAxisAlignment::Start => used,
                list::MainAxisAlignment::Center => crate::graphics::sat_add(slack / 2, used),
                list::MainAxisAlignment::End => crate::graphics::sat_add(slack, used),
                list::MainAxisAlignment::SpaceBetween => crate::graphics::sat_add(used, extra),
                list::MainAxisAlignment::SpaceAround => crate::graphics::sat_add(used, extra),
            };
            let child_main = list::main_axis_of(sizes[i], direction);
            let child_cross = list::cross_axis_of(sizes[i], direction);
            let cross_pos: u32 = match w.cross_axis_alignment {
                list::CrossAxisAlignment::Start => 0,
                list::CrossAxisAlignment::Center => crate::graphics::sat_sub(
                    cross_real,
                    child_cross,
                ) / 2,
                list::CrossAxisAlignment::End => crate::graphics::sat_sub(cross_real, child_cross),
            };
            let child_position = list::make_pos(main_pos, cross_pos, direction);
            let laid = child.layout_run(child_position, sizes[i]);
            out.push(laid);
            used = crate::graphics::sat_add(used, crate::graphics::sat_add(extra, child_main));
            proof {
                let rect = list::child_rect(
                    gsizes,
                    gflags,
                    direction,
                    w.main_axis_alignment,
                    w.cross_axis_alignment,
                    w.main_axis_size,
                    w.cross_axis_size,
                    available_space,
                    i as int,
                );
                assert(main_pos as int == list::main_position(
                    gadjusted,
                    direction,
                    w.main_axis_alignment,
                    slack as int,
                    i as int,
                ));
                assert(cross_pos as int == list::cross_position(
                    w.cross_axis_alignment,
                    cross_real as int,
                    list::cross_of(gadjusted[i as int], direction),
                ));
                assert(rect.0 == child_position);
                assert(rect.1 == sizes@[i as int]);
                assert(used as int == list::used_before(
                    gadjusted,
                    direction,
                    w.main_axis_alignment,
                    slack as int,
                    i + 1 as int,
                ));
                assert(children0.subrange(i as int, n as int).remove(0) =~= children0.subrange(
                    i + 1 as int,
                    n as int,
                ));
            }
            i = i + 1;
        }

        let result = Widget::List(List {
            data: WidgetData { key: w.data.key, position, available_space },
            direction: w.direction,
            main_axis_alignment: w.main_axis_alignment,
            cross_axis_alignment: w.cross_axis_alignment,
            main_axis_size: w.main_axis_size,
            cross_axis_size: w.cross_axis_size,
            children: out,
        });
        proof {
            lemma_same_skeleton_seq_index(out@, children0);
            lemma_skeleton_seq_measures(out@, children0);
            lemma_is_built_seq(out@);
        }
        result
    }

    /// The type tag this node contributes to its identity key.
    pub fn key_segment(&self) -> (r: WidgetTag)
        ensures
            r == self.tag(),
    {
        match self {
            Widget::App(_) => WidgetTag::App,
            Widget::Button(_) => WidgetTag::Button,
            Widget::Container(_) => WidgetTag::Container,
            Widget::Expanded(_) => WidgetTag::Expanded,
            Widget::Hoverable(_) => WidgetTag::Hoverable,
            Widget::List(_) => WidgetTag::List,
            Widget::Padding(_) => WidgetTag::Padding,
            Widget::SizedBox(_) => WidgetTag::SizedBox,
        }
    }

    /// An upper bound on how many build indirections a rebuild of this
    /// tree can pass through: a rebuild recurses into the subtree a
    /// compound node freshly builds, which is not a subterm, so the
    /// recursion is measured by this rank (which that subtree strictly
    /// decreases) before tree height.
    pub open spec fn crank(self) -> nat
        decreases self, 1nat,
    {
        match self {
            Widget::App(_) => 3,
            Widget::Button(_) => 2,
            Widget::Container(w) => Widget::crank(*w.child),
            Widget::Expanded(_) => 0,
            Widget::Hoverable(w) => 1 + if Widget::crank(*w.normal_child) >= Widget::crank(
                *w.hovered_child,
            ) {
                Widget::crank(*w.normal_child)
            } else {
                Widget::crank(*w.hovered_child)
            },
            Widget::List(w) => Widget::crank_seq(w.children@),
            Widget::Padding(w) => match w.child {
                Option::Some(c) => Widget::crank(*c),
                Option::None => 0,
            },
            Widget::SizedBox(w) => Widget::crank(*w.child),
        }
    }

    /// The largest rank among a sequence of trees.
    pub open spec fn crank_seq(children: Seq<Widget>) -> nat
        decreases children, 0nat,
    {
        if children.len() == 0 {
            0
        } else {
            if Widget::crank(children.last()) >= Widget::crank_seq(children.drop_last()) {
                Widget::crank(children.last())
            } else {
                Widget::crank_seq(children.drop_last())
            }
        }
    }

    /// What one rebuild pass establishes: `r` is the tree that rebuilding
    /// `w` under `parent_key` produces, with `states` the state store as
    /// it stands when the pass is done.
    ///
    /// Each node's key is its parent path extended by its own type tag;
    /// a child's parent path is its parent's key extended by the child's
    /// index. Configuration and committed geometry pass through
    /// untouched. Every compound node's cached build is the freshly
    /// materialised subtree it describes — for a stateful node, the
    /// subtree chosen by its state in the store — itself rebuilt one
    /// index step below the node.
    pub open spec fn rebuilt_from(
        r: Widget,
        w: Widget,
        parent_key: Seq<KeySeg>,
        states: Map<Seq<KeySeg>, StateValue>,
    ) -> bool
        decreases r, 1nat,
    {
        let key = parent_key.push(KeySeg::Tag(w.tag()));
        &&& r.skey() == Some(key)
        &&& r.pos() == w.pos()
        &&& r.avail() == w.avail()
        &&& match (r, w) {
            (Widget::App(x), Widget::App(_)) => {
                &&& x.data.cached_build matches Some(b)
                &&& exists|t: Widget|
                    #[trigger] crate::App::build_desc(t) && Widget::rebuilt_from(
                        *b,
                        t,
                        key.push(KeySeg::Index(0)),
                        states,
                    )
            },
            (Widget::Button(x), Widget::Button(y)) => {
                &&& x.background_color == y.background_color
                &&& x.hovered_background_color == y.hovered_background_color
                &&& x.data.cached_build matches Some(b)
                &&& Widget::rebuilt_from(
                    *b,
                    Button::spec_build(y),
                    key.push(KeySeg::Index(0)),
                    states,
                )
            },
            (Widget::Container(x), Widget::Container(y)) => {
                &&& x.background == y.background
                &&& Widget::rebuilt_from(*x.child, *y.child, key.push(KeySeg::Index(0)), states)
            },
            (Widget::Expanded(_), Widget::Expanded(_)) => true,
            (Widget::Hoverable(x), Widget::Hoverable(y)) => {
                &&& Widget::weq(*x.normal_child, *y.normal_child)
                &&& Widget::weq(*x.hovered_child, *y.hovered_child)
                &&& states.contains_key(key)
                &&& match states[key] {
                    StateValue::Hoverable(st) => {
                        &&& x.data.cached_build matches Some(b)
                        &&& Widget::rebuilt_from(
                            *b,
                            y.spec_build(st),
                            key.push(KeySeg::Index(0)),
                            states,
                        )
                    },
                }
            },
            (Widget::List(x), Widget::List(y)) => {
                &&& x.direction == y.direction
                &&& x.main_axis_alignment == y.main_axis_alignment
                &&& x.cross_axis_alignment == y.cross_axis_alignment
                &&& x.main_axis_size == y.main_axis_size
                &&& x.cross_axis_size == y.cross_axis_size
                &&& x.children@.len() == y.children@.len()
                &&& forall|i: int|
                    0 <= i < x.children@.len() ==> Widget::rebuilt_from(
                        #[trigger] x.children@[i],
                        y.children@[i],
                        key.push(KeySeg::Index(i as usize)),
                        states,
                    )
            },
            (Widget::Padding(x), Widget::Padding(y)) => {
                &&& x.padding == y.padding
                &&& match (x.child, y.child) {
                    (Option::None, Option::None) => true,
                    (Option::Some(p), Option::Some(q)) => Widget::rebuilt_from(
                        *p,
                        *q,
                        key.push(KeySeg::Index(0)),
                        states,
                    ),
                    _ => false,
                }
            },
            (Widget::SizedBox(x), Widget::SizedBox(y)) => {
                &&& x.size == y.size
                &&& Widget::rebuilt_from(*x.child, *y.child, key.push(KeySeg::Index(0)), states)
            },
            _ => false,
        }
    }

    /// Equality of pure tree shape: the same kinds and child counts at
    /// every structural position, cached builds included — the identity
    /// that the key scheme is blind to everything else about.
    pub open spec fn same_shape(a: Widget, b: Widget) -> bool
        decreases a, 1nat,
    {
        match (a, b) {
            (Widget::App(x), Widget::App(y)) => match (x.data.cached_build, y.data.cached_build) {
                (Option::None, Option::None) => true,
                (Option::Some(p), Option::Some(q)) => Widget::same_shape(*p, *q),
                _ => false,
            },
            (Widget::Button(x), Widget::Button(y)) => match (
                x.data.cached_build,
                y.data.cached_build,
            ) {
                (Option::None, Option::None) => true,
                (Option::Some(p), Option::Some(q)) => Widget::same_shape(*p, *q),
                _ => false,
            },
            (Widget::Container(x), Widget::Container(y)) => Widget::same_shape(*x.child, *y.child),
            (Widget::Expanded(_), Widget::Expanded(_)) => true,
            (Widget::Hoverable(x), Widget::Hoverable(y)) => match (
                x.data.cached_build,
                y.data.cached_build,
            ) {
                (Option::None, Option::None) => true,
                (Option::Some(p), Option::Some(q)) => Widget::same_shape(*p, *q),
                _ => false,
            },
            (Widget::List(x), Widget::List(y)) => {
                &&& x.children@.len() == y.children@.len()
                &&& forall|i: int|
                    0 <= i < x.children@.len() ==> Widget::same_shape(
                        #[trigger] x.children@[i],
                        y.children@[i],
                    )
            },
            (Widget::Padding(x), Widget::Padding(y)) => match (x.child, y.child) {
                (Option::None, Option::None) => true,
                (Option::Some(p), Option::Some(q)) => Widget::same_shape(*p, *q),
                _ => false,
            },
            (Widget::SizedBox(x), Widget::SizedBox(y)) => Widget::same_shape(*x.child, *y.child),
            _ => false,
        }
    }

    /// Equal identity keys at every corresponding structural position of
    /// two same-shaped trees.
    pub open spec fn same_keys(a: Widget, b: Widget) -> bool
        decreases a, 1nat,
    {
        &&& a.skey() == b.skey()
        &&& match (a, b) {
            (Widget::App(x), Widget::App(y)) => match (x.data.cached_build, y.data.cached_build) {
                (Option::None, Option::None) => true,
                (Option::Some(p), Option::Some(q)) => Widget::same_keys(*p, *q),
                _ => false,
            },
            (Widget::Button(x), Widget::Button(y)) => match (
                x.data.cached_build,
                y.data.cached_build,
            ) {
                (Option::None, Option::None) => true,
                (Option::Some(p), Option::Some(q)) => Widget::same_keys(*p, *q),
                _ => false,
            },
            (Widget::Container(x), Widget::Container(y)) => Widget::same_keys(*x.child, *y.child),
            (Widget::Expanded(_), Widget::Expanded(_)) => true,
            (Widget::Hoverable(x), Widget::Hoverable(y)) => match (
                x.data.cached_build,
                y.data.cached_build,
            ) {
                (Option::None, Option::None) => true,
                (Option::Some(p), Option::Some(q)) => Widget::same_keys(*p, *q),
                _ => false,
            },
            (Widget::List(x), Widget::List(y)) => {
                &&& x.children@.len() == y.children@.len()
                &&& forall|i: int|
                    0 <= i < x.children@.len() ==> Widget::same_keys(
                        #[trigger] x.children@[i],
                        y.children@[i],
                    )
            },
            (Widget::Padding(x), Widget::Padding(y)) => match (x.child, y.child) {
                (Option::None, Option::None) => true,
                (Option::Some(p), Option::Some(q)) => Widget::same_keys(*p, *q),
                _ => false,
            },
            (Widget::SizedBox(x), Widget::SizedBox(y)) => Widget::same_keys(*x.child, *y.child),
            _ => false,
        }
    }

    /// The rebuild pass: assign this node the key `parent_key` extended
    /// by its type tag, have every compound node freshly materialise the
    /// subtree it describes (a stateful node reads — and on first sight
    /// creates — its entry in the state store), and recurse into the
    /// children, extending each child's path by its index.
    ///
    /// Rebuilding never removes or overwrites a state entry: every
    /// binding in the store before the pass is still there, unchanged,
    /// after it — that is what makes state persist across rebuilds.
    pub fn rebuild_with_key(&mut self, parent_key: &Key, states: &mut StateManager)
        requires
            old(states).wf(),
        ensures
            final(states).wf(),
            Widget::rebuilt_from(*final(self), *old(self), parent_key@, final(states)@),
            final(self).is_built(),
            final(self).has_keys(),
            forall|k: Seq<KeySeg>|
                #[trigger] old(states)@.contains_key(k) ==> final(states)@.contains_key(k)
                    && final(states)@[k] == old(states)@[k],
    {
        let mut tmp = Expanded::new();
        core::mem::swap(self, &mut tmp);
        let result = tmp.rebuild_run(parent_key, states);
        *self = result;
    }

    /// Rebuild this node's subtree in place, reusing its assigned key:
    /// what the dispatch machinery runs when a handler reports that its
    /// state changed.
    pub fn rebuild(&mut self, states: &mut StateManager)
        requires
            old(states).wf(),
            old(self).skey() matches Some(k) && k.len() > 0 && k.last() == KeySeg::Tag(
                old(self).tag(),
            ),
        ensures
            final(states).wf(),
            Widget::rebuilt_from(
                *final(self),
                *old(self),
                old(self).skey()->Some_0.drop_last(),
                final(states)@,
            ),
            final(self).is_built(),
            final(self).has_keys(),
            forall|k: Seq<KeySeg>|
                #[trigger] old(states)@.contains_key(k) ==> final(states)@.contains_key(k)
                    && final(states)@[k] == old(states)@[k],
    {
        let mut parent_key = self.get_key().duplicate();
        parent_key.segments.pop();
        proof {
            assert(parent_key@ =~= old(self).skey()->Some_0.drop_last());
        }
        let mut tmp = Expanded::new();
        core::mem::swap(self, &mut tmp);
        let result = tmp.rebuild_run(&parent_key, states);
        *self = result;
    }

    /// The rebuild pass on an owned tree; `rebuild_with_key` is its
    /// in-place form.
    #[verifier::loop_isolation(false)]
    #[verifier::rlimit(100)]
    fn rebuild_run(self, parent_key: &Key, states: &mut StateManager) -> (r: Widget)
        requires
            old(states).wf(),
        ensures
            final(states).wf(),
            Widget::rebuilt_from(r, self, parent_key@, final(states)@),
            r.is_built(),
            r.has_keys(),
            forall|k: Seq<KeySeg>|
                #[trigger] old(states)@.contains_key(k) ==> final(states)@.contains_key(k)
                    && final(states)@[k] == old(states)@[k],
        decreases self.crank(), self,
    {
        let ghost orig = self;
        match self {
            Widget::App(w) => {
                let key = parent_key.child(KeySeg::Tag(WidgetTag::App));
                let built = App::build(&w);
                let child_key = key.child(KeySeg::Index(0));
                let cached = built.rebuild_run(&child_key, states);
                let r = Widget::App(App {
                    data: CompoundWidgetData {
                        key: Some(key),
                        cached_build: Some(Box::new(cached)),
                        position: w.data.position,
                        available_space: w.data.available_space,
                    },
                });
                r
            },
            Widget::Button(w) => {
                let key = parent_key.child(KeySeg::Tag(WidgetTag::Button));
                let built = w.build();
                proof {
                    assert(Widget::crank(Button::spec_face(w.background_color)) == 0) by {
                        reveal_with_fuel(Widget::crank, 5);
                    }
                    assert(Widget::crank(Button::spec_face(w.hovered_background_color)) == 0) by {
                        reveal_with_fuel(Widget::crank, 5);
                    }
                    assert(Widget::crank(built) == 1);
                }
                let child_key = key.child(KeySeg::Index(0));
                let cached = built.rebuild_run(&child_key, states);
                let r = Widget::Button(Button {
                    data: CompoundWidgetData {
                        key: Some(key),
                        cached_build: Some(Box::new(cached)),
                        position: w.data.position,
                        available_space: w.data.available_space,
                    },
                    background_color: w.background_color,
                    hovered_background_color: w.hovered_background_color,
                });
                r
            },
            Widget::Container(w) => {
                let key = parent_key.child(KeySeg::Tag(WidgetTag::Container));
                let child_key = key.child(KeySeg::Index(0));
                let child = (*w.child).rebuild_run(&child_key, states);
                Widget::Container(Container {
                    data: WidgetData {
                        key: Some(key),
                        position: w.data.position,
                        available_space: w.data.available_space,
                    },
                    background: w.background,
                    child: Box::new(child),
                })
            },
            Widget::Expanded(w) => {
                let key = parent_key.child(KeySeg::Tag(WidgetTag::Expanded));
                Widget::Expanded(Expanded {
                    data: WidgetData {
                        key: Some(key),
                        position: w.data.position,
                        available_space: w.data.available_space,
                    },
                })
            },
            Widget::Hoverable(w) => {
                let key = parent_key.child(KeySeg::Tag(WidgetTag::Hoverable));
                let sv = states.get_state(&key, StateValue::Hoverable(HoverableState::new()));
                let ghost mid = *states;
                let st = match sv {
                    StateValue::Hoverable(st) => st,
                };
                let template_clone = if st.is_hovered {
                    w.hovered_child.deep_clone()
                } else {
                    w.normal_child.deep_clone()
                };
                proof {
                    if st.is_hovered {
                        lemma_weq_crank(template_clone, *w.hovered_child);
                    } else {
                        lemma_weq_crank(template_clone, *w.normal_child);
                    }
                }
                let child_key = key.child(KeySeg::Index(0));
                let cached = template_clone.rebuild_run(&child_key, states);
                proof {
                    lemma_rebuilt_from_weq(
                        cached,
                        template_clone,
                        w.spec_build(st),
                        child_key@,
                        states@,
                    );
                    assert(mid@.contains_key(key@) && mid@[key@] == StateValue::Hoverable(st));
                    assert(states@.contains_key(key@));
                    assert(states@[key@] == StateValue::Hoverable(st));
                    assert forall|k: Seq<KeySeg>| #[trigger] old(states)@.contains_key(k) implies
                        states@.contains_key(k) && states@[k] == old(states)@[k] by {
                        assert(mid@.contains_key(k) && mid@[k] == old(states)@[k]);
                    }
                    lemma_weq_refl(*w.normal_child);
                    lemma_weq_refl(*w.hovered_child);
                }
                let r = Widget::Hoverable(Hoverable {
                    data: CompoundWidgetData {
                        key: Some(key),
                        cached_build: Some(Box::new(cached)),
                        position: w.data.position,
                        available_space: w.data.available_space,
                    },
                    normal_child: w.normal_child,
                    hovered_child: w.hovered_child,
                });
                r
            },
            Widget::List(w) => {
                let key = parent_key.child(KeySeg::Tag(WidgetTag::List));
                let ghost children0 = w.children@;
                let n = w.children.len();
                let mut children = w.children;
                let mut out: Vec<Widget> = Vec::new();
                let mut i: usize = 0;
                while i < n
                    invariant
                        i <= n,
                        children@ =~= children0.subrange(i as int, n as int),
                        out@.len() == i,
                        states.wf(),
                        forall|k: Seq<KeySeg>|
                            #[trigger] old(states)@.contains_key(k) ==> states@.contains_key(k)
                                && states@[k] == old(states)@[k],
                        forall|j: int|
                            0 <= j < i ==> Widget::rebuilt_from(
                                #[trigger] out@[j],
                                children0[j],
                                key@.push(KeySeg::Index(j as usize)),
                                states@,
                            ),
                        forall|j: int|
                            0 <= j < i ==> (#[trigger] out@[j]).is_built() && out@[j].has_keys(),
                    decreases n - i,
                {
                    let child = children.remove(0);
                    proof {
                        assert(child == children0[i as int]);
                        lemma_crank_seq_bound(children0, i as int);
                        assert(decreases_to!(orig => child));
                    }
                    let child_key = key.child(KeySeg::Index(i));
                    let ghost before = *states;
                    let rebuilt = child.rebuild_run(&child_key, states);
                    proof {
                        assert forall|j: int| 0 <= j < i implies Widget::rebuilt_from(
                            #[trigger] out@[j],
                            children0[j],
                            key@.push(KeySeg::Index(j as usize)),
                            states@,
                        ) by {
                            lemma_rebuilt_from_mono(
                                out@[j],
                                children0[j],
                                key@.push(KeySeg::Index(j as usize)),
                                before@,
                                states@,
                            );
                        }
                        assert(children0.subrange(i as int, n as int).remove(0) =~= children0
                            .subrange(i + 1 as int, n as int));
                    }
                    out.push(rebuilt);
                    i = i + 1;
                }
                let r = Widget::List(List {
                    data: WidgetData {
                        key: Some(key),
                        position: w.data.position,
                        available_space: w.data.available_space,
                    },
                    direction: w.direction,
                    main_axis_alignment: w.main_axis_alignment,
                    cross_axis_alignment: w.cross_axis_alignment,
                    main_axis_size: w.main_axis_size,
                    cross_axis_size: w.cross_axis_size,
                    children: out,
                });
                proof {
                    lemma_is_built_seq(r->List_0.children@);
                    lemma_has_keys_seq(r->List_0.children@);
                }
                r
            },
            Widget::Padding(w) => {
                let key = parent_key.child(KeySeg::Tag(WidgetTag::Padding));
                let child: Option<Box<Widget>> = match w.child {
                    Some(c) => {
                        let child_key = key.child(KeySeg::Index(0));
                        let rebuilt = (*c).rebuild_run(&child_key, states);
                        Some(Box::new(rebuilt))
                    },
                    None => None,
                };
                Widget::Padding(Padding {
                    data: WidgetData {
                        key: Some(key),
                        position: w.data.position,
                        available_space: w.data.available_space,
                    },
                    padding: w.padding,
                    child,
                })
            },
            Widget::SizedBox(w) => {
                let key = parent_key.child(KeySeg::Tag(WidgetTag::SizedBox));
                let child_key = key.child(KeySeg::Index(0));
                let child = (*w.child).rebuild_run(&child_key, states);
                Widget::SizedBox(SizedBox {
                    data: WidgetData {
                        key: Some(key),
                        position: w.data.position,
                        available_space: w.data.available_space,
                    },
                    size: w.size,
                    child: Box::new(child),
                })
            },
        }
    }

    /// Whether a pointer lies on or inside the node's rectangle: its
    /// absolute origin, extended by its natural size under its committed
    /// constraint, inclusive on all four edges.
    pub open spec fn in_bounds(self, my_position: Position, pointer: Position) -> bool {
        let size = self.nat_size(self.avail());
        &&& my_position.x <= pointer.x <= cadd(my_position.x as int, size.width as int)
        &&& my_position.y <= pointer.y <= cadd(my_position.y as int, size.height as int)
    }

    /// Whether some subtree the dispatch walks below this node captures
    /// the event; children are tried before the node itself.
    pub open spec fn child_captures(self, my_position: Position, pointer: Position) -> bool
        decreases self, 1nat,
    {
        match self {
            Widget::App(w) => w.data.cached_build matches Some(b) && Widget::can_capture(
                *b,
                my_position,
                pointer,
            ),
            Widget::Button(w) => w.data.cached_build matches Some(b) && Widget::can_capture(
                *b,
                my_position,
                pointer,
            ),
            Widget::Container(w) => Widget::can_capture(*w.child, my_position, pointer),
            Widget::Expanded(_) => false,
            Widget::Hoverable(w) => w.data.cached_build matches Some(b) && Widget::can_capture(
                *b,
                my_position,
                pointer,
            ),
            Widget::List(w) => Widget::any_captures(w.children@, my_position, pointer),
            Widget::Padding(w) => w.child matches Some(c) && Widget::can_capture(
                *c,
                my_position,
                pointer,
            ),
            Widget::SizedBox(w) => Widget::can_capture(*w.child, my_position, pointer),
        }
    }

    /// Whether dispatching a pointer event into this subtree captures it:
    /// some child's subtree captures it (children are tried first, in
    /// order), or no child does and this node is a hover-sensitive node
    /// whose rectangle contains the pointer. Every other node declines
    /// the event even when the pointer is inside it.
    pub open spec fn can_capture(self, parent_position: Position, pointer: Position) -> bool
        decreases self, 2nat,
    {
        let my_position = self.pos().spec_add(parent_position);
        ||| self.child_captures(my_position, pointer)
        ||| (self is Hoverable && self.in_bounds(my_position, pointer))
    }

    /// Whether some subtree of the sequence captures the event.
    pub open spec fn any_captures(
        children: Seq<Widget>,
        position: Position,
        pointer: Position,
    ) -> bool
        decreases children, 0nat,
    {
        children.len() != 0 && (Widget::can_capture(children.first(), position, pointer)
            || Widget::any_captures(children.drop_first(), position, pointer))
    }

    /// The identity key of the node that captures the event, under the
    /// depth-first, children-before-self, first-match-wins rule. Only
    /// meaningful when the subtree captures.
    pub open spec fn capture_key(self, parent_position: Position, pointer: Position) -> Seq<KeySeg>
        decreases self, 2nat,
    {
        let my_position = self.pos().spec_add(parent_position);
        if self.child_captures(my_position, pointer) {
            match self {
                Widget::App(w) => match w.data.cached_build {
                    Option::Some(b) => Widget::capture_key(*b, my_position, pointer),
                    Option::None => Seq::empty(),
                },
                Widget::Button(w) => match w.data.cached_build {
                    Option::Some(b) => Widget::capture_key(*b, my_position, pointer),
                    Option::None => Seq::empty(),
                },
                Widget::Container(w) => Widget::capture_key(*w.child, my_position, pointer),
                Widget::Expanded(_) => Seq::empty(),
                Widget::Hoverable(w) => match w.data.cached_build {
                    Option::Some(b) => Widget::capture_key(*b, my_position, pointer),
                    Option::None => Seq::empty(),
                },
                Widget::List(w) => Widget::capture_key_seq(w.children@, my_position, pointer),
                Widget::Padding(w) => match w.child {
                    Option::Some(c) => Widget::capture_key(*c, my_position, pointer),
                    Option::None => Seq::empty(),
                },
                Widget::SizedBox(w) => Widget::capture_key(*w.child, my_position, pointer),
            }
        } else {
            match self.skey() {
                Option::Some(k) => k,
                Option::None => Seq::empty(),
            }
        }
    }

    /// The capture key of the first subtree in the sequence that captures
    /// the event.
    pub open spec fn capture_key_seq(
        children: Seq<Widget>,
        position: Position,
        pointer: Position,
    ) -> Seq<KeySeg>
        decreases children, 1nat,
    {
        if children.len() == 0 {
            Seq::empty()
        } else if Widget::can_capture(children.first(), position, pointer) {
            Widget::capture_key(children.first(), position, pointer)
        } else {
            Widget::capture_key_seq(children.drop_first(), position, pointer)
        }
    }

    /// What a capturing dispatch does to the tree: everything off the
    /// capture path is untouched; the capturing hover-sensitive node has
    /// its cached build immediately rebuilt — under its unchanged key,
    /// position and constraint — from the subtree it describes for its
    /// new state, which `states` (the store after the dispatch) holds.
    pub open spec fn dispatched(
        self,
        r: Widget,
        parent_position: Position,
        pointer: Position,
        states: Map<Seq<KeySeg>, StateValue>,
    ) -> bool
        decreases self, 1nat,
    {
        let my_position = self.pos().spec_add(parent_position);
        if self.child_captures(my_position, pointer) {
            match (self, r) {
                (Widget::App(x), Widget::App(y)) => {
                    &&& y.data.key == x.data.key
                    &&& y.data.position == x.data.position
                    &&& y.data.available_space == x.data.available_space
                    &&& match (x.data.cached_build, y.data.cached_build) {
                        (Option::Some(b), Option::Some(c)) => Widget::dispatched(
                            *b,
                            *c,
                            my_position,
                            pointer,
                            states,
                        ),
                        _ => false,
                    }
                },
                (Widget::Button(x), Widget::Button(y)) => {
                    &&& y.data.key == x.data.key
                    &&& y.data.position == x.data.position
                    &&& y.data.available_space == x.data.available_space
                    &&& y.background_color == x.background_color
                    &&& y.hovered_background_color == x.hovered_background_color
                    &&& match (x.data.cached_build, y.data.cached_build) {
                        (Option::Some(b), Option::Some(c)) => Widget::dispatched(
                            *b,
                            *c,
                            my_position,
                            pointer,
                            states,
                        ),
                        _ => false,
                    }
                },
                (Widget::Container(x), Widget::Container(y)) => {
                    &&& y.data == x.data
                    &&& y.background == x.background
                    &&& Widget::dispatched(*x.child, *y.child, my_position, pointer, states)
                },
                (Widget::Hoverable(x), Widget::Hoverable(y)) => {
                    &&& y.data.key == x.data.key
                    &&& y.data.position == x.data.position
                    &&& y.data.available_space == x.data.available_space
                    &&& y.normal_child == x.normal_child
                    &&& y.hovered_child == x.hovered_child
                    &&& match (x.data.cached_build, y.data.cached_build) {
                        (Option::Some(b), Option::Some(c)) => Widget::dispatched(
                            *b,
                            *c,
                            my_position,
                            pointer,
                            states,
                        ),
                        _ => false,
                    }
                },
                (Widget::List(x), Widget::List(y)) => {
                    &&& y.data == x.data
                    &&& y.direction == x.direction
                    &&& y.main_axis_alignment == x.main_axis_alignment
                    &&& y.cross_axis_alignment == x.cross_axis_alignment
                    &&& y.main_axis_size == x.main_axis_size
                    &&& y.cross_axis_size == x.cross_axis_size
                    &&& y.children@.len() == x.children@.len()
                    &&& exists|j: int|
                        {
                            &&& 0 <= j < x.children@.len()
                            &&& #[trigger] Widget::can_capture(
                                x.children@[j],
                                my_position,
                                pointer,
                            )
                            &&& (forall|i: int|
                                0 <= i < j ==> !Widget::can_capture(
                                    #[trigger] x.children@[i],
                                    my_position,
                                    pointer,
                                ))
                            &&& (forall|i: int|
                                0 <= i < x.children@.len() && i != j ==> Widget::weq(
                                    #[trigger] y.children@[i],
                                    x.children@[i],
                                ))
                            &&& Widget::dispatched(
                                x.children@[j],
                                y.children@[j],
                                my_position,
                                pointer,
                                states,
                            )
                        }
                },
                (Widget::Padding(x), Widget::Padding(y)) => {
                    &&& y.data == x.data
                    &&& y.padding == x.padding
                    &&& match (x.child, y.child) {
                        (Option::Some(b), Option::Some(c)) => Widget::dispatched(
                            *b,
                            *c,
                            my_position,
                            pointer,
                            states,
                        ),
                        _ => false,
                    }
                },
                (Widget::SizedBox(x), Widget::SizedBox(y)) => {
                    &&& y.data == x.data
                    &&& y.size == x.size
                    &&& Widget::dispatched(*x.child, *y.child, my_position, pointer, states)
                },
                _ => false,
            }
        } else {
            match (self, r) {
                (Widget::Hoverable(x), Widget::Hoverable(y)) => {
                    &&& self.in_bounds(my_position, pointer)
                    &&& y.data.key == x.data.key
                    &&& y.data.position == x.data.position
                    &&& y.data.available_space == x.data.available_space
                    &&& y.normal_child == x.normal_child
                    &&& y.hovered_child == x.hovered_child
                    &&& x.data.key matches Some(k)
                    &&& (y.data.cached_build matches Some(b) && Widget::rebuilt_from(
                        *b,
                        x.spec_build(HoverableState { is_hovered: true }),
                        k@.push(KeySeg::Index(0)),
                        states,
                    ))
                },
                _ => false,
            }
        }
    }

    /// Route a pointer-move event into this subtree. Children are tried
    /// first, in order, and the first capture wins; only if every child
    /// declines does the node test the pointer against its own rectangle
    /// and, being hover-sensitive, claim it. A capture flips the
    /// captured node's state to hovered, rebuilds that node's subtree in
    /// place, and requests relayout and redraw; a declined event changes
    /// nothing at all.
    pub fn on_mouse_move_anywhere(
        &mut self,
        parent_position: Position,
        mouse_pos: &Position,
        states: &mut StateManager,
        handled_event_info: &mut HandledEventInfo,
    ) -> (r: bool)
        requires
            old(self).is_built(),
            old(self).has_keys(),
            old(states).wf(),
        ensures
            final(states).wf(),
            final(self).is_built(),
            final(self).has_keys(),
            r == old(self).can_capture(parent_position, *mouse_pos),
            !r ==> Widget::weq(*final(self), *old(self)) && final(states)@ == old(states)@
                && *final(handled_event_info) == *old(handled_event_info),
            r ==> *final(handled_event_info) == (HandledEventInfo {
                needs_relayout: true,
                needs_redraw: true,
            }),
            r ==> {
                let ck = old(self).capture_key(parent_position, *mouse_pos);
                &&& final(states)@.contains_key(ck)
                &&& final(states)@[ck] == StateValue::Hoverable(HoverableState { is_hovered: true })
                &&& forall|k: Seq<KeySeg>|
                    (#[trigger] old(states)@.contains_key(k)) && k != ck
                        ==> final(states)@.contains_key(k) && final(states)@[k] == old(states)@[k]
            },
            r ==> old(self).dispatched(*final(self), parent_position, *mouse_pos, final(states)@),
    {
        let mut tmp = Expanded::new();
        core::mem::swap(self, &mut tmp);
        let (result, captured) = tmp.dispatch_run(
            parent_position,
            mouse_pos,
            states,
            handled_event_info,
        );
        *self = result;
        captured
    }

    /// The dispatch pass on an owned tree; `on_mouse_move_anywhere` is
    /// its in-place form.
    #[verifier::loop_isolation(false)]
    #[verifier::rlimit(100)]
    fn dispatch_run(
        self,
        parent_position: Position,
        mouse_pos: &Position,
        states: &mut StateManager,
        handled_event_info: &mut HandledEventInfo,
    ) -> (res: (Widget, bool))
        requires
            old(states).wf(),
            self.is_built(),
            self.has_keys(),
        ensures
            final(states).wf(),
            res.0.is_built(),
            res.0.has_keys(),
            res.1 == self.can_capture(parent_position, *mouse_pos),
            !res.1 ==> Widget::weq(res.0, self) && final(states)@ == old(states)@ && *final(handled_event_info) == *old(handled_event_info),
            res.1 ==> *final(handled_event_info) == (HandledEventInfo {
                needs_relayout: true,
                needs_redraw: true,
            }),
            res.1 ==> {
                let ck = self.capture_key(parent_position, *mouse_pos);
                &&& final(states)@.contains_key(ck)
                &&& final(states)@[ck] == StateValue::Hoverable(HoverableState { is_hovered: true })
                &&& forall|k: Seq<KeySeg>|
                    (#[trigger] old(states)@.contains_key(k)) && k != ck
                        ==> final(states)@.contains_key(k) && final(states)@[k] == old(states)@[k]
            },
            res.1 ==> self.dispatched(res.0, parent_position, *mouse_pos, final(states)@),
        decreases self,
    {
        let ghost orig = self;
        match self {
            Widget::App(w) => {
                let my_position = w.data.position.add(parent_position);
                let cached = match w.data.cached_build {
                    Some(b) => b,
                    None => vstd::pervasive::unreached(),
                };
                let (c2, captured) = (*cached).dispatch_run(
                    my_position,
                    mouse_pos,
                    states,
                    handled_event_info,
                );
                let r = Widget::App(App {
                    data: CompoundWidgetData {
                        key: w.data.key,
                        cached_build: Some(Box::new(c2)),
                        position: w.data.position,
                        available_space: w.data.available_space,
                    },
                });
                (r, captured)
            },
            Widget::Button(w) => {
                let my_position = w.data.position.add(parent_position);
                let cached = match w.data.cached_build {
                    Some(b) => b,
                    None => vstd::pervasive::unreached(),
                };
                let (c2, captured) = (*cached).dispatch_run(
                    my_position,
                    mouse_pos,
                    states,
                    handled_event_info,
                );
                let r = Widget::Button(Button {
                    data: CompoundWidgetData {
                        key: w.data.key,
                        cached_build: Some(Box::new(c2)),
                        position: w.data.position,
                        available_space: w.data.available_space,
                    },
                    background_color: w.background_color,
                    hovered_background_color: w.hovered_background_color,
                });
                (r, captured)
            },
            Widget::Container(w) => {
                let my_position = w.data.position.add(parent_position);
                let (c2, captured) = (*w.child).dispatch_run(
                    my_position,
                    mouse_pos,
                    states,
                    handled_event_info,
                );
                let r = Widget::Container(Container {
                    data: w.data,
                    background: w.background,
                    child: Box::new(c2),
                });
                (r, captured)
            },
            Widget::Expanded(w) => (Widget::Expanded(w), false),
            Widget::Hoverable(w) => {
                let my_position = w.data.position.add(parent_position);
                let cached = match w.data.cached_build {
                    Some(b) => b,
                    None => vstd::pervasive::unreached(),
                };
                let (c2, captured) = (*cached).dispatch_run(
                    my_position,
                    mouse_pos,
                    states,
                    handled_event_info,
                );
                if captured {
                    let r = Widget::Hoverable(Hoverable {
                        data: CompoundWidgetData {
                            key: w.data.key,
                            cached_build: Some(Box::new(c2)),
                            position: w.data.position,
                            available_space: w.data.available_space,
                        },
                        normal_child: w.normal_child,
                        hovered_child: w.hovered_child,
                    });
                    (r, true)
                } else {
                    proof {
                        lemma_weq_skeleton(c2, *cached);
                        lemma_skeleton_measures(c2, *cached);
                    }
                    let size = c2.get_size(&w.data.available_space);
                    let inside = my_position.x <= mouse_pos.x && mouse_pos.x
                        <= crate::graphics::sat_add(my_position.x, size.width) && my_position.y
                        <= mouse_pos.y && mouse_pos.y <= crate::graphics::sat_add(
                        my_position.y,
                        size.height,
                    );
                    if inside {
                        let key = match &w.data.key {
                            Some(k) => k.duplicate(),
                            None => vstd::pervasive::unreached(),
                        };
                        let stored = states.get_state(
                            &key,
                            StateValue::Hoverable(HoverableState::new()),
                        );
                        let mut state = match stored {
                            StateValue::Hoverable(state) => state,
                        };
                        let handler_info = Hoverable::on_mouse_move(
                            &mut state,
                            handled_event_info,
                        );
                        states.set_state(&key, StateValue::Hoverable(state));
                        let ghost mid = *states;
                        // The handler asked for a rebuild: materialise the
                        // subtree for the new state under the unchanged key.
                        let clone = w.hovered_child.deep_clone();
                        let child_key = key.child(KeySeg::Index(0));
                        let b2 = clone.rebuild_run(&child_key, states);
                        proof {
                            lemma_rebuilt_from_weq(
                                b2,
                                clone,
                                Hoverable::spec_build(w, HoverableState { is_hovered: true }),
                                child_key@,
                                states@,
                            );
                            assert(mid@.contains_key(key@) && mid@[key@]
                                == StateValue::Hoverable(HoverableState { is_hovered: true }));
                            assert(states@.contains_key(key@) && states@[key@]
                                == StateValue::Hoverable(HoverableState { is_hovered: true }));
                            assert forall|k: Seq<KeySeg>|
                                #[trigger] old(states)@.contains_key(k) && k != key@ implies states@.contains_key(
                                k,
                            ) && states@[k] == old(states)@[k] by {
                                assert(mid@.contains_key(k) && mid@[k] == old(states)@[k]);
                            }
                            assert(orig.capture_key(parent_position, *mouse_pos) == key@);
                        }
                        let r = Widget::Hoverable(Hoverable {
                            data: CompoundWidgetData {
                                key: w.data.key,
                                cached_build: Some(Box::new(b2)),
                                position: w.data.position,
                                available_space: w.data.available_space,
                            },
                            normal_child: w.normal_child,
                            hovered_child: w.hovered_child,
                        });
                        (r, handler_info.was_captured)
                    } else {
                        proof {
                            lemma_weq_refl(*w.normal_child);
                            lemma_weq_refl(*w.hovered_child);
                        }
                        let r = Widget::Hoverable(Hoverable {
                            data: CompoundWidgetData {
                                key: w.data.key,
                                cached_build: Some(Box::new(c2)),
                                position: w.data.position,
                                available_space: w.data.available_space,
                            },
                            normal_child: w.normal_child,
                            hovered_child: w.hovered_child,
                        });
                        (r, false)
                    }
                }
            },
            Widget::List(w) => {
                let my_position = w.data.position.add(parent_position);
                let ghost children0 = w.children@;
                let n = w.children.len();
                proof {
                    lemma_is_built_seq(children0);
                    lemma_has_keys_seq(children0);
                    lemma_any_captures_index(children0, my_position, *mouse_pos);
                }
                let mut children = w.children;
                let mut out: Vec<Widget> = Vec::new();
                let mut captured = false;
                let ghost mut cap_idx: int = 0;
                let mut i: usize = 0;
                while i < n
                    invariant
                        i <= n,
                        children@ =~= children0.subrange(i as int, n as int),
                        out@.len() == i,
                        states.wf(),
                        forall|j: int|
                            0 <= j < i ==> (#[trigger] out@[j]).is_built() && out@[j].has_keys(),
                        !captured ==> {
                            &&& forall|j: int|
                                0 <= j < i ==> !Widget::can_capture(
                                    #[trigger] children0[j],
                                    my_position,
                                    *mouse_pos,
                                )
                            &&& forall|j: int|
                                0 <= j < i ==> Widget::weq(#[trigger] out@[j], children0[j])
                            &&& states@ == old(states)@
                            &&& *handled_event_info == *old(handled_event_info)
                        },
                        captured ==> {
                            &&& 0 <= cap_idx < i
                            &&& Widget::can_capture(children0[cap_idx], my_position, *mouse_pos)
                            &&& forall|j: int|
                                0 <= j < cap_idx ==> !Widget::can_capture(
                                    #[trigger] children0[j],
                                    my_position,
                                    *mouse_pos,
                                )
                            &&& forall|j: int|
                                0 <= j < i && j != cap_idx ==> Widget::weq(
                                    #[trigger] out@[j],
                                    children0[j],
                                )
                            &&& Widget::dispatched(
                                children0[cap_idx],
                                out@[cap_idx],
                                my_position,
                                *mouse_pos,
                                states@,
                            )
                            &&& *handled_event_info == (HandledEventInfo {
                                needs_relayout: true,
                                needs_redraw: true,
                            })
                            &&& {
                                let ck = Widget::capture_key(
                                    children0[cap_idx],
                                    my_position,
                                    *mouse_pos,
                                );
                                &&& states@.contains_key(ck)
                                &&& states@[ck] == StateValue::Hoverable(
                                    HoverableState { is_hovered: true },
                                )
                                &&& forall|k: Seq<KeySeg>|
                                    (#[trigger] old(states)@.contains_key(k)) && k != ck
                                        ==> states@.contains_key(k) && states@[k] == old(
                                        states,
                                    )@[k]
                            }
                        },
                    decreases n - i,
                {
                    let child = children.remove(0);
                    proof {
                        assert(child == children0[i as int]);
                        assert(children0.subrange(i as int, n as int).remove(0) =~= children0
                            .subrange(i + 1 as int, n as int));
                    }
                    if captured {
                        proof {
                            lemma_weq_refl(child);
                        }
                        out.push(child);
                    } else {
                        let (c2, child_captured) = child.dispatch_run(
                            my_position,
                            mouse_pos,
                            states,
                            handled_event_info,
                        );
                        if child_captured {
                            captured = true;
                            proof {
                                cap_idx = i as int;
                            }
                        }
                        out.push(c2);
                    }
                    i = i + 1;
                }
                let r = Widget::List(List {
                    data: w.data,
                    direction: w.direction,
                    main_axis_alignment: w.main_axis_alignment,
                    cross_axis_alignment: w.cross_axis_alignment,
                    main_axis_size: w.main_axis_size,
                    cross_axis_size: w.cross_axis_size,
                    children: out,
                });
                proof {
                    lemma_is_built_seq(r->List_0.children@);
                    lemma_has_keys_seq(r->List_0.children@);
                    if captured {
                        lemma_capture_key_seq_at(children0, my_position, *mouse_pos, cap_idx);
                    } else {
                        lemma_weq_seq_index(r->List_0.children@, children0);
                    }
                }
                (r, captured)
            },
            Widget::Padding(w) => {
                let my_position = w.data.position.add(parent_position);
                match w.child {
                    Some(c) => {
                        let (c2, captured) = (*c).dispatch_run(
                            my_position,
                            mouse_pos,
                            states,
                            handled_event_info,
                        );
                        let r = Widget::Padding(Padding {
                            data: w.data,
                            padding: w.padding,
                            child: Some(Box::new(c2)),
                        });
                        (r, captured)
                    },
                    None => {
                        let r = Widget::Padding(Padding {
                            data: w.data,
                            padding: w.padding,
                            child: None,
                        });
                        (r, false)
                    },
                }
            },
            Widget::SizedBox(w) => {
                let my_position = w.data.position.add(parent_position);
                let (c2, captured) = (*w.child).dispatch_run(
                    my_position,
                    mouse_pos,
                    states,
                    handled_event_info,
                );
                let r = Widget::SizedBox(SizedBox {
                    data: w.data,
                    size: w.size,
                    child: Box::new(c2),
                });
                (r, captured)
            },
        }
    }

    /// The display list a draw pass of this subtree produces, with the
    /// node's rectangle placed at its position offset by `parent_position`:
    /// a backdrop selects its colour and fills its child's rectangle
    /// before drawing the child over it; boxes and lists draw their
    /// children in order; a compound node draws its cached build; a list
    /// itself paints nothing.
    pub open spec fn spec_draw(self, parent_position: Position) -> Seq<DrawCommand>
        decreases self, 1nat,
    {
        let my_position = self.pos().spec_add(parent_position);
        match self {
            Widget::App(w) => match w.data.cached_build {
                Option::Some(b) => Widget::spec_draw(*b, my_position),
                Option::None => Seq::empty(),
            },
            Widget::Button(w) => match w.data.cached_build {
                Option::Some(b) => Widget::spec_draw(*b, my_position),
                Option::None => Seq::empty(),
            },
            Widget::Container(w) => fill_rect_commands(
                my_position,
                Widget::nat_size(*w.child, w.data.available_space),
                w.background,
            ) + Widget::spec_draw(*w.child, my_position),
            Widget::Expanded(_) => Seq::empty(),
            Widget::Hoverable(w) => match w.data.cached_build {
                Option::Some(b) => Widget::spec_draw(*b, my_position),
                Option::None => Seq::empty(),
            },
            Widget::List(w) => Widget::spec_draw_seq(w.children@, my_position),
            Widget::Padding(w) => match w.child {
                Option::Some(c) => Widget::spec_draw(*c, my_position),
                Option::None => Seq::empty(),
            },
            Widget::SizedBox(w) => Widget::spec_draw(*w.child, my_position),
        }
    }

    /// The display lists of a sequence of subtrees, concatenated in
    /// order.
    pub open spec fn spec_draw_seq(children: Seq<Widget>, position: Position) -> Seq<DrawCommand>
        decreases children, 0nat,
    {
        if children.len() == 0 {
            Seq::empty()
        } else {
            Widget::spec_draw_seq(children.drop_last(), position) + Widget::spec_draw(
                children.last(),
                position,
            )
        }
    }

    /// The draw pass: append this subtree's display list to `out`. The
    /// tree itself is untouched; building happens only during rebuild,
    /// never while drawing.
    #[verifier::loop_isolation(false)]
    pub fn draw(&self, parent_position: Position, out: &mut Vec<DrawCommand>)
        requires
            self.is_built(),
        ensures
            final(out)@ == old(out)@ + self.spec_draw(parent_position),
        decreases *self,
    {
        let my_position = self.get_position().add(parent_position);
        match self {
            Widget::App(w) => match &w.data.cached_build {
                Some(b) => b.draw(my_position, out),
                None => vstd::pervasive::unreached(),
            },
            Widget::Button(w) => match &w.data.cached_build {
                Some(b) => b.draw(my_position, out),
                None => vstd::pervasive::unreached(),
            },
            Widget::Container(w) => {
                let size = w.child.get_size(&w.data.available_space);
                out.push(DrawCommand::SetDrawColor { color: w.background });
                out.push(DrawCommand::FillRect { position: my_position, size });
                let ghost mid = out@;
                w.child.draw(my_position, out);
                proof {
                    assert(out@ =~= old(out)@ + self.spec_draw(parent_position));
                }
            },
            Widget::Expanded(_) => {
                proof {
                    assert(out@ =~= old(out)@ + self.spec_draw(parent_position));
                }
            },
            Widget::Hoverable(w) => match &w.data.cached_build {
                Some(b) => b.draw(my_position, out),
                None => vstd::pervasive::unreached(),
            },
            Widget::List(w) => {
                proof {
                    lemma_is_built_seq(w.children@);
                }
                let mut i: usize = 0;
                while i < w.children.len()
                    invariant
                        i <= w.children@.len(),
                        forall|j: int| 0 <= j < w.children@.len() ==> Widget::is_built(
                            #[trigger] w.children@[j],
                        ),
                        out@ == old(out)@ + Widget::spec_draw_seq(
                            w.children@.subrange(0, i as int),
                            my_position,
                        ),
                    decreases w.children@.len() - i,
                {
                    w.children[i].draw(my_position, out);
                    proof {
                        let next = w.children@.subrange(0, i + 1 as int);
                        assert(next.drop_last() =~= w.children@.subrange(0, i as int));
                        assert(next.last() == w.children@[i as int]);
                        assert(out@ =~= old(out)@ + Widget::spec_draw_seq(next, my_position));
                    }
                    i = i + 1;
                }
                proof {
                    assert(w.children@.subrange(0, w.children@.len() as int) =~= w.children@);
                }
            },
            Widget::Padding(w) => match &w.child {
                Some(c) => c.draw(my_position, out),
                None => {
                    proof {
                        assert(out@ =~= old(out)@ + self.spec_draw(parent_position));
                    }
                },
            },
            Widget::SizedBox(w) => w.child.draw(my_position, out),
        }
    }

    /// The node's position, relative to its parent.
    pub fn get_position(&self) -> (r: Position)
        ensures
            r == self.pos(),
    {
        match self {
            Widget::App(w) => w.data.position,
            Widget::Button(w) => w.data.position,
            Widget::Container(w) => w.data.position,
            Widget::Expanded(w) => w.data.position,
            Widget::Hoverable(w) => w.data.position,
            Widget::List(w) => w.data.position,
            Widget::Padding(w) => w.data.position,
            Widget::SizedBox(w) => w.data.position,
        }
    }

    /// The space constraint the node's parent most recently committed.
    pub fn get_available_space(&self) -> (r: Size)
        ensures
            r == self.avail(),
    {
        match self {
            Widget::App(w) => w.data.available_space,
            Widget::Button(w) => w.data.available_space,
            Widget::Container(w) => w.data.available_space,
            Widget::Expanded(w) => w.data.available_space,
            Widget::Hoverable(w) => w.data.available_space,
            Widget::List(w) => w.data.available_space,
            Widget::Padding(w) => w.data.available_space,
            Widget::SizedBox(w) => w.data.available_space,
        }
    }
}

} // verus!
