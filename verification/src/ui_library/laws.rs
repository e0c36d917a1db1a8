//! The toolkit's laws: the proved properties of the widget protocol.
//!
//! Structural equality of trees is an equivalence that every measurement
//! respects; rebuild outcomes depend only on a tree's equality class and
//! survive growth of the state store; identity keys are a function of
//! tree shape alone; hit testing follows the depth-first first-match
//! rule; and the flex algorithm's totals, expansion grants and spacing
//! obey their closed forms.

use vstd::prelude::*;

use super::compound::button::Button;
use super::list;
use super::list::List;
use super::padding::Padding;
use super::{KeySeg, Widget};
use crate::graphics::{Position, Size};
use crate::state::StateValue;

verus! {

/// A child sequence is entirely built exactly when each child is.
pub proof fn lemma_is_built_seq(s: Seq<Widget>)
    ensures
        Widget::is_built_seq(s) <==> (forall|i: int|
            0 <= i < s.len() ==> Widget::is_built(#[trigger] s[i])),
    decreases s,
{
    if s.len() > 0 {
        lemma_is_built_seq(s.drop_last());
        if Widget::is_built_seq(s) {
            assert forall|i: int| 0 <= i < s.len() implies Widget::is_built(#[trigger] s[i]) by {
                if i < s.len() - 1 {
                    assert(s.drop_last()[i] == s[i]);
                } else {
                    assert(s[i] == s.last());
                }
            }
        }
        if forall|i: int| 0 <= i < s.len() ==> Widget::is_built(#[trigger] s[i]) {
            assert forall|i: int| 0 <= i < s.drop_last().len() implies Widget::is_built(
                #[trigger] s.drop_last()[i],
            ) by {
                assert(s.drop_last()[i] == s[i]);
            }
            assert(Widget::is_built(s.last()));
        }
    }
}

/// A child sequence has a key on every node exactly when each child does.
pub proof fn lemma_has_keys_seq(s: Seq<Widget>)
    ensures
        Widget::has_keys_seq(s) <==> (forall|i: int|
            0 <= i < s.len() ==> Widget::has_keys(#[trigger] s[i])),
    decreases s,
{
    if s.len() > 0 {
        lemma_has_keys_seq(s.drop_last());
        if Widget::has_keys_seq(s) {
            assert forall|i: int| 0 <= i < s.len() implies Widget::has_keys(#[trigger] s[i]) by {
                if i < s.len() - 1 {
                    assert(s.drop_last()[i] == s[i]);
                } else {
                    assert(s[i] == s.last());
                }
            }
        }
        if forall|i: int| 0 <= i < s.len() ==> Widget::has_keys(#[trigger] s[i]) {
            assert forall|i: int| 0 <= i < s.drop_last().len() implies Widget::has_keys(
                #[trigger] s.drop_last()[i],
            ) by {
                assert(s.drop_last()[i] == s[i]);
            }
            assert(Widget::has_keys(s.last()));
        }
    }
}

/// Some child of a sequence expands exactly when one can be pointed at.
pub proof fn lemma_expands_any_index(s: Seq<Widget>)
    ensures
        Widget::expands_any(s) <==> (exists|i: int|
            0 <= i < s.len() && Widget::expands(#[trigger] s[i])),
    decreases s,
{
    if s.len() > 0 {
        lemma_expands_any_index(s.drop_last());
        if Widget::expands_any(s) {
            if Widget::expands(s.last()) {
                assert(Widget::expands(s[s.len() - 1]));
            } else {
                let i = choose|i: int|
                    0 <= i < s.drop_last().len() && Widget::expands(#[trigger] s.drop_last()[i]);
                assert(s.drop_last()[i] == s[i]);
            }
        }
        if exists|i: int| 0 <= i < s.len() && Widget::expands(#[trigger] s[i]) {
            let i = choose|i: int| 0 <= i < s.len() && Widget::expands(#[trigger] s[i]);
            if i < s.len() - 1 {
                assert(s.drop_last()[i] == s[i]);
            } else {
                assert(s.last() == s[i]);
            }
        }
    }
}

/// Pairwise structural equality of sequences, child by child.
pub proof fn lemma_weq_seq_index(a: Seq<Widget>, b: Seq<Widget>)
    ensures
        Widget::weq_seq(a, b) <==> (a.len() == b.len() && forall|i: int|
            0 <= i < a.len() ==> Widget::weq(#[trigger] a[i], b[i])),
    decreases a,
{
    if a.len() > 0 && a.len() == b.len() {
        lemma_weq_seq_index(a.drop_last(), b.drop_last());
        if Widget::weq_seq(a, b) {
            assert forall|i: int| 0 <= i < a.len() implies Widget::weq(#[trigger] a[i], b[i]) by {
                if i < a.len() - 1 {
                    assert(a.drop_last()[i] == a[i]);
                    assert(b.drop_last()[i] == b[i]);
                } else {
                    assert(a[i] == a.last());
                    assert(b[i] == b.last());
                }
            }
        }
        if forall|i: int| 0 <= i < a.len() ==> Widget::weq(#[trigger] a[i], b[i]) {
            assert forall|i: int| 0 <= i < a.drop_last().len() implies Widget::weq(
                #[trigger] a.drop_last()[i],
                b.drop_last()[i],
            ) by {
                assert(a.drop_last()[i] == a[i]);
                assert(b.drop_last()[i] == b[i]);
            }
            assert(Widget::weq(a.last(), b.last()));
        }
    }
}

/// Structural equality is reflexive: every tree equals itself.
pub proof fn lemma_weq_refl(w: Widget)
    ensures
        Widget::weq(w, w),
    decreases w,
{
    match w {
        Widget::App(x) => {
            lemma_weq_opt_refl(x.data.cached_build);
        },
        Widget::Button(x) => {
            lemma_weq_opt_refl(x.data.cached_build);
        },
        Widget::Container(x) => {
            lemma_weq_refl(*x.child);
        },
        Widget::Expanded(_) => {
        },
        Widget::Hoverable(x) => {
            lemma_weq_opt_refl(x.data.cached_build);
            lemma_weq_refl(*x.normal_child);
            lemma_weq_refl(*x.hovered_child);
        },
        Widget::List(x) => {
            assert forall|i: int| 0 <= i < x.children@.len() implies Widget::weq(
                #[trigger] x.children@[i],
                x.children@[i],
            ) by {
                lemma_weq_refl(x.children@[i]);
            }
            lemma_weq_seq_index(x.children@, x.children@);
        },
        Widget::Padding(x) => {
            lemma_weq_opt_refl(x.child);
        },
        Widget::SizedBox(x) => {
            lemma_weq_refl(*x.child);
        },
    }
}

/// Structural equality of optional subtrees is reflexive.
pub proof fn lemma_weq_opt_refl(c: Option<Box<Widget>>)
    ensures
        Widget::weq_opt_box(c, c),
    decreases c,
{
    match c {
        Option::Some(b) => {
            lemma_weq_refl(*b);
        },
        Option::None => {
        },
    }
}

/// Pairwise skeleton equality of sequences, child by child.
pub proof fn lemma_same_skeleton_seq_index(a: Seq<Widget>, b: Seq<Widget>)
    ensures
        Widget::same_skeleton_seq(a, b) <==> (a.len() == b.len() && forall|i: int|
            0 <= i < a.len() ==> Widget::same_skeleton(#[trigger] a[i], b[i])),
    decreases a,
{
    if a.len() > 0 && a.len() == b.len() {
        lemma_same_skeleton_seq_index(a.drop_last(), b.drop_last());
        if Widget::same_skeleton_seq(a, b) {
            assert forall|i: int| 0 <= i < a.len() implies Widget::same_skeleton(
                #[trigger] a[i],
                b[i],
            ) by {
                if i < a.len() - 1 {
                    assert(a.drop_last()[i] == a[i]);
                    assert(b.drop_last()[i] == b[i]);
                } else {
                    assert(a[i] == a.last());
                    assert(b[i] == b.last());
                }
            }
        }
        if forall|i: int| 0 <= i < a.len() ==> Widget::same_skeleton(#[trigger] a[i], b[i]) {
            assert forall|i: int| 0 <= i < a.drop_last().len() implies Widget::same_skeleton(
                #[trigger] a.drop_last()[i],
                b.drop_last()[i],
            ) by {
                assert(a.drop_last()[i] == a[i]);
                assert(b.drop_last()[i] == b[i]);
            }
            assert(Widget::same_skeleton(a.last(), b.last()));
        }
    }
}

/// Trees with the same skeleton measure alike: every derived quantity a
/// layout pass reads (natural size under any constraint, expansion, being
/// built, being keyed) agrees between them.
pub proof fn lemma_skeleton_measures(a: Widget, b: Widget)
    requires
        Widget::same_skeleton(a, b),
    ensures
        forall|av: Size| #[trigger] Widget::nat_size(a, av) == Widget::nat_size(b, av),
        a.expands() == b.expands(),
        a.is_built() == b.is_built(),
        a.has_keys() == b.has_keys(),
    decreases a, 1nat,
{
    match (a, b) {
        (Widget::App(x), Widget::App(y)) => {
            match (x.data.cached_build, y.data.cached_build) {
                (Option::Some(p), Option::Some(q)) => {
                    lemma_skeleton_measures(*p, *q);
                    assert forall|av: Size| #[trigger] Widget::nat_size(a, av) == Widget::nat_size(
                        b,
                        av,
                    ) by {
                        assert(Widget::nat_size(*p, av) == Widget::nat_size(*q, av));
                    }
                },
                _ => {
                },
            }
        },
        (Widget::Button(x), Widget::Button(y)) => {
            match (x.data.cached_build, y.data.cached_build) {
                (Option::Some(p), Option::Some(q)) => {
                    lemma_skeleton_measures(*p, *q);
                    assert forall|av: Size| #[trigger] Widget::nat_size(a, av) == Widget::nat_size(
                        b,
                        av,
                    ) by {
                        assert(Widget::nat_size(*p, av) == Widget::nat_size(*q, av));
                    }
                },
                _ => {
                },
            }
        },
        (Widget::Container(x), Widget::Container(y)) => {
            lemma_skeleton_measures(*x.child, *y.child);
            assert forall|av: Size| #[trigger] Widget::nat_size(a, av) == Widget::nat_size(
                b,
                av,
            ) by {
                assert(Widget::nat_size(*x.child, av) == Widget::nat_size(*y.child, av));
            }
        },
        (Widget::Expanded(_), Widget::Expanded(_)) => {
        },
        (Widget::Hoverable(x), Widget::Hoverable(y)) => {
            match (x.data.cached_build, y.data.cached_build) {
                (Option::Some(p), Option::Some(q)) => {
                    lemma_skeleton_measures(*p, *q);
                    assert forall|av: Size| #[trigger] Widget::nat_size(a, av) == Widget::nat_size(
                        b,
                        av,
                    ) by {
                        assert(Widget::nat_size(*p, av) == Widget::nat_size(*q, av));
                    }
                },
                _ => {
                },
            }
        },
        (Widget::List(x), Widget::List(y)) => {
            lemma_skeleton_seq_measures(x.children@, y.children@);
            assert forall|av: Size| #[trigger] Widget::nat_size(a, av) == Widget::nat_size(
                b,
                av,
            ) by {
                assert(Widget::total_natural(x.children@, av, x.direction)
                    == Widget::total_natural(y.children@, av, y.direction));
            }
        },
        (Widget::Padding(x), Widget::Padding(y)) => {
            match (x.child, y.child) {
                (Option::Some(p), Option::Some(q)) => {
                    lemma_skeleton_measures(*p, *q);
                    assert forall|av: Size| #[trigger] Widget::nat_size(a, av) == Widget::nat_size(
                        b,
                        av,
                    ) by {
                        assert(Widget::nat_size(
                            *p,
                            Padding::spec_child_constraint(x.padding, av),
                        ) == Widget::nat_size(*q, Padding::spec_child_constraint(y.padding, av)));
                    }
                },
                _ => {
                },
            }
        },
        (Widget::SizedBox(x), Widget::SizedBox(y)) => {
            lemma_skeleton_measures(*x.child, *y.child);
        },
        _ => {
        },
    }
}

/// Child sequences with the same skeletons measure alike.
pub proof fn lemma_skeleton_seq_measures(a: Seq<Widget>, b: Seq<Widget>)
    requires
        Widget::same_skeleton_seq(a, b),
    ensures
        a.len() == b.len(),
        forall|av: Size, dir: list::ListDirection| #[trigger] Widget::total_natural(a, av, dir)
            == Widget::total_natural(b, av, dir),
        forall|av: Size| #[trigger] Widget::natural_sizes(a, av) == Widget::natural_sizes(b, av),
        Widget::expand_flags(a) == Widget::expand_flags(b),
        Widget::expands_any(a) == Widget::expands_any(b),
        Widget::is_built_seq(a) == Widget::is_built_seq(b),
        Widget::has_keys_seq(a) == Widget::has_keys_seq(b),
    decreases a, 0nat,
{
    lemma_same_skeleton_seq_index(a, b);
    if a.len() > 0 {
        lemma_skeleton_seq_measures(a.drop_last(), b.drop_last());
        lemma_skeleton_measures(a.last(), b.last());
    }
    assert forall|av: Size, dir: list::ListDirection| #[trigger] Widget::total_natural(a, av, dir)
        == Widget::total_natural(b, av, dir) by {
        if a.len() > 0 {
            assert(Widget::total_natural(a.drop_last(), av, dir) == Widget::total_natural(
                b.drop_last(),
                av,
                dir,
            ));
            assert(Widget::nat_size(a.last(), av) == Widget::nat_size(b.last(), av));
        }
    }
    assert forall|i: int| 0 <= i < a.len() implies {
        &&& (forall|av: Size| #[trigger] Widget::nat_size(a[i], av) == Widget::nat_size(b[i], av))
        &&& Widget::expands(#[trigger] a[i]) == Widget::expands(b[i])
    } by {
        lemma_skeleton_measures(a[i], b[i]);
    }
    assert forall|av: Size| #[trigger] Widget::natural_sizes(a, av) == Widget::natural_sizes(
        b,
        av,
    ) by {
        assert(Widget::natural_sizes(a, av) =~= Widget::natural_sizes(b, av));
    }
    assert(Widget::expand_flags(a) =~= Widget::expand_flags(b));
}

/// No tree in a sequence out-ranks the sequence.
pub proof fn lemma_crank_seq_bound(s: Seq<Widget>, i: int)
    requires
        0 <= i < s.len(),
    ensures
        Widget::crank(s[i]) <= Widget::crank_seq(s),
    decreases s,
{
    if i < s.len() - 1 {
        lemma_crank_seq_bound(s.drop_last(), i);
        assert(s.drop_last()[i] == s[i]);
    } else {
        assert(s[i] == s.last());
    }
}

/// Structurally equal trees have equal rank.
pub proof fn lemma_weq_crank(a: Widget, b: Widget)
    requires
        Widget::weq(a, b),
    ensures
        Widget::crank(a) == Widget::crank(b),
    decreases a, 1nat,
{
    match (a, b) {
        (Widget::Container(x), Widget::Container(y)) => {
            lemma_weq_crank(*x.child, *y.child);
        },
        (Widget::Hoverable(x), Widget::Hoverable(y)) => {
            lemma_weq_crank(*x.normal_child, *y.normal_child);
            lemma_weq_crank(*x.hovered_child, *y.hovered_child);
        },
        (Widget::List(x), Widget::List(y)) => {
            lemma_weq_crank_seq(x.children@, y.children@);
        },
        (Widget::Padding(x), Widget::Padding(y)) => {
            match (x.child, y.child) {
                (Option::Some(p), Option::Some(q)) => {
                    lemma_weq_crank(*p, *q);
                },
                _ => {
                },
            }
        },
        (Widget::SizedBox(x), Widget::SizedBox(y)) => {
            lemma_weq_crank(*x.child, *y.child);
        },
        _ => {
        },
    }
}

/// Structurally equal sequences have equal rank.
pub proof fn lemma_weq_crank_seq(a: Seq<Widget>, b: Seq<Widget>)
    requires
        Widget::weq_seq(a, b),
    ensures
        Widget::crank_seq(a) == Widget::crank_seq(b),
    decreases a, 0nat,
{
    if a.len() > 0 {
        lemma_weq_crank(a.last(), b.last());
        lemma_weq_crank_seq(a.drop_last(), b.drop_last());
    }
}

/// Structural equality is transitive.
pub proof fn lemma_weq_trans(a: Widget, b: Widget, c: Widget)
    requires
        Widget::weq(a, b),
        Widget::weq(b, c),
    ensures
        Widget::weq(a, c),
    decreases a, 1nat,
{
    match (a, b, c) {
        (Widget::App(x), Widget::App(y), Widget::App(z)) => {
            match (x.data.cached_build, y.data.cached_build, z.data.cached_build) {
                (Option::Some(p), Option::Some(q), Option::Some(t)) => lemma_weq_trans(*p, *q, *t),
                _ => {
                },
            }
        },
        (Widget::Button(x), Widget::Button(y), Widget::Button(z)) => {
            match (x.data.cached_build, y.data.cached_build, z.data.cached_build) {
                (Option::Some(p), Option::Some(q), Option::Some(t)) => lemma_weq_trans(*p, *q, *t),
                _ => {
                },
            }
        },
        (Widget::Container(x), Widget::Container(y), Widget::Container(z)) => {
            lemma_weq_trans(*x.child, *y.child, *z.child);
        },
        (Widget::Hoverable(x), Widget::Hoverable(y), Widget::Hoverable(z)) => {
            lemma_weq_trans(*x.normal_child, *y.normal_child, *z.normal_child);
            lemma_weq_trans(*x.hovered_child, *y.hovered_child, *z.hovered_child);
            match (x.data.cached_build, y.data.cached_build, z.data.cached_build) {
                (Option::Some(p), Option::Some(q), Option::Some(t)) => lemma_weq_trans(*p, *q, *t),
                _ => {
                },
            }
        },
        (Widget::List(x), Widget::List(y), Widget::List(z)) => {
            lemma_weq_seq_index(x.children@, y.children@);
            lemma_weq_seq_index(y.children@, z.children@);
            assert forall|i: int| 0 <= i < x.children@.len() implies Widget::weq(
                #[trigger] x.children@[i],
                z.children@[i],
            ) by {
                lemma_weq_trans(x.children@[i], y.children@[i], z.children@[i]);
            }
            lemma_weq_seq_index(x.children@, z.children@);
        },
        (Widget::Padding(x), Widget::Padding(y), Widget::Padding(z)) => {
            match (x.child, y.child, z.child) {
                (Option::Some(p), Option::Some(q), Option::Some(t)) => lemma_weq_trans(*p, *q, *t),
                _ => {
                },
            }
        },
        (Widget::SizedBox(x), Widget::SizedBox(y), Widget::SizedBox(z)) => {
            lemma_weq_trans(*x.child, *y.child, *z.child);
        },
        _ => {
        },
    }
}

/// A rebuild outcome does not depend on the original tree beyond its
/// structural equality class: what a rebuild of `w1` produced is equally a
/// rebuild of any tree structurally equal to `w1`.
pub proof fn lemma_rebuilt_from_weq(
    r: Widget,
    w1: Widget,
    w2: Widget,
    parent_key: Seq<KeySeg>,
    states: Map<Seq<KeySeg>, StateValue>,
)
    requires
        Widget::rebuilt_from(r, w1, parent_key, states),
        Widget::weq(w1, w2),
    ensures
        Widget::rebuilt_from(r, w2, parent_key, states),
    decreases r, 1nat,
{
    let key = parent_key.push(KeySeg::Tag(w1.tag()));
    match (r, w1, w2) {
        (Widget::App(x), Widget::App(_), Widget::App(_)) => {
        },
        (Widget::Button(x), Widget::Button(y1), Widget::Button(y2)) => {
            assert(Button::spec_build(y1) == Button::spec_build(y2));
        },
        (Widget::Container(x), Widget::Container(y1), Widget::Container(y2)) => {
            lemma_rebuilt_from_weq(
                *x.child,
                *y1.child,
                *y2.child,
                key.push(KeySeg::Index(0)),
                states,
            );
        },
        (Widget::Expanded(_), Widget::Expanded(_), Widget::Expanded(_)) => {
        },
        (Widget::Hoverable(x), Widget::Hoverable(y1), Widget::Hoverable(y2)) => {
            lemma_weq_trans(*x.normal_child, *y1.normal_child, *y2.normal_child);
            lemma_weq_trans(*x.hovered_child, *y1.hovered_child, *y2.hovered_child);
            match states[key] {
                StateValue::Hoverable(st) => {
                    let b = x.data.cached_build->Some_0;
                    assert(Widget::weq(y1.spec_build(st), y2.spec_build(st)));
                    lemma_rebuilt_from_weq(
                        *b,
                        y1.spec_build(st),
                        y2.spec_build(st),
                        key.push(KeySeg::Index(0)),
                        states,
                    );
                },
            }
        },
        (Widget::List(x), Widget::List(y1), Widget::List(y2)) => {
            lemma_weq_seq_index(y1.children@, y2.children@);
            assert forall|i: int| 0 <= i < x.children@.len() implies Widget::rebuilt_from(
                #[trigger] x.children@[i],
                y2.children@[i],
                key.push(KeySeg::Index(i as usize)),
                states,
            ) by {
                lemma_rebuilt_from_weq(
                    x.children@[i],
                    y1.children@[i],
                    y2.children@[i],
                    key.push(KeySeg::Index(i as usize)),
                    states,
                );
            }
        },
        (Widget::Padding(x), Widget::Padding(y1), Widget::Padding(y2)) => {
            match (x.child, y1.child, y2.child) {
                (Option::Some(p), Option::Some(q1), Option::Some(q2)) => {
                    lemma_rebuilt_from_weq(*p, *q1, *q2, key.push(KeySeg::Index(0)), states);
                },
                _ => {
                },
            }
        },
        (Widget::SizedBox(x), Widget::SizedBox(y1), Widget::SizedBox(y2)) => {
            lemma_rebuilt_from_weq(*x.child, *y1.child, *y2.child, key.push(KeySeg::Index(0)), states);
        },
        _ => {
        },
    }
}

/// A rebuild outcome survives later additions to the state store: growing
/// the store without touching existing entries keeps every rebuilt
/// subtree a rebuild of its original.
pub proof fn lemma_rebuilt_from_mono(
    r: Widget,
    w: Widget,
    parent_key: Seq<KeySeg>,
    s1: Map<Seq<KeySeg>, StateValue>,
    s2: Map<Seq<KeySeg>, StateValue>,
)
    requires
        Widget::rebuilt_from(r, w, parent_key, s1),
        forall|k: Seq<KeySeg>|
            #[trigger] s1.contains_key(k) ==> s2.contains_key(k) && s2[k] == s1[k],
    ensures
        Widget::rebuilt_from(r, w, parent_key, s2),
    decreases r, 1nat,
{
    let key = parent_key.push(KeySeg::Tag(w.tag()));
    match (r, w) {
        (Widget::App(x), Widget::App(_)) => {
            match x.data.cached_build {
                Option::Some(b) => {
                    let t = choose|t: Widget|
                        #[trigger] crate::App::build_desc(t) && Widget::rebuilt_from(
                            *b,
                            t,
                            key.push(KeySeg::Index(0)),
                            s1,
                        );
                    lemma_rebuilt_from_mono(*b, t, key.push(KeySeg::Index(0)), s1, s2);
                },
                Option::None => {
                },
            }
        },
        (Widget::Button(x), Widget::Button(y)) => {
            match x.data.cached_build {
                Option::Some(b) => {
                    lemma_rebuilt_from_mono(
                        *b,
                        Button::spec_build(y),
                        key.push(KeySeg::Index(0)),
                        s1,
                        s2,
                    );
                },
                Option::None => {
                },
            }
        },
        (Widget::Container(x), Widget::Container(y)) => {
            lemma_rebuilt_from_mono(*x.child, *y.child, key.push(KeySeg::Index(0)), s1, s2);
        },
        (Widget::Expanded(_), Widget::Expanded(_)) => {
        },
        (Widget::Hoverable(x), Widget::Hoverable(y)) => {
            assert(s1.contains_key(key));
            assert(s2[key] == s1[key]);
            match (s1[key], x.data.cached_build) {
                (StateValue::Hoverable(st), Option::Some(b)) => {
                    lemma_rebuilt_from_mono(
                        *b,
                        y.spec_build(st),
                        key.push(KeySeg::Index(0)),
                        s1,
                        s2,
                    );
                },
                _ => {
                },
            }
        },
        (Widget::List(x), Widget::List(y)) => {
            assert forall|i: int| 0 <= i < x.children@.len() implies Widget::rebuilt_from(
                #[trigger] x.children@[i],
                y.children@[i],
                key.push(KeySeg::Index(i as usize)),
                s2,
            ) by {
                lemma_rebuilt_from_mono(
                    x.children@[i],
                    y.children@[i],
                    key.push(KeySeg::Index(i as usize)),
                    s1,
                    s2,
                );
            }
        },
        (Widget::Padding(x), Widget::Padding(y)) => {
            match (x.child, y.child) {
                (Option::Some(p), Option::Some(q)) => {
                    lemma_rebuilt_from_mono(*p, *q, key.push(KeySeg::Index(0)), s1, s2);
                },
                _ => {
                },
            }
        },
        (Widget::SizedBox(x), Widget::SizedBox(y)) => {
            lemma_rebuilt_from_mono(*x.child, *y.child, key.push(KeySeg::Index(0)), s1, s2);
        },
        _ => {
        },
    }
}

/// Key determinism: keys are a function of tree shape alone. Any two
/// rebuild outcomes of the same shape — in particular, two consecutive
/// rebuilds of a tree whose shape did not change — carry identical
/// identity keys at every structural position, whatever trees they were
/// rebuilt from and whatever the state store held.
pub proof fn lemma_key_determinism(
    r1: Widget,
    w1: Widget,
    s1: Map<Seq<KeySeg>, StateValue>,
    r2: Widget,
    w2: Widget,
    s2: Map<Seq<KeySeg>, StateValue>,
    parent_key: Seq<KeySeg>,
)
    requires
        Widget::rebuilt_from(r1, w1, parent_key, s1),
        Widget::rebuilt_from(r2, w2, parent_key, s2),
        Widget::same_shape(r1, r2),
    ensures
        Widget::same_keys(r1, r2),
    decreases r1, 1nat,
{
    let key = parent_key.push(KeySeg::Tag(w1.tag()));
    assert(w1.tag() == w2.tag());
    match (r1, r2) {
        (Widget::App(x1), Widget::App(x2)) => {
            match (x1.data.cached_build, x2.data.cached_build) {
                (Option::Some(b1), Option::Some(b2)) => {
                    let t1 = choose|t: Widget|
                        #[trigger] crate::App::build_desc(t) && Widget::rebuilt_from(
                            *b1,
                            t,
                            key.push(KeySeg::Index(0)),
                            s1,
                        );
                    let t2 = choose|t: Widget|
                        #[trigger] crate::App::build_desc(t) && Widget::rebuilt_from(
                            *b2,
                            t,
                            key.push(KeySeg::Index(0)),
                            s2,
                        );
                    lemma_key_determinism(*b1, t1, s1, *b2, t2, s2, key.push(KeySeg::Index(0)));
                },
                _ => {
                },
            }
        },
        (Widget::Button(x1), Widget::Button(x2)) => {
            match ((r1, w1), (r2, w2)) {
                ((Widget::Button(_), Widget::Button(y1)), (Widget::Button(_), Widget::Button(y2))) => {
                    match (x1.data.cached_build, x2.data.cached_build) {
                        (Option::Some(b1), Option::Some(b2)) => {
                            lemma_key_determinism(
                                *b1,
                                Button::spec_build(y1),
                                s1,
                                *b2,
                                Button::spec_build(y2),
                                s2,
                                key.push(KeySeg::Index(0)),
                            );
                        },
                        _ => {
                        },
                    }
                },
                _ => {
                },
            }
        },
        (Widget::Container(x1), Widget::Container(x2)) => {
            match (w1, w2) {
                (Widget::Container(y1), Widget::Container(y2)) => {
                    lemma_key_determinism(
                        *x1.child,
                        *y1.child,
                        s1,
                        *x2.child,
                        *y2.child,
                        s2,
                        key.push(KeySeg::Index(0)),
                    );
                },
                _ => {
                },
            }
        },
        (Widget::Expanded(_), Widget::Expanded(_)) => {
        },
        (Widget::Hoverable(x1), Widget::Hoverable(x2)) => {
            match (w1, w2) {
                (Widget::Hoverable(y1), Widget::Hoverable(y2)) => {
                    match (s1[key], s2[key]) {
                        (StateValue::Hoverable(st1), StateValue::Hoverable(st2)) => {
                            match (x1.data.cached_build, x2.data.cached_build) {
                                (Option::Some(b1), Option::Some(b2)) => {
                                    lemma_key_determinism(
                                        *b1,
                                        y1.spec_build(st1),
                                        s1,
                                        *b2,
                                        y2.spec_build(st2),
                                        s2,
                                        key.push(KeySeg::Index(0)),
                                    );
                                },
                                _ => {
                                },
                            }
                        },
                    }
                },
                _ => {
                },
            }
        },
        (Widget::List(x1), Widget::List(x2)) => {
            match (w1, w2) {
                (Widget::List(y1), Widget::List(y2)) => {
                    assert forall|i: int| 0 <= i < x1.children@.len() implies Widget::same_keys(
                        #[trigger] x1.children@[i],
                        x2.children@[i],
                    ) by {
                        lemma_key_determinism(
                            x1.children@[i],
                            y1.children@[i],
                            s1,
                            x2.children@[i],
                            y2.children@[i],
                            s2,
                            key.push(KeySeg::Index(i as usize)),
                        );
                    }
                },
                _ => {
                },
            }
        },
        (Widget::Padding(x1), Widget::Padding(x2)) => {
            match (w1, w2) {
                (Widget::Padding(y1), Widget::Padding(y2)) => {
                    match (x1.child, x2.child, y1.child, y2.child) {
                        (Option::Some(b1), Option::Some(b2), Option::Some(c1), Option::Some(c2)) => {
                            lemma_key_determinism(
                                *b1,
                                *c1,
                                s1,
                                *b2,
                                *c2,
                                s2,
                                key.push(KeySeg::Index(0)),
                            );
                        },
                        _ => {
                        },
                    }
                },
                _ => {
                },
            }
        },
        (Widget::SizedBox(x1), Widget::SizedBox(x2)) => {
            match (w1, w2) {
                (Widget::SizedBox(y1), Widget::SizedBox(y2)) => {
                    lemma_key_determinism(
                        *x1.child,
                        *y1.child,
                        s1,
                        *x2.child,
                        *y2.child,
                        s2,
                        key.push(KeySeg::Index(0)),
                    );
                },
                _ => {
                },
            }
        },
        _ => {
        },
    }
}

/// Some subtree of a sequence captures exactly when one can be pointed at.
pub proof fn lemma_any_captures_index(s: Seq<Widget>, position: Position, pointer: Position)
    ensures
        Widget::any_captures(s, position, pointer) <==> (exists|i: int|
            0 <= i < s.len() && Widget::can_capture(#[trigger] s[i], position, pointer)),
    decreases s,
{
    if s.len() > 0 {
        lemma_any_captures_index(s.drop_first(), position, pointer);
        if Widget::any_captures(s, position, pointer) {
            if Widget::can_capture(s.first(), position, pointer) {
                assert(Widget::can_capture(s[0], position, pointer));
            } else {
                let i = choose|i: int|
                    0 <= i < s.drop_first().len() && Widget::can_capture(
                        #[trigger] s.drop_first()[i],
                        position,
                        pointer,
                    );
                assert(s.drop_first()[i] == s[i + 1]);
            }
        }
        if exists|i: int| 0 <= i < s.len() && Widget::can_capture(#[trigger] s[i], position, pointer) {
            let i = choose|i: int|
                0 <= i < s.len() && Widget::can_capture(#[trigger] s[i], position, pointer);
            if i == 0 {
                assert(s.first() == s[0]);
            } else {
                assert(s.drop_first()[i - 1] == s[i]);
            }
        }
    }
}

/// The first-match rule, pointed at: if child `j` captures and no earlier
/// sibling does, the sequence's capture key is child `j`'s.
pub proof fn lemma_capture_key_seq_at(s: Seq<Widget>, position: Position, pointer: Position, j: int)
    requires
        0 <= j < s.len(),
        Widget::can_capture(s[j], position, pointer),
        forall|i: int| 0 <= i < j ==> !Widget::can_capture(#[trigger] s[i], position, pointer),
    ensures
        Widget::capture_key_seq(s, position, pointer) == Widget::capture_key(
            s[j],
            position,
            pointer,
        ),
    decreases s,
{
    if j == 0 {
        assert(s.first() == s[0]);
    } else {
        assert(!Widget::can_capture(s.first(), position, pointer));
        assert forall|i: int| 0 <= i < j - 1 implies !Widget::can_capture(
            #[trigger] s.drop_first()[i],
            position,
            pointer,
        ) by {
            assert(s.drop_first()[i] == s[i + 1]);
        }
        assert(s.drop_first()[j - 1] == s[j]);
        lemma_capture_key_seq_at(s.drop_first(), position, pointer, j - 1);
    }
}

/// Structural equality is skeleton equality and more: structurally equal
/// trees in particular share a skeleton, and so measure alike.
pub proof fn lemma_weq_skeleton(a: Widget, b: Widget)
    requires
        Widget::weq(a, b),
    ensures
        Widget::same_skeleton(a, b),
    decreases a, 1nat,
{
    match (a, b) {
        (Widget::App(x), Widget::App(y)) => {
            match (x.data.cached_build, y.data.cached_build) {
                (Option::Some(p), Option::Some(q)) => lemma_weq_skeleton(*p, *q),
                _ => {
                },
            }
        },
        (Widget::Button(x), Widget::Button(y)) => {
            match (x.data.cached_build, y.data.cached_build) {
                (Option::Some(p), Option::Some(q)) => lemma_weq_skeleton(*p, *q),
                _ => {
                },
            }
        },
        (Widget::Container(x), Widget::Container(y)) => {
            lemma_weq_skeleton(*x.child, *y.child);
        },
        (Widget::Expanded(_), Widget::Expanded(_)) => {
        },
        (Widget::Hoverable(x), Widget::Hoverable(y)) => {
            match (x.data.cached_build, y.data.cached_build) {
                (Option::Some(p), Option::Some(q)) => lemma_weq_skeleton(*p, *q),
                _ => {
                },
            }
        },
        (Widget::List(x), Widget::List(y)) => {
            lemma_weq_seq_index(x.children@, y.children@);
            assert forall|i: int| 0 <= i < x.children@.len() implies Widget::same_skeleton(
                #[trigger] x.children@[i],
                y.children@[i],
            ) by {
                lemma_weq_skeleton(x.children@[i], y.children@[i]);
            }
            lemma_same_skeleton_seq_index(x.children@, y.children@);
        },
        (Widget::Padding(x), Widget::Padding(y)) => {
            match (x.child, y.child) {
                (Option::Some(p), Option::Some(q)) => lemma_weq_skeleton(*p, *q),
                _ => {
                },
            }
        },
        (Widget::SizedBox(x), Widget::SizedBox(y)) => {
            lemma_weq_skeleton(*x.child, *y.child);
        },
        _ => {
        },
    }
}

/// Hit-test precedence: in a list, the first child (in traversal order)
/// whose subtree captures the pointer wins — the list captures, and the
/// capture lands at that child's capturing node; later siblings and the
/// list itself are never consulted.
pub proof fn lemma_hit_test_precedence(
    l: List,
    parent_position: Position,
    pointer: Position,
    j: int,
)
    requires
        0 <= j < l.children@.len(),
        Widget::can_capture(
            l.children@[j],
            l.data.position.spec_add(parent_position),
            pointer,
        ),
        forall|i: int|
            0 <= i < j ==> !Widget::can_capture(
                #[trigger] l.children@[i],
                l.data.position.spec_add(parent_position),
                pointer,
            ),
    ensures
        Widget::List(l).can_capture(parent_position, pointer),
        Widget::List(l).capture_key(parent_position, pointer) == Widget::capture_key(
            l.children@[j],
            l.data.position.spec_add(parent_position),
            pointer,
        ),
{
    let my_position = l.data.position.spec_add(parent_position);
    lemma_any_captures_index(l.children@, my_position, pointer);
    lemma_capture_key_seq_at(l.children@, my_position, pointer, j);
}

/// The prefix reduction reads only the first `n` sizes.
proof fn lemma_total_prefix_congruence(
    s1: Seq<Size>,
    s2: Seq<Size>,
    direction: list::ListDirection,
    n: int,
)
    requires
        0 <= n <= s1.len(),
        n <= s2.len(),
        forall|j: int| 0 <= j < n ==> s1[j] == s2[j],
    ensures
        list::total_prefix(s1, direction, n) == list::total_prefix(s2, direction, n),
    decreases n,
{
    if n > 0 {
        lemma_total_prefix_congruence(s1, s2, direction, n - 1);
    }
}

/// The two readings of a list's total agree: reducing the children
/// directly equals reducing the sequence of their measured sizes. The
/// measure pass and the layout pass therefore see one and the same
/// total.
pub proof fn lemma_total_natural_is_total_size(
    children: Seq<Widget>,
    available_space: Size,
    direction: list::ListDirection,
)
    ensures
        Widget::total_natural(children, available_space, direction) == list::total_size(
            Widget::natural_sizes(children, available_space),
            direction,
        ),
    decreases children,
{
    let sizes = Widget::natural_sizes(children, available_space);
    if children.len() == 0 {
        assert(list::total_prefix(sizes, direction, 0) == Size::spec_zero());
    } else {
        lemma_total_natural_is_total_size(children.drop_last(), available_space, direction);
        let shorter = Widget::natural_sizes(children.drop_last(), available_space);
        assert forall|j: int| 0 <= j < children.len() - 1 implies shorter[j] == sizes[j] by {
            assert(children.drop_last()[j] == children[j]);
        }
        lemma_total_prefix_congruence(shorter, sizes, direction, children.len() - 1);
        assert(sizes[children.len() - 1] == Widget::nat_size(children.last(), available_space));
    }
}

} // verus!
