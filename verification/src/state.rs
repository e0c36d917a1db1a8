//! The state store: process-scoped, keyed, persistent storage for
//! widget-local state.
//!
//! Entries are keyed by structural identity. An entry is created from a
//! caller-supplied default the first time its key is looked up and is
//! retained across rebuilds for as long as that key keeps being produced;
//! nothing ever evicts or overwrites an entry behind a caller's back.

use vstd::prelude::*;

use crate::ui_library::compound::hoverable::HoverableState;
use crate::ui_library::{Key, KeySeg};

verus! {

/// Marks a type as persistent widget-local state.
pub trait State {

}

/// A stored state value: the closed sum of the state types the widget
/// set uses.
#[derive(Clone, Copy, Debug, PartialEq, Eq, Structural)]
pub enum StateValue {
    Hoverable(HoverableState),
}

/// The state store. One instance serves a whole running application; it
/// is threaded, as explicit context, through every rebuild and event
/// dispatch.
#[derive(Debug)]
pub struct StateManager {
    entries: Vec<(Key, StateValue)>,
}

impl View for StateManager {
    type V = Map<Seq<KeySeg>, StateValue>;

    closed spec fn view(&self) -> Map<Seq<KeySeg>, StateValue> {
        Map::new(
            |k: Seq<KeySeg>| exists|i: int| 0 <= i < self.entries@.len() && self.entries@[i].0@ == k,
            |k: Seq<KeySeg>| {
                let i = choose|i: int| 0 <= i < self.entries@.len() && self.entries@[i].0@ == k;
                self.entries@[i].1
            },
        )
    }
}

impl StateManager {
    /// No two entries share a key, so the key-to-value map is
    /// unambiguous.
    pub closed spec fn wf(&self) -> bool {
        forall|i: int, j: int|
            0 <= i < j < self.entries@.len() ==> self.entries@[i].0@ != self.entries@[j].0@
    }

    /// An empty store.
    pub fn new() -> (r: Self)
        ensures
            r@ == Map::<Seq<KeySeg>, StateValue>::empty(),
            r.wf(),
    {
        let r = StateManager { entries: Vec::new() };
        proof {
            assert(r@ =~= Map::<Seq<KeySeg>, StateValue>::empty());
        }
        r
    }

    proof fn lemma_lookup(&self, i: int)
        requires
            self.wf(),
            0 <= i < self.entries@.len(),
        ensures
            self@.contains_key(self.entries@[i].0@),
            self@[self.entries@[i].0@] == self.entries@[i].1,
    {
        let k = self.entries@[i].0@;
        let j = choose|j: int| 0 <= j < self.entries@.len() && self.entries@[j].0@ == k;
        assert(j == i);
    }

    /// The value bound to `key`. On the first access with a key, the
    /// entry is created from `default`; every later access with the same
    /// key returns the stored value, untouched by intervening rebuilds.
    pub fn get_state(&mut self, key: &Key, default: StateValue) -> (r: StateValue)
        requires
            old(self).wf(),
        ensures
            final(self).wf(),
            old(self)@.contains_key(key@) ==> {
                &&& r == old(self)@[key@]
                &&& final(self)@ == old(self)@
            },
            !old(self)@.contains_key(key@) ==> {
                &&& r == default
                &&& final(self)@ == old(self)@.insert(key@, default)
            },
    {
        let ghost orig = *self;
        let mut i: usize = 0;
        while i < self.entries.len()
            invariant
                *self == orig,
                orig == *old(self),
                orig.wf(),
                i <= self.entries@.len(),
                forall|j: int| 0 <= j < i ==> self.entries@[j].0@ != key@,
            decreases self.entries@.len() - i,
        {
            if self.entries[i].0.same_key(key) {
                proof {
                    self.lemma_lookup(i as int);
                }
                return self.entries[i].1;
            }
            i = i + 1;
        }
        proof {
            if orig@.contains_key(key@) {
                let j = choose|j: int| 0 <= j < orig.entries@.len() && orig.entries@[j].0@ == key@;
                assert(false);
            }
        }
        self.entries.push((key.duplicate(), default));
        proof {
            assert(self.entries@.len() == orig.entries@.len() + 1);
            assert(forall|j: int| 0 <= j < orig.entries@.len() ==> self.entries@[j] == orig.entries@[j]);
            assert(self.entries@[orig.entries@.len() as int].0@ == key@);
            assert(self.wf());
            assert forall|k: Seq<KeySeg>| #[trigger] final(self)@.contains_key(k) <==> orig@.insert(key@, default).contains_key(k) by {
                if k == key@ {
                    assert(self.entries@[self.entries@.len() - 1].0@ == k);
                } else {
                    if exists|i: int| 0 <= i < self.entries@.len() && self.entries@[i].0@ == k {
                        let i = choose|i: int| 0 <= i < self.entries@.len() && self.entries@[i].0@ == k;
                        assert(0 <= i < orig.entries@.len() && orig.entries@[i].0@ == k);
                    }
                }
            }
            assert forall|k: Seq<KeySeg>| final(self)@.contains_key(k) implies #[trigger] final(self)@[k] == orig@.insert(key@, default)[k] by {
                let i = choose|i: int| 0 <= i < self.entries@.len() && self.entries@[i].0@ == k;
                if k == key@ {
                    assert(i == self.entries@.len() - 1);
                } else {
                    assert(orig.entries@[i].0@ == k);
                    orig.lemma_lookup(i);
                }
            }
            assert(final(self)@ =~= orig@.insert(key@, default));
        }
        default
    }

    /// Bind `key` to `value`, replacing any stored value.
    pub fn set_state(&mut self, key: &Key, value: StateValue)
        requires
            old(self).wf(),
        ensures
            final(self).wf(),
            final(self)@ == old(self)@.insert(key@, value),
    {
        let ghost orig = *self;
        let mut i: usize = 0;
        while i < self.entries.len()
            invariant
                *self == orig,
                orig == *old(self),
                orig.wf(),
                i <= self.entries@.len(),
                forall|j: int| 0 <= j < i ==> self.entries@[j].0@ != key@,
            decreases self.entries@.len() - i,
        {
            if self.entries[i].0.same_key(key) {
                let replacement = (key.duplicate(), value);
                self.entries.set(i, replacement);
                proof {
                    let n = self.entries@.len() as int;
                    assert(n == orig.entries@.len());
                    assert forall|j: int| 0 <= j < n implies #[trigger] self.entries@[j].0@ == orig.entries@[j].0@ by {
                        if j != i {
                            assert(self.entries@[j] == orig.entries@[j]);
                        }
                    }
                    assert(self.wf());
                    assert forall|k: Seq<KeySeg>| #[trigger] final(self)@.contains_key(k) <==> orig@.insert(key@, value).contains_key(k) by {
                        if exists|j: int| 0 <= j < n && self.entries@[j].0@ == k {
                            let j = choose|j: int| 0 <= j < n && self.entries@[j].0@ == k;
                            assert(orig.entries@[j].0@ == k);
                        }
                        if k != key@ && orig@.contains_key(k) {
                            let j = choose|j: int| 0 <= j < n && orig.entries@[j].0@ == k;
                            assert(self.entries@[j].0@ == k);
                        }
                        if k == key@ {
                            assert(self.entries@[i as int].0@ == k);
                        }
                    }
                    assert forall|k: Seq<KeySeg>| final(self)@.contains_key(k) implies #[trigger] final(self)@[k] == orig@.insert(key@, value)[k] by {
                        let j = choose|j: int| 0 <= j < n && self.entries@[j].0@ == k;
                        self.lemma_lookup(j);
                        if j == i {
                            assert(k == key@);
                            assert(self.entries@[j].1 == value);
                        } else {
                            assert(self.entries@[j] == orig.entries@[j]);
                            orig.lemma_lookup(j);
                        }
                    }
                    assert(final(self)@ =~= orig@.insert(key@, value));
                }
                return ;
            }
            i = i + 1;
        }
        proof {
            if orig@.contains_key(key@) {
                let j = choose|j: int| 0 <= j < orig.entries@.len() && orig.entries@[j].0@ == key@;
                assert(false);
            }
        }
        self.entries.push((key.duplicate(), value));
        proof {
            assert(self.entries@.len() == orig.entries@.len() + 1);
            assert(forall|j: int| 0 <= j < orig.entries@.len() ==> self.entries@[j] == orig.entries@[j]);
            assert(self.entries@[orig.entries@.len() as int].0@ == key@);
            assert(self.wf());
            assert forall|k: Seq<KeySeg>| #[trigger] final(self)@.contains_key(k) <==> orig@.insert(key@, value).contains_key(k) by {
                if k == key@ {
                    assert(self.entries@[self.entries@.len() - 1].0@ == k);
                } else {
                    if exists|i: int| 0 <= i < self.entries@.len() && self.entries@[i].0@ == k {
                        let i = choose|i: int| 0 <= i < self.entries@.len() && self.entries@[i].0@ == k;
                        assert(0 <= i < orig.entries@.len() && orig.entries@[i].0@ == k);
                    }
                }
            }
            assert forall|k: Seq<KeySeg>| final(self)@.contains_key(k) implies #[trigger] final(self)@[k] == orig@.insert(key@, value)[k] by {
                let i = choose|i: int| 0 <= i < self.entries@.len() && self.entries@[i].0@ == k;
                self.lemma_lookup(i);
                if k == key@ {
                    assert(i == self.entries@.len() - 1);
                } else {
                    assert(orig.entries@[i].0@ == k);
                    orig.lemma_lookup(i);
                }
            }
            assert(final(self)@ =~= orig@.insert(key@, value));
        }
    }
}

} // verus!
