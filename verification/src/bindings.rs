//! Bindings of names to values: the variables of a scope, the fields of an
//! instance.
//!
//! A hash table takes the symbol of a name to a slot, and the slots hold
//! the values.

use vstd::prelude::*;
use crate::literal::LiteralValue;
use crate::tables::{
    symbol_map_contents, symbol_map_get, symbol_map_insert, symbol_map_new, SymbolMap,
};

verus! {

pub struct Bindings {
    pub names: SymbolMap,
    pub slots: Vec<LiteralValue>,
}

impl View for Bindings {
    type V = Map<usize, LiteralValue>;

    /// The value bound to each name.
    open spec fn view(&self) -> Map<usize, LiteralValue> {
        Map::new(
            |name: usize| symbol_map_contents(self.names).contains_key(name),
            |name: usize| self.slots@[symbol_map_contents(self.names)[name] as int],
        )
    }
}

impl Bindings {
    /// Every name has a slot of its own.
    pub open spec fn wf(&self) -> bool {
        &&& forall|name: usize| #[trigger]
            symbol_map_contents(self.names).contains_key(name) ==> symbol_map_contents(
                self.names,
            )[name] < self.slots@.len()
        &&& forall|a: usize, b: usize|
            symbol_map_contents(self.names).contains_key(a) && symbol_map_contents(
                self.names,
            ).contains_key(b) && #[trigger] symbol_map_contents(self.names)[a]
                == #[trigger] symbol_map_contents(self.names)[b] ==> a == b
    }

    /// No bindings.
    pub fn new() -> (r: Bindings)
        ensures
            r.wf(),
            r@ == Map::<usize, LiteralValue>::empty(),
    {
        let r = Bindings { names: symbol_map_new(), slots: Vec::new() };
        assert(r@ =~= Map::<usize, LiteralValue>::empty());
        r
    }

    /// The value bound to a name.
    pub fn get(&self, name: usize) -> (r: Option<LiteralValue>)
        requires
            self.wf(),
        ensures
            r == self@.get(name),
    {
        match symbol_map_get(&self.names, name) {
            Some(slot) => Some(self.slots[slot]),
            None => None,
        }
    }

    /// Binds the name to the value, in place of what it was bound to.
    pub fn insert(&mut self, name: usize, value: LiteralValue)
        requires
            old(self).wf(),
        ensures
            final(self).wf(),
            final(self)@ == old(self)@.insert(name, value),
    {
        match symbol_map_get(&self.names, name) {
            Some(slot) => {
                self.slots.set(slot, value);
            },
            None => {
                let slot = self.slots.len();
                self.slots.push(value);
                symbol_map_insert(&mut self.names, name, slot);
            },
        }
        assert(self@ =~= old(self)@.insert(name, value));
    }
}

} // verus!
