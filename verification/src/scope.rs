//! One lexical scope of the resolver: the names declared in it, each with
//! the flag that tells whether its initializer has been resolved.

use vstd::prelude::*;
use crate::tables::{
    symbol_map_contents, symbol_map_get, symbol_map_insert, symbol_map_new, SymbolMap,
};

verus! {

pub struct Scope {
    pub names: SymbolMap,
}

impl View for Scope {
    type V = Map<usize, bool>;

    /// For each declared name, whether it is ready.
    open spec fn view(&self) -> Map<usize, bool> {
        Map::new(
            |name: usize| symbol_map_contents(self.names).contains_key(name),
            |name: usize| symbol_map_contents(self.names)[name] != 0,
        )
    }
}

impl Scope {
    pub fn new() -> (r: Scope)
        ensures
            r@ == Map::<usize, bool>::empty(),
    {
        let r = Scope { names: symbol_map_new() };
        assert(r@ =~= Map::<usize, bool>::empty());
        r
    }

    /// Whether the name is ready, if it is declared here.
    pub fn get(&self, name: usize) -> (r: Option<bool>)
        ensures
            r == self@.get(name),
    {
        match symbol_map_get(&self.names, name) {
            Some(flag) => Some(flag != 0),
            None => None,
        }
    }

    /// Declares the name here, ready or not.
    pub fn insert(&mut self, name: usize, ready: bool)
        ensures
            final(self)@ == old(self)@.insert(name, ready),
    {
        symbol_map_insert(
            &mut self.names,
            name,
            if ready {
                1
            } else {
                0
            },
        );
        assert(self@ =~= old(self)@.insert(name, ready));
    }
}

} // verus!
