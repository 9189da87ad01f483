//! The side table that resolution fills and evaluation reads: for each
//! local variable reference, how many scopes lie between it and its
//! declaration. A reference is known by the span of its token.

use vstd::prelude::*;
use crate::tables::{span_map_contents, span_map_get, span_map_insert, span_map_new, SpanMap};
use crate::token::Token;

verus! {

pub struct Locals {
    pub table: SpanMap,
}

impl View for Locals {
    type V = Map<(usize, usize), usize>;

    /// The distance recorded for each span.
    open spec fn view(&self) -> Map<(usize, usize), usize> {
        span_map_contents(self.table)
    }
}

impl Locals {
    /// No distances.
    pub fn new() -> (r: Locals)
        ensures
            r@ == Map::<(usize, usize), usize>::empty(),
    {
        Locals { table: span_map_new() }
    }

    /// Records the distance of a reference, in place of an earlier one.
    pub fn resolve(&mut self, token: &Token, index: usize)
        ensures
            final(self)@ == old(self)@.insert(token.span(), index),
    {
        span_map_insert(&mut self.table, (token.position.start, token.position.end), index);
    }

    /// The distance recorded for a reference, if it is a local one.
    pub fn distance(&self, token: &Token) -> (r: Option<usize>)
        ensures
            r == self@.get(token.span()),
    {
        span_map_get(&self.table, (token.position.start, token.position.end))
    }
}

} // verus!
