//! Immutable singly linked lists, shared by reference count.

use vstd::prelude::*;
use std::rc::Rc;

verus! {

/// A list: empty, or a first item and the rest.
#[derive(Debug)]
pub enum List<T> {
    Nil,
    Cons(T, Rc<List<T>>),
}

impl<T> List<T> {
    /// The items of the list, first to last.
    pub open spec fn items(self) -> Seq<T>
        decreases self,
    {
        match self {
            List::Nil => Seq::empty(),
            List::Cons(first, rest) => seq![first] + rest.items(),
        }
    }

    /// How many items the list has.
    pub open spec fn count(self) -> nat
        decreases self,
    {
        match self {
            List::Nil => 0,
            List::Cons(_, rest) => 1 + rest.count(),
        }
    }

}

/// A list has as many items as it counts.
pub proof fn lemma_count<T>(list: &List<T>)
    ensures
        list.items().len() == list.count(),
    decreases list,
{
    if let List::Cons(_, rest) = list {
        lemma_count(&**rest);
    }
}

/// The list of the given items.
pub open spec fn list_of<T>(items: Seq<T>) -> List<T>
    decreases items.len(),
{
    if items.len() == 0 {
        List::Nil
    } else {
        List::Cons(items[0], Rc::new(list_of(items.drop_first())))
    }
}

/// The list of some items holds just these items.
pub proof fn lemma_list_of<T>(items: Seq<T>)
    ensures
        list_of(items).items() == items,
        list_of(items).count() == items.len(),
    decreases items.len(),
{
    if items.len() > 0 {
        lemma_list_of(items.drop_first());
        assert(seq![items[0]] + items.drop_first() == items);
    }
}

/// The list of the items of a vector.
pub fn from_vec<T>(items: Vec<T>) -> (r: Rc<List<T>>)
    ensures
        *r == list_of(items@),
{
    let mut items = items;
    let mut list: Rc<List<T>> = Rc::new(List::Nil);
    let ghost all = items@;
    assert(all.skip(all.len() as int) == Seq::<T>::empty());
    while items.len() > 0
        invariant
            items@.len() <= all.len(),
            items@ == all.take(items@.len() as int),
            *list == list_of(all.skip(items@.len() as int)),
        decreases items@.len(),
    {
        let ghost n = items@.len() as int;
        let last = items.pop().unwrap();
        proof {
            let tail = all.skip(n - 1);
            assert(tail[0] == last);
            assert(tail.drop_first() == all.skip(n));
            assert(items@ == all.take(n - 1));
        }
        list = Rc::new(List::Cons(last, list));
    }
    assert(all.skip(0) == all);
    list
}

/// The number of items of a list, or `None` for more than `limit`.
pub fn length_up_to<T>(list: &Rc<List<T>>, limit: usize) -> (r: Option<usize>)
    ensures
        r == (if list.count() <= limit {
            Some(list.count() as usize)
        } else {
            None
        }),
{
    let mut n: usize = 0;
    let mut at: &Rc<List<T>> = list;
    loop
        invariant
            n <= limit,
            n + at.count() == list.count(),
        decreases at,
    {
        match &**at {
            List::Nil => {
                return Some(n);
            },
            List::Cons(_, rest) => {
                if n == limit {
                    return None;
                }
                n += 1;
                at = rest;
            },
        }
    }
}

} // verus!
