use vstd::prelude::*;

verus! {

/// A cursor over a sequence that shows two elements ahead: the current one,
/// which `next` hands out, and the one after it.
pub struct MorePeekableIter<T> {
    items: Vec<T>,
    pos: usize,
}

impl<T: Copy> MorePeekableIter<T> {
    /// The whole sequence the cursor walks over.
    pub closed spec fn source(&self) -> Seq<T> {
        self.items@
    }

    /// How many elements have been handed out.
    pub closed spec fn index(&self) -> int {
        self.pos as int
    }

    /// The cursor stands within its sequence.
    pub open spec fn wf(&self) -> bool {
        0 <= self.index() <= self.source().len()
    }

    /// The elements not yet handed out.
    pub open spec fn remaining(&self) -> Seq<T> {
        self.source().subrange(self.index(), self.source().len() as int)
    }

    /// Element `k` places ahead of the cursor, if there is one.
    pub open spec fn ahead(&self, k: int) -> Option<T> {
        if 0 <= self.index() + k < self.source().len() {
            Some(self.source()[self.index() + k])
        } else {
            None
        }
    }

    /// A cursor at the start of `items`.
    pub fn new(items: Vec<T>) -> (r: Self)
        ensures
            r.wf(),
            r.source() == items@,
            r.index() == 0,
    {
        MorePeekableIter { items, pos: 0 }
    }

    /// The element `next` would hand out.
    pub fn peek_curr(&self) -> (r: Option<&T>)
        requires
            self.wf(),
        ensures
            r is Some <==> self.ahead(0) is Some,
            r is Some ==> *r->0 == self.ahead(0)->0,
    {
        if self.pos < self.items.len() {
            Some(&self.items[self.pos])
        } else {
            None
        }
    }

    /// The element one past the current one.
    pub fn peek_next(&self) -> (r: Option<&T>)
        requires
            self.wf(),
        ensures
            r is Some <==> self.ahead(1) is Some,
            r is Some ==> *r->0 == self.ahead(1)->0,
    {
        if self.items.len() > 0 && self.pos < self.items.len() - 1 {
            Some(&self.items[self.pos + 1])
        } else {
            None
        }
    }

    /// Hands out the current element and moves past it.
    pub fn next(&mut self) -> (r: Option<T>)
        requires
            old(self).wf(),
        ensures
            final(self).wf(),
            final(self).source() == old(self).source(),
            r == old(self).ahead(0),
            final(self).index() == if r is Some {
                old(self).index() + 1
            } else {
                old(self).index()
            },
    {
        if self.pos < self.items.len() {
            let x = self.items[self.pos];
            self.pos = self.pos + 1;
            Some(x)
        } else {
            None
        }
    }
}

/// Turns a sequence into a two-ahead cursor over it.
pub trait MorePeekable<T: Copy>: Sized {
    /// The elements, in order.
    spec fn elements(&self) -> Seq<T>;

    fn more_peekable(self) -> (r: MorePeekableIter<T>)
        ensures
            r.wf(),
            r.source() == self.elements(),
            r.index() == 0;
}

impl<T: Copy> MorePeekable<T> for Vec<T> {
    open spec fn elements(&self) -> Seq<T> {
        self@
    }

    fn more_peekable(self) -> (r: MorePeekableIter<T>) {
        MorePeekableIter::new(self)
    }
}

} // verus!
