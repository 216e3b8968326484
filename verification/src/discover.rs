use vstd::prelude::*;

verus! {

/// An explicit iterator over a fixed ordered sequence, restartable and
/// infinite: it walks the sequence forever, starting over at the head when
/// exhausted, and idles (yields nothing) over an empty sequence. The match
/// discoverer polls the tracked players in this order.
pub struct Cycle<T> {
    pub items: Vec<T>,
    pub next: usize,
}

impl<T> Cycle<T> {
    /// The cursor stays ahead of nothing and within the items.
    pub open spec fn well_formed(&self) -> bool {
        self.items@.len() == 0 ==> self.next == 0
    }

    pub open spec fn cursor(&self) -> int {
        self.next as int
    }

    /// A cycle over `items`, starting at their head.
    pub fn new(items: Vec<T>) -> (r: Cycle<T>)
        ensures
            r.items@ == items@,
            r.cursor() == 0,
            r.well_formed(),
    {
        Cycle { items, next: 0 }
    }

    /// The position of the next item, advancing the cursor cyclically;
    /// nothing when there are no items.
    pub fn advance(&mut self) -> (i: Option<usize>)
        requires
            old(self).well_formed(),
            old(self).cursor() < old(self).items@.len() || old(self).items@.len() == 0,
        ensures
            final(self).items@ == old(self).items@,
            final(self).well_formed(),
            old(self).items@.len() == 0 ==> i is None && final(self).cursor() == 0,
            old(self).items@.len() > 0 ==> (i matches Some(at) && at == old(self).cursor()
                && final(self).cursor() == (old(self).cursor() + 1) % (old(self).items@.len() as int)
                && final(self).cursor() < final(self).items@.len()),
    {
        if self.items.len() == 0 {
            Option::None
        } else {
            let at = self.next;
            self.next = (self.next + 1) % self.items.len();
            Option::Some(at)
        }
    }
}

} // verus!
