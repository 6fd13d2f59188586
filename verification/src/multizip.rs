//! Zipping multiple sequences together, row by row.

use vstd::prelude::*;

verus! {

/// Every inner sequence has more than `i` elements.
pub open spec fn all_longer<T>(s: Seq<Vec<T>>, i: int) -> bool {
    forall|k: int| 0 <= k < s.len() ==> (#[trigger] s[k])@.len() > i
}

/// Walks a collection of sequences in lockstep: each step yields one value
/// from every sequence, until the shortest is exhausted.
#[derive(Clone, Debug)]
pub struct Multizip<T> {
    /// The zipped sequences.
    pub items: Vec<Vec<T>>,
    /// How many rows have been yielded.
    pub index: usize,
}

/// Multizip functionality.
pub trait IntoMultizip<T>: Sized {
    /// Returns the lockstep walker over this collection of sequences.
    fn multizip(self) -> (r: Multizip<T>);
}

impl<T> IntoMultizip<T> for Vec<Vec<T>> {
    /// Wraps the collection, starting at its first row.
    fn multizip(self) -> (r: Multizip<T>)
        ensures
            r.items@ == self@,
            r.index == 0,
    {
        Multizip { items: self, index: 0 }
    }
}

impl<T: Copy> Multizip<T> {
    /// Yields the next row: one value from every sequence, in order, or
    /// nothing once any sequence is exhausted.  A walker over no sequences
    /// yields empty rows forever.
    pub fn next(&mut self) -> (r: Option<Vec<T>>)
        ensures
            final(self).items@ == old(self).items@,
            old(self).items@.len() == 0 ==> (r matches Some(row) && row@.len() == 0
                && final(self).index == old(self).index),
            old(self).items@.len() > 0 && all_longer(old(self).items@,
                old(self).index as int) ==> (r matches Some(row) && row@.len()
                == old(self).items@.len() && (forall|k: int|
                    0 <= k < row@.len() ==> row@[k] == (#[trigger] old(self).items@[k])@[
                        old(self).index as int]) && final(self).index == old(self).index
                + 1),
            old(self).items@.len() > 0 && !all_longer(old(self).items@,
                old(self).index as int) ==> r is None && final(self).index
                == old(self).index,
    {
        if self.items.len() == 0 {
            return Some(Vec::new());
        }
        let mut row: Vec<T> = Vec::new();
        let mut k: usize = 0;
        let n = self.items.len();
        while k < n
            invariant
                n == self.items@.len(),
                k <= n,
                row@.len() == k,
                forall|j: int| 0 <= j < k ==> (#[trigger] self.items@[j])@.len()
                    > self.index,
                forall|j: int| 0 <= j < k ==> row@[j] == (#[trigger] self.items@[j])@[
                    self.index as int],
                self.index == old(self).index,
                self.items@ == old(self).items@,
            decreases n - k,
        {
            let inner = &self.items[k];
            if self.index >= inner.len() {
                return None;
            }
            row.push(inner[self.index]);
            k = k + 1;
        }
        let first_len = self.items[0].len();
        proof {
            assert(first_len > self.index);
        }
        self.index = self.index + 1;
        Some(row)
    }
}

} // verus!
