//! Seed material for deterministic, key-less address derivation.

use vstd::prelude::*;

verus! {

/// An ordered list of byte strings used to derive a custody address.
pub struct Seeds(Vec<Vec<u8>>);

/// Anything that can present itself as derivation seed material.
pub trait ToSeeds {
    /// The seed byte strings, as mathematical sequences.
    spec fn seeds_view(&self) -> Seq<Seq<u8>>;

    /// Borrows each seed as a byte slice, in order.
    fn get_seeds(&self) -> (r: Vec<&[u8]>)
        ensures
            r@.len() == self.seeds_view().len(),
            forall|i: int| 0 <= i < r@.len() ==> r@[i]@ == self.seeds_view()[i],
    ;
}

impl Seeds {
    /// Wraps the given byte strings as seed material.
    pub fn new(items: Vec<Vec<u8>>) -> (s: Seeds)
        ensures
            s.seeds_view() == items@.map_values(|v: Vec<u8>| v@),
    {
        Seeds(items)
    }
}

impl ToSeeds for Seeds {
    closed spec fn seeds_view(&self) -> Seq<Seq<u8>> {
        self.0@.map_values(|v: Vec<u8>| v@)
    }

    fn get_seeds(&self) -> (r: Vec<&[u8]>) {
        let Seeds(items) = self;
        let mut r: Vec<&[u8]> = Vec::new();
        let mut i: usize = 0;
        while i < items.len()
            invariant
                i <= items@.len(),
                r@.len() == i,
                forall|j: int| 0 <= j < i ==> r@[j]@ == items@[j]@,
            decreases items@.len() - i,
        {
            let s: &[u8] = items[i].as_slice();
            r.push(s);
            i = i + 1;
        }
        r
    }
}

} // verus!
