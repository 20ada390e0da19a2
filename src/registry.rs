use vstd::prelude::*;

use crate::types::{dna_eq, Kitty, KittyDna};

verus! {

/// Every kitty ever minted, keyed by its DNA.
pub struct EntityRegistry {
    kitties: Vec<Kitty>,
    model: Ghost<Map<KittyDna, Kitty>>,
}

impl View for EntityRegistry {
    type V = Map<KittyDna, Kitty>;

    closed spec fn view(&self) -> Map<KittyDna, Kitty> {
        self.model@
    }
}

impl EntityRegistry {
    /// The stored records are keyed by distinct DNAs and agree with the map model.
    pub closed spec fn wf(&self) -> bool {
        &&& forall|i: int, j: int|
            0 <= i < j < self.kitties@.len() ==> self.kitties@[i].dna != self.kitties@[j].dna
        &&& forall|i: int|
            #![trigger self.kitties@[i]]
            0 <= i < self.kitties@.len() ==> self.model@.contains_key(self.kitties@[i].dna)
                && self.model@[self.kitties@[i].dna] == self.kitties@[i]
        &&& forall|d: KittyDna|
            #![trigger self.model@.contains_key(d)]
            self.model@.contains_key(d) ==> exists|i: int|
                0 <= i < self.kitties@.len() && self.kitties@[i].dna == d
    }

    /// Number of records held.
    pub closed spec fn size(&self) -> nat {
        self.kitties@.len()
    }

    pub fn new() -> (r: Self)
        ensures
            r.wf(),
            r@ == Map::<KittyDna, Kitty>::empty(),
            r.size() == 0,
    {
        EntityRegistry { kitties: Vec::new(), model: Ghost(Map::empty()) }
    }

    /// Number of records held.
    pub fn len(&self) -> (r: usize)
        ensures
            r == self.size(),
    {
        self.kitties.len()
    }

    fn position(&self, dna: &KittyDna) -> (r: Option<usize>)
        requires
            self.wf(),
        ensures
            match r {
                Some(i) => i < self.kitties@.len() && self.kitties@[i as int].dna == *dna,
                None => !self@.contains_key(*dna),
            },
    {
        let mut i: usize = 0;
        while i < self.kitties.len()
            invariant
                self.wf(),
                i <= self.kitties@.len(),
                forall|j: int| 0 <= j < i ==> self.kitties@[j].dna != *dna,
            decreases self.kitties@.len() - i,
        {
            if dna_eq(&self.kitties[i].dna, dna) {
                return Some(i);
            }
            i = i + 1;
        }
        None
    }

    /// The record of the kitty with the given DNA, if there is one.
    pub fn get(&self, dna: &KittyDna) -> (r: Option<Kitty>)
        requires
            self.wf(),
        ensures
            r == (if self@.contains_key(*dna) {
                Some(self@[*dna])
            } else {
                None
            }),
    {
        match self.position(dna) {
            Some(i) => Some(self.kitties[i]),
            None => None,
        }
    }

    /// Stores `kitty` under its DNA, replacing any record already there.
    pub fn put(&mut self, kitty: Kitty)
        requires
            old(self).wf(),
        ensures
            final(self).wf(),
            final(self)@ == old(self)@.insert(kitty.dna, kitty),
            final(self).size() == old(self).size() + (if old(self)@.contains_key(kitty.dna) {
                0int
            } else {
                1int
            }),
    {
        let pos = self.position(&kitty.dna);
        let ghost old_kitties = self.kitties@;
        let ghost idx: int = match pos {
            Some(i) => i as int,
            None => self.kitties@.len() as int,
        };
        match pos {
            Some(i) => {
                self.kitties.set(i, kitty);
            },
            None => {
                self.kitties.push(kitty);
            },
        }
        self.model = Ghost(self.model@.insert(kitty.dna, kitty));
        assert(self.kitties@[idx] == kitty);
        assert forall|d: KittyDna| #[trigger] self.model@.contains_key(d) implies exists|i: int|
            0 <= i < self.kitties@.len() && self.kitties@[i].dna == d by {
            if d != kitty.dna {
                let j = choose|j: int| 0 <= j < old_kitties.len() && old_kitties[j].dna == d;
                assert(self.kitties@[j].dna == d);
            }
        }
    }
}

} // verus!
