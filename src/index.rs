use vstd::prelude::*;

use std::collections::HashMap;

use crate::types::{dna_eq, Error, KittyDna};

verus! {

broadcast use vstd::std_specs::hash::group_hash_axioms;

/// The sequence left when the element at `i` is replaced by the last one and the last
/// slot is dropped.
pub open spec fn swap_removed(s: Seq<KittyDna>, i: int) -> Seq<KittyDna> {
    s.update(i, s.last()).drop_last()
}

/// Whether `i` is the first position of `dna` in `s`.
pub open spec fn first_at(s: Seq<KittyDna>, dna: KittyDna, i: int) -> bool {
    &&& 0 <= i < s.len()
    &&& s[i] == dna
    &&& forall|j: int| 0 <= j < i ==> s[j] != dna
}

/// Swap removal of the only occurrence of `dna` drops exactly that element and keeps the
/// others distinct.
pub proof fn lemma_swap_removed(s: Seq<KittyDna>, dna: KittyDna, i: int)
    requires
        first_at(s, dna, i),
        s.no_duplicates(),
    ensures
        swap_removed(s, i).len() == s.len() - 1,
        swap_removed(s, i).no_duplicates(),
        forall|x: KittyDna| #[trigger]
            swap_removed(s, i).contains(x) <==> (s.contains(x) && x != dna),
{
    let n = s.len();
    let r = swap_removed(s, i);
    assert forall|k: int| 0 <= k < n - 1 implies #[trigger] r[k] == (if k == i {
        s[n - 1]
    } else {
        s[k]
    }) by {}
    assert forall|x: KittyDna| #[trigger] r.contains(x) implies s.contains(x) && x != dna by {
        let k = choose|k: int| 0 <= k < r.len() && r[k] == x;
        if k == i {
            assert(s[n - 1] == x);
        } else {
            assert(s[k] == x);
        }
    }
    assert forall|x: KittyDna| s.contains(x) && x != dna implies #[trigger] r.contains(x) by {
        let k = choose|k: int| 0 <= k < s.len() && s[k] == x;
        if k < n - 1 {
            assert(r[k] == x);
        } else {
            assert(r[i] == x);
        }
    }
    assert forall|a: int, b: int| 0 <= a < r.len() && 0 <= b < r.len() && a != b implies r[a]
        != r[b] by {
        let sa = if a == i {
            n - 1
        } else {
            a
        };
        let sb = if b == i {
            n - 1
        } else {
            b
        };
        assert(r[a] == s[sa] && r[b] == s[sb]);
    }
}

/// Appending an element that is not there keeps the elements distinct and adds exactly it.
pub proof fn lemma_push(s: Seq<KittyDna>, dna: KittyDna)
    ensures
        forall|x: KittyDna| #[trigger] s.push(dna).contains(x) <==> (s.contains(x) || x == dna),
        s.no_duplicates() && !s.contains(dna) ==> s.push(dna).no_duplicates(),
{
    let t = s.push(dna);
    assert forall|x: KittyDna| #[trigger] t.contains(x) implies s.contains(x) || x == dna by {
        let k = choose|k: int| 0 <= k < t.len() && t[k] == x;
        if k < s.len() {
            assert(s[k] == x);
        }
    }
    assert forall|x: KittyDna| s.contains(x) implies #[trigger] t.contains(x) by {
        let k = choose|k: int| 0 <= k < s.len() && s[k] == x;
        assert(t[k] == x);
    }
    assert(t[s.len() as int] == dna);
    if s.no_duplicates() && !s.contains(dna) {
        assert forall|a: int, b: int| 0 <= a < t.len() && 0 <= b < t.len() && a != b implies t[a]
            != t[b] by {
            if a < s.len() && b < s.len() {
                assert(t[a] == s[a] && t[b] == s[b]);
            } else if a < s.len() {
                assert(t[a] == s[a]);
            } else {
                assert(t[b] == s[b]);
            }
        }
    }
}

/// For each owner, the DNAs of the kitties it holds, at most `max_owned` of them.
pub struct OwnershipIndex {
    max_owned: u32,
    lists: HashMap<u64, Vec<KittyDna>>,
}

impl View for OwnershipIndex {
    type V = Map<u64, Seq<KittyDna>>;

    closed spec fn view(&self) -> Map<u64, Seq<KittyDna>> {
        self.lists@.map_values(|v: Vec<KittyDna>| v@)
    }
}

impl OwnershipIndex {
    /// Capacity of each owner's list.
    pub closed spec fn max(&self) -> nat {
        self.max_owned as nat
    }

    /// The list of `who`, empty where it has none.
    pub open spec fn owned(&self, who: u64) -> Seq<KittyDna> {
        if self@.contains_key(who) {
            self@[who]
        } else {
            Seq::empty()
        }
    }

    /// No list is longer than the capacity.
    pub open spec fn wf(&self) -> bool {
        forall|o: u64| #[trigger] self.owned(o).len() <= self.max()
    }

    pub fn new(max_owned: u32) -> (r: Self)
        ensures
            r.wf(),
            r@ == Map::<u64, Seq<KittyDna>>::empty(),
            r.max() == max_owned,
    {
        let r = OwnershipIndex { max_owned, lists: HashMap::new() };
        assert(r@ =~= Map::<u64, Seq<KittyDna>>::empty());
        r
    }

    /// Capacity of each owner's list.
    pub fn max_owned(&self) -> (r: u32)
        ensures
            r == self.max(),
    {
        self.max_owned
    }

    /// Number of owners with an entry, empty or not.
    pub fn owners_len(&self) -> (r: usize)
        ensures
            r == self@.dom().len(),
    {
        proof {
            assert(self@.dom() =~= self.lists@.dom());
        }
        self.lists.len()
    }

    /// Number of kitties that `who` holds.
    pub fn len_of(&self, who: u64) -> (r: usize)
        ensures
            r == self.owned(who).len(),
    {
        match self.lists.get(&who) {
            Some(v) => v.len(),
            None => 0,
        }
    }

    /// A copy of the list of `who`.
    pub fn get(&self, who: u64) -> (r: Vec<KittyDna>)
        ensures
            r@ == self.owned(who),
    {
        let mut r: Vec<KittyDna> = Vec::new();
        match self.lists.get(&who) {
            Some(v) => {
                let mut i: usize = 0;
                while i < v.len()
                    invariant
                        i <= v@.len(),
                        r@ == v@.subrange(0, i as int),
                    decreases v@.len() - i,
                {
                    r.push(v[i]);
                    i = i + 1;
                    assert(r@ =~= v@.subrange(0, i as int));
                }
                assert(v@.subrange(0, v@.len() as int) =~= v@);
            },
            None => {},
        }
        r
    }

    /// Whether `who` holds `max_owned` kitties already.
    pub fn is_full(&self, who: u64) -> (r: bool)
        ensures
            r == (self.owned(who).len() >= self.max()),
    {
        self.len_of(who) as u64 >= self.max_owned as u64
    }

    /// Appends `dna` to the list of `who` when that list has room.
    pub fn try_append(&mut self, who: u64, dna: KittyDna) -> (r: Result<(), Error>)
        requires
            old(self).wf(),
        ensures
            final(self).wf(),
            final(self).max() == old(self).max(),
            old(self).owned(who).len() < old(self).max() ==> r is Ok && final(self)@ == old(
                self,
            )@.insert(who, old(self).owned(who).push(dna)),
            old(self).owned(who).len() >= old(self).max() ==> r == Err::<(), Error>(
                Error::ExceedMaxKitty,
            ) && final(self)@ == old(self)@,
    {
        if self.is_full(who) {
            return Err(Error::ExceedMaxKitty);
        }
        let mut v = match self.lists.remove(&who) {
            Some(v) => v,
            None => Vec::new(),
        };
        v.push(dna);
        self.lists.insert(who, v);
        proof {
            assert(self@ =~= old(self)@.insert(who, old(self).owned(who).push(dna)));
            assert forall|o: u64| #[trigger] self.owned(o).len() <= self.max() by {
                if o != who {
                    assert(self.owned(o) == old(self).owned(o));
                }
            }
        }
        Ok(())
    }

    /// Removes `dna` from the list of `who`, moving that list's last element into its slot.
    pub fn remove(&mut self, who: u64, dna: &KittyDna) -> (r: Result<(), Error>)
        requires
            old(self).wf(),
        ensures
            final(self).wf(),
            final(self).max() == old(self).max(),
            old(self).owned(who).contains(*dna) ==> r is Ok && exists|i: int|
                first_at(old(self).owned(who), *dna, i) && final(self)@ == old(self)@.insert(
                    who,
                    swap_removed(old(self).owned(who), i),
                ),
            !old(self).owned(who).contains(*dna) ==> r == Err::<(), Error>(Error::KittyNoExist)
                && final(self)@ == old(self)@,
    {
        let pos = match self.lists.get(&who) {
            Some(v) => {
                let mut i: usize = 0;
                let mut found: Option<usize> = None;
                while i < v.len()
                    invariant
                        i <= v@.len(),
                        v@ == self.owned(who),
                        found is None ==> forall|j: int| 0 <= j < i ==> v@[j] != *dna,
                        found matches Some(p) ==> first_at(v@, *dna, p as int),
                    decreases v@.len() - i,
                {
                    if found.is_none() && dna_eq(&v[i], dna) {
                        found = Some(i);
                    }
                    i = i + 1;
                }
                found
            },
            None => None,
        };
        match pos {
            None => {
                return Err(Error::KittyNoExist);
            },
            Some(p) => {
                let mut v = match self.lists.remove(&who) {
                    Some(v) => v,
                    None => Vec::new(),
                };
                v.swap_remove(p);
                self.lists.insert(who, v);
                proof {
                    assert(self@ =~= old(self)@.insert(
                        who,
                        swap_removed(old(self).owned(who), p as int),
                    ));
                    assert forall|o: u64| #[trigger] self.owned(o).len() <= self.max() by {
                        if o != who {
                            assert(self.owned(o) == old(self).owned(o));
                        } else {
                            assert(old(self).owned(o).len() <= old(self).max());
                        }
                    }
                }
                Ok(())
            },
        }
    }
}

} // verus!
