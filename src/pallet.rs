use vstd::prelude::*;

use crate::index::{first_at, lemma_push, lemma_swap_removed, swap_removed, OwnershipIndex};
use crate::registry::EntityRegistry;
use crate::types::{gender_of, Error, Event, Gender, Kitty, KittyDna, KittyPrice};

verus! {

/// The kitty registry: total count, records by DNA, lists by owner, and emitted events.
pub struct Pallet {
    kitty_count: u32,
    kitties: EntityRegistry,
    kitties_owned: OwnershipIndex,
    events: Vec<Event>,
}

/// The record that minting `dna` for `owner` at time `now` creates.
pub open spec fn new_kitty(owner: u64, price: KittyPrice, dna: KittyDna, now: u64) -> Kitty {
    Kitty { dna, owner, price, gender: gender_of(dna), created_date: now }
}

/// `k` with its owner replaced by `to`.
pub open spec fn with_owner(k: Kitty, to: u64) -> Kitty {
    Kitty { owner: to, ..k }
}

/// What minting `dna` for `owner` returns from state `s`.
pub open spec fn mint_outcome(s: Pallet, owner: u64, dna: KittyDna) -> Result<KittyDna, Error> {
    if s.owned(owner).len() >= s.max() {
        Err(Error::ExceedMaxKitty)
    } else if s.total() == u32::MAX {
        Err(Error::KittyCountOverflow)
    } else if s.registry().contains_key(dna) {
        Err(Error::DnaAlreadyExist)
    } else {
        Ok(dna)
    }
}

/// `post` is `pre` with a kitty minted: one more in the count, the new record, and
/// `dna` appended to the list of `owner`.
pub open spec fn minted(
    pre: Pallet,
    post: Pallet,
    owner: u64,
    price: KittyPrice,
    dna: KittyDna,
    now: u64,
) -> bool {
    &&& post.max() == pre.max()
    &&& post.total() == pre.total() + 1
    &&& post.registry() == pre.registry().insert(dna, new_kitty(owner, price, dna, now))
    &&& post.owners() == pre.owners().insert(owner, pre.owned(owner).push(dna))
}

/// What creating a kitty for `who` with DNA `dna` returns from state `s`.
pub open spec fn create_outcome(s: Pallet, who: u64, dna: KittyDna) -> Result<(), Error> {
    match mint_outcome(s, who, dna) {
        Ok(_) => Ok(()),
        Err(e) => Err(e),
    }
}

/// What moving `dna` to `to` returns from state `s`.
pub open spec fn move_outcome(s: Pallet, to: u64, dna: KittyDna) -> Result<(), Error> {
    if !s.registry().contains_key(dna) {
        Err(Error::KittyNoExist)
    } else if to != s.registry()[dna].owner && s.owned(to).len() >= s.max() {
        Err(Error::ExceedMaxKitty)
    } else {
        Ok(())
    }
}

/// `post` is `pre` with the kitty `dna` moved to `to`: its record names `to`, it leaves
/// the list of its former owner by a swap removal at its position `i`, and is appended
/// to the list of `to`.
pub open spec fn moved(pre: Pallet, post: Pallet, to: u64, dna: KittyDna, i: int) -> bool {
    let from = pre.registry()[dna].owner;
    let left = swap_removed(pre.owned(from), i);
    let base = if to == from {
        left
    } else {
        pre.owned(to)
    };
    &&& first_at(pre.owned(from), dna, i)
    &&& post.max() == pre.max()
    &&& post.total() == pre.total()
    &&& post.registry() == pre.registry().insert(dna, with_owner(pre.registry()[dna], to))
    &&& post.owners() == pre.owners().insert(from, left).insert(to, base.push(dna))
}

/// What the transfer of `dna` by `who` to `to` returns from state `s`.
pub open spec fn transfer_outcome(s: Pallet, who: u64, to: u64, dna: KittyDna) -> Result<
    (),
    Error,
> {
    if !s.registry().contains_key(dna) {
        Err(Error::KittyNoExist)
    } else if s.registry()[dna].owner != who {
        Err(Error::NotKittyOwner)
    } else if who == to {
        Err(Error::TransferToYourself)
    } else if s.owned(to).len() >= s.max() {
        Err(Error::ExceedMaxKitty)
    } else {
        Ok(())
    }
}

/// A call of `mint(owner, price, dna, now)` on `pre` that returned `r` and left `post`.
pub open spec fn mint_step(
    pre: Pallet,
    post: Pallet,
    owner: u64,
    price: KittyPrice,
    dna: KittyDna,
    now: u64,
    r: Result<KittyDna, Error>,
) -> bool {
    &&& post.wf()
    &&& r == mint_outcome(pre, owner, dna)
    &&& r is Ok ==> minted(pre, post, owner, price, dna, now) && post.event_log()
        == pre.event_log()
    &&& r is Err ==> post == pre
}

/// A call of `transfer(who, to, dna)` on `pre` that returned `r` and left `post`.
pub open spec fn transfer_step(
    pre: Pallet,
    post: Pallet,
    who: u64,
    to: u64,
    dna: KittyDna,
    r: Result<(), Error>,
) -> bool {
    &&& post.wf()
    &&& r == transfer_outcome(pre, who, to, dna)
    &&& r is Ok ==> (exists|i: int| moved(pre, post, to, dna, i)) && post.event_log()
        == pre.event_log().push(Event::KittyTransferred(who, to, dna))
    &&& r is Err ==> post == pre
}

impl Pallet {
    /// Total number of kitties minted.
    pub closed spec fn total(&self) -> int {
        self.kitty_count as int
    }

    /// Capacity of each owner's list.
    pub closed spec fn max(&self) -> nat {
        self.kitties_owned.max()
    }

    /// Records by DNA.
    pub closed spec fn registry(&self) -> Map<KittyDna, Kitty> {
        self.kitties@
    }

    /// Lists by owner, for each owner that has an entry.
    pub closed spec fn owners(&self) -> Map<u64, Seq<KittyDna>> {
        self.kitties_owned@
    }

    /// The list of `who`, empty where it has none.
    pub open spec fn owned(&self, who: u64) -> Seq<KittyDna> {
        if self.owners().contains_key(who) {
            self.owners()[who]
        } else {
            Seq::empty()
        }
    }

    /// Events emitted so far, oldest first.
    pub closed spec fn event_log(&self) -> Seq<Event> {
        self.events@
    }

    /// The registry's invariants: distinct DNAs, one list entry per kitty in the list of
    /// its owner and nowhere else, lists within capacity, the count equal to the number of
    /// records, and each gender fixed by its DNA.
    pub closed spec fn wf(&self) -> bool {
        &&& self.kitties.wf()
        &&& self.kitties_owned.wf()
        &&& self.kitty_count as nat == self.kitties.size()
        &&& forall|d: KittyDna| #[trigger]
            self.kitties@.contains_key(d) ==> self.kitties@[d].dna == d
                && self.kitties@[d].gender == gender_of(d)
                && self.kitties_owned.owned(self.kitties@[d].owner).contains(d)
        &&& forall|o: u64, d: KittyDna| #[trigger]
            self.kitties_owned.owned(o).contains(d) ==> self.kitties@.contains_key(d)
                && self.kitties@[d].owner == o
        &&& forall|o: u64| #[trigger] self.kitties_owned.owned(o).no_duplicates()
    }

    /// What the invariants say of the lists: a DNA is in the list of `o` exactly when
    /// its kitty exists and belongs to `o`, no list repeats a DNA, and none exceeds the
    /// capacity.
    pub proof fn lemma_lists(&self)
        requires
            self.wf(),
        ensures
            forall|o: u64, d: KittyDna| #[trigger]
                self.owned(o).contains(d) <==> (self.registry().contains_key(d)
                    && self.registry()[d].owner == o),
            forall|o: u64| #[trigger] self.owned(o).no_duplicates(),
            forall|o: u64| #[trigger] self.owned(o).len() <= self.max(),
    {
        assert forall|o: u64| #[trigger] self.owned(o).len() <= self.max() by {
            assert(self.kitties_owned.owned(o).len() <= self.kitties_owned.max());
        }
        assert forall|o: u64| #[trigger] self.owned(o).no_duplicates() by {
            assert(self.kitties_owned.owned(o).no_duplicates());
        }
        assert forall|o: u64, d: KittyDna| #[trigger]
            self.owned(o).contains(d) <==> (self.registry().contains_key(d)
                && self.registry()[d].owner == o) by {
            assert(self.owned(o) == self.kitties_owned.owned(o));
            if self.registry().contains_key(d) && self.registry()[d].owner == o {
                assert(self.kitties_owned.owned(self.kitties@[d].owner).contains(d));
            }
        }
    }

    /// An empty registry whose owners may hold `max_owned` kitties each.
    pub fn new(max_owned: u32) -> (r: Self)
        ensures
            r.wf(),
            r.max() == max_owned,
            r.total() == 0,
            r.registry() == Map::<KittyDna, Kitty>::empty(),
            r.owners() == Map::<u64, Seq<KittyDna>>::empty(),
            r.event_log() == Seq::<Event>::empty(),
    {
        Pallet {
            kitty_count: 0,
            kitties: EntityRegistry::new(),
            kitties_owned: OwnershipIndex::new(max_owned),
            events: Vec::new(),
        }
    }

    /// Gender of a kitty with the given DNA: even first byte is male, odd is female.
    pub fn get_gender(dna: &KittyDna) -> (r: Gender)
        ensures
            r == gender_of(*dna),
    {
        if dna[0] % 2 == 0 {
            return Gender::Male;
        }
        Gender::Female
    }

    /// Whether `owner` already holds as many kitties as allowed.
    pub fn is_exceed_max_kitty(&self, owner: u64) -> (r: bool)
        ensures
            r == (self.owned(owner).len() >= self.max()),
    {
        self.kitties_owned.is_full(owner)
    }

    /// Mints a kitty with DNA `dna`, born at `now`, for `owner`. The DNA comes from the
    /// host's randomness and is not trusted to be new: a DNA already registered is refused
    /// with `DnaAlreadyExist` rather than overwriting its kitty.
    pub fn mint(&mut self, owner: u64, price: KittyPrice, dna: KittyDna, now: u64) -> (r: Result<
        KittyDna,
        Error,
    >)
        requires
            old(self).wf(),
        ensures
            mint_step(*old(self), *final(self), owner, price, dna, now, r),
    {
        if self.kitties_owned.is_full(owner) {
            return Err(Error::ExceedMaxKitty);
        }
        let new_count = match self.kitty_count.checked_add(1) {
            Some(c) => c,
            None => {
                return Err(Error::KittyCountOverflow);
            },
        };
        if self.kitties.get(&dna).is_some() {
            return Err(Error::DnaAlreadyExist);
        }
        let kitty = Kitty {
            dna,
            gender: Self::get_gender(&dna),
            owner,
            price,
            created_date: now,
        };
        let ghost pre = *self;
        match self.kitties_owned.try_append(owner, dna) {
            Ok(()) => {},
            Err(e) => {
                return Err(e);
            },
        }
        self.kitties.put(kitty);
        self.kitty_count = new_count;
        proof {
            assert(self.kitties_owned.owned(owner) == pre.kitties_owned.owned(owner).push(dna));
            assert forall|d: KittyDna| #[trigger]
                self.kitties@.contains_key(d) implies self.kitties@[d].dna == d
                && self.kitties@[d].gender == gender_of(d)
                && self.kitties_owned.owned(self.kitties@[d].owner).contains(d) by {
                if d != dna {
                    let o = self.kitties@[d].owner;
                    assert(pre.kitties_owned.owned(o).contains(d));
                    if o == owner {
                        assert(pre.kitties_owned.owned(o).push(dna).contains(d)) by {
                            let k = choose|k: int|
                                0 <= k < pre.kitties_owned.owned(o).len()
                                    && pre.kitties_owned.owned(o)[k] == d;
                            assert(pre.kitties_owned.owned(o).push(dna)[k] == d);
                        }
                    } else {
                        assert(self.kitties_owned.owned(o) == pre.kitties_owned.owned(o));
                    }
                } else {
                    assert(self.kitties_owned.owned(owner).last() == dna);
                }
            }
            assert forall|o: u64, d: KittyDna| #[trigger]
                self.kitties_owned.owned(o).contains(d) implies self.kitties@.contains_key(d)
                && self.kitties@[d].owner == o by {
                if o == owner {
                    let k = choose|k: int|
                        0 <= k < self.kitties_owned.owned(o).len()
                            && self.kitties_owned.owned(o)[k] == d;
                    if k < pre.kitties_owned.owned(o).len() {
                        assert(pre.kitties_owned.owned(o)[k] == d);
                        assert(pre.kitties_owned.owned(o).contains(d));
                    }
                } else {
                    assert(self.kitties_owned.owned(o) == pre.kitties_owned.owned(o));
                    assert(pre.kitties_owned.owned(o).contains(d));
                }
            }
            assert forall|o: u64| #[trigger] self.kitties_owned.owned(o).no_duplicates() by {
                if o == owner {
                    assert(!pre.kitties_owned.owned(o).contains(dna));
                    assert(pre.kitties_owned.owned(o).no_duplicates());
                } else {
                    assert(self.kitties_owned.owned(o) == pre.kitties_owned.owned(o));
                }
            }
        }
        Ok(dna)
    }
    /// Whether `owner` holds the kitty `dna`; an error where no such kitty exists.
    pub fn is_kitty_owner(&self, owner: u64, dna: &KittyDna) -> (r: Result<bool, Error>)
        requires
            self.wf(),
        ensures
            r == (if self.registry().contains_key(*dna) {
                Ok::<bool, Error>(self.registry()[*dna].owner == owner)
            } else {
                Err::<bool, Error>(Error::KittyNoExist)
            }),
    {
        match self.kitties.get(dna) {
            Some(kitty) => Ok(kitty.owner == owner),
            None => Err(Error::KittyNoExist),
        }
    }

    /// Moves the kitty `dna` from its current owner to `to`; nothing changes on failure.
    pub fn transfer_kitty_to(&mut self, to: u64, dna: &KittyDna) -> (r: Result<(), Error>)
        requires
            old(self).wf(),
        ensures
            final(self).wf(),
            r == move_outcome(*old(self), to, *dna),
            r is Ok ==> (exists|i: int| moved(*old(self), *final(self), to, *dna, i))
                && final(self).event_log() == old(self).event_log(),
            r is Err ==> *final(self) == *old(self),
    {
        let mut kitty = match self.kitties.get(dna) {
            Some(k) => k,
            None => {
                return Err(Error::KittyNoExist);
            },
        };
        let prev_owner = kitty.owner;
        if to != prev_owner && self.kitties_owned.is_full(to) {
            return Err(Error::ExceedMaxKitty);
        }
        let ghost pre = *self;
        proof {
            assert(pre.kitties_owned.owned(prev_owner).contains(*dna));
        }
        match self.kitties_owned.remove(prev_owner, dna) {
            Ok(()) => {},
            Err(e) => {
                return Err(e);
            },
        }
        let ghost i = choose|i: int|
            first_at(pre.kitties_owned.owned(prev_owner), *dna, i) && self.kitties_owned@
                == pre.kitties_owned@.insert(
                prev_owner,
                swap_removed(pre.kitties_owned.owned(prev_owner), i),
            );
        let ghost p = pre.kitties_owned.owned(prev_owner);
        let ghost left = swap_removed(p, i);
        proof {
            lemma_swap_removed(p, *dna, i);
            assert(self.kitties_owned.owned(prev_owner) == left);
        }
        kitty.owner = to;
        self.kitties.put(kitty);
        match self.kitties_owned.try_append(to, *dna) {
            Ok(()) => {},
            Err(e) => {
                return Err(e);
            },
        }
        proof {
            let base = if to == prev_owner {
                left
            } else {
                pre.kitties_owned.owned(to)
            };
            let q = self.kitties_owned;
            lemma_push(base, *dna);
            assert(q.owned(to) == base.push(*dna));
            assert(!base.contains(*dna));
            assert(base.no_duplicates()) by {
                if to != prev_owner {
                    assert(pre.kitties_owned.owned(to).no_duplicates());
                }
            }
            assert forall|o: u64| o != to && o != prev_owner implies #[trigger] q.owned(o)
                == pre.kitties_owned.owned(o) by {}
            assert(to != prev_owner ==> q.owned(prev_owner) == left);
            assert forall|d: KittyDna| #[trigger]
                self.kitties@.contains_key(d) implies self.kitties@[d].dna == d
                && self.kitties@[d].gender == gender_of(d)
                && q.owned(self.kitties@[d].owner).contains(d) by {
                if d != *dna {
                    let o = self.kitties@[d].owner;
                    assert(pre.kitties_owned.owned(o).contains(d));
                    if o == prev_owner {
                        assert(left.contains(d));
                    }
                    if o == to {
                        assert(base.contains(d));
                    }
                }
            }
            assert forall|o: u64, d: KittyDna| #[trigger]
                q.owned(o).contains(d) implies self.kitties@.contains_key(d)
                && self.kitties@[d].owner == o by {
                if o == to {
                    if d != *dna {
                        assert(base.contains(d));
                        if to != prev_owner {
                            assert(pre.kitties_owned.owned(to).contains(d));
                        }
                    }
                } else if o == prev_owner {
                    assert(left.contains(d));
                } else {
                    assert(pre.kitties_owned.owned(o).contains(d));
                }
            }
            assert forall|o: u64| #[trigger] q.owned(o).no_duplicates() by {
                if o != to && o != prev_owner {
                    assert(pre.kitties_owned.owned(o).no_duplicates());
                }
            }
            assert(moved(pre, *self, to, *dna, i));
        }
        Ok(())
    }

    fn deposit_event(&mut self, event: Event)
        requires
            old(self).wf(),
        ensures
            final(self).wf(),
            final(self).max() == old(self).max(),
            final(self).total() == old(self).total(),
            final(self).registry() == old(self).registry(),
            final(self).owners() == old(self).owners(),
            final(self).event_log() == old(self).event_log().push(event),
    {
        self.events.push(event);
    }

    /// Mints a kitty for `who` with DNA `dna` drawn from the host's randomness and birth
    /// time `now` from its clock, and records a creation event.
    #[allow(unused_comparisons)]
    pub fn create_kitty(&mut self, who: u64, price: KittyPrice, dna: KittyDna, now: u64) -> (r:
        Result<(), Error>)
        requires
            old(self).wf(),
        ensures
            final(self).wf(),
            r == create_outcome(*old(self), who, dna),
            r is Ok ==> minted(*old(self), *final(self), who, price, dna, now)
                && final(self).event_log() == old(self).event_log().push(
                Event::KittyCreated(who, dna),
            ),
            r is Err ==> *final(self) == *old(self),
    {
        if self.is_exceed_max_kitty(who) {
            return Err(Error::ExceedMaxKitty);
        }
        // The price is unsigned, so this rejection never happens.
        if !(price >= 0) {
            return Err(Error::PriceMustGreaterThanZero);
        }
        let dna = match self.mint(who, price, dna, now) {
            Ok(d) => d,
            Err(e) => {
                return Err(e);
            },
        };
        self.deposit_event(Event::KittyCreated(who, dna));
        Ok(())
    }

    /// Transfers the kitty `dna` from `who` to `to` and records a transfer event.
    pub fn transfer(&mut self, who: u64, to: u64, dna: KittyDna) -> (r: Result<(), Error>)
        requires
            old(self).wf(),
        ensures
            transfer_step(*old(self), *final(self), who, to, dna, r),
    {
        let is_owner = match self.is_kitty_owner(who, &dna) {
            Ok(b) => b,
            Err(e) => {
                return Err(e);
            },
        };
        if !is_owner {
            return Err(Error::NotKittyOwner);
        }
        if who == to {
            return Err(Error::TransferToYourself);
        }
        if self.is_exceed_max_kitty(to) {
            return Err(Error::ExceedMaxKitty);
        }
        match self.transfer_kitty_to(to, &dna) {
            Ok(()) => {},
            Err(e) => {
                return Err(e);
            },
        }
        let ghost mid = *self;
        self.deposit_event(Event::KittyTransferred(who, to, dna));
        proof {
            let i = choose|i: int| moved(*old(self), mid, to, dna, i);
            assert(moved(*old(self), *self, to, dna, i));
        }
        Ok(())
    }

    /// Total number of kitties minted.
    pub fn kitty_count(&self) -> (r: u32)
        ensures
            r == self.total(),
    {
        self.kitty_count
    }

    /// Capacity of each owner's list.
    pub fn max_owned(&self) -> (r: u32)
        ensures
            r == self.max(),
    {
        self.kitties_owned.max_owned()
    }

    /// The record of the kitty `dna`, if it exists.
    pub fn kitties(&self, dna: &KittyDna) -> (r: Option<Kitty>)
        requires
            self.wf(),
        ensures
            r == (if self.registry().contains_key(*dna) {
                Some(self.registry()[*dna])
            } else {
                None
            }),
    {
        self.kitties.get(dna)
    }

    /// Number of kitty records.
    pub fn kitties_len(&self) -> (r: usize)
        requires
            self.wf(),
        ensures
            r == self.total(),
    {
        self.kitties.len()
    }

    /// The DNAs of the kitties that `who` holds.
    pub fn kitties_owned(&self, who: u64) -> (r: Vec<KittyDna>)
        ensures
            r@ == self.owned(who),
    {
        self.kitties_owned.get(who)
    }

    /// Number of owners with a list, empty or not.
    pub fn owners_len(&self) -> (r: usize)
        ensures
            r == self.owners().dom().len(),
    {
        self.kitties_owned.owners_len()
    }

    /// Events emitted so far, oldest first.
    pub fn events(&self) -> (r: &Vec<Event>)
        ensures
            r@ == self.event_log(),
    {
        &self.events
    }
}

} // verus!
