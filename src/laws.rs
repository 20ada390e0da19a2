use vstd::prelude::*;

use crate::index::{lemma_swap_removed, swap_removed};
use crate::pallet::{mint_step, moved, transfer_step, Pallet};
use crate::types::{Error, KittyDna, KittyPrice};

verus! {

/// Minting either adds one to the count and appends the new DNA to the owner's list, or,
/// where the owner is full, fails with `ExceedMaxKitty` and changes nothing. (The count
/// must have room and the DNA must be new: otherwise minting fails for those reasons.)
pub proof fn mint_adds_one_or_refuses_full_owner(
    pre: Pallet,
    post: Pallet,
    owner: u64,
    price: KittyPrice,
    dna: KittyDna,
    now: u64,
    r: Result<KittyDna, Error>,
)
    requires
        pre.wf(),
        pre.total() < u32::MAX,
        !pre.registry().contains_key(dna),
        mint_step(pre, post, owner, price, dna, now, r),
    ensures
        pre.owned(owner).len() < pre.max() ==> r == Ok::<KittyDna, Error>(dna) && post.total()
            == pre.total() + 1 && post.owned(owner) == pre.owned(owner).push(dna),
        pre.owned(owner).len() >= pre.max() ==> r == Err::<KittyDna, Error>(Error::ExceedMaxKitty)
            && post == pre,
{
}

/// `states` is a run of `max_owned + 1` mints for `owner` with fresh, distinct DNAs, from a
/// state where `owner` holds nothing and the count has room for all of them.
pub open spec fn mint_run(
    states: Seq<Pallet>,
    owner: u64,
    price: KittyPrice,
    dnas: Seq<KittyDna>,
    now: u64,
    results: Seq<Result<KittyDna, Error>>,
) -> bool {
    &&& states.len() == states[0].max() + 2
    &&& dnas.len() == states[0].max() + 1
    &&& results.len() == states[0].max() + 1
    &&& states[0].wf()
    &&& states[0].owned(owner).len() == 0
    &&& states[0].total() + states[0].max() < u32::MAX
    &&& dnas.no_duplicates()
    &&& forall|k: int|
        0 <= k < dnas.len() ==> !states[0].registry().contains_key(#[trigger] dnas[k])
    &&& forall|k: int|
        0 <= k < results.len() ==> #[trigger] mint_step(
            states[k],
            states[k + 1],
            owner,
            price,
            dnas[k],
            now,
            results[k],
        )
}

proof fn lemma_run_prefix(
    states: Seq<Pallet>,
    owner: u64,
    price: KittyPrice,
    dnas: Seq<KittyDna>,
    now: u64,
    results: Seq<Result<KittyDna, Error>>,
    k: int,
)
    requires
        mint_run(states, owner, price, dnas, now, results),
        0 <= k <= states[0].max(),
    ensures
        states[k].wf(),
        states[k].max() == states[0].max(),
        states[k].total() == states[0].total() + k,
        states[k].owned(owner).len() == k,
        forall|d: KittyDna| #[trigger]
            states[k].registry().contains_key(d) ==> states[0].registry().contains_key(d)
                || exists|j: int| 0 <= j < k && dnas[j] == d,
        forall|j: int| 0 <= j < k ==> #[trigger] results[j] == Ok::<KittyDna, Error>(dnas[j]),
    decreases k,
{
    if k > 0 {
        let p = k - 1;
        lemma_run_prefix(states, owner, price, dnas, now, results, p);
        assert(mint_step(states[p], states[p + 1], owner, price, dnas[p], now, results[p]));
        if states[p].registry().contains_key(dnas[p]) {
            assert(!states[0].registry().contains_key(dnas[p]));
            let j = choose|j: int| 0 <= j < p && dnas[j] == dnas[p];
            assert(dnas[j] == dnas[p]);
        }
        assert(results[p] == Ok::<KittyDna, Error>(dnas[p]));
        assert forall|d: KittyDna| #[trigger]
            states[k].registry().contains_key(d) implies states[0].registry().contains_key(d)
            || exists|j: int| 0 <= j < k && dnas[j] == d by {
            if d != dnas[p] {
                assert(states[p].registry().contains_key(d));
            }
        }
    }
}

/// Starting from an owner with no kitties, `max_owned` mints for that owner with fresh,
/// distinct DNAs all succeed and fill the list; the next one fails with `ExceedMaxKitty`
/// and leaves the state as it was. (The count must have room for all of them.)
pub proof fn mint_fills_owner_then_refuses(
    states: Seq<Pallet>,
    owner: u64,
    price: KittyPrice,
    dnas: Seq<KittyDna>,
    now: u64,
    results: Seq<Result<KittyDna, Error>>,
)
    requires
        mint_run(states, owner, price, dnas, now, results),
    ensures
        forall|k: int|
            0 <= k < states[0].max() ==> #[trigger] results[k] == Ok::<KittyDna, Error>(dnas[k]),
        states[states[0].max() as int].owned(owner).len() == states[0].max(),
        results[states[0].max() as int] == Err::<KittyDna, Error>(Error::ExceedMaxKitty),
        states[states[0].max() + 1int] == states[states[0].max() as int],
{
    let m = states[0].max() as int;
    lemma_run_prefix(states, owner, price, dnas, now, results, m);
    assert(mint_step(states[m], states[m + 1], owner, price, dnas[m], now, results[m]));
}

/// A transfer by the owner to someone else who has room succeeds: the count stays, the
/// DNA leaves the sender's list and joins the end of the receiver's, and the record names
/// the receiver.
pub proof fn transfer_moves_kitty(
    pre: Pallet,
    post: Pallet,
    from: u64,
    to: u64,
    dna: KittyDna,
    r: Result<(), Error>,
)
    requires
        pre.wf(),
        pre.registry().contains_key(dna),
        pre.registry()[dna].owner == from,
        from != to,
        pre.owned(to).len() < pre.max(),
        transfer_step(pre, post, from, to, dna, r),
    ensures
        r is Ok,
        post.total() == pre.total(),
        pre.owned(from).contains(dna),
        !post.owned(from).contains(dna),
        post.owned(from).len() == pre.owned(from).len() - 1,
        post.owned(to) == pre.owned(to).push(dna),
        post.registry().contains_key(dna),
        post.registry()[dna].owner == to,
{
    pre.lemma_lists();
    let i = choose|i: int| moved(pre, post, to, dna, i);
    lemma_swap_removed(pre.owned(from), dna, i);
    assert(post.owned(from) == swap_removed(pre.owned(from), i));
}

/// A transfer to oneself never succeeds and changes nothing; where the sender owns the
/// kitty the error is `TransferToYourself`.
pub proof fn transfer_to_self_fails(
    pre: Pallet,
    post: Pallet,
    who: u64,
    dna: KittyDna,
    r: Result<(), Error>,
)
    requires
        pre.wf(),
        transfer_step(pre, post, who, who, dna, r),
    ensures
        r is Err,
        post == pre,
        pre.registry().contains_key(dna) && pre.registry()[dna].owner == who ==> r == Err::<
            (),
            Error,
        >(Error::TransferToYourself),
{
}

/// A transfer of an existing kitty by someone who does not own it fails with
/// `NotKittyOwner` and changes nothing.
pub proof fn transfer_by_non_owner_fails(
    pre: Pallet,
    post: Pallet,
    who: u64,
    to: u64,
    dna: KittyDna,
    r: Result<(), Error>,
)
    requires
        pre.wf(),
        pre.registry().contains_key(dna),
        pre.registry()[dna].owner != who,
        transfer_step(pre, post, who, to, dna, r),
    ensures
        r == Err::<(), Error>(Error::NotKittyOwner),
        post == pre,
{
}

/// A transfer by the owner to someone else whose list is full fails with
/// `ExceedMaxKitty`, and the kitty stays with the sender.
pub proof fn transfer_to_full_owner_fails(
    pre: Pallet,
    post: Pallet,
    from: u64,
    to: u64,
    dna: KittyDna,
    r: Result<(), Error>,
)
    requires
        pre.wf(),
        pre.registry().contains_key(dna),
        pre.registry()[dna].owner == from,
        from != to,
        pre.owned(to).len() >= pre.max(),
        transfer_step(pre, post, from, to, dna, r),
    ensures
        r == Err::<(), Error>(Error::ExceedMaxKitty),
        post == pre,
        post.registry()[dna].owner == from,
{
}

} // verus!
