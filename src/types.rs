use vstd::prelude::*;

verus! {

/// Identifier of a kitty: a fixed-size byte string drawn from the host's randomness.
pub type KittyDna = [u8; 32];

/// Informational price attached to a kitty at mint time.
pub type KittyPrice = u32;

/// Gender of a kitty, fixed by its DNA.
#[derive(Clone, Copy, Debug, PartialEq, Eq, Structural)]
pub enum Gender {
    Male,
    Female,
}

impl Default for Gender {
    fn default() -> (r: Self)
        ensures
            r == Gender::Male,
    {
        Gender::Male
    }
}

/// The gender that a DNA determines: parity of its first byte.
pub open spec fn gender_of(dna: KittyDna) -> Gender {
    if dna[0] % 2 == 0 {
        Gender::Male
    } else {
        Gender::Female
    }
}

/// Byte-wise equality of two DNAs.
pub fn dna_eq(a: &KittyDna, b: &KittyDna) -> (r: bool)
    ensures
        r == (*a == *b),
{
    let mut i: usize = 0;
    while i < 32
        invariant
            i <= 32,
            forall|j: int| 0 <= j < i ==> a[j] == b[j],
        decreases 32 - i,
    {
        if a[i] != b[i] {
            return false;
        }
        i = i + 1;
    }
    assert(*a =~= *b);
    true
}

/// One kitty. Only `owner` changes after minting.
#[derive(Clone, Copy, Debug)]
pub struct Kitty {
    pub dna: KittyDna,
    pub owner: u64,
    pub price: KittyPrice,
    pub gender: Gender,
    pub created_date: u64,
}

/// Why an operation was refused. `NoneValue` is never returned, and
/// `PriceMustGreaterThanZero` cannot be since prices are unsigned.
#[derive(Clone, Copy, Debug, PartialEq, Eq, Structural)]
pub enum Error {
    NoneValue,
    KittyCountOverflow,
    KittyNoExist,
    TransferToYourself,
    DnaAlreadyExist,
    NotKittyOwner,
    ExceedMaxKitty,
    PriceMustGreaterThanZero,
}

/// What a successful operation reports: a creation by owner and DNA, or a transfer by
/// sender, receiver and DNA. `TestHash` is never emitted.
#[derive(Clone, Copy, Debug)]
pub enum Event {
    KittyCreated(u64, KittyDna),
    KittyTransferred(u64, u64, KittyDna),
    TestHash(u8),
}

} // verus!
