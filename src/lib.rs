use vstd::prelude::*;

pub mod index;
pub mod laws;
pub mod pallet;
pub mod registry;
pub mod types;
pub mod weights;

pub use index::OwnershipIndex;
pub use pallet::Pallet;
pub use registry::EntityRegistry;
pub use weights::{RuntimeDbWeight, WeightInfo};
pub use types::{dna_eq, gender_of, Error, Event, Gender, Kitty, KittyDna, KittyPrice};

verus! {

} // verus!
