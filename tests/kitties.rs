use pallet_kitties::{Error, Event, Gender, KittyDna, Pallet};

const MAX_OWNED: u32 = 3;

fn new_test_ext() -> Pallet {
    Pallet::new(MAX_OWNED)
}

fn dna(n: u8) -> KittyDna {
    let mut d = [0u8; 32];
    d[0] = n;
    d[31] = n.wrapping_mul(7);
    d
}

/// Mints one kitty for `address` when it has none, and returns the first it holds.
fn get_kitty(pallet: &mut Pallet, address: u64, fresh: u8) -> Result<KittyDna, ()> {
    if pallet.kitties_owned(address).len() == 0 {
        pallet.create_kitty(address, 0, dna(fresh), 10).unwrap();
    }
    let kitty_dna = pallet.kitties_owned(address)[0];
    match pallet.kitties(&kitty_dna) {
        Some(kitty) => Ok(kitty.dna),
        None => Err(()),
    }
}

fn snapshot(p: &Pallet, who: &[u64]) -> (u32, usize, Vec<Vec<KittyDna>>, usize) {
    let lists = who.iter().map(|w| p.kitties_owned(*w)).collect();
    (p.kitty_count(), p.kitties_len(), lists, p.events().len())
}

#[test]
fn create_kitty_works_for_default_value() {
    let mut p = new_test_ext();
    let address = 1;
    assert!(p.create_kitty(1, 0, dna(1), 10).is_ok());
    assert_eq!(p.kitty_count(), 1);
    assert_eq!(p.owners_len(), 1);
    assert_eq!(p.kitties_owned(address).len(), 1);

    assert!(p.create_kitty(1, 1, dna(2), 11).is_ok());
    assert_eq!(p.kitty_count(), 2);
    assert_eq!(p.owners_len(), 1, "check create second kitty - kitty owned total length failed!");
    assert_eq!(p.kitties_owned(address).len(), 2, "check create second kitty - kitty owned length failed!");
}

#[test]
fn correct_error_for_exceed_max_kitty() {
    let mut p = new_test_ext();
    let max_kitty = p.max_owned();
    let mut count = 0;
    while count < max_kitty {
        count = count + 1;
        p.create_kitty(1, 1, dna(count as u8), 10).unwrap();
    }
    let before = snapshot(&p, &[1]);
    assert_eq!(p.create_kitty(1, 1, dna(200), 10), Err(Error::ExceedMaxKitty));
    assert_eq!(snapshot(&p, &[1]), before);
}

#[test]
fn transfer_kitty_works_for_default_value() {
    let mut p = new_test_ext();
    let from_address = 1;
    let to_address = 2;
    let transfer_kitty = get_kitty(&mut p, from_address, 1).unwrap();

    let old_kitty_count = p.kitty_count();
    let old_kitties_len = p.kitties_len() as u32;
    let old_from_len = p.kitties_owned(from_address).len() as u32;
    let old_to_len = p.kitties_owned(to_address).len() as u32;

    assert!(p.transfer(from_address, to_address, transfer_kitty).is_ok());

    assert_eq!(old_kitty_count, p.kitty_count(), "check kitty count failed!");
    assert_eq!(old_kitties_len, p.kitties_len() as u32, "check kitty length failed!");
    assert_eq!(old_from_len - 1, p.kitties_owned(from_address).len() as u32, "check owned from length failed!");
    assert_eq!(old_to_len + 1, p.kitties_owned(to_address).len() as u32, "check owned to length failed!");
}

#[test]
fn correct_error_for_transfer_invalid_kitty_owner() {
    let mut p = new_test_ext();
    let to_address = 2;
    let transfer_kitty = get_kitty(&mut p, to_address, 1).unwrap();
    let before = snapshot(&p, &[1, 2]);
    assert_eq!(p.transfer(1, to_address, transfer_kitty), Err(Error::NotKittyOwner));
    assert_eq!(snapshot(&p, &[1, 2]), before);
}

#[test]
fn correct_error_for_transfer_invalid_transfer_to_yourself() {
    let mut p = new_test_ext();
    let from_address = 1;
    let transfer_kitty = get_kitty(&mut p, from_address, 1).unwrap();
    let before = snapshot(&p, &[1]);
    assert_eq!(p.transfer(1, from_address, transfer_kitty), Err(Error::TransferToYourself));
    assert_eq!(snapshot(&p, &[1]), before);
}

#[test]
fn correct_error_for_transfer_to_exceed_max_kitty() {
    let mut p = new_test_ext();
    let from_address = 1;
    let to_address = 2;
    let max_kitty = p.max_owned();
    let mut count = 0;
    while count < max_kitty {
        count = count + 1;
        p.create_kitty(to_address, 1, dna(100 + count as u8), count as u64).unwrap();
    }
    let transfer_kitty = get_kitty(&mut p, from_address, 1).unwrap();
    let before = snapshot(&p, &[1, 2]);
    assert_eq!(p.transfer(1, to_address, transfer_kitty), Err(Error::ExceedMaxKitty));
    assert_eq!(snapshot(&p, &[1, 2]), before);
}

#[test]
fn scenario_two_per_owner() {
    let mut p = Pallet::new(2);
    let (a, b) = (10u64, 20u64);
    assert!(p.create_kitty(a, 5, dna(1), 1).is_ok());
    assert!(p.create_kitty(a, 6, dna(2), 2).is_ok());
    assert_eq!(p.kitty_count(), 2);
    assert_eq!(p.kitties_owned(a).len(), 2);
    assert_eq!(p.create_kitty(a, 7, dna(3), 3), Err(Error::ExceedMaxKitty));
    assert_eq!(p.kitty_count(), 2);
    let id1 = p.kitties_owned(a)[0];
    assert!(p.transfer(a, b, id1).is_ok());
    assert_eq!(p.kitties_owned(a).len(), 1);
    assert_eq!(p.kitties_owned(b).len(), 1);
    assert_eq!(p.kitty_count(), 2);
    assert_eq!(p.transfer(a, b, id1), Err(Error::NotKittyOwner));
}

#[test]
fn mint_adds_one_and_appends() {
    let mut p = new_test_ext();
    p.mint(4, 9, dna(1), 1).unwrap();
    assert_eq!(p.mint(4, 9, dna(2), 2), Ok(dna(2)));
    assert_eq!(p.kitty_count(), 2);
    assert_eq!(p.kitties_owned(4), vec![dna(1), dna(2)]);
    let k = p.kitties(&dna(2)).unwrap();
    assert_eq!(k.owner, 4);
    assert_eq!(k.price, 9);
    assert_eq!(k.created_date, 2);
    assert_eq!(k.gender, Gender::Male);
    // mint itself records no event; create_kitty does
    assert_eq!(p.events().len(), 0);
}

#[test]
fn mint_refuses_full_owner_without_change() {
    let mut p = Pallet::new(1);
    p.mint(4, 0, dna(1), 1).unwrap();
    let before = snapshot(&p, &[4]);
    assert_eq!(p.mint(4, 0, dna(2), 2), Err(Error::ExceedMaxKitty));
    assert_eq!(snapshot(&p, &[4]), before);
    assert!(p.kitties(&dna(2)).is_none());
}

#[test]
fn mint_refuses_known_dna() {
    let mut p = new_test_ext();
    p.create_kitty(1, 0, dna(1), 1).unwrap();
    let before = snapshot(&p, &[1, 2]);
    assert_eq!(p.create_kitty(2, 0, dna(1), 2), Err(Error::DnaAlreadyExist));
    assert_eq!(snapshot(&p, &[1, 2]), before);
    assert_eq!(p.kitties(&dna(1)).unwrap().owner, 1);
}

#[test]
fn zero_capacity_refuses_every_mint() {
    let mut p = Pallet::new(0);
    assert_eq!(p.create_kitty(1, 0, dna(1), 1), Err(Error::ExceedMaxKitty));
    assert_eq!(p.kitty_count(), 0);
    assert_eq!(p.owners_len(), 0);
}

#[test]
fn transfer_moves_record_and_lists() {
    let mut p = new_test_ext();
    p.create_kitty(1, 0, dna(1), 1).unwrap();
    p.create_kitty(1, 0, dna(2), 1).unwrap();
    p.create_kitty(1, 0, dna(3), 1).unwrap();
    assert!(p.transfer(1, 2, dna(1)).is_ok());
    // the last DNA takes the freed slot
    assert_eq!(p.kitties_owned(1), vec![dna(3), dna(2)]);
    assert_eq!(p.kitties_owned(2), vec![dna(1)]);
    assert_eq!(p.kitties(&dna(1)).unwrap().owner, 2);
    assert_eq!(p.kitty_count(), 3);
    assert_eq!(p.kitties_len(), 3);
}

#[test]
fn transfer_of_missing_kitty_fails() {
    let mut p = new_test_ext();
    p.create_kitty(1, 0, dna(1), 1).unwrap();
    let before = snapshot(&p, &[1, 2]);
    assert_eq!(p.transfer(1, 2, dna(9)), Err(Error::KittyNoExist));
    assert_eq!(snapshot(&p, &[1, 2]), before);
}

#[test]
fn transfer_to_self_of_missing_kitty_reports_missing() {
    let mut p = new_test_ext();
    assert_eq!(p.transfer(1, 1, dna(9)), Err(Error::KittyNoExist));
}

#[test]
fn transfer_to_full_owner_keeps_sender() {
    let mut p = Pallet::new(1);
    p.create_kitty(1, 0, dna(1), 1).unwrap();
    p.create_kitty(2, 0, dna(2), 1).unwrap();
    assert_eq!(p.transfer(1, 2, dna(1)), Err(Error::ExceedMaxKitty));
    assert_eq!(p.kitties(&dna(1)).unwrap().owner, 1);
    assert_eq!(p.kitties_owned(1), vec![dna(1)]);
    assert_eq!(p.kitties_owned(2), vec![dna(2)]);
}

#[test]
fn transfer_kitty_to_current_owner_keeps_one_entry() {
    let mut p = Pallet::new(1);
    p.create_kitty(1, 0, dna(1), 1).unwrap();
    assert_eq!(p.transfer_kitty_to(1, &dna(1)), Ok(()));
    assert_eq!(p.kitties_owned(1), vec![dna(1)]);
    assert_eq!(p.transfer_kitty_to(2, &dna(1)), Ok(()));
    assert_eq!(p.kitties_owned(1), Vec::<KittyDna>::new());
    assert_eq!(p.kitties_owned(2), vec![dna(1)]);
    assert_eq!(p.transfer_kitty_to(2, &dna(5)), Err(Error::KittyNoExist));
}

#[test]
fn ownership_queries() {
    let mut p = new_test_ext();
    p.create_kitty(1, 0, dna(1), 1).unwrap();
    assert_eq!(p.is_kitty_owner(1, &dna(1)), Ok(true));
    assert_eq!(p.is_kitty_owner(2, &dna(1)), Ok(false));
    assert_eq!(p.is_kitty_owner(1, &dna(2)), Err(Error::KittyNoExist));
    assert!(!p.is_exceed_max_kitty(1));
    p.create_kitty(1, 0, dna(2), 1).unwrap();
    p.create_kitty(1, 0, dna(3), 1).unwrap();
    assert!(p.is_exceed_max_kitty(1));
    assert!(!p.is_exceed_max_kitty(2));
}

#[test]
fn events_are_recorded_in_order() {
    let mut p = new_test_ext();
    p.create_kitty(1, 0, dna(1), 1).unwrap();
    p.transfer(1, 2, dna(1)).unwrap();
    let _ = p.transfer(1, 2, dna(1));
    let events = p.events();
    assert_eq!(events.len(), 2);
    assert!(matches!(events[0], Event::KittyCreated(1, d) if d == dna(1)));
    assert!(matches!(events[1], Event::KittyTransferred(1, 2, d) if d == dna(1)));
}

#[test]
fn gender_follows_first_byte() {
    assert_eq!(Pallet::get_gender(&dna(0)), Gender::Male);
    assert_eq!(Pallet::get_gender(&dna(4)), Gender::Male);
    assert_eq!(Pallet::get_gender(&dna(7)), Gender::Female);
    assert_eq!(Gender::default(), Gender::Male);
    let mut p = new_test_ext();
    p.create_kitty(1, 0, dna(3), 1).unwrap();
    assert_eq!(p.kitties(&dna(3)).unwrap().gender, Gender::Female);
}

#[test]
fn dna_equality_is_bytewise() {
    assert!(pallet_kitties::dna_eq(&dna(1), &dna(1)));
    assert!(!pallet_kitties::dna_eq(&dna(1), &dna(2)));
    let mut d = dna(1);
    d[31] = d[31] ^ 1;
    assert!(!pallet_kitties::dna_eq(&dna(1), &d));
}
