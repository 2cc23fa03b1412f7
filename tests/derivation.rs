use local_ledger::address::{derive_exact, Address, DeriveError};
use local_ledger::wallet::{get_authority, get_wallet_address};
use solana_program::pubkey::Pubkey;

fn program() -> Address {
    Address::new([7u8; 32])
}

fn seeds(list: &[&[u8]]) -> Vec<Vec<u8>> {
    list.iter().map(|s| s.to_vec()).collect()
}

#[test]
fn derive_is_deterministic() {
    let ns = program();
    let s = seeds(&[b"x"]);
    let first = local_ledger::address::derive(&ns, &s).unwrap();
    let second = local_ledger::address::derive(&ns, &s).unwrap();
    assert_eq!(first.0, second.0);
    assert_eq!(first.1, second.1);
}

#[test]
fn derive_matches_find_program_address() {
    let ns = program();
    let s = seeds(&[b"vault", &[1, 2, 3]]);
    let (addr, bump) = local_ledger::address::derive(&ns, &s).unwrap();
    let (expected, expected_bump) =
        Pubkey::find_program_address(&[b"vault", &[1, 2, 3]], &Pubkey::new_from_array(ns.bytes));
    assert_eq!(addr.bytes, expected.to_bytes());
    assert_eq!(bump, expected_bump);
}

#[test]
fn derived_address_is_off_curve() {
    let ns = program();
    let (addr, _) = local_ledger::address::derive(&ns, &seeds(&[b"x"])).unwrap();
    assert!(!addr.is_on_curve());
    assert!(!Pubkey::new_from_array(addr.bytes).is_on_curve());
}

#[test]
fn ordinary_key_is_on_curve() {
    // The compressed ed25519 base point.
    let mut b = [0x66u8; 32];
    b[0] = 0x58;
    assert!(Address::new(b).is_on_curve());
}

#[test]
fn derive_exact_with_found_bump_gives_same_address() {
    let ns = program();
    let (addr, bump) = local_ledger::address::derive(&ns, &seeds(&[b"x"])).unwrap();
    let exact = derive_exact(&ns, &seeds(&[b"x", &[bump]])).unwrap();
    assert_eq!(exact, addr);
}

#[test]
fn derive_exact_refuses_on_curve_candidates() {
    let ns = program();
    let mut refused = 0;
    let mut accepted = 0;
    for b in 0..=255u8 {
        match derive_exact(&ns, &seeds(&[b"y", &[b]])) {
            Ok(a) => {
                assert!(!a.is_on_curve());
                accepted += 1;
            }
            Err(e) => {
                assert_eq!(e, DeriveError::InvalidSeeds);
                refused += 1;
            }
        }
    }
    assert!(refused > 0);
    assert!(accepted > 0);
}

#[test]
fn too_long_seed_is_refused() {
    let ns = program();
    let long = vec![1u8; 33];
    assert_eq!(derive_exact(&ns, &vec![long.clone()]), Err(DeriveError::MaxSeedLengthExceeded));
    assert_eq!(local_ledger::address::derive(&ns, &vec![long]), Err(DeriveError::MaxSeedLengthExceeded));
}

#[test]
fn too_many_seeds_are_refused() {
    let ns = program();
    let sixteen: Vec<Vec<u8>> = (0..16u8).map(|i| vec![i]).collect();
    assert_eq!(local_ledger::address::derive(&ns, &sixteen), Err(DeriveError::MaxSeedLengthExceeded));
    let seventeen: Vec<Vec<u8>> = (0..17u8).map(|i| vec![i]).collect();
    assert_eq!(derive_exact(&ns, &seventeen), Err(DeriveError::MaxSeedLengthExceeded));
    let fifteen: Vec<Vec<u8>> = (0..15u8).map(|i| vec![i]).collect();
    assert!(local_ledger::address::derive(&ns, &fifteen).is_ok());
}

#[test]
fn wallet_address_uses_owner_bytes_as_seed() {
    let ns = program();
    let owner = Address::new([9u8; 32]);
    let (addr, bump) = get_wallet_address(&owner, &ns).unwrap();
    let (expected, expected_bump) =
        Pubkey::find_program_address(&[&[9u8; 32]], &Pubkey::new_from_array(ns.bytes));
    assert_eq!(addr.bytes, expected.to_bytes());
    assert_eq!(bump, expected_bump);
}

#[test]
fn authority_uses_no_seeds() {
    let ns = program();
    let (addr, bump) = get_authority(&ns).unwrap();
    let (expected, expected_bump) = Pubkey::find_program_address(&[], &Pubkey::new_from_array(ns.bytes));
    assert_eq!(addr.bytes, expected.to_bytes());
    assert_eq!(bump, expected_bump);
}

#[test]
fn different_seeds_give_different_addresses() {
    let ns = program();
    let (a, _) = local_ledger::address::derive(&ns, &seeds(&[b"x"])).unwrap();
    let (b, _) = local_ledger::address::derive(&ns, &seeds(&[b"y"])).unwrap();
    assert_ne!(a, b);
}
