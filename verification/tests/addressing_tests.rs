use social_ledger::addressing::AddressDeriver;
use social_ledger::ids::ActorId;

fn id(b: u8) -> ActorId {
    ActorId::from_bytes(vec![b; 32]).unwrap()
}

#[test]
fn derivation_is_deterministic() {
    let program = id(255);
    let owner = id(1);
    let label = b"profile".to_vec();
    let (a1, b1) = AddressDeriver::derive(&program, &owner, &label, None).unwrap();
    let (a2, b2) = AddressDeriver::derive(&program, &owner, &label, None).unwrap();
    assert_eq!(a1.bytes, a2.bytes);
    assert_eq!(b1, b2);
}

#[test]
fn derivation_matches_the_ledger_algorithm() {
    let program = id(255);
    let owner = id(1);
    let program_pk = solana_program::pubkey::Pubkey::new_from_array([255u8; 32]);
    let (expected, expected_bump) = solana_program::pubkey::Pubkey::find_program_address(
        &[&[1u8; 32], b"profile"],
        &program_pk,
    );
    let (derived, bump) =
        AddressDeriver::derive(&program, &owner, &b"profile".to_vec(), None).unwrap();
    assert_eq!(derived.bytes, expected.to_bytes().to_vec());
    assert_eq!(bump, expected_bump);
}

#[test]
fn derivation_with_index_matches_the_ledger_algorithm() {
    let program = id(255);
    let owner = id(9);
    let program_pk = solana_program::pubkey::Pubkey::new_from_array([255u8; 32]);
    let (expected, expected_bump) = solana_program::pubkey::Pubkey::find_program_address(
        &[&[9u8; 32], b"post", &[3u8]],
        &program_pk,
    );
    let (derived, bump) =
        AddressDeriver::derive(&program, &owner, &b"post".to_vec(), Some(3)).unwrap();
    assert_eq!(derived.bytes, expected.to_bytes().to_vec());
    assert_eq!(bump, expected_bump);
}

#[test]
fn derived_address_is_a_new_identifier() {
    let program = id(255);
    let owner = id(1);
    let (derived, _bump) =
        AddressDeriver::derive(&program, &owner, &b"profile".to_vec(), None).unwrap();
    assert_eq!(derived.bytes.len(), 32);
    assert_ne!(derived.bytes, owner.bytes);
    assert_ne!(derived.bytes, program.bytes);
}

#[test]
fn verify_accepts_the_derived_address_and_nothing_else() {
    let program = id(255);
    let owner = id(1);
    let label = b"profile".to_vec();
    let (derived, _bump) = AddressDeriver::derive(&program, &owner, &label, None).unwrap();
    assert!(AddressDeriver::verify(&derived, &program, &owner, &label, None));
    assert!(!AddressDeriver::verify(&owner, &program, &owner, &label, None));
    // A different label derives a different address.
    assert!(!AddressDeriver::verify(
        &derived,
        &program,
        &owner,
        &b"post".to_vec(),
        None
    ));
}
