use social_ledger::codec::decode_profile;
use social_ledger::error::SocialError;
use social_ledger::ids::ActorId;
use social_ledger::processor::Processor;
use social_ledger::state::UserProfile;

fn id(b: u8) -> ActorId {
    ActorId::from_bytes(vec![b; 32]).unwrap()
}

fn id2(b0: u8, b1: u8) -> ActorId {
    let mut bytes = vec![0u8; 32];
    bytes[0] = b0;
    bytes[1] = b1;
    ActorId::from_bytes(bytes).unwrap()
}

/// Initialize a profile for an owner and hand back its record bytes.
fn fresh_profile_record(program: &ActorId, owner: &ActorId) -> Vec<u8> {
    let label = b"profile".to_vec();
    let (pda, _bump) =
        social_ledger::addressing::AddressDeriver::derive(program, owner, &label, None).unwrap();
    let plan = Processor::initialize_user(program, owner, &pda, &label).unwrap();
    assert_eq!(plan.space, 8194);
    assert_eq!(plan.data.len(), 8194);
    plan.data
}

#[test]
fn scenario_follow_unfollow() {
    let program = id(255);
    let owner_a = id(1);
    let user_b = id(2);
    let mut record = fresh_profile_record(&program, &owner_a);

    let p = decode_profile(&record).unwrap();
    assert_eq!(p.data_len, 0);
    assert!(p.followers.is_empty());

    Processor::follow_user(&mut record, &user_b).unwrap();
    let p = decode_profile(&record).unwrap();
    assert_eq!(p.data_len, 1);
    assert_eq!(p.followers.len(), 1);
    assert_eq!(p.followers[0].bytes, user_b.bytes);

    let before = record.clone();
    Processor::follow_user(&mut record, &user_b).unwrap();
    assert_eq!(record, before);

    Processor::unfollow_user(&mut record, &user_b).unwrap();
    let p = decode_profile(&record).unwrap();
    assert_eq!(p.data_len, 0);
    assert!(p.followers.is_empty());
}

#[test]
fn repeated_follow_keeps_one_entry() {
    let mut p = UserProfile::new();
    for _ in 0..5 {
        p.follow(id(42)).unwrap();
    }
    assert_eq!(p.data_len, 1);
    assert_eq!(p.followers.len(), 1);
    let occurrences = p
        .followers
        .iter()
        .filter(|f| f.bytes == vec![42u8; 32])
        .count();
    assert_eq!(occurrences, 1);
}

#[test]
fn unfollow_is_idempotent() {
    let mut p = UserProfile::new();
    p.follow(id(1)).unwrap();
    p.follow(id(2)).unwrap();
    p.unfollow(id(1));
    let after_first: Vec<Vec<u8>> = p.followers.iter().map(|f| f.bytes.clone()).collect();
    // The second unfollow finds nothing to remove and raises no error.
    p.unfollow(id(1));
    let after_second: Vec<Vec<u8>> = p.followers.iter().map(|f| f.bytes.clone()).collect();
    assert_eq!(after_first, after_second);
    assert_eq!(p.data_len, 1);
}

#[test]
fn unfollow_of_absent_user_is_a_noop() {
    let mut p = UserProfile::new();
    p.unfollow(id(7));
    assert_eq!(p.data_len, 0);
    assert!(p.followers.is_empty());
}

#[test]
fn capacity_fires_exactly_at_the_257th_distinct_follower() {
    let mut p = UserProfile::new();
    for i in 0..=255u8 {
        p.follow(id2(i, 0)).unwrap();
    }
    assert_eq!(p.data_len, 256);
    // Re-following an existing follower at full capacity is still a no-op.
    p.follow(id2(0, 0)).unwrap();
    assert_eq!(p.data_len, 256);
    // The 257th distinct follower is the first to be refused.
    assert!(matches!(
        p.follow(id2(0, 1)),
        Err(SocialError::CapacityExceeded)
    ));
    assert_eq!(p.data_len, 256);
}

#[test]
fn follow_refused_when_buffer_cannot_hold_another_entry() {
    // A record buffer with room for exactly one follower.
    let mut record = vec![0u8; 2 + 32];
    Processor::follow_user(&mut record, &id(1)).unwrap();
    let before = record.clone();
    assert!(matches!(
        Processor::follow_user(&mut record, &id(2)),
        Err(SocialError::CapacityExceeded)
    ));
    assert_eq!(record, before);
}

#[test]
fn follow_on_undersized_record_fails_to_decode() {
    let mut record = vec![0u8];
    assert!(matches!(
        Processor::follow_user(&mut record, &id(1)),
        Err(SocialError::DecodeFailure)
    ));
}

#[test]
fn initialize_rejects_unknown_record_kind() {
    let program = id(255);
    let owner = id(1);
    let r = Processor::initialize_user(&program, &owner, &owner, &b"bogus".to_vec());
    assert!(matches!(r, Err(SocialError::InvalidArgument)));
}

#[test]
fn initialize_rejects_wrong_address() {
    let program = id(255);
    let owner = id(1);
    // The owner's own key is never the derived record address.
    let r = Processor::initialize_user(&program, &owner, &owner, &b"profile".to_vec());
    assert!(matches!(r, Err(SocialError::InvalidAddress)));
}

#[test]
fn query_followers_returns_the_decoded_profile() {
    let program = id(255);
    let owner = id(1);
    let mut record = fresh_profile_record(&program, &owner);
    Processor::follow_user(&mut record, &id(3)).unwrap();
    let p = Processor::query_followers(&record).unwrap();
    assert_eq!(p.data_len, 1);
    assert_eq!(p.followers[0].bytes, vec![3u8; 32]);
    assert!(matches!(
        Processor::query_followers(&vec![9u8]),
        Err(SocialError::DecodeFailure)
    ));
}
