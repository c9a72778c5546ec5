use social_ledger::addressing::AddressDeriver;
use social_ledger::codec::{decode_profile, decode_user_post};
use social_ledger::error::SocialError;
use social_ledger::ids::ActorId;
use social_ledger::instruction::{parse_instruction, SocialInstruction};
use social_ledger::processor::{AccountHandle, Processor};

fn id(b: u8) -> ActorId {
    ActorId::from_bytes(vec![b; 32]).unwrap()
}

fn with_len_prefix(tag: u8, payload: &[u8]) -> Vec<u8> {
    let mut data = vec![tag];
    data.extend((payload.len() as u32).to_le_bytes());
    data.extend(payload);
    data
}

#[test]
fn parse_reads_every_operation() {
    let ins = parse_instruction(&with_len_prefix(0, b"profile")).unwrap();
    assert!(matches!(ins, SocialInstruction::InitializeUser { seed_type } if seed_type == b"profile".to_vec()));

    let mut follow = vec![1u8];
    follow.extend([7u8; 32]);
    let ins = parse_instruction(&follow).unwrap();
    assert!(
        matches!(ins, SocialInstruction::FollowUser { user_to_follow } if user_to_follow.bytes == vec![7u8; 32])
    );

    let mut unfollow = vec![2u8];
    unfollow.extend([8u8; 32]);
    let ins = parse_instruction(&unfollow).unwrap();
    assert!(
        matches!(ins, SocialInstruction::UnfollowUser { user_to_unfollow } if user_to_unfollow.bytes == vec![8u8; 32])
    );

    assert!(matches!(
        parse_instruction(&vec![3u8]).unwrap(),
        SocialInstruction::QueryFollowers
    ));
    let ins = parse_instruction(&with_len_prefix(4, b"hi")).unwrap();
    assert!(matches!(ins, SocialInstruction::PostContent { content } if content == b"hi".to_vec()));
    assert!(matches!(
        parse_instruction(&vec![5u8]).unwrap(),
        SocialInstruction::QueryPosts
    ));
}

#[test]
fn parse_rejects_malformed_operations() {
    // Empty buffer, unknown discriminant, truncated identifier, wrong
    // length prefix, trailing bytes.
    assert!(matches!(
        parse_instruction(&Vec::new()),
        Err(SocialError::InvalidArgument)
    ));
    assert!(matches!(
        parse_instruction(&vec![9u8]),
        Err(SocialError::InvalidArgument)
    ));
    assert!(matches!(
        parse_instruction(&vec![1u8, 2, 3]),
        Err(SocialError::InvalidArgument)
    ));
    let mut bad = with_len_prefix(0, b"profile");
    bad[1] = 99;
    assert!(matches!(
        parse_instruction(&bad),
        Err(SocialError::InvalidArgument)
    ));
    let mut trailing = vec![3u8];
    trailing.push(0);
    assert!(matches!(
        parse_instruction(&trailing),
        Err(SocialError::InvalidArgument)
    ));
}

#[test]
fn dispatch_initializes_a_profile() {
    let program = id(255);
    let payer = id(1);
    let label = b"profile".to_vec();
    let (pda, _bump) = AddressDeriver::derive(&program, &payer, &label, None).unwrap();
    let mut accounts = vec![
        AccountHandle { key: payer, data: Vec::new() },
        AccountHandle { key: pda, data: Vec::new() },
        AccountHandle { key: id(0), data: Vec::new() },
    ];
    let r = Processor::process_instruction(
        &program,
        &mut accounts,
        &with_len_prefix(0, b"profile"),
        0,
    );
    let plan = r.unwrap().unwrap();
    assert_eq!(plan.space, 8194);
    assert_eq!(decode_profile(&plan.data).unwrap().data_len, 0);
}

#[test]
fn dispatch_follow_mutates_the_profile_record() {
    let program = id(255);
    let profile_key = id(10);
    let mut accounts = vec![AccountHandle { key: profile_key, data: vec![0u8; 8194] }];
    let mut follow = vec![1u8];
    follow.extend([7u8; 32]);
    let r = Processor::process_instruction(&program, &mut accounts, &follow, 0);
    assert!(r.unwrap().is_none());
    let p = decode_profile(&accounts[0].data).unwrap();
    assert_eq!(p.data_len, 1);
    assert_eq!(p.followers[0].bytes, vec![7u8; 32]);

    let mut unfollow = vec![2u8];
    unfollow.extend([7u8; 32]);
    let r = Processor::process_instruction(&program, &mut accounts, &unfollow, 0);
    assert!(r.unwrap().is_none());
    assert_eq!(decode_profile(&accounts[0].data).unwrap().data_len, 0);
}

#[test]
fn dispatch_rejects_a_wrong_handle_count() {
    let program = id(255);
    let mut accounts = vec![
        AccountHandle { key: id(1), data: vec![0u8; 8194] },
        AccountHandle { key: id(2), data: vec![0u8; 8194] },
    ];
    let mut follow = vec![1u8];
    follow.extend([7u8; 32]);
    let r = Processor::process_instruction(&program, &mut accounts, &follow, 0);
    assert!(matches!(r, Err(SocialError::InvalidArgument)));
    assert_eq!(accounts[0].data, vec![0u8; 8194]);
}

#[test]
fn dispatch_posts_and_advances_the_counter() {
    let program = id(255);
    let owner = id(1);
    let (addr0, _b) = Processor::derive_post_address(&program, &owner, 0).unwrap();
    let mut accounts = vec![
        AccountHandle { key: owner, data: Vec::new() },
        AccountHandle { key: id(20), data: vec![0u8; 8] },
        AccountHandle { key: addr0, data: Vec::new() },
        AccountHandle { key: id(0), data: Vec::new() },
    ];
    let r = Processor::process_instruction(
        &program,
        &mut accounts,
        &with_len_prefix(4, b"hello"),
        1000,
    );
    let plan = r.unwrap().unwrap();
    assert_eq!(plan.space, 17);
    assert_eq!(decode_user_post(&accounts[1].data).unwrap().post_count, 1);
}

#[test]
fn dispatch_queries_end_in_unimplemented() {
    let program = id(255);
    let mut accounts = vec![AccountHandle { key: id(1), data: vec![0u8; 8194] }];
    let r = Processor::process_instruction(&program, &mut accounts, &vec![3u8], 0);
    assert!(matches!(r, Err(SocialError::Unimplemented)));

    let mut accounts = vec![
        AccountHandle { key: id(1), data: vec![0u8; 8] },
        AccountHandle { key: id(2), data: vec![0u8; 12] },
    ];
    let r = Processor::process_instruction(&program, &mut accounts, &vec![5u8], 0);
    assert!(matches!(r, Err(SocialError::Unimplemented)));

    // A query over an undecodable record surfaces the decode failure.
    let mut accounts = vec![AccountHandle { key: id(1), data: vec![9u8] }];
    let r = Processor::process_instruction(&program, &mut accounts, &vec![3u8], 0);
    assert!(matches!(r, Err(SocialError::DecodeFailure)));
}
