use social_ledger::codec::{
    bytes_to_u16, counter_profile_space, decode_post, decode_profile, decode_user_post,
    encode_post, encode_profile, encode_profile_into, encode_user_post_into,
};
use social_ledger::error::SocialError;
use social_ledger::ids::ActorId;
use social_ledger::state::{Post, UserPost, UserProfile};

fn id(b: u8) -> ActorId {
    ActorId::from_bytes(vec![b; 32]).unwrap()
}

#[test]
fn profile_round_trip_exact() {
    let mut p = UserProfile::new();
    p.follow(id(1)).unwrap();
    p.follow(id(2)).unwrap();
    let bytes = encode_profile(&p);
    assert_eq!(bytes.len(), 2 + 32 * 2);
    let q = decode_profile(&bytes).unwrap();
    assert_eq!(q.data_len, 2);
    assert_eq!(q.followers.len(), 2);
    assert_eq!(q.followers[0].bytes, vec![1u8; 32]);
    assert_eq!(q.followers[1].bytes, vec![2u8; 32]);
}

#[test]
fn profile_round_trip_over_allocated() {
    let mut p = UserProfile::new();
    p.follow(id(9)).unwrap();
    let mut buf = vec![0xAAu8; 2 + 32 * 256];
    encode_profile_into(&p, &mut buf);
    // Bytes beyond the logical span are left untouched.
    assert_eq!(buf[2 + 32], 0xAA);
    assert_eq!(buf[buf.len() - 1], 0xAA);
    let q = decode_profile(&buf).unwrap();
    assert_eq!(q.data_len, 1);
    assert_eq!(q.followers.len(), 1);
    assert_eq!(q.followers[0].bytes, vec![9u8; 32]);
}

#[test]
fn profile_decode_too_short_fails() {
    assert!(matches!(
        decode_profile(&vec![5u8]),
        Err(SocialError::DecodeFailure)
    ));
    assert!(matches!(
        decode_profile(&Vec::new()),
        Err(SocialError::DecodeFailure)
    ));
}

#[test]
fn profile_decode_span_beyond_buffer_fails() {
    // Declared count of 3 followers, but room for only one.
    let mut buf = vec![3u8, 0u8];
    buf.extend(std::iter::repeat(7u8).take(32));
    assert!(matches!(
        decode_profile(&buf),
        Err(SocialError::DecodeFailure)
    ));
}

#[test]
fn bytes_to_u16_reads_little_endian() {
    assert_eq!(bytes_to_u16(&vec![0x34, 0x12]).unwrap(), 0x1234);
    assert!(matches!(
        bytes_to_u16(&vec![1u8, 2, 3]),
        Err(SocialError::InvalidArgument)
    ));
    assert!(matches!(
        bytes_to_u16(&vec![1u8]),
        Err(SocialError::InvalidArgument)
    ));
}

#[test]
fn profile_space_formula() {
    assert_eq!(counter_profile_space(0), 2);
    assert_eq!(counter_profile_space(1), 34);
    assert_eq!(counter_profile_space(256), 8194);
}

#[test]
fn post_round_trip() {
    let post = Post::new(b"hello".to_vec(), 1000);
    let bytes = encode_post(&post);
    assert_eq!(bytes.len(), 5 + 12);
    let q = decode_post(&bytes).unwrap();
    assert_eq!(q.content, b"hello".to_vec());
    assert_eq!(q.timestamp, 1000);
}

#[test]
fn post_decode_failures() {
    assert!(matches!(
        decode_post(&vec![1u8, 0, 0]),
        Err(SocialError::DecodeFailure)
    ));
    // Length prefix promises more content than the buffer holds.
    let bytes = vec![200u8, 0, 0, 0, 1, 2, 3];
    assert!(matches!(decode_post(&bytes), Err(SocialError::DecodeFailure)));
    // Content fits but the timestamp is missing.
    let bytes = vec![2u8, 0, 0, 0, 1, 2, 0, 0, 0];
    assert!(matches!(decode_post(&bytes), Err(SocialError::DecodeFailure)));
}

#[test]
fn post_encoding_matches_borsh() {
    let post = Post::new(b"hello".to_vec(), 1000);
    let bytes = encode_post(&post);
    let reference = borsh::to_vec(&("hello".to_string(), 1000u64)).unwrap();
    assert_eq!(bytes, reference);
}

#[test]
fn counter_encoding_matches_borsh() {
    let counter = UserPost { post_count: 7 };
    let mut buf = vec![0u8; 2];
    encode_user_post_into(&counter, &mut buf);
    let reference = borsh::to_vec(&7u16).unwrap();
    assert_eq!(buf, reference);
}

#[test]
fn counter_decode_ignores_over_allocation() {
    let mut buf = vec![0u8; 8];
    buf[0] = 5;
    let c = decode_user_post(&buf).unwrap();
    assert_eq!(c.post_count, 5);
    assert!(matches!(
        decode_user_post(&vec![1u8]),
        Err(SocialError::DecodeFailure)
    ));
}

#[test]
fn counter_encode_touches_only_the_count() {
    let counter = UserPost { post_count: 258 };
    let mut buf = vec![0xBBu8; 8];
    encode_user_post_into(&counter, &mut buf);
    assert_eq!(&buf[..2], &[2u8, 1u8]);
    assert_eq!(&buf[2..], &[0xBBu8; 6]);
}
