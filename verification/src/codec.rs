use vstd::prelude::*;

use crate::error::SocialError;
use crate::ids::{uniform_ids, ActorId, ID_SIZE};
use crate::state::{Post, UserPost, UserProfile};

verus! {

/// Width of a little-endian `u16` field.
pub const U16_SIZE: usize = 2;

/// Width of the leading count field of a profile record.
pub const PROFILE_HEADER_SIZE: usize = 2;

/// Bytes reserved for a post-counter record.  The logical record is the
/// leading two bytes; the rest is over-allocation that the bounded decode
/// ignores.
pub const USER_POST_SIZE: usize = 8;

/// Fixed part of a post record: 4-byte content length prefix plus the 8-byte
/// timestamp.
pub const POST_FIXED_SIZE: usize = 12;

/// The value of two bytes read as a little-endian unsigned integer.
pub open spec fn le16(b0: u8, b1: u8) -> int {
    b0 + 256 * b1
}

/// The two little-endian bytes of a `u16`.
pub open spec fn u16_le(v: u16) -> Seq<u8> {
    seq![(v % 256) as u8, (v / 256) as u8]
}

/// The value of four bytes at `i` read as a little-endian unsigned integer.
pub open spec fn le32_at(b: Seq<u8>, i: int) -> int {
    b[i] + 256 * b[i + 1] + 65536 * b[i + 2] + 16777216 * b[i + 3]
}

/// The four little-endian bytes of a 32-bit value.
pub open spec fn u32_le(n: int) -> Seq<u8> {
    seq![
        (n % 256) as u8,
        ((n / 256) % 256) as u8,
        ((n / 65536) % 256) as u8,
        ((n / 16777216) % 256) as u8,
    ]
}

/// The value of eight bytes at `i` read as a little-endian unsigned integer.
pub open spec fn le64_at(b: Seq<u8>, i: int) -> int {
    b[i] + 256 * b[i + 1] + 65536 * b[i + 2] + 16777216 * b[i + 3] + 4294967296 * b[i + 4]
        + 1099511627776 * b[i + 5] + 281474976710656 * b[i + 6] + 72057594037927936 * b[i + 7]
}

/// The eight little-endian bytes of a `u64`.
pub open spec fn u64_le(n: u64) -> Seq<u8> {
    seq![
        (n % 256) as u8,
        ((n / 256) % 256) as u8,
        ((n / 65536) % 256) as u8,
        ((n / 16777216) % 256) as u8,
        ((n / 4294967296) % 256) as u8,
        ((n / 1099511627776) % 256) as u8,
        ((n / 281474976710656) % 256) as u8,
        ((n / 72057594037927936) % 256) as u8,
    ]
}

/// The concatenation of the follower identifiers, in list order.
pub open spec fn followers_bytes(fs: Seq<Seq<u8>>) -> Seq<u8>
    decreases fs.len(),
{
    if fs.len() == 0 {
        Seq::empty()
    } else {
        followers_bytes(fs.drop_last()) + fs.last()
    }
}

/// The encoding of a profile record: the follower count as a little-endian
/// `u16`, then each follower identifier in list order.
pub open spec fn profile_bytes(count: u16, fs: Seq<Seq<u8>>) -> Seq<u8> {
    u16_le(count) + followers_bytes(fs)
}

/// The count that the first two bytes of a profile buffer declare.
pub open spec fn profile_count_of(b: Seq<u8>) -> int
    recommends
        b.len() >= 2,
{
    le16(b[0], b[1])
}

/// The span of the logical record inside a (possibly over-allocated) buffer.
pub open spec fn profile_span_of(b: Seq<u8>) -> int
    recommends
        b.len() >= 2,
{
    2 + 32 * profile_count_of(b)
}

/// A profile buffer decodes exactly when it holds the two-byte header and the
/// span the header declares.
pub open spec fn profile_decode_ok(b: Seq<u8>) -> bool {
    b.len() >= 2 && profile_span_of(b) <= b.len()
}

/// The bytes of the `i`-th follower inside a profile buffer.
pub open spec fn follower_at(b: Seq<u8>, i: int) -> Seq<u8> {
    b.subrange(2 + 32 * i, 2 + 32 * i + 32)
}

/// All follower byte views that a profile buffer declares.
pub open spec fn followers_of(b: Seq<u8>) -> Seq<Seq<u8>> {
    Seq::new(profile_count_of(b) as nat, |i: int| follower_at(b, i))
}

/// The count that the first two bytes of a counter buffer declare.
pub open spec fn counter_count_of(b: Seq<u8>) -> int
    recommends
        b.len() >= 2,
{
    le16(b[0], b[1])
}

/// A counter buffer decodes exactly when it holds the two-byte count.
pub open spec fn counter_decode_ok(b: Seq<u8>) -> bool {
    b.len() >= U16_SIZE
}

/// The encoding of a post record: content length, raw content bytes, then
/// the timestamp, all little-endian.
pub open spec fn post_bytes(content: Seq<u8>, timestamp: u64) -> Seq<u8> {
    u32_le(content.len() as int) + content + u64_le(timestamp)
}

/// A post buffer decodes exactly when it holds the length prefix, the
/// content it declares, and the timestamp after it.
pub open spec fn post_decode_ok(b: Seq<u8>) -> bool {
    b.len() >= 4 && 4 + le32_at(b, 0) + 8 <= b.len()
}

/// The content bytes a post buffer declares.
pub open spec fn post_content_of(b: Seq<u8>) -> Seq<u8>
    recommends
        post_decode_ok(b),
{
    b.subrange(4, 4 + le32_at(b, 0))
}

/// The timestamp a post buffer declares.
pub open spec fn post_timestamp_of(b: Seq<u8>) -> int
    recommends
        post_decode_ok(b),
{
    le64_at(b, 4 + le32_at(b, 0))
}

proof fn lemma_followers_bytes_len(fs: Seq<Seq<u8>>)
    requires
        uniform_ids(fs),
    ensures
        followers_bytes(fs).len() == 32 * fs.len(),
    decreases fs.len(),
{
    if fs.len() > 0 {
        lemma_followers_bytes_len(fs.drop_last());
    }
}

proof fn lemma_followers_bytes_index(fs: Seq<Seq<u8>>, i: int, j: int)
    requires
        uniform_ids(fs),
        0 <= i < fs.len(),
        0 <= j < 32,
    ensures
        followers_bytes(fs)[32 * i + j] == fs[i][j],
    decreases fs.len(),
{
    lemma_followers_bytes_len(fs.drop_last());
    if i == fs.len() - 1 {
        assert(followers_bytes(fs)[32 * i + j] == fs.last()[32 * i + j - 32 * (fs.len() - 1)]);
    } else {
        lemma_followers_bytes_index(fs.drop_last(), i, j);
    }
}

/// Law: round trip of the profile codec.  A buffer whose leading bytes hold
/// the encoding of a profile decodes to exactly that profile, even when the
/// buffer is over-allocated: the two-phase decode reads the declared span and
/// nothing beyond it.
pub proof fn lemma_profile_round_trip(count: u16, fs: Seq<Seq<u8>>, b: Seq<u8>)
    requires
        count as int == fs.len(),
        uniform_ids(fs),
        b.len() >= 2 + 32 * fs.len(),
        b.subrange(0, 2 + 32 * fs.len() as int) == profile_bytes(count, fs),
    ensures
        profile_decode_ok(b),
        profile_count_of(b) == count as int,
        followers_of(b) == fs,
{
    lemma_followers_bytes_len(fs);
    let span: int = 2 + 32 * fs.len() as int;
    let enc = profile_bytes(count, fs);
    assert(b[0] == b.subrange(0, span)[0]);
    assert(b[1] == b.subrange(0, span)[1]);
    assert(enc[0] == (count % 256) as u8);
    assert(enc[1] == (count / 256) as u8);
    assert(profile_count_of(b) == count as int);
    assert forall|i: int| 0 <= i < fs.len() implies #[trigger] follower_at(b, i) == fs[i] by {
        assert forall|j: int| 0 <= j < 32 implies follower_at(b, i)[j] == fs[i][j] by {
            assert(follower_at(b, i)[j] == b[2 + 32 * i + j]);
            assert(b[2 + 32 * i + j] == b.subrange(0, span)[2 + 32 * i + j]);
            assert(enc[2 + 32 * i + j] == followers_bytes(fs)[32 * i + j]);
            lemma_followers_bytes_index(fs, i, j);
        }
        assert(follower_at(b, i) =~= fs[i]);
    }
    assert(followers_of(b) =~= fs);
}

/// Reads a little-endian `u16` from exactly two bytes; any other input
/// length is rejected.
pub fn bytes_to_u16(bytes: &Vec<u8>) -> (r: Result<u16, SocialError>)
    ensures
        r is Ok <==> bytes@.len() == U16_SIZE,
        r matches Ok(v) ==> v as int == le16(bytes@[0], bytes@[1]),
        r is Err ==> r == Err::<u16, SocialError>(SocialError::InvalidArgument),
{
    if bytes.len() != U16_SIZE {
        return Err(SocialError::InvalidArgument);
    }
    Ok((bytes[0] as u16) + 256 * (bytes[1] as u16))
}

/// The storage footprint of a profile record holding `pubkey_count`
/// followers: the two-byte count header plus 32 bytes per follower.
pub fn counter_profile_space(pubkey_count: usize) -> (r: usize)
    requires
        pubkey_count <= 65535,
    ensures
        r == PROFILE_HEADER_SIZE + ID_SIZE * pubkey_count,
{
    PROFILE_HEADER_SIZE + ID_SIZE * pubkey_count
}

/// Two-phase bounded decode of a profile record.  Reads the two-byte count,
/// bounds itself to the span the count declares, and never reads beyond it;
/// fails only when the buffer cannot hold that span.
pub fn decode_profile(buf: &Vec<u8>) -> (r: Result<UserProfile, SocialError>)
    ensures
        r is Ok <==> profile_decode_ok(buf@),
        r matches Ok(p) ==> {
            &&& p.data_len as int == profile_count_of(buf@)
            &&& p.followers@.len() == profile_count_of(buf@)
            &&& p.follower_views() == followers_of(buf@)
            &&& uniform_ids(p.follower_views())
        },
        r is Err ==> r == Err::<UserProfile, SocialError>(SocialError::DecodeFailure),
{
    if buf.len() < U16_SIZE {
        return Err(SocialError::DecodeFailure);
    }
    let n: usize = (buf[0] as usize) + 256 * (buf[1] as usize);
    proof {
        assert(n == profile_count_of(buf@));
    }
    if n > (usize::MAX - PROFILE_HEADER_SIZE) / ID_SIZE {
        return Err(SocialError::DecodeFailure);
    }
    let span: usize = PROFILE_HEADER_SIZE + ID_SIZE * n;
    if span > buf.len() {
        return Err(SocialError::DecodeFailure);
    }
    let mut followers: Vec<ActorId> = Vec::new();
    let mut i: usize = 0;
    while i < n
        invariant
            i <= n,
            buf@.len() >= 2,
            n == profile_count_of(buf@),
            2 + 32 * n <= buf@.len(),
            followers@.len() == i,
            forall|k: int| 0 <= k < i ==> (#[trigger] followers@[k])@ == follower_at(buf@, k),
        decreases n - i,
    {
        let mut id_bytes: Vec<u8> = Vec::new();
        let mut j: usize = 0;
        while j < ID_SIZE
            invariant
                j <= ID_SIZE,
                i < n,
                buf@.len() >= 2,
                n == profile_count_of(buf@),
                2 + 32 * n <= buf@.len(),
                id_bytes@.len() == j,
                forall|t: int| 0 <= t < j ==> id_bytes@[t] == buf@[2 + 32 * i + t],
            decreases ID_SIZE - j,
        {
            id_bytes.push(buf[PROFILE_HEADER_SIZE + ID_SIZE * i + j]);
            j = j + 1;
        }
        proof {
            assert(id_bytes@ =~= follower_at(buf@, i as int));
        }
        followers.push(ActorId { bytes: id_bytes });
        i = i + 1;
    }
    let p = UserProfile { data_len: n as u16, followers };
    proof {
        assert(p.follower_views() =~= followers_of(buf@));
    }
    Ok(p)
}

/// Encodes a profile record into a fresh buffer of exactly its span.
pub fn encode_profile(p: &UserProfile) -> (r: Vec<u8>)
    requires
        p.data_len as int == p.followers@.len(),
        uniform_ids(p.follower_views()),
    ensures
        r@ == profile_bytes(p.data_len, p.follower_views()),
        r@.len() == 2 + 32 * p.followers@.len(),
{
    proof {
        lemma_followers_bytes_len(p.follower_views());
    }
    let mut out: Vec<u8> = Vec::new();
    out.push((p.data_len % 256) as u8);
    out.push((p.data_len / 256) as u8);
    proof {
        assert(out@ =~= u16_le(p.data_len));
        assert(p.follower_views().take(0) =~= Seq::<Seq<u8>>::empty());
    }
    let mut i: usize = 0;
    while i < p.followers.len()
        invariant
            i <= p.followers@.len(),
            p.data_len as int == p.followers@.len(),
            uniform_ids(p.follower_views()),
            out@ == u16_le(p.data_len) + followers_bytes(p.follower_views().take(i as int)),
        decreases p.followers@.len() - i,
    {
        let ghost done = p.follower_views().take(i as int);
        let f = &p.followers[i];
        proof {
            assert(p.follower_views()[i as int] == f@);
            assert(f@.len() == 32);
        }
        let mut j: usize = 0;
        while j < ID_SIZE
            invariant
                j <= ID_SIZE,
                i < p.followers@.len(),
                f == &p.followers[i as int],
                f@.len() == 32,
                out@ == u16_le(p.data_len) + followers_bytes(done) + f@.subrange(0, j as int),
            decreases ID_SIZE - j,
        {
            out.push(f.bytes[j]);
            proof {
                assert(f@.subrange(0, j + 1) =~= f@.subrange(0, j as int).push(f@[j as int]));
                assert(out@ =~= u16_le(p.data_len) + followers_bytes(done) + f@.subrange(
                    0,
                    j + 1,
                ));
            }
            j = j + 1;
        }
        proof {
            let next = p.follower_views().take(i + 1);
            assert(next.drop_last() =~= done);
            assert(next.last() == f@);
            assert(f@.subrange(0, 32) =~= f@);
            assert(out@ =~= u16_le(p.data_len) + followers_bytes(next));
        }
        i = i + 1;
    }
    proof {
        assert(p.follower_views().take(p.followers@.len() as int) =~= p.follower_views());
        lemma_followers_bytes_len(p.follower_views());
    }
    out
}

/// Writes a profile record into its (possibly over-allocated) storage,
/// overwriting only the logical span; bytes beyond it are left untouched and
/// the next bounded decode ignores them.
pub fn encode_profile_into(p: &UserProfile, buf: &mut Vec<u8>)
    requires
        p.data_len as int == p.followers@.len(),
        uniform_ids(p.follower_views()),
        old(buf)@.len() >= 2 + 32 * p.followers@.len(),
    ensures
        final(buf)@.len() == old(buf)@.len(),
        final(buf)@.subrange(0, 2 + 32 * p.followers@.len() as int) == profile_bytes(
            p.data_len,
            p.follower_views(),
        ),
        final(buf)@.skip(2 + 32 * p.followers@.len() as int) == old(buf)@.skip(
            2 + 32 * p.followers@.len() as int,
        ),
{
    let enc = encode_profile(p);
    let mut k: usize = 0;
    while k < enc.len()
        invariant
            k <= enc@.len(),
            enc@.len() <= buf@.len(),
            buf@.len() == old(buf)@.len(),
            enc@ == profile_bytes(p.data_len, p.follower_views()),
            enc@.len() == 2 + 32 * p.followers@.len(),
            forall|t: int| 0 <= t < k ==> buf@[t] == enc@[t],
            forall|t: int| k <= t < buf@.len() ==> buf@[t] == old(buf)@[t],
        decreases enc@.len() - k,
    {
        buf.set(k, enc[k]);
        k = k + 1;
    }
    proof {
        assert(buf@.subrange(0, 2 + 32 * p.followers@.len() as int) =~= enc@);
        assert(buf@.skip(2 + 32 * p.followers@.len() as int) =~= old(buf)@.skip(
            2 + 32 * p.followers@.len() as int,
        ));
    }
}

/// Bounded decode of a post-counter record: reads the leading two bytes and
/// ignores any over-allocated rest.
pub fn decode_user_post(buf: &Vec<u8>) -> (r: Result<UserPost, SocialError>)
    ensures
        r is Ok <==> counter_decode_ok(buf@),
        r matches Ok(c) ==> c.post_count as int == counter_count_of(buf@),
        r is Err ==> r == Err::<UserPost, SocialError>(SocialError::DecodeFailure),
{
    if buf.len() < U16_SIZE {
        return Err(SocialError::DecodeFailure);
    }
    let count: u16 = (buf[0] as u16) + 256 * (buf[1] as u16);
    Ok(UserPost { post_count: count })
}

/// Writes a post-counter record into its storage, overwriting only the
/// two-byte count.
pub fn encode_user_post_into(c: &UserPost, buf: &mut Vec<u8>)
    requires
        old(buf)@.len() >= U16_SIZE,
    ensures
        final(buf)@.len() == old(buf)@.len(),
        final(buf)@.subrange(0, U16_SIZE as int) == u16_le(c.post_count),
        final(buf)@.skip(U16_SIZE as int) == old(buf)@.skip(U16_SIZE as int),
{
    buf.set(0, (c.post_count % 256) as u8);
    buf.set(1, (c.post_count / 256) as u8);
    proof {
        assert(buf@.subrange(0, U16_SIZE as int) =~= u16_le(c.post_count));
        assert(buf@.skip(U16_SIZE as int) =~= old(buf)@.skip(U16_SIZE as int));
    }
}

/// Encodes a post record: content length prefix, content, timestamp.
pub fn encode_post(p: &Post) -> (r: Vec<u8>)
    requires
        p.content@.len() + POST_FIXED_SIZE <= u32::MAX,
    ensures
        r@ == post_bytes(p.content@, p.timestamp),
        r@.len() == p.content@.len() + POST_FIXED_SIZE,
{
    let m = p.content.len();
    let mut out: Vec<u8> = Vec::new();
    out.push((m % 256) as u8);
    out.push(((m / 256) % 256) as u8);
    out.push(((m / 65536) % 256) as u8);
    out.push(((m / 16777216) % 256) as u8);
    proof {
        assert(out@ =~= u32_le(m as int));
        assert(p.content@.subrange(0, 0) =~= Seq::<u8>::empty());
        assert(out@ + Seq::<u8>::empty() =~= out@);
    }
    let mut i: usize = 0;
    while i < m
        invariant
            i <= m,
            m == p.content@.len(),
            out@ == u32_le(m as int) + p.content@.subrange(0, i as int),
        decreases m - i,
    {
        out.push(p.content[i]);
        proof {
            assert(p.content@.subrange(0, i + 1) =~= p.content@.subrange(0, i as int).push(
                p.content@[i as int],
            ));
            assert(out@ =~= u32_le(m as int) + p.content@.subrange(0, i + 1));
        }
        i = i + 1;
    }
    proof {
        assert(p.content@.subrange(0, m as int) =~= p.content@);
    }
    let ts = p.timestamp;
    out.push((ts % 256) as u8);
    out.push(((ts / 256) % 256) as u8);
    out.push(((ts / 65536) % 256) as u8);
    out.push(((ts / 16777216) % 256) as u8);
    out.push(((ts / 4294967296) % 256) as u8);
    out.push(((ts / 1099511627776) % 256) as u8);
    out.push(((ts / 281474976710656) % 256) as u8);
    out.push(((ts / 72057594037927936) % 256) as u8);
    proof {
        assert(out@ =~= post_bytes(p.content@, p.timestamp));
    }
    out
}

/// Bounded decode of a post record: reads the length prefix, the content it
/// declares and the timestamp after it; trailing bytes are ignored.
pub fn decode_post(buf: &Vec<u8>) -> (r: Result<Post, SocialError>)
    ensures
        r is Ok <==> post_decode_ok(buf@),
        r matches Ok(p) ==> p.content@ == post_content_of(buf@) && p.timestamp as int
            == post_timestamp_of(buf@),
        r is Err ==> r == Err::<Post, SocialError>(SocialError::DecodeFailure),
{
    if buf.len() < 4 {
        return Err(SocialError::DecodeFailure);
    }
    let m: usize = (buf[0] as usize) + 256 * (buf[1] as usize) + 65536 * (buf[2] as usize)
        + 16777216 * (buf[3] as usize);
    proof {
        assert(m == le32_at(buf@, 0));
    }
    let rest = buf.len() - 4;
    if m > rest {
        return Err(SocialError::DecodeFailure);
    }
    if rest - m < 8 {
        return Err(SocialError::DecodeFailure);
    }
    let mut content: Vec<u8> = Vec::new();
    let mut i: usize = 0;
    while i < m
        invariant
            i <= m,
            m == le32_at(buf@, 0),
            4 + m + 8 <= buf@.len(),
            m + POST_FIXED_SIZE <= usize::MAX,
            content@.len() == i,
            forall|t: int| 0 <= t < i ==> content@[t] == buf@[4 + t],
        decreases m - i,
    {
        content.push(buf[4 + i]);
        i = i + 1;
    }
    proof {
        assert(content@ =~= post_content_of(buf@));
    }
    let ts: u64 = (buf[4 + m] as u64) + 256 * (buf[4 + m + 1] as u64) + 65536 * (buf[4 + m
        + 2] as u64) + 16777216 * (buf[4 + m + 3] as u64) + 4294967296 * (buf[4 + m + 4] as u64)
        + 1099511627776 * (buf[4 + m + 5] as u64) + 281474976710656 * (buf[4 + m + 6] as u64)
        + 72057594037927936 * (buf[4 + m + 7] as u64);
    proof {
        assert(ts as int == post_timestamp_of(buf@));
    }
    Ok(Post { content, timestamp: ts })
}

} // verus!
