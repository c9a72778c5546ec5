use vstd::prelude::*;

use crate::addressing::{derive_outcome, AddressDeriver};
use crate::codec::{
    counter_count_of, counter_decode_ok, counter_profile_space, decode_post, decode_profile,
    decode_user_post, encode_post, encode_profile_into, encode_user_post_into, followers_of,
    lemma_profile_round_trip, post_bytes, profile_count_of, profile_decode_ok, u16_le,
    POST_FIXED_SIZE, PROFILE_HEADER_SIZE, USER_POST_SIZE,
};
use crate::error::SocialError;
use crate::ids::{bytes_eq, copy_bytes, ActorId, ID_SIZE};
use crate::instruction::{parse_instruction, parse_op, Operation, SocialInstruction};
use crate::state::{
    contains_id, lemma_remove_id_len, lemma_remove_id_uniform, remove_id, Post, UserPost,
    UserProfile, MAX_FOLLOWERS_SIZE,
};

verus! {

/// The seed label under which an actor's profile record is derived
/// (ASCII "profile").
pub open spec fn profile_seed() -> Seq<u8> {
    seq![112u8, 114u8, 111u8, 102u8, 105u8, 108u8, 101u8]
}

/// The seed label under which an actor's post records and post counter are
/// derived (ASCII "post").
pub open spec fn post_seed() -> Seq<u8> {
    seq![112u8, 111u8, 115u8, 116u8]
}

/// The ASCII bytes of the profile seed label.
pub fn profile_seed_bytes() -> (r: Vec<u8>)
    ensures
        r@ == profile_seed(),
{
    let mut v: Vec<u8> = Vec::new();
    v.push(112);
    v.push(114);
    v.push(111);
    v.push(102);
    v.push(105);
    v.push(108);
    v.push(101);
    proof {
        assert(v@ =~= profile_seed());
    }
    v
}

/// The ASCII bytes of the post seed label.
pub fn post_seed_bytes() -> (r: Vec<u8>)
    ensures
        r@ == post_seed(),
{
    let mut v: Vec<u8> = Vec::new();
    v.push(112);
    v.push(111);
    v.push(115);
    v.push(116);
    proof {
        assert(v@ =~= post_seed());
    }
    v
}

/// A record handle as the caller supplies it: the record's address and its
/// current bytes.
#[derive(Debug)]
pub struct AccountHandle {
    pub key: ActorId,
    pub data: Vec<u8>,
}

/// Everything the external ledger needs to allocate and initialize one
/// record buffer: who pays, the derived target address with its proof
/// (derivation seeds and bump), the byte size with its initial contents.
/// The fee deposit for `space` bytes is queried from the ledger's fee
/// schedule by the caller, not computed here.
#[derive(Debug)]
pub struct AllocPlan {
    pub owner: ActorId,
    pub target: ActorId,
    pub bump: u8,
    pub seed_label: Vec<u8>,
    pub seed_index: Option<u8>,
    pub space: usize,
    pub data: Vec<u8>,
}

/// A seed label names a record kind only when it is one of the two known
/// labels.
pub open spec fn valid_seed(seed: Seq<u8>) -> bool {
    seed == profile_seed() || seed == post_seed()
}

/// Storage footprint of a fresh record of the kind `seed` names: a profile
/// is sized once for the worst case so growth never reallocates; a post
/// counter gets its fixed reservation.
pub open spec fn init_space(seed: Seq<u8>) -> int {
    if seed == profile_seed() {
        PROFILE_HEADER_SIZE + ID_SIZE * (MAX_FOLLOWERS_SIZE as int)
    } else {
        USER_POST_SIZE as int
    }
}

/// What initializing a record must return: the full relation between the
/// inputs and the result of [`Processor::initialize_user`].
pub open spec fn init_outcome(
    program: Seq<u8>,
    payer: Seq<u8>,
    pda: Seq<u8>,
    seed: Seq<u8>,
    r: Result<AllocPlan, SocialError>,
) -> bool {
    if !valid_seed(seed) {
        r == Err::<AllocPlan, SocialError>(SocialError::InvalidArgument)
    } else {
        match derive_outcome(program, payer, seed, None::<u8>) {
            None => r == Err::<AllocPlan, SocialError>(SocialError::AddressDerivationExhausted),
            Some(p) => if p.0 != pda {
                r == Err::<AllocPlan, SocialError>(SocialError::InvalidAddress)
            } else {
                r matches Ok(plan) && {
                    &&& plan.owner@ == payer
                    &&& plan.target@ == pda
                    &&& plan.bump == p.1
                    &&& plan.seed_label@ == seed
                    &&& plan.seed_index is None
                    &&& plan.space as int == init_space(seed)
                    &&& plan.data@ == Seq::new(init_space(seed) as nat, |i: int| 0u8)
                    &&& (seed == profile_seed() ==> profile_decode_ok(plan.data@)
                        && profile_count_of(plan.data@) == 0 && followers_of(plan.data@)
                        == Seq::<Seq<u8>>::empty())
                    &&& (seed == post_seed() ==> counter_decode_ok(plan.data@)
                        && counter_count_of(plan.data@) == 0)
                }
            },
        }
    }
}

/// What following must do to a profile record's bytes: the full relation
/// between the record before and after [`Processor::follow_user`].
pub open spec fn follow_outcome(
    oldb: Seq<u8>,
    newb: Seq<u8>,
    u: Seq<u8>,
    r: Result<(), SocialError>,
) -> bool {
    if !profile_decode_ok(oldb) {
        r == Err::<(), SocialError>(SocialError::DecodeFailure) && newb == oldb
    } else {
        let fs = followers_of(oldb);
        let n = profile_count_of(oldb);
        if fs.contains(u) {
            r is Ok && newb == oldb
        } else if n >= MAX_FOLLOWERS_SIZE as int || oldb.len() < 2 + 32 * (n + 1) {
            r == Err::<(), SocialError>(SocialError::CapacityExceeded) && newb == oldb
        } else {
            &&& r is Ok
            &&& newb.len() == oldb.len()
            &&& profile_decode_ok(newb)
            &&& profile_count_of(newb) == n + 1
            &&& followers_of(newb) == fs.push(u)
            &&& newb.skip(2 + 32 * (n + 1)) == oldb.skip(2 + 32 * (n + 1))
        }
    }
}

/// What unfollowing must do to a profile record's bytes: the full relation
/// between the record before and after [`Processor::unfollow_user`].
pub open spec fn unfollow_outcome(
    oldb: Seq<u8>,
    newb: Seq<u8>,
    u: Seq<u8>,
    r: Result<(), SocialError>,
) -> bool {
    if !profile_decode_ok(oldb) {
        r == Err::<(), SocialError>(SocialError::DecodeFailure) && newb == oldb
    } else {
        let fs = followers_of(oldb);
        let k = remove_id(fs, u).len() as int;
        &&& r is Ok
        &&& newb.len() == oldb.len()
        &&& profile_decode_ok(newb)
        &&& profile_count_of(newb) == k
        &&& followers_of(newb) == remove_id(fs, u)
        &&& newb.skip(2 + 32 * k) == oldb.skip(2 + 32 * k)
    }
}

/// What posting must do: the full relation between the inputs, the counter
/// record before and after, and the result of [`Processor::post_content`].
pub open spec fn post_outcome(
    program: Seq<u8>,
    owner: Seq<u8>,
    oldc: Seq<u8>,
    newc: Seq<u8>,
    post_pda: Seq<u8>,
    content: Seq<u8>,
    timestamp: u64,
    r: Result<AllocPlan, SocialError>,
) -> bool {
    if !counter_decode_ok(oldc) {
        r == Err::<AllocPlan, SocialError>(SocialError::DecodeFailure) && newc == oldc
    } else {
        let cnt = counter_count_of(oldc);
        if content.len() + POST_FIXED_SIZE > u32::MAX {
            r == Err::<AllocPlan, SocialError>(SocialError::InvalidArgument) && newc == oldc
        } else if cnt == 65535 {
            r == Err::<AllocPlan, SocialError>(SocialError::CapacityExceeded) && newc == oldc
        } else {
            let ib = (cnt % 256) as u8;
            match derive_outcome(program, owner, post_seed(), Some(ib)) {
                None => r == Err::<AllocPlan, SocialError>(
                    SocialError::AddressDerivationExhausted,
                ) && newc == oldc,
                Some(p) => if p.0 != post_pda {
                    r == Err::<AllocPlan, SocialError>(SocialError::InvalidAddress) && newc
                        == oldc
                } else {
                    &&& r matches Ok(plan) && {
                        &&& plan.owner@ == owner
                        &&& plan.target@ == post_pda
                        &&& plan.bump == p.1
                        &&& plan.seed_label@ == post_seed()
                        &&& plan.seed_index == Some(ib)
                        &&& plan.space as int == content.len() + POST_FIXED_SIZE
                        &&& plan.data@ == post_bytes(content, timestamp)
                    }
                    &&& newc.len() == oldc.len()
                    &&& newc.subrange(0, 2) == u16_le((cnt + 1) as u16)
                    &&& newc.skip(2) == oldc.skip(2)
                },
            }
        }
    }
}

/// A vector of `n` zero bytes.
fn zeroed(n: usize) -> (r: Vec<u8>)
    ensures
        r@ == Seq::new(n as nat, |i: int| 0u8),
{
    let mut out: Vec<u8> = Vec::new();
    let mut i: usize = 0;
    while i < n
        invariant
            i <= n,
            out@ == Seq::new(i as nat, |k: int| 0u8),
        decreases n - i,
    {
        out.push(0);
        proof {
            assert(out@ =~= Seq::new((i + 1) as nat, |k: int| 0u8));
        }
        i = i + 1;
    }
    out
}

/// The record store's operations.
pub struct Processor;

impl Processor {
    /// Decides everything the ledger needs to create and initialize the
    /// record that `seed_type` names for the payer: verifies the claimed
    /// derived address, computes the footprint, and lays out the initial
    /// record bytes (an empty profile or a zero post counter).  The actual
    /// allocation — fee deposit and buffer creation — is the external
    /// ledger's step and happens only after this succeeds.
    pub fn initialize_user(
        program_id: &ActorId,
        payer: &ActorId,
        pda: &ActorId,
        seed_type: &Vec<u8>,
    ) -> (r: Result<AllocPlan, SocialError>)
        requires
            program_id.wf(),
            payer.wf(),
        ensures
            init_outcome(program_id@, payer@, pda@, seed_type@, r),
    {
        let profile_label = profile_seed_bytes();
        let post_label = post_seed_bytes();
        let is_profile = bytes_eq(seed_type, &profile_label);
        let is_post = bytes_eq(seed_type, &post_label);
        if !is_profile && !is_post {
            return Err(SocialError::InvalidArgument);
        }
        let pair = match AddressDeriver::derive(program_id, payer, seed_type, None) {
            Ok(pair) => pair,
            Err(e) => {
                return Err(e);
            },
        };
        if !bytes_eq(&pair.0.bytes, &pda.bytes) {
            return Err(SocialError::InvalidAddress);
        }
        let space: usize = if is_profile {
            counter_profile_space(MAX_FOLLOWERS_SIZE)
        } else {
            USER_POST_SIZE
        };
        let data = zeroed(space);
        proof {
            let z = Seq::new(init_space(seed_type@) as nat, |i: int| 0u8);
            assert(z[0] == 0u8);
            assert(z[1] == 0u8);
            assert(profile_count_of(z) == 0);
            if is_profile {
                assert(followers_of(z) =~= Seq::<Seq<u8>>::empty());
            }
        }
        Ok(
            AllocPlan {
                owner: payer.duplicate(),
                target: pair.0,
                bump: pair.1,
                seed_label: copy_bytes(seed_type),
                seed_index: None,
                space,
                data,
            },
        )
    }

    /// Follows a user: decodes the profile record in place, appends the user
    /// unless already present, and re-encodes over the record's logical
    /// span.  Fails with `CapacityExceeded` exactly when a new, distinct
    /// follower would not fit — the list already holds
    /// [`MAX_FOLLOWERS_SIZE`] followers, or the physical buffer cannot hold
    /// one more entry.
    pub fn follow_user(record: &mut Vec<u8>, user_to_follow: &ActorId) -> (r: Result<
        (),
        SocialError,
    >)
        requires
            user_to_follow.wf(),
        ensures
            follow_outcome(old(record)@, final(record)@, user_to_follow@, r),
    {
        let ghost oldb = record@;
        let mut profile = match decode_profile(record) {
            Ok(p) => p,
            Err(e) => {
                return Err(e);
            },
        };
        let present = contains_id(&profile.followers, user_to_follow);
        if present {
            return Ok(());
        }
        if profile.followers.len() >= MAX_FOLLOWERS_SIZE {
            return Err(SocialError::CapacityExceeded);
        }
        let n = profile.followers.len();
        if record.len() < PROFILE_HEADER_SIZE + ID_SIZE * (n + 1) {
            return Err(SocialError::CapacityExceeded);
        }
        let followed = profile.follow(user_to_follow.duplicate());
        match followed {
            Ok(()) => {},
            Err(_) => {
                proof {
                    assert(false);
                }
                return Err(SocialError::CapacityExceeded);
            },
        }
        encode_profile_into(&profile, record);
        proof {
            lemma_profile_round_trip(profile.data_len, profile.follower_views(), record@);
            assert(followers_of(record@) == followers_of(oldb).push(user_to_follow@));
        }
        Ok(())
    }

    /// Unfollows a user: decodes the profile record in place, removes every
    /// occurrence, recomputes the count and re-encodes over the new logical
    /// span; bytes beyond it are left untouched and the next bounded decode
    /// ignores them.  Absence is a no-op, not an error.
    pub fn unfollow_user(record: &mut Vec<u8>, user_to_unfollow: &ActorId) -> (r: Result<
        (),
        SocialError,
    >)
        ensures
            unfollow_outcome(old(record)@, final(record)@, user_to_unfollow@, r),
    {
        let ghost oldb = record@;
        let mut profile = match decode_profile(record) {
            Ok(p) => p,
            Err(e) => {
                return Err(e);
            },
        };
        let ghost fs = profile.follower_views();
        profile.unfollow(user_to_unfollow.duplicate());
        proof {
            lemma_remove_id_len(fs, user_to_unfollow@);
            lemma_remove_id_uniform(fs, user_to_unfollow@);
        }
        encode_profile_into(&profile, record);
        proof {
            lemma_profile_round_trip(profile.data_len, profile.follower_views(), record@);
        }
        Ok(())
    }

    /// Reads a profile record for a caller that wants to observe it.  The
    /// dispatch path has no channel to hand the data back through; direct
    /// callers receive the decoded record here.
    pub fn query_followers(record: &Vec<u8>) -> (r: Result<UserProfile, SocialError>)
        ensures
            r is Ok <==> profile_decode_ok(record@),
            r matches Ok(p) ==> p.data_len as int == profile_count_of(record@)
                && p.follower_views() == followers_of(record@),
            r is Err ==> r == Err::<UserProfile, SocialError>(SocialError::DecodeFailure),
    {
        decode_profile(record)
    }

    /// Derives the address of the owner's post with the given index: the
    /// seed is the "post" label followed by the single index byte, so the
    /// address space per owner repeats every 256 posts — a kept limitation.
    pub fn derive_post_address(program_id: &ActorId, owner: &ActorId, post_index: u8) -> (r:
        Result<(ActorId, u8), SocialError>)
        requires
            program_id.wf(),
            owner.wf(),
        ensures
            match derive_outcome(program_id@, owner@, post_seed(), Some(post_index)) {
                Some(p) => r matches Ok(q) && q.0@ == p.0 && q.1 == p.1 && q.0.wf(),
                None => r == Err::<(ActorId, u8), SocialError>(
                    SocialError::AddressDerivationExhausted,
                ),
            },
    {
        let label = post_seed_bytes();
        AddressDeriver::derive(program_id, owner, &label, Some(post_index))
    }

    /// Creates a post: reads the counter, takes its pre-increment value as
    /// the post's index, verifies the claimed post address derived from the
    /// owner, the "post" label and the index truncated to a single byte
    /// (the address space repeats every 256 posts — a kept limitation),
    /// advances the counter in place, and lays out the post record bytes
    /// for the ledger to allocate.  A counter at 65535 is reported as
    /// `CapacityExceeded` rather than wrapped.
    pub fn post_content(
        program_id: &ActorId,
        owner: &ActorId,
        counter_record: &mut Vec<u8>,
        post_pda: &ActorId,
        content: Vec<u8>,
        timestamp: u64,
    ) -> (r: Result<AllocPlan, SocialError>)
        requires
            program_id.wf(),
            owner.wf(),
        ensures
            post_outcome(
                program_id@,
                owner@,
                old(counter_record)@,
                final(counter_record)@,
                post_pda@,
                content@,
                timestamp,
                r,
            ),
    {
        let mut counter = match decode_user_post(counter_record) {
            Ok(c) => c,
            Err(e) => {
                return Err(e);
            },
        };
        if content.len() > (u32::MAX as usize) - POST_FIXED_SIZE {
            return Err(SocialError::InvalidArgument);
        }
        if counter.post_count == 65535 {
            return Err(SocialError::CapacityExceeded);
        }
        let index = counter.get_count();
        let index_byte = (index % 256) as u8;
        let label = post_seed_bytes();
        let pair = match Processor::derive_post_address(program_id, owner, index_byte) {
            Ok(pair) => pair,
            Err(e) => {
                return Err(e);
            },
        };
        if !bytes_eq(&pair.0.bytes, &post_pda.bytes) {
            return Err(SocialError::InvalidAddress);
        }
        counter.add_post();
        encode_user_post_into(&counter, counter_record);
        let post = Post::new(content, timestamp);
        let data = encode_post(&post);
        let space = data.len();
        Ok(
            AllocPlan {
                owner: owner.duplicate(),
                target: pair.0,
                bump: pair.1,
                seed_label: label,
                seed_index: Some(index_byte),
                space,
                data,
            },
        )
    }

    /// Routes one inbound operation to the record store.  The caller supplies
    /// the operation's wire bytes, the ordered record-handle list the
    /// operation requires, and the current time from the external clock; a
    /// handle list of the wrong shape is rejected as `InvalidArgument`
    /// before anything is touched.  Mutations act on the handles' bytes;
    /// creations return the allocation plan for the external ledger.  The
    /// two query operations validate their records but have no channel to
    /// answer through: they end in `Unimplemented` rather than completing
    /// silently.
    pub fn process_instruction(
        program_id: &ActorId,
        accounts: &mut Vec<AccountHandle>,
        instruction_data: &Vec<u8>,
        timestamp: u64,
    ) -> (r: Result<Option<AllocPlan>, SocialError>)
        requires
            program_id.wf(),
            forall|i: int|
                0 <= i < old(accounts)@.len() ==> (#[trigger] old(accounts)@[i]).key.wf(),
        ensures
            match parse_op(instruction_data@) {
                None => r == Err::<Option<AllocPlan>, SocialError>(SocialError::InvalidArgument)
                    && final(accounts)@ == old(accounts)@,
                Some(op) => match op {
                    Operation::InitializeUser { seed_type } => {
                        if old(accounts)@.len() != 3 {
                            r == Err::<Option<AllocPlan>, SocialError>(
                                SocialError::InvalidArgument,
                            ) && final(accounts)@ == old(accounts)@
                        } else {
                            &&& final(accounts)@ == old(accounts)@
                            &&& (r matches Ok(o) ==> o matches Some(plan) && init_outcome(
                                program_id@,
                                old(accounts)@[0].key@,
                                old(accounts)@[1].key@,
                                seed_type,
                                Ok(plan),
                            ))
                            &&& (r matches Err(e) ==> init_outcome(
                                program_id@,
                                old(accounts)@[0].key@,
                                old(accounts)@[1].key@,
                                seed_type,
                                Err(e),
                            ))
                        }
                    },
                    Operation::FollowUser { user_to_follow } => {
                        if old(accounts)@.len() != 1 {
                            r == Err::<Option<AllocPlan>, SocialError>(
                                SocialError::InvalidArgument,
                            ) && final(accounts)@ == old(accounts)@
                        } else {
                            &&& final(accounts)@.len() == 1
                            &&& final(accounts)@[0].key == old(accounts)@[0].key
                            &&& (r matches Ok(o) ==> o is None && follow_outcome(
                                old(accounts)@[0].data@,
                                final(accounts)@[0].data@,
                                user_to_follow,
                                Ok(()),
                            ))
                            &&& (r matches Err(e) ==> follow_outcome(
                                old(accounts)@[0].data@,
                                final(accounts)@[0].data@,
                                user_to_follow,
                                Err(e),
                            ))
                        }
                    },
                    Operation::UnfollowUser { user_to_unfollow } => {
                        if old(accounts)@.len() != 1 {
                            r == Err::<Option<AllocPlan>, SocialError>(
                                SocialError::InvalidArgument,
                            ) && final(accounts)@ == old(accounts)@
                        } else {
                            &&& final(accounts)@.len() == 1
                            &&& final(accounts)@[0].key == old(accounts)@[0].key
                            &&& (r matches Ok(o) ==> o is None && unfollow_outcome(
                                old(accounts)@[0].data@,
                                final(accounts)@[0].data@,
                                user_to_unfollow,
                                Ok(()),
                            ))
                            &&& (r matches Err(e) ==> unfollow_outcome(
                                old(accounts)@[0].data@,
                                final(accounts)@[0].data@,
                                user_to_unfollow,
                                Err(e),
                            ))
                        }
                    },
                    Operation::QueryFollowers => {
                        &&& final(accounts)@ == old(accounts)@
                        &&& (if old(accounts)@.len() != 1 {
                            r == Err::<Option<AllocPlan>, SocialError>(
                                SocialError::InvalidArgument,
                            )
                        } else if profile_decode_ok(old(accounts)@[0].data@) {
                            r == Err::<Option<AllocPlan>, SocialError>(SocialError::Unimplemented)
                        } else {
                            r == Err::<Option<AllocPlan>, SocialError>(SocialError::DecodeFailure)
                        })
                    },
                    Operation::PostContent { content } => {
                        if old(accounts)@.len() != 4 {
                            r == Err::<Option<AllocPlan>, SocialError>(
                                SocialError::InvalidArgument,
                            ) && final(accounts)@ == old(accounts)@
                        } else {
                            &&& final(accounts)@.len() == 4
                            &&& (forall|i: int|
                                0 <= i < 4 && i != 1 ==> final(accounts)@[i] == old(
                                    accounts,
                                )@[i])
                            &&& final(accounts)@[1].key == old(accounts)@[1].key
                            &&& (r matches Ok(o) ==> o matches Some(plan) && post_outcome(
                                program_id@,
                                old(accounts)@[0].key@,
                                old(accounts)@[1].data@,
                                final(accounts)@[1].data@,
                                old(accounts)@[2].key@,
                                content,
                                timestamp,
                                Ok(plan),
                            ))
                            &&& (r matches Err(e) ==> post_outcome(
                                program_id@,
                                old(accounts)@[0].key@,
                                old(accounts)@[1].data@,
                                final(accounts)@[1].data@,
                                old(accounts)@[2].key@,
                                content,
                                timestamp,
                                Err(e),
                            ))
                        }
                    },
                    Operation::QueryPosts => {
                        &&& final(accounts)@ == old(accounts)@
                        &&& (if old(accounts)@.len() != 2 {
                            r == Err::<Option<AllocPlan>, SocialError>(
                                SocialError::InvalidArgument,
                            )
                        } else if counter_decode_ok(old(accounts)@[0].data@)
                            && crate::codec::post_decode_ok(old(accounts)@[1].data@) {
                            r == Err::<Option<AllocPlan>, SocialError>(SocialError::Unimplemented)
                        } else {
                            r == Err::<Option<AllocPlan>, SocialError>(SocialError::DecodeFailure)
                        })
                    },
                },
            },
    {
        let instruction = match parse_instruction(instruction_data) {
            Ok(ins) => ins,
            Err(e) => {
                return Err(e);
            },
        };
        match instruction {
            SocialInstruction::InitializeUser { seed_type } => {
                if accounts.len() != 3 {
                    return Err(SocialError::InvalidArgument);
                }
                let payer = accounts[0].key.duplicate();
                let pda = accounts[1].key.duplicate();
                proof {
                    assert(old(accounts)@[0].key.wf());
                }
                match Processor::initialize_user(program_id, &payer, &pda, &seed_type) {
                    Ok(plan) => Ok(Some(plan)),
                    Err(e) => Err(e),
                }
            },
            SocialInstruction::FollowUser { user_to_follow } => {
                if accounts.len() != 1 {
                    return Err(SocialError::InvalidArgument);
                }
                let mut handle = accounts.remove(0);
                let res = Processor::follow_user(&mut handle.data, &user_to_follow);
                proof {
                    assert(accounts@.len() == 0);
                }
                accounts.insert(0, handle);
                proof {
                    assert(accounts@ =~= seq![handle]);
                }
                match res {
                    Ok(()) => Ok(None),
                    Err(e) => Err(e),
                }
            },
            SocialInstruction::UnfollowUser { user_to_unfollow } => {
                if accounts.len() != 1 {
                    return Err(SocialError::InvalidArgument);
                }
                let mut handle = accounts.remove(0);
                let res = Processor::unfollow_user(&mut handle.data, &user_to_unfollow);
                proof {
                    assert(accounts@.len() == 0);
                }
                accounts.insert(0, handle);
                proof {
                    assert(accounts@ =~= seq![handle]);
                }
                match res {
                    Ok(()) => Ok(None),
                    Err(e) => Err(e),
                }
            },
            SocialInstruction::QueryFollowers => {
                if accounts.len() != 1 {
                    return Err(SocialError::InvalidArgument);
                }
                match Processor::query_followers(&accounts[0].data) {
                    Ok(_) => Err(SocialError::Unimplemented),
                    Err(e) => Err(e),
                }
            },
            SocialInstruction::PostContent { content } => {
                if accounts.len() != 4 {
                    return Err(SocialError::InvalidArgument);
                }
                let owner = accounts[0].key.duplicate();
                let post_pda = accounts[2].key.duplicate();
                let mut counter = accounts.remove(1);
                let res = Processor::post_content(
                    program_id,
                    &owner,
                    &mut counter.data,
                    &post_pda,
                    content,
                    timestamp,
                );
                accounts.insert(1, counter);
                proof {
                    assert(accounts@ =~= old(accounts)@.update(1, counter));
                }
                match res {
                    Ok(plan) => Ok(Some(plan)),
                    Err(e) => Err(e),
                }
            },
            SocialInstruction::QueryPosts => {
                if accounts.len() != 2 {
                    return Err(SocialError::InvalidArgument);
                }
                match Processor::query_post(&accounts[0].data, &accounts[1].data) {
                    Ok(_) => Err(SocialError::Unimplemented),
                    Err(e) => Err(e),
                }
            },
        }
    }

    /// Reads a post counter and one post record for a caller that wants to
    /// observe them.
    pub fn query_post(counter_record: &Vec<u8>, post_record: &Vec<u8>) -> (r: Result<
        (UserPost, Post),
        SocialError,
    >)
        ensures
            r is Ok <==> counter_decode_ok(counter_record@) && crate::codec::post_decode_ok(
                post_record@,
            ),
            r matches Ok(q) ==> q.0.post_count as int == counter_count_of(counter_record@)
                && q.1.content@ == crate::codec::post_content_of(post_record@)
                && q.1.timestamp as int == crate::codec::post_timestamp_of(post_record@),
            r is Err ==> r == Err::<(UserPost, Post), SocialError>(SocialError::DecodeFailure),
    {
        let counter = match decode_user_post(counter_record) {
            Ok(c) => c,
            Err(e) => {
                return Err(e);
            },
        };
        let post = match decode_post(post_record) {
            Ok(p) => p,
            Err(e) => {
                return Err(e);
            },
        };
        Ok((counter, post))
    }
}

} // verus!
