use vstd::prelude::*;

use crate::error::SocialError;
use crate::ids::{bytes_eq, id_views, unique_ids, uniform_ids, ActorId};

verus! {

/// Capacity of a follower list; also sizes a profile record's allocation.
pub const MAX_FOLLOWERS_SIZE: usize = 256;

/// The follower-list record of one actor.
///
/// Invariants (see [`UserProfile::wf`]): `data_len` equals the number of
/// followers, every follower is a well-formed identifier, no follower occurs
/// twice, and the list never exceeds [`MAX_FOLLOWERS_SIZE`].
#[derive(Debug)]
pub struct UserProfile {
    pub data_len: u16,
    pub followers: Vec<ActorId>,
}

/// The per-owner post counter record.  `post_count` only ever grows.
#[derive(Debug)]
pub struct UserPost {
    pub post_count: u16,
}

/// A single post record: immutable after creation.
#[derive(Debug)]
pub struct Post {
    pub content: Vec<u8>,
    pub timestamp: u64,
}

/// What following `u` does to a follower list: a no-op when `u` is already
/// present, otherwise an append.
pub open spec fn add_id(fs: Seq<Seq<u8>>, u: Seq<u8>) -> Seq<Seq<u8>> {
    if fs.contains(u) {
        fs
    } else {
        fs.push(u)
    }
}

/// What unfollowing `u` does to a follower list: every occurrence of `u` is
/// removed, the order of the rest is kept.
pub open spec fn remove_id(fs: Seq<Seq<u8>>, u: Seq<u8>) -> Seq<Seq<u8>>
    decreases fs.len(),
{
    if fs.len() == 0 {
        Seq::empty()
    } else if fs.first() == u {
        remove_id(fs.drop_first(), u)
    } else {
        seq![fs.first()] + remove_id(fs.drop_first(), u)
    }
}

/// How often `u` occurs in a follower list.
pub open spec fn count_occ(fs: Seq<Seq<u8>>, u: Seq<u8>) -> nat
    decreases fs.len(),
{
    if fs.len() == 0 {
        0
    } else {
        (if fs.first() == u {
            1nat
        } else {
            0nat
        }) + count_occ(fs.drop_first(), u)
    }
}

impl UserProfile {
    /// The byte views of the follower list.
    pub open spec fn follower_views(self) -> Seq<Seq<u8>> {
        id_views(self.followers@)
    }

    /// Well-formedness of a profile record.
    pub open spec fn wf(self) -> bool {
        &&& self.data_len as int == self.followers@.len()
        &&& self.followers@.len() <= MAX_FOLLOWERS_SIZE
        &&& uniform_ids(self.follower_views())
        &&& unique_ids(self.follower_views())
    }

    /// A fresh profile: no followers.
    pub fn new() -> (r: UserProfile)
        ensures
            r.data_len == 0,
            r.followers@.len() == 0,
            r.follower_views() == Seq::<Seq<u8>>::empty(),
            r.wf(),
    {
        let r = UserProfile { data_len: 0, followers: Vec::new() };
        proof {
            assert(r.follower_views() =~= Seq::<Seq<u8>>::empty());
        }
        r
    }

    /// Follows `user`: a no-op when already followed, an error when the list
    /// is full, otherwise an append that keeps `data_len` in step.
    pub fn follow(&mut self, user: ActorId) -> (r: Result<(), SocialError>)
        requires
            old(self).data_len as int == old(self).followers@.len(),
            old(self).followers@.len() <= MAX_FOLLOWERS_SIZE,
        ensures
            final(self).data_len as int == final(self).followers@.len(),
            ({
                let fs = old(self).follower_views();
                if fs.contains(user@) {
                    r is Ok && *final(self) == *old(self)
                } else if fs.len() == MAX_FOLLOWERS_SIZE {
                    r == Err::<(), SocialError>(SocialError::CapacityExceeded) && *final(self)
                        == *old(self)
                } else {
                    r is Ok && final(self).follower_views() == add_id(fs, user@)
                        && final(self).followers@.len() == fs.len() + 1
                }
            }),
            old(self).wf() && user.wf() ==> final(self).wf(),
    {
        let present = contains_id(&self.followers, &user);
        if present {
            return Ok(());
        }
        if self.followers.len() == MAX_FOLLOWERS_SIZE {
            return Err(SocialError::CapacityExceeded);
        }
        let ghost old_views = self.follower_views();
        let ghost uv = user@;
        self.followers.push(user);
        self.data_len = self.data_len + 1;
        proof {
            assert(self.follower_views() =~= old_views.push(uv));
            if old(self).wf() && uv.len() == 32 {
                assert forall|i: int, j: int|
                    #![trigger self.follower_views()[i], self.follower_views()[j]]
                    0 <= i < j < self.follower_views().len() implies self.follower_views()[i]
                    != self.follower_views()[j] by {
                    if j == old_views.len() {
                        assert(self.follower_views()[i] == old_views[i]);
                        assert(!old_views.contains(uv));
                    }
                }
            }
        }
        Ok(())
    }

    /// Unfollows `user_to_follow`: removes every occurrence (at most one in a
    /// well-formed profile) and recomputes `data_len`.  Absence is a no-op,
    /// not an error.
    pub fn unfollow(&mut self, user_to_follow: ActorId)
        requires
            old(self).followers@.len() <= 65535,
        ensures
            final(self).follower_views() == remove_id(
                old(self).follower_views(),
                user_to_follow@,
            ),
            final(self).data_len as int == final(self).followers@.len(),
            old(self).wf() ==> final(self).wf(),
    {
        let ghost orig = self.follower_views();
        let ghost uv = user_to_follow@;
        let mut kept: Vec<ActorId> = Vec::new();
        let mut i: usize = 0;
        while i < self.followers.len()
            invariant
                i <= self.followers@.len(),
                *self == *old(self),
                id_views(kept@) == remove_id(id_views(self.followers@.take(i as int)), uv),
                uv == user_to_follow@,
            decreases self.followers@.len() - i,
        {
            let elem = &self.followers[i];
            let ghost pre = id_views(self.followers@.take(i as int));
            let keep = !bytes_eq(&elem.bytes, &user_to_follow.bytes);
            if keep {
                kept.push(elem.duplicate());
            }
            proof {
                assert(id_views(self.followers@.take(i + 1)) =~= pre.push(elem@));
                lemma_remove_id_snoc(pre, elem@, uv);
                if keep {
                    assert(id_views(kept@) =~= remove_id(pre, uv).push(elem@));
                }
            }
            i = i + 1;
        }
        proof {
            assert(self.followers@.take(self.followers@.len() as int) =~= self.followers@);
            lemma_remove_id_len(orig, uv);
        }
        let new_len = kept.len();
        self.followers = kept;
        self.data_len = new_len as u16;
        proof {
            if old(self).wf() {
                lemma_remove_id_uniform(orig, uv);
                lemma_remove_id_unique(orig, uv);
            }
        }
    }
}

impl UserPost {
    /// A fresh counter: no posts yet.
    pub fn new() -> (r: UserPost)
        ensures
            r.post_count == 0,
    {
        UserPost { post_count: 0 }
    }

    /// Counts one more post.  The 16-bit counter must not be exhausted:
    /// callers check and report the overflow instead of wrapping.
    pub fn add_post(&mut self)
        requires
            old(self).post_count < 65535,
        ensures
            final(self).post_count == old(self).post_count + 1,
    {
        self.post_count = self.post_count + 1;
    }

    /// The number of posts counted so far.
    pub fn get_count(&self) -> (r: u16)
        ensures
            r == self.post_count,
    {
        self.post_count
    }
}

impl Post {
    /// A post as it is stored: raw content bytes and a creation timestamp.
    pub fn new(content: Vec<u8>, timestamp: u64) -> (r: Post)
        ensures
            r.content@ == content@,
            r.timestamp == timestamp,
    {
        Post { content, timestamp }
    }
}

/// True exactly when some entry of `list` holds the same bytes as `target`.
pub fn contains_id(list: &Vec<ActorId>, target: &ActorId) -> (r: bool)
    ensures
        r == id_views(list@).contains(target@),
{
    let mut i: usize = 0;
    while i < list.len()
        invariant
            i <= list@.len(),
            forall|j: int| 0 <= j < i ==> id_views(list@)[j] != target@,
        decreases list@.len() - i,
    {
        if bytes_eq(&list[i].bytes, &target.bytes) {
            proof {
                assert(id_views(list@)[i as int] == target@);
            }
            return true;
        }
        i = i + 1;
    }
    proof {
        if id_views(list@).contains(target@) {
            let j = choose|j: int| 0 <= j < id_views(list@).len() && id_views(list@)[j]
                == target@;
            assert(id_views(list@)[j] != target@);
        }
    }
    false
}

proof fn lemma_remove_id_snoc(s: Seq<Seq<u8>>, x: Seq<u8>, u: Seq<u8>)
    ensures
        remove_id(s.push(x), u) == (if x == u {
            remove_id(s, u)
        } else {
            remove_id(s, u).push(x)
        }),
    decreases s.len(),
{
    if s.len() == 0 {
        assert(s.push(x).drop_first() =~= Seq::<Seq<u8>>::empty());
        if x != u {
            assert(seq![x] + remove_id(Seq::<Seq<u8>>::empty(), u) =~= remove_id(s, u).push(x));
        }
    } else {
        assert(s.push(x).drop_first() =~= s.drop_first().push(x));
        lemma_remove_id_snoc(s.drop_first(), x, u);
        if s.first() != u {
            if x == u {
                assert(remove_id(s.push(x), u) == seq![s.first()] + remove_id(
                    s.drop_first(),
                    u,
                ));
            } else {
                assert(seq![s.first()] + remove_id(s.drop_first(), u).push(x) =~= (seq![s.first()]
                    + remove_id(s.drop_first(), u)).push(x));
            }
        }
    }
}

/// Removing `u` never lengthens the list.
pub proof fn lemma_remove_id_len(s: Seq<Seq<u8>>, u: Seq<u8>)
    ensures
        remove_id(s, u).len() <= s.len(),
    decreases s.len(),
{
    if s.len() > 0 {
        lemma_remove_id_len(s.drop_first(), u);
    }
}

/// Every entry that survives removal was in the list before.
proof fn lemma_remove_id_contains(s: Seq<Seq<u8>>, u: Seq<u8>, x: Seq<u8>)
    requires
        remove_id(s, u).contains(x),
    ensures
        s.contains(x),
    decreases s.len(),
{
    if s.len() > 0 {
        if s.first() == u {
            lemma_remove_id_contains(s.drop_first(), u, x);
            let j = choose|j: int| 0 <= j < s.drop_first().len() && s.drop_first()[j] == x;
            assert(s[j + 1] == x);
        } else {
            let r = remove_id(s, u);
            let j = choose|j: int| 0 <= j < r.len() && r[j] == x;
            if j == 0 {
                assert(s[0] == x);
            } else {
                assert(remove_id(s.drop_first(), u)[j - 1] == x);
                lemma_remove_id_contains(s.drop_first(), u, x);
                let k = choose|k: int| 0 <= k < s.drop_first().len() && s.drop_first()[k] == x;
                assert(s[k + 1] == x);
            }
        }
    }
}

/// Removal keeps every surviving entry 32 bytes wide.
pub proof fn lemma_remove_id_uniform(s: Seq<Seq<u8>>, u: Seq<u8>)
    requires
        uniform_ids(s),
    ensures
        uniform_ids(remove_id(s, u)),
{
    assert forall|i: int| 0 <= i < remove_id(s, u).len() implies (#[trigger] remove_id(s, u)[i]).len()
        == 32 by {
        assert(remove_id(s, u).contains(remove_id(s, u)[i]));
        lemma_remove_id_contains(s, u, remove_id(s, u)[i]);
        let k = choose|k: int| 0 <= k < s.len() && s[k] == remove_id(s, u)[i];
        assert(s[k].len() == 32);
    }
}

proof fn lemma_remove_id_unique(s: Seq<Seq<u8>>, u: Seq<u8>)
    requires
        unique_ids(s),
    ensures
        unique_ids(remove_id(s, u)),
    decreases s.len(),
{
    if s.len() > 0 {
        assert forall|i: int, j: int| 0 <= i < j < s.drop_first().len() implies s.drop_first()[i]
            != s.drop_first()[j] by {
            assert(s[i + 1] != s[j + 1]);
        }
        lemma_remove_id_unique(s.drop_first(), u);
        if s.first() != u {
            let r = remove_id(s, u);
            let rest = remove_id(s.drop_first(), u);
            assert forall|i: int, j: int| #![trigger r[i], r[j]] 0 <= i < j < r.len() implies r[i]
                != r[j] by {
                if i == 0 {
                    assert(rest.contains(rest[j - 1]));
                    lemma_remove_id_contains(s.drop_first(), u, rest[j - 1]);
                    let k = choose|k: int|
                        0 <= k < s.drop_first().len() && s.drop_first()[k] == rest[j - 1];
                    assert(s[0] != s[k + 1]);
                    assert(r[j] == rest[j - 1]);
                } else {
                    assert(r[i] == rest[i - 1]);
                    assert(r[j] == rest[j - 1]);
                }
            }
        }
    }
}

/// After removal, `u` is gone.
pub proof fn lemma_remove_id_not_contains(s: Seq<Seq<u8>>, u: Seq<u8>)
    ensures
        !remove_id(s, u).contains(u),
    decreases s.len(),
{
    if s.len() > 0 {
        lemma_remove_id_not_contains(s.drop_first(), u);
        if s.first() != u {
            let r = remove_id(s, u);
            if r.contains(u) {
                let j = choose|j: int| 0 <= j < r.len() && r[j] == u;
                if j > 0 {
                    assert(remove_id(s.drop_first(), u)[j - 1] == u);
                    assert(remove_id(s.drop_first(), u).contains(u));
                }
            }
        }
    }
}

/// Removing from a list that does not hold `u` changes nothing.
pub proof fn lemma_remove_id_absent(s: Seq<Seq<u8>>, u: Seq<u8>)
    requires
        !s.contains(u),
    ensures
        remove_id(s, u) == s,
    decreases s.len(),
{
    if s.len() > 0 {
        assert(s[0] != u);
        assert forall|j: int| 0 <= j < s.drop_first().len() implies s.drop_first()[j] != u by {
            assert(s[j + 1] == s.drop_first()[j]);
        }
        lemma_remove_id_absent(s.drop_first(), u);
        assert(seq![s.first()] + s.drop_first() =~= s);
    }
}

proof fn lemma_count_occ_absent(s: Seq<Seq<u8>>, u: Seq<u8>)
    requires
        !s.contains(u),
    ensures
        count_occ(s, u) == 0,
    decreases s.len(),
{
    if s.len() > 0 {
        assert(s[0] != u);
        assert forall|j: int| 0 <= j < s.drop_first().len() implies s.drop_first()[j] != u by {
            assert(s[j + 1] == s.drop_first()[j]);
        }
        lemma_count_occ_absent(s.drop_first(), u);
    }
}

proof fn lemma_count_occ_unique(s: Seq<Seq<u8>>, u: Seq<u8>)
    requires
        unique_ids(s),
        s.contains(u),
    ensures
        count_occ(s, u) == 1,
    decreases s.len(),
{
    let j = choose|j: int| 0 <= j < s.len() && s[j] == u;
    if s.first() == u {
        assert forall|k: int| 0 <= k < s.drop_first().len() implies s.drop_first()[k] != u by {
            assert(s[0] != s[k + 1]);
        }
        lemma_count_occ_absent(s.drop_first(), u);
    } else {
        assert(s.drop_first()[j - 1] == u);
        assert forall|i: int, k: int|
            #![trigger s.drop_first()[i], s.drop_first()[k]]
            0 <= i < k < s.drop_first().len() implies s.drop_first()[i] != s.drop_first()[k] by {
            assert(s[i + 1] != s[k + 1]);
        }
        lemma_count_occ_unique(s.drop_first(), u);
    }
}

/// Law: for any sequence of follows of the same user, the profile holds that
/// user exactly once, the list stays duplicate-free, and a repeated follow
/// changes nothing.
pub proof fn lemma_follow_exactly_once(fs: Seq<Seq<u8>>, u: Seq<u8>)
    requires
        unique_ids(fs),
    ensures
        unique_ids(add_id(fs, u)),
        count_occ(add_id(fs, u), u) == 1,
        add_id(add_id(fs, u), u) == add_id(fs, u),
{
    let r = add_id(fs, u);
    if fs.contains(u) {
        lemma_count_occ_unique(fs, u);
    } else {
        assert forall|i: int, j: int| #![trigger r[i], r[j]] 0 <= i < j < r.len() implies r[i]
            != r[j] by {
            if j == fs.len() {
                assert(r[i] == fs[i]);
            }
        }
        assert(r[fs.len() as int] == u);
        assert(r.contains(u));
        lemma_count_occ_unique(r, u);
    }
    assert(r.contains(u)) by {
        if !fs.contains(u) {
            assert(r[fs.len() as int] == u);
        } else {
            let j = choose|j: int| 0 <= j < fs.len() && fs[j] == u;
            assert(r[j] == u);
        }
    }
}

/// Law: unfollowing is idempotent — a second unfollow of the same user finds
/// nothing to remove and leaves the profile exactly as the first left it.
pub proof fn lemma_unfollow_idempotent(fs: Seq<Seq<u8>>, u: Seq<u8>)
    ensures
        remove_id(remove_id(fs, u), u) == remove_id(fs, u),
{
    lemma_remove_id_not_contains(fs, u);
    lemma_remove_id_absent(remove_id(fs, u), u);
}

} // verus!
