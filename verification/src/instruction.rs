use vstd::prelude::*;

use crate::codec::le32_at;
use crate::error::SocialError;
use crate::ids::{ActorId, ID_SIZE};

verus! {

/// An inbound operation.  On the wire it is a tagged union: a one-byte
/// discriminant in declaration order, then the variant's fields — integers
/// little-endian, byte strings as a 4-byte little-endian length prefix
/// followed by the raw bytes, identifiers as 32 raw bytes.
#[derive(Debug)]
pub enum SocialInstruction {
    InitializeUser { seed_type: Vec<u8> },
    FollowUser { user_to_follow: ActorId },
    UnfollowUser { user_to_unfollow: ActorId },
    QueryFollowers,
    PostContent { content: Vec<u8> },
    QueryPosts,
}

/// The mathematical model of an operation.
pub enum Operation {
    InitializeUser { seed_type: Seq<u8> },
    FollowUser { user_to_follow: Seq<u8> },
    UnfollowUser { user_to_unfollow: Seq<u8> },
    QueryFollowers,
    PostContent { content: Seq<u8> },
    QueryPosts,
}

/// The model an instruction value stands for.
pub open spec fn instruction_view(ins: SocialInstruction) -> Operation {
    match ins {
        SocialInstruction::InitializeUser { seed_type } => Operation::InitializeUser {
            seed_type: seed_type@,
        },
        SocialInstruction::FollowUser { user_to_follow } => Operation::FollowUser {
            user_to_follow: user_to_follow@,
        },
        SocialInstruction::UnfollowUser { user_to_unfollow } => Operation::UnfollowUser {
            user_to_unfollow: user_to_unfollow@,
        },
        SocialInstruction::QueryFollowers => Operation::QueryFollowers,
        SocialInstruction::PostContent { content } => Operation::PostContent {
            content: content@,
        },
        SocialInstruction::QueryPosts => Operation::QueryPosts,
    }
}

/// The operation a byte buffer encodes, if any.  The buffer must hold the
/// variant exactly: no missing fields and no trailing bytes.
pub open spec fn parse_op(b: Seq<u8>) -> Option<Operation> {
    if b.len() < 1 {
        None
    } else if b[0] == 0 {
        if b.len() >= 5 && b.len() == 5 + le32_at(b, 1) {
            Some(Operation::InitializeUser { seed_type: b.skip(5) })
        } else {
            None
        }
    } else if b[0] == 1 {
        if b.len() == 33 {
            Some(Operation::FollowUser { user_to_follow: b.skip(1) })
        } else {
            None
        }
    } else if b[0] == 2 {
        if b.len() == 33 {
            Some(Operation::UnfollowUser { user_to_unfollow: b.skip(1) })
        } else {
            None
        }
    } else if b[0] == 3 {
        if b.len() == 1 {
            Some(Operation::QueryFollowers)
        } else {
            None
        }
    } else if b[0] == 4 {
        if b.len() >= 5 && b.len() == 5 + le32_at(b, 1) {
            Some(Operation::PostContent { content: b.skip(5) })
        } else {
            None
        }
    } else if b[0] == 5 {
        if b.len() == 1 {
            Some(Operation::QueryPosts)
        } else {
            None
        }
    } else {
        None
    }
}

/// Copies `data[from..from + n]` into a fresh vector.
fn copy_range(data: &Vec<u8>, from: usize, n: usize) -> (r: Vec<u8>)
    requires
        from + n <= data@.len(),
    ensures
        r@ == data@.subrange(from as int, from + n),
{
    let dl = data.len();
    proof {
        assert(dl == data@.len());
        assert(data@.len() <= usize::MAX);
    }
    let mut out: Vec<u8> = Vec::new();
    let mut i: usize = 0;
    while i < n
        invariant
            i <= n,
            from + n <= data@.len(),
            data@.len() <= usize::MAX,
            out@ == data@.subrange(from as int, from + i),
        decreases n - i,
    {
        out.push(data[from + i]);
        proof {
            assert(out@ =~= data@.subrange(from as int, from + i + 1));
        }
        i = i + 1;
    }
    out
}

/// Decodes an operation from its wire bytes; anything malformed — an unknown
/// discriminant, missing fields, a wrong length prefix or trailing bytes —
/// is rejected as `InvalidArgument`.
pub fn parse_instruction(data: &Vec<u8>) -> (r: Result<SocialInstruction, SocialError>)
    ensures
        match parse_op(data@) {
            Some(op) => r matches Ok(ins) && instruction_view(ins) == op,
            None => r == Err::<SocialInstruction, SocialError>(SocialError::InvalidArgument),
        },
{
    if data.len() < 1 {
        return Err(SocialError::InvalidArgument);
    }
    let tag = data[0];
    if tag == 0 || tag == 4 {
        if data.len() < 5 {
            return Err(SocialError::InvalidArgument);
        }
        let m: usize = (data[1] as usize) + 256 * (data[2] as usize) + 65536 * (data[3] as usize)
            + 16777216 * (data[4] as usize);
        proof {
            assert(m == le32_at(data@, 1));
        }
        if data.len() - 5 != m {
            return Err(SocialError::InvalidArgument);
        }
        let payload = copy_range(data, 5, m);
        proof {
            assert(payload@ =~= data@.skip(5));
        }
        if tag == 0 {
            Ok(SocialInstruction::InitializeUser { seed_type: payload })
        } else {
            Ok(SocialInstruction::PostContent { content: payload })
        }
    } else if tag == 1 || tag == 2 {
        if data.len() != 1 + ID_SIZE {
            return Err(SocialError::InvalidArgument);
        }
        let id_bytes = copy_range(data, 1, ID_SIZE);
        proof {
            assert(id_bytes@ =~= data@.skip(1));
        }
        let id = ActorId { bytes: id_bytes };
        if tag == 1 {
            Ok(SocialInstruction::FollowUser { user_to_follow: id })
        } else {
            Ok(SocialInstruction::UnfollowUser { user_to_unfollow: id })
        }
    } else if tag == 3 {
        if data.len() != 1 {
            return Err(SocialError::InvalidArgument);
        }
        Ok(SocialInstruction::QueryFollowers)
    } else if tag == 5 {
        if data.len() != 1 {
            return Err(SocialError::InvalidArgument);
        }
        Ok(SocialInstruction::QueryPosts)
    } else {
        Err(SocialError::InvalidArgument)
    }
}

} // verus!
