use vstd::prelude::*;

use crate::error::SocialError;

verus! {

/// Number of bytes in an identifier.
pub const ID_SIZE: usize = 32;

/// A 32-byte opaque identifier naming an actor or a record's address.
/// Immutable once assigned.
#[derive(Debug)]
pub struct ActorId {
    pub bytes: Vec<u8>,
}

impl View for ActorId {
    type V = Seq<u8>;

    open spec fn view(&self) -> Seq<u8> {
        self.bytes@
    }
}

impl ActorId {
    /// An identifier is well formed when it holds exactly 32 bytes.
    pub open spec fn wf(self) -> bool {
        self@.len() == ID_SIZE
    }

    /// Builds an identifier from raw bytes; rejects any length but 32.
    pub fn from_bytes(bytes: Vec<u8>) -> (r: Result<ActorId, SocialError>)
        ensures
            r is Ok <==> bytes@.len() == ID_SIZE,
            r matches Ok(id) ==> id.wf() && id@ == bytes@,
            r is Err ==> r == Err::<ActorId, SocialError>(SocialError::InvalidArgument),
    {
        if bytes.len() == ID_SIZE {
            Ok(ActorId { bytes })
        } else {
            Err(SocialError::InvalidArgument)
        }
    }

    /// A fresh identifier holding the same 32 bytes.
    pub fn duplicate(&self) -> (r: ActorId)
        ensures
            r@ == self@,
    {
        let mut copy: Vec<u8> = Vec::new();
        let mut i: usize = 0;
        while i < self.bytes.len()
            invariant
                i <= self.bytes@.len(),
                copy@ == self.bytes@.subrange(0, i as int),
            decreases self.bytes@.len() - i,
        {
            copy.push(self.bytes[i]);
            proof {
                assert(copy@ =~= self.bytes@.subrange(0, i + 1));
            }
            i = i + 1;
        }
        proof {
            assert(copy@ =~= self.bytes@);
        }
        ActorId { bytes: copy }
    }
}

/// A fresh vector holding the same bytes.
pub fn copy_bytes(v: &Vec<u8>) -> (r: Vec<u8>)
    ensures
        r@ == v@,
{
    let mut out: Vec<u8> = Vec::new();
    let mut i: usize = 0;
    while i < v.len()
        invariant
            i <= v@.len(),
            out@ == v@.subrange(0, i as int),
        decreases v@.len() - i,
    {
        out.push(v[i]);
        proof {
            assert(out@ =~= v@.subrange(0, i + 1));
        }
        i = i + 1;
    }
    proof {
        assert(out@ =~= v@);
    }
    out
}

/// The byte views of a sequence of identifiers.
pub open spec fn id_views(s: Seq<ActorId>) -> Seq<Seq<u8>> {
    s.map_values(|a: ActorId| a@)
}

/// Every entry holds exactly 32 bytes.
pub open spec fn uniform_ids(fs: Seq<Seq<u8>>) -> bool {
    forall|i: int| 0 <= i < fs.len() ==> (#[trigger] fs[i]).len() == ID_SIZE
}

/// No two entries hold the same bytes.
pub open spec fn unique_ids(fs: Seq<Seq<u8>>) -> bool {
    forall|i: int, j: int| #![trigger fs[i], fs[j]] 0 <= i < j < fs.len() ==> fs[i] != fs[j]
}

/// True exactly when the two byte vectors hold the same bytes.
pub fn bytes_eq(a: &Vec<u8>, b: &Vec<u8>) -> (r: bool)
    ensures
        r == (a@ == b@),
{
    if a.len() != b.len() {
        return false;
    }
    let mut i: usize = 0;
    while i < a.len()
        invariant
            i <= a@.len(),
            a@.len() == b@.len(),
            forall|j: int| 0 <= j < i ==> a@[j] == b@[j],
        decreases a@.len() - i,
    {
        if a[i] != b[i] {
            return false;
        }
        i = i + 1;
    }
    proof {
        assert(a@ =~= b@);
    }
    true
}

} // verus!
