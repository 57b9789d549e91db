use vstd::prelude::*;

verus! {

/// Width in bytes of every on-chain identifier (account address, program id,
/// token mint).
pub const IDENTIFIER_BYTES: usize = 32;

/// A fixed-width opaque identifier. The bytes are copied verbatim from the
/// account buffer and compared verbatim; the library never interprets them.
#[derive(Clone, Debug)]
pub struct Identifier {
    pub bytes: Vec<u8>,
}

impl View for Identifier {
    type V = Seq<u8>;

    open spec fn view(&self) -> Seq<u8> {
        self.bytes@
    }
}

impl Identifier {
    /// A well-formed identifier holds exactly 32 bytes.
    pub open spec fn wf(self) -> bool {
        self.bytes@.len() == IDENTIFIER_BYTES
    }

    /// Wraps 32 raw bytes as an identifier; rejects any other length.
    pub fn from_bytes(bytes: Vec<u8>) -> (r: Option<Identifier>)
        ensures
            r is Some <==> bytes@.len() == IDENTIFIER_BYTES,
            r matches Some(id) ==> id@ == bytes@ && id.wf(),
    {
        if bytes.len() == IDENTIFIER_BYTES {
            Some(Identifier { bytes })
        } else {
            None
        }
    }

    /// Byte-for-byte equality of two identifiers.
    pub fn same(&self, other: &Identifier) -> (r: bool)
        ensures
            r == (self@ == other@),
    {
        if self.bytes.len() != other.bytes.len() {
            proof {
                assert(self@.len() != other@.len());
            }
            return false;
        }
        let n = self.bytes.len();
        let mut i: usize = 0;
        while i < n
            invariant
                i <= n,
                n == self@.len(),
                n == other@.len(),
                forall|j: int| 0 <= j < i ==> self@[j] == other@[j],
            decreases n - i,
        {
            if self.bytes[i] != other.bytes[i] {
                return false;
            }
            i += 1;
        }
        proof {
            assert(self@ =~= other@);
        }
        true
    }
}

} // verus!
