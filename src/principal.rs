//! Identities of the parties to a stream.

use vstd::prelude::*;

verus! {

/// The identity of a party to a stream: the raw bytes of its principal.
///
/// The ledger never authenticates anyone; it only compares the identity that
/// the boundary hands it with the parties recorded on a stream.
#[derive(Debug)]
pub struct PrincipalId {
    pub bytes: Vec<u8>,
}

impl View for PrincipalId {
    type V = Seq<u8>;

    open spec fn view(&self) -> Seq<u8> {
        self.bytes@
    }
}

impl PrincipalId {
    pub fn from_bytes(bytes: Vec<u8>) -> (r: PrincipalId)
        ensures
            r@ == bytes@,
    {
        PrincipalId { bytes }
    }

    /// True exactly when both identities hold the same bytes.
    pub fn same_as(&self, other: &PrincipalId) -> (r: bool)
        ensures
            r == (self@ == other@),
    {
        let n = self.bytes.len();
        if n != other.bytes.len() {
            return false;
        }
        let mut i: usize = 0;
        while i < n
            invariant
                n == self.bytes@.len(),
                n == other.bytes@.len(),
                i <= n,
                forall|k: int| 0 <= k < i ==> self.bytes@[k] == other.bytes@[k],
            decreases n - i,
        {
            if self.bytes[i] != other.bytes[i] {
                return false;
            }
            i = i + 1;
        }
        assert(self.bytes@ =~= other.bytes@);
        true
    }

    /// A fresh copy holding the same bytes.
    pub fn duplicate(&self) -> (r: PrincipalId)
        ensures
            r@ == self@,
    {
        let mut bytes: Vec<u8> = Vec::new();
        let mut i: usize = 0;
        while i < self.bytes.len()
            invariant
                i <= self.bytes@.len(),
                bytes@ == self.bytes@.subrange(0, i as int),
            decreases self.bytes@.len() - i,
        {
            bytes.push(self.bytes[i]);
            i = i + 1;
        }
        assert(bytes@ =~= self.bytes@);
        PrincipalId { bytes }
    }
}

} // verus!
