//! Caller identities, held as the raw bytes of a transport-level principal.

use vstd::prelude::*;

verus! {

/// The identity of a caller, as the raw bytes of its principal.
///
/// The one-byte sequence `[4]` is the anonymous (unauthenticated) caller;
/// every identified caller has a different byte sequence.
#[derive(Debug)]
pub struct Identity {
    pub bytes: Vec<u8>,
}

/// The bytes of the anonymous principal.
pub open spec fn anonymous_bytes() -> Seq<u8> {
    seq![4u8]
}

impl View for Identity {
    type V = Seq<u8>;

    open spec fn view(&self) -> Seq<u8> {
        self.bytes@
    }
}

impl Identity {
    /// Whether this is the anonymous (unauthenticated) identity.
    pub open spec fn spec_is_anonymous(self) -> bool {
        self@ == anonymous_bytes()
    }

    pub fn new(bytes: Vec<u8>) -> (r: Identity)
        ensures
            r@ == bytes@,
    {
        Identity { bytes }
    }

    /// The anonymous identity.
    pub fn anonymous() -> (r: Identity)
        ensures
            r.spec_is_anonymous(),
    {
        let mut v: Vec<u8> = Vec::new();
        v.push(4);
        proof {
            assert(v@ =~= anonymous_bytes());
        }
        Identity { bytes: v }
    }

    pub fn is_anonymous(&self) -> (r: bool)
        ensures
            r == self.spec_is_anonymous(),
    {
        let r = self.bytes.len() == 1 && self.bytes[0] == 4;
        proof {
            if r {
                assert(self@ =~= anonymous_bytes());
            } else {
                assert(self@ != anonymous_bytes()) by {
                    if self@ == anonymous_bytes() {
                        assert(self@.len() == 1);
                        assert(self@[0] == 4);
                    }
                }
            }
        }
        r
    }

    /// Whether two identities are the same principal.
    pub fn same_as(&self, other: &Identity) -> (r: bool)
        ensures
            r == (self@ == other@),
    {
        if self.bytes.len() != other.bytes.len() {
            return false;
        }
        let n = self.bytes.len();
        let mut i: usize = 0;
        while i < n
            invariant
                n == self.bytes.len(),
                n == other.bytes.len(),
                i <= n,
                forall|k: int| 0 <= k < i ==> self@[k] == other@[k],
            decreases n - i,
        {
            if self.bytes[i] != other.bytes[i] {
                return false;
            }
            i = i + 1;
        }
        proof {
            assert(self@ =~= other@);
        }
        true
    }
}

impl Clone for Identity {
    fn clone(&self) -> (r: Self)
        ensures
            r@ == self@,
    {
        let mut v: Vec<u8> = Vec::new();
        let n = self.bytes.len();
        let mut i: usize = 0;
        while i < n
            invariant
                n == self.bytes.len(),
                i <= n,
                v@ == self@.subrange(0, i as int),
            decreases n - i,
        {
            v.push(self.bytes[i]);
            proof {
                assert(v@ =~= self@.subrange(0, i + 1 as int));
            }
            i = i + 1;
        }
        proof {
            assert(v@ =~= self@);
        }
        Identity { bytes: v }
    }
}

} // verus!
