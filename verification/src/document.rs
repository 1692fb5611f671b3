//! Opaque, bounded content references (off-ledger document links).
//!
//! The engine stores such a reference with every application and never
//! resolves it; only its length is constrained.

use vstd::prelude::*;

verus! {

/// Upper bound, in bytes, on a stored content reference.
pub const IPFS_LINK_LENGTH: u32 = 300;

/// Marker for the length bound of a stored content reference.
#[derive(Clone, Copy, PartialEq, Eq, Structural, Debug)]
pub struct IpfsLinkLength;

impl IpfsLinkLength {
    /// The bound itself.
    pub fn get() -> (r: u32)
        ensures
            r == IPFS_LINK_LENGTH,
    {
        IPFS_LINK_LENGTH
    }
}

/// An off-ledger content reference: an opaque byte string of bounded length.
#[derive(Debug)]
pub struct IpfsLink {
    bytes: Vec<u8>,
}

impl View for IpfsLink {
    type V = Seq<u8>;

    closed spec fn view(&self) -> Seq<u8> {
        self.bytes@
    }
}

impl IpfsLink {
    /// The length bound every reference obeys.
    pub open spec fn wf(&self) -> bool {
        self@.len() <= IPFS_LINK_LENGTH
    }

    /// Wraps bytes that fit the bound.
    pub fn new(bytes: Vec<u8>) -> (r: Self)
        requires
            bytes@.len() <= IPFS_LINK_LENGTH,
        ensures
            r@ == bytes@,
            r.wf(),
    {
        IpfsLink { bytes }
    }

    /// Read access to the stored bytes.
    pub fn get(&self) -> (r: &Vec<u8>)
        ensures
            r@ == self@,
    {
        &self.bytes
    }

    /// Gives the stored bytes up.
    pub fn inner(self) -> (r: Vec<u8>)
        ensures
            r@ == self@,
    {
        self.bytes
    }

    /// Replaces the stored bytes.
    pub fn set(&mut self, bytes: Vec<u8>)
        requires
            bytes@.len() <= IPFS_LINK_LENGTH,
        ensures
            final(self)@ == bytes@,
            final(self).wf(),
    {
        self.bytes = bytes;
    }
}

impl Clone for IpfsLink {
    fn clone(&self) -> (r: Self)
        ensures
            r@ == self@,
    {
        let mut bytes: Vec<u8> = Vec::new();
        let mut i: usize = 0;
        while i < self.bytes.len()
            invariant
                i <= self.bytes.len(),
                bytes@ == self.bytes@.subrange(0, i as int),
            decreases self.bytes.len() - i,
        {
            bytes.push(self.bytes[i]);
            i = i + 1;
            proof {
                assert(bytes@ =~= self.bytes@.subrange(0, i as int));
            }
        }
        proof {
            assert(bytes@ =~= self.bytes@);
        }
        IpfsLink { bytes }
    }
}

impl PartialEq for IpfsLink {
    /// Two references are equal exactly when they hold the same bytes.
    fn eq(&self, other: &Self) -> (r: bool) {
        if self.bytes.len() != other.bytes.len() {
            return false;
        }
        let mut at: usize = 0;
        while at < self.bytes.len()
            invariant
                at <= self.bytes.len(),
                self.bytes@.len() == other.bytes@.len(),
                forall|j: int| 0 <= j < at ==> self.bytes@[j] == other.bytes@[j],
            decreases self.bytes.len() - at,
        {
            if self.bytes[at] != other.bytes[at] {
                return false;
            }
            at = at + 1;
        }
        proof {
            assert(self.bytes@ =~= other.bytes@);
        }
        true
    }
}

impl Eq for IpfsLink {}

impl vstd::std_specs::cmp::PartialEqSpecImpl for IpfsLink {
    open spec fn obeys_eq_spec() -> bool {
        true
    }

    open spec fn eq_spec(&self, other: &Self) -> bool {
        self@ == other@
    }
}

} // verus!
