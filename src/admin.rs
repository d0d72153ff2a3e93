use vstd::prelude::*;
use vstd::slice::slice_subrange;
use crate::pubkey::{Pubkey, pubkey_of, lemma_pubkey_of, PUBKEY_LEN};
use crate::region::extend_bytes;
use crate::version::{Version, Packer, IsVersionMatched, PROGRAM_VERSION, VERSION_LEN};

verus! {

/// Encoded length of an [`Admin`]: header, seed, owner.
pub const ADMIN_LEN: usize = 162;

/// The root authority record that anchors permissioned creation.
#[derive(Debug, Clone, Copy, PartialEq, Eq)]
pub struct Admin {
    pub version: Version,
    pub bump_seed: u8,
    pub owner: Pubkey,
}

impl Admin {
    /// A root record stamped with the current version.
    pub fn new(bump_seed: u8, owner: Pubkey) -> (r: Admin)
        ensures
            r == (Admin { version: Version(PROGRAM_VERSION), bump_seed, owner }),
    {
        Admin { version: Version(PROGRAM_VERSION), bump_seed, owner }
    }
}

impl Packer for Admin {
    open spec fn spec_len() -> nat {
        ADMIN_LEN as nat
    }

    open spec fn spec_pack(&self) -> Seq<u8> {
        self.version.spec_pack() + seq![self.bump_seed] + self.owner@
    }

    open spec fn spec_unpack(b: Seq<u8>) -> Admin {
        Admin {
            version: Version::spec_unpack(b.subrange(0, 129)),
            bump_seed: b[129],
            owner: pubkey_of(b.subrange(130, 162)),
        }
    }

    fn packed_len() -> (r: usize) {
        ADMIN_LEN
    }

    fn pack(&self) -> (r: Vec<u8>) {
        let mut out = self.version.pack();
        out.push(self.bump_seed);
        extend_bytes(&mut out, &self.owner.to_bytes());
        assert(out@ =~= self.spec_pack());
        out
    }

    fn unpack(b: &[u8]) -> (r: Admin) {
        Admin {
            version: Version::unpack(slice_subrange(b, 0, VERSION_LEN)),
            bump_seed: b[129],
            owner: Pubkey::from_slice(slice_subrange(b, 130, 130 + PUBKEY_LEN)),
        }
    }

    proof fn lemma_pack_unpack(v: Admin) {
        lemma_pubkey_of(v.owner);
        let b = v.spec_pack();
        assert(b.subrange(0, 129)[0] == v.version.0);
        assert(b.subrange(130, 162) =~= v.owner@);
    }
}

impl IsVersionMatched for Admin {
    open spec fn spec_version(&self) -> u8 {
        self.version.0
    }

    proof fn lemma_version_byte(bytes: Seq<u8>) {
        assert(bytes.subrange(0, 129)[0] == bytes[0]);
    }

    fn is_version_matched(&self) -> (r: bool) {
        self.version.is_version_matched()
    }

    fn is_initialized(&self) -> (r: bool) {
        self.version.is_initialized()
    }
}

} // verus!
