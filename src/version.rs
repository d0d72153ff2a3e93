use vstd::prelude::*;
use vstd::slice::slice_subrange;
use crate::error::SilError;
use crate::region::{push_zeros, zeros};

verus! {

/// The schema version that every record written now carries.
pub const PROGRAM_VERSION: u8 = 1;

/// Bytes reserved after the version tag for later schema fields.
pub const PADDING_LEN: usize = 128;

/// Encoded length of a [`Version`] header: the tag and its padding.
pub const VERSION_LEN: usize = 129;

/// A record type with a fixed encoded length and a byte-exact encode/decode pair.
pub trait Packer: Sized + Copy {
    /// The fixed number of bytes of every encoding.
    spec fn spec_len() -> nat;

    /// The bytes that encode `self`.
    spec fn spec_pack(&self) -> Seq<u8>;

    /// The record that a run of `spec_len()` bytes decodes to.
    spec fn spec_unpack(bytes: Seq<u8>) -> Self;

    fn packed_len() -> (r: usize)
        ensures
            r as nat == Self::spec_len(),
            r > 0,
    ;

    fn pack(&self) -> (r: Vec<u8>)
        ensures
            r@ == self.spec_pack(),
            r@.len() == Self::spec_len(),
    ;

    fn unpack(bytes: &[u8]) -> (r: Self)
        requires
            bytes@.len() == Self::spec_len(),
        ensures
            r == Self::spec_unpack(bytes@),
    ;

    /// Decoding an encoding gives the record back.
    proof fn lemma_pack_unpack(v: Self)
        ensures
            Self::spec_len() > 0,
            v.spec_pack().len() == Self::spec_len(),
            Self::spec_unpack(v.spec_pack()) == v,
    ;
}

/// A record whose encoding starts with a version header.
pub trait IsVersionMatched: Packer {
    /// The record's version tag.
    spec fn spec_version(&self) -> u8;

    /// The version tag is the first byte of the encoding.
    proof fn lemma_version_byte(bytes: Seq<u8>)
        requires
            bytes.len() == Self::spec_len(),
        ensures
            Self::spec_unpack(bytes).spec_version() == bytes[0],
    ;

    fn is_version_matched(&self) -> (r: bool)
        ensures
            r == (self.spec_version() == PROGRAM_VERSION),
    ;

    fn is_initialized(&self) -> (r: bool)
        ensures
            r == (self.spec_version() != 0),
    ;
}

/// The version header of every top-level record: a one-byte tag followed by
/// reserved zero padding. A zero tag marks a region never initialized.
#[derive(Debug, Clone, Copy, PartialEq, Eq, Structural)]
pub struct Version(pub u8);

impl Default for Version {
    fn default() -> (r: Version)
        ensures
            r.0 == PROGRAM_VERSION,
    {
        Version(PROGRAM_VERSION)
    }
}

impl Packer for Version {
    open spec fn spec_len() -> nat {
        VERSION_LEN as nat
    }

    open spec fn spec_pack(&self) -> Seq<u8> {
        seq![self.0] + zeros(PADDING_LEN as nat)
    }

    open spec fn spec_unpack(bytes: Seq<u8>) -> Version {
        Version(bytes[0])
    }

    fn packed_len() -> (r: usize) {
        VERSION_LEN
    }

    fn pack(&self) -> (r: Vec<u8>) {
        let mut out: Vec<u8> = Vec::new();
        out.push(self.0);
        push_zeros(&mut out, PADDING_LEN);
        assert(out@ =~= self.spec_pack());
        out
    }

    fn unpack(bytes: &[u8]) -> (r: Version) {
        Version(bytes[0])
    }

    proof fn lemma_pack_unpack(v: Version) {
    }
}

impl IsVersionMatched for Version {
    open spec fn spec_version(&self) -> u8 {
        self.0
    }

    proof fn lemma_version_byte(bytes: Seq<u8>) {
    }

    fn is_version_matched(&self) -> (r: bool) {
        self.0 == PROGRAM_VERSION
    }

    fn is_initialized(&self) -> (r: bool) {
        self.0 > 0
    }
}

/// What reading a versioned record from the front of `data` gives: too short,
/// never initialized, of another schema version, or the record.
pub open spec fn spec_unpack_account<T: Packer + IsVersionMatched>(data: Seq<u8>) -> Result<T, SilError> {
    if data.len() < T::spec_len() {
        Err(SilError::AccountDataTooSmall)
    } else {
        let t = T::spec_unpack(data.subrange(0, T::spec_len() as int));
        if t.spec_version() == 0 {
            Err(SilError::Uninitialized)
        } else if t.spec_version() != PROGRAM_VERSION {
            Err(SilError::VersionIsNotMatched)
        } else {
            Ok(t)
        }
    }
}

/// Reads a record for use: the region must be long enough and the record's
/// version must be the current one.
pub fn unpack_account<T: Packer + IsVersionMatched>(data: &[u8]) -> (r: Result<T, SilError>)
    ensures
        r == spec_unpack_account::<T>(data@),
        data@.len() < T::spec_len() ==> r == Err::<T, SilError>(SilError::AccountDataTooSmall),
        data@.len() >= T::spec_len() ==> {
            &&& data@[0] == 0 ==> r == Err::<T, SilError>(SilError::Uninitialized)
            &&& data@[0] != 0 && data@[0] != PROGRAM_VERSION ==> r == Err::<T, SilError>(SilError::VersionIsNotMatched)
            &&& data@[0] == PROGRAM_VERSION ==> r == Ok::<T, SilError>(
                T::spec_unpack(data@.subrange(0, T::spec_len() as int)),
            )
        },
{
    proof {
        if data@.len() >= T::spec_len() {
            lemma_version_gate::<T>(data@);
        }
    }
    let len = T::packed_len();
    if data.len() < len {
        return Err(SilError::AccountDataTooSmall);
    }
    let t = T::unpack(slice_subrange(data, 0, len));
    if !t.is_initialized() {
        Err(SilError::Uninitialized)
    } else if !t.is_version_matched() {
        Err(SilError::VersionIsNotMatched)
    } else {
        Ok(t)
    }
}

/// Checks that a region can take a fresh record: it must be long enough and
/// the record at its front must carry no version yet.
pub fn assert_uninitialized<T: Packer + IsVersionMatched>(data: &[u8]) -> (r: Result<(), SilError>)
    ensures
        data@.len() < T::spec_len() ==> r == Err::<(), SilError>(SilError::AccountDataTooSmall),
        data@.len() >= T::spec_len() ==> {
            &&& data@[0] != 0 ==> r == Err::<(), SilError>(SilError::AlreadyInitialized)
            &&& data@[0] == 0 ==> r == Ok::<(), SilError>(())
        },
{
    proof {
        if data@.len() >= T::spec_len() {
            T::lemma_version_byte(data@.subrange(0, T::spec_len() as int));
        }
    }
    let len = T::packed_len();
    if data.len() < len {
        return Err(SilError::AccountDataTooSmall);
    }
    let t = T::unpack(slice_subrange(data, 0, len));
    if t.is_initialized() {
        Err(SilError::AlreadyInitialized)
    } else {
        Ok(())
    }
}

/// The version gate on any versioned record: the region's first byte is the
/// record's version tag; a zero tag reads as never initialized, any other tag
/// but the current one as a mismatch, and the current tag gives the record.
pub proof fn lemma_version_gate<T: Packer + IsVersionMatched>(data: Seq<u8>)
    requires
        data.len() >= T::spec_len(),
    ensures
        data[0] == 0 ==> spec_unpack_account::<T>(data) == Err::<T, SilError>(SilError::Uninitialized),
        data[0] != 0 && data[0] != PROGRAM_VERSION ==> spec_unpack_account::<T>(data) == Err::<T, SilError>(
            SilError::VersionIsNotMatched,
        ),
        data[0] == PROGRAM_VERSION ==> spec_unpack_account::<T>(data) == Ok::<T, SilError>(
            T::spec_unpack(data.subrange(0, T::spec_len() as int)),
        ),
{
    T::lemma_pack_unpack(T::spec_unpack(data.subrange(0, T::spec_len() as int)));
    T::lemma_version_byte(data.subrange(0, T::spec_len() as int));
}

} // verus!
