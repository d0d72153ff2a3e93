use vstd::prelude::*;

verus! {

/// Length in bytes of an account identifier.
pub const PUBKEY_LEN: usize = 32;

/// A 32-byte account identifier, held as plain bytes.
#[derive(Debug, Clone, Copy, PartialEq, Eq)]
pub struct Pubkey {
    pub bytes: [u8; 32],
}

impl View for Pubkey {
    type V = Seq<u8>;

    open spec fn view(&self) -> Seq<u8> {
        self.bytes@
    }
}

/// The all-zero identifier, which names no account.
pub open spec fn is_zero_key(k: Seq<u8>) -> bool {
    forall|i: int| 0 <= i < k.len() ==> k[i] == 0
}

/// The identifier whose bytes are `s` (meaningful when `s` has 32 bytes).
pub open spec fn pubkey_of(s: Seq<u8>) -> Pubkey {
    choose|k: Pubkey| k@ == s
}

/// Two identifiers with the same bytes are the same identifier.
pub proof fn lemma_pubkey_of(k: Pubkey)
    ensures
        pubkey_of(k@) == k,
{
    let c = pubkey_of(k@);
    assert(c@ == k@);
    assert(c.bytes =~= k.bytes);
}

impl Pubkey {
    /// Wraps 32 bytes as an identifier.
    pub fn new_from_array(bytes: [u8; 32]) -> (r: Pubkey)
        ensures
            r@ == bytes@,
    {
        Pubkey { bytes }
    }

    /// The all-zero identifier.
    pub fn zero() -> (r: Pubkey)
        ensures
            r@.len() == PUBKEY_LEN,
            is_zero_key(r@),
    {
        Pubkey { bytes: [0u8; 32] }
    }

    /// Whether every byte of the identifier is zero.
    pub fn is_zero(&self) -> (r: bool)
        ensures
            r == is_zero_key(self@),
    {
        let mut i: usize = 0;
        while i < 32
            invariant
                0 <= i <= 32,
                self@.len() == 32,
                forall|j: int| 0 <= j < i ==> self@[j] == 0,
            decreases 32 - i,
        {
            if self.bytes[i] != 0 {
                return false;
            }
            i = i + 1;
        }
        true
    }

    /// The identifier's bytes, in order.
    pub fn to_bytes(&self) -> (r: Vec<u8>)
        ensures
            r@ == self@,
    {
        let mut out: Vec<u8> = Vec::new();
        let mut i: usize = 0;
        while i < 32
            invariant
                0 <= i <= 32,
                self@.len() == 32,
                out@ == self@.subrange(0, i as int),
            decreases 32 - i,
        {
            out.push(self.bytes[i]);
            i = i + 1;
        }
        assert(out@ =~= self@);
        out
    }

    /// Reads an identifier from exactly 32 bytes.
    pub fn from_slice(s: &[u8]) -> (r: Pubkey)
        requires
            s@.len() == PUBKEY_LEN,
        ensures
            r@ == s@,
            r == pubkey_of(s@),
    {
        let mut bytes = [0u8; 32];
        let mut i: usize = 0;
        while i < 32
            invariant
                0 <= i <= 32,
                s@.len() == 32,
                bytes@.len() == 32,
                forall|j: int| 0 <= j < i ==> bytes@[j] == s@[j],
            decreases 32 - i,
        {
            bytes[i] = s[i];
            i = i + 1;
        }
        assert(bytes@ =~= s@);
        let r = Pubkey { bytes };
        proof {
            lemma_pubkey_of(r);
        }
        r
    }
}

} // verus!
