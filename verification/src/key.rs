//! Addresses of storage cells, signers and programs.

use vstd::prelude::*;
use vstd::std_specs::cmp::PartialEqSpecImpl;

verus! {

/// A 32-byte address naming a storage cell, a signer or a program.
///
/// The view of a key is the sequence of its 32 bytes; two keys are equal
/// exactly when their views are.
#[derive(Clone, Copy, Debug, Eq, Hash)]
pub struct Key {
    pub bytes: [u8; 32],
}

impl View for Key {
    type V = Seq<u8>;

    open spec fn view(&self) -> Seq<u8> {
        self.bytes@
    }
}

impl PartialEq for Key {
    fn eq(&self, other: &Self) -> (r: bool) {
        let mut i: usize = 0;
        while i < 32
            invariant
                i <= 32,
                forall|j: int| 0 <= j < i ==> self.bytes[j] == other.bytes[j],
            decreases 32 - i,
        {
            if self.bytes[i] != other.bytes[i] {
                return false;
            }
            i = i + 1;
        }
        assert(self.bytes =~= other.bytes);
        true
    }
}

impl PartialEqSpecImpl for Key {
    open spec fn obeys_eq_spec() -> bool {
        true
    }

    open spec fn eq_spec(&self, other: &Self) -> bool {
        *self == *other
    }
}

impl Default for Key {
    /// The all-zero key, which an unbound authority field holds.
    fn default() -> (r: Key)
        ensures
            r == Key::zero(),
    {
        let r = Key { bytes: [0u8; 32] };
        proof {
            let zeros = Seq::new(32, |i: int| 0u8);
            Key::lemma_from_seq(zeros);
            assert(r@ =~= zeros);
            Key::lemma_view_injective(r, Key::zero());
        }
        r
    }
}

impl Key {
    /// The key whose bytes are `s`, for a sequence of 32 bytes.
    pub closed spec fn from_seq(s: Seq<u8>) -> Key {
        choose|k: Key| k@ == s
    }

    /// The all-zero key.
    pub open spec fn zero() -> Key {
        Key::from_seq(Seq::new(32, |i: int| 0u8))
    }

    /// Keys with the same bytes are the same key.
    pub proof fn lemma_view_injective(a: Key, b: Key)
        requires
            a@ == b@,
        ensures
            a == b,
    {
        assert forall|i: int| 0 <= i < 32 implies a.bytes[i] == b.bytes[i] by {
            assert(a@[i] == b@[i]);
        }
        assert(a.bytes =~= b.bytes);
    }

    /// Every sequence of 32 bytes is the view of exactly one key.
    pub proof fn lemma_from_seq(s: Seq<u8>)
        requires
            s.len() == 32,
        ensures
            Key::from_seq(s)@ == s,
    {
        let a = Self::fill(s, 32);
        let k = Key { bytes: a };
        assert(k@ =~= s);
    }

    /// Reading a key's bytes back gives the key.
    pub proof fn lemma_from_view(k: Key)
        ensures
            Key::from_seq(k@) == k,
    {
        Key::lemma_view_injective(Key::from_seq(k@), k);
    }

    /// An array whose first `n` bytes are those of `s`.
    proof fn fill(s: Seq<u8>, n: nat) -> (a: [u8; 32])
        requires
            s.len() == 32,
            n <= 32,
        ensures
            forall|i: int| 0 <= i < n ==> a@[i] == s[i],
        decreases n,
    {
        if n == 0 {
            arbitrary()
        } else {
            let prev = Self::fill(s, (n - 1) as nat);
            let a = vstd::array::spec_array_update(prev, n - 1, s[n - 1]);
            assert(a@ == prev@.update(n - 1, s[n - 1]));
            a
        }
    }

    /// The key with the given bytes.
    pub fn new(bytes: [u8; 32]) -> (r: Key)
        ensures
            r@ == bytes@,
            r.bytes == bytes,
    {
        Key { bytes }
    }

    /// The key's bytes.
    pub fn to_bytes(&self) -> (r: [u8; 32])
        ensures
            r@ == self@,
            r == self.bytes,
    {
        self.bytes
    }

    /// The key's bytes as a fresh vector, as used for a derivation seed.
    pub fn to_vec(&self) -> (r: Vec<u8>)
        ensures
            r@ == self@,
    {
        let mut out: Vec<u8> = Vec::new();
        let mut i: usize = 0;
        while i < 32
            invariant
                i <= 32,
                out@ == self@.subrange(0, i as int),
            decreases 32 - i,
        {
            out.push(self.bytes[i]);
            i = i + 1;
            assert(out@ =~= self@.subrange(0, i as int));
        }
        assert(self@.subrange(0, 32) =~= self@);
        out
    }
}

} // verus!
