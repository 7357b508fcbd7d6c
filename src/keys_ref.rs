use vstd::prelude::*;
use vstd::std_specs::cmp::PartialEqSpec;
use crate::hash_functions::xxhash64;
use crate::hash_functions::xxhash64_of;

verus! {

/// A hash-table key that views `length` bytes of a borrowed buffer, starting
/// at `address`, with the hash of those bytes computed once at creation.
///
/// The buffer is borrowed, so a key cannot outlive the bytes it views.
#[derive(Clone, Copy, Debug)]
pub struct KeysRef<'a> {
    buffer: &'a [u8],
    address: usize,
    length: usize,
    hash: u64,
}

impl<'a> KeysRef<'a> {
    #[verifier::type_invariant]
    pub closed spec fn wf(&self) -> bool {
        &&& self.address + self.length <= self.buffer@.len()
        &&& self.hash == xxhash64_of(self.bytes())
    }

    /// The bytes the key stands for.
    pub closed spec fn bytes(&self) -> Seq<u8> {
        self.buffer@.subrange(self.address as int, self.address + self.length)
    }

    pub closed spec fn spec_address(&self) -> usize {
        self.address
    }

    pub closed spec fn spec_hash(&self) -> u64 {
        self.hash
    }

    /// The key of `buffer[address..address + length]`.
    pub fn create(buffer: &'a [u8], address: usize, length: usize) -> (r: KeysRef<'a>)
        requires
            address + length <= buffer@.len(),
        ensures
            r.bytes() == buffer@.subrange(address as int, address + length),
            r.spec_address() == address,
            r.bytes().len() == length,
            r.spec_hash() == xxhash64_of(r.bytes()),
    {
        let buffer_len = buffer.len();
        let mut bytes: Vec<u8> = Vec::new();
        let mut k: usize = address;
        while k < address + length
            invariant
                address <= k <= address + length,
                address + length <= buffer@.len(),
                buffer@.len() == buffer_len,
                bytes@ == buffer@.subrange(address as int, k as int),
            decreases address + length - k,
        {
            bytes.push(buffer[k]);
            proof {
                assert(buffer@.subrange(address as int, k + 1) =~= buffer@.subrange(
                    address as int,
                    k as int,
                ).push(buffer@[k as int]));
            }
            k += 1;
        }
        let hash = xxhash64(bytes.as_slice());
        KeysRef { buffer, address, length, hash }
    }

    pub fn length(&self) -> (r: usize)
        ensures
            r == self.bytes().len(),
    {
        proof {
            use_type_invariant(self);
        }
        self.length
    }

    pub fn address(&self) -> (r: usize)
        ensures
            r == self.spec_address(),
    {
        self.address
    }

    /// The hash cached at creation.
    pub fn hash(&self) -> (r: u64)
        ensures
            r == self.spec_hash(),
            r == xxhash64_of(self.bytes()),
    {
        proof {
            use_type_invariant(self);
        }
        self.hash
    }

    /// Whether two keys view the same bytes.
    pub fn same_bytes(&self, other: &KeysRef) -> (r: bool)
        ensures
            r == (self.bytes() == other.bytes()),
    {
        proof {
            use_type_invariant(self);
            use_type_invariant(other);
        }
        let self_len = self.buffer.len();
        let other_len = other.buffer.len();
        if self.length != other.length {
            proof {
                assert(self.bytes().len() != other.bytes().len());
            }
            return false;
        }
        let mut k: usize = 0;
        while k < self.length
            invariant
                self.wf(),
                other.wf(),
                self.buffer@.len() == self_len,
                other.buffer@.len() == other_len,
                self.length == other.length,
                k <= self.length,
                forall|j: int| 0 <= j < k ==> #[trigger] self.bytes()[j] == other.bytes()[j],
            decreases self.length - k,
        {
            if self.buffer[self.address + k] != other.buffer[other.address + k] {
                proof {
                    assert(self.bytes()[k as int] != other.bytes()[k as int]);
                }
                return false;
            }
            k += 1;
        }
        proof {
            assert(self.bytes() =~= other.bytes());
        }
        true
    }
}

impl<'a> PartialEq for KeysRef<'a> {
    fn eq(&self, other: &KeysRef<'a>) -> (r: bool) {
        self.same_bytes(other)
    }
}

impl<'a> vstd::std_specs::cmp::PartialEqSpecImpl for KeysRef<'a> {
    open spec fn obeys_eq_spec() -> bool {
        true
    }

    open spec fn eq_spec(&self, other: &KeysRef<'a>) -> bool {
        self.bytes() == other.bytes()
    }
}

/// Key equality is content equality: two keys over different memory but
/// with the same bytes compare equal and carry the same hash.
pub proof fn lemma_keys_ref_content_equality(a: KeysRef, b: KeysRef)
    requires
        a.wf(),
        b.wf(),
        a.bytes() == b.bytes(),
    ensures
        a.eq_spec(&b),
        a.spec_hash() == b.spec_hash(),
{
}

} // verus!
