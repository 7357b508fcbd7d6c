use std::collections::hash_map::DefaultHasher;
use std::hash::Hasher;
use vstd::prelude::*;
use vstd::std_specs::hash::DefaultHasherAdditionalSpecFns;

verus! {

/// Lower-case hexadecimal digit of a value below 16.
pub open spec fn hex_digit(v: u8) -> char {
    if v < 10 {
        (('0' as u8) + v) as char
    } else {
        (('a' as u8) + v - 10) as char
    }
}

/// Two lower-case hexadecimal digits per byte, high digit first.
pub open spec fn hex_of(b: Seq<u8>) -> Seq<char>
    decreases b.len(),
{
    if b.len() == 0 {
        Seq::empty()
    } else {
        hex_of(b.drop_last()) + seq![hex_digit(b.last() / 16), hex_digit(b.last() % 16)]
    }
}

/// MD5 digest.
pub uninterp spec fn md5_of(b: Seq<u8>) -> Seq<u8>;

/// SHA-1 digest.
pub uninterp spec fn sha1_of(b: Seq<u8>) -> Seq<u8>;

/// SHA-224 digest.
pub uninterp spec fn sha224_of(b: Seq<u8>) -> Seq<u8>;

/// SHA-256 digest.
pub uninterp spec fn sha256_of(b: Seq<u8>) -> Seq<u8>;

/// SHA-384 digest.
pub uninterp spec fn sha384_of(b: Seq<u8>) -> Seq<u8>;

/// SHA-512 digest.
pub uninterp spec fn sha512_of(b: Seq<u8>) -> Seq<u8>;

/// BLAKE3 digest (32 bytes).
pub uninterp spec fn blake3_of(b: Seq<u8>) -> Seq<u8>;

/// XXH64 with seed 0.
pub uninterp spec fn xxhash64_of(b: Seq<u8>) -> u64;

/// XXH32 with seed 0.
pub uninterp spec fn xxhash32_of(b: Seq<u8>) -> u32;

/// CityHash64 of the bytes with the given seed.
pub uninterp spec fn cityhash64_of(b: Seq<u8>, seed: u64) -> u64;

/// The little-endian value of the `k` bytes of `b` from `off` on.
pub open spec fn le_value(b: Seq<u8>, off: int, k: nat) -> nat
    decreases k,
{
    if k == 0 {
        0
    } else {
        b[off] as nat + 256 * le_value(b, off + 1, (k - 1) as nat)
    }
}

pub open spec fn pow256(k: nat) -> nat
    decreases k,
{
    if k == 0 {
        1
    } else {
        256 * pow256((k - 1) as nat)
    }
}

/// An input of 33 to 64 bytes whose little-endian words at offsets 16 and
/// `len - 32` do not sum within `u64`.
pub open spec fn cityhash_word_sum_overflows(b: Seq<u8>) -> bool {
    33 <= b.len() <= 64 && le_value(b, 16, 8) + le_value(b, b.len() - 32, 8) > u64::MAX
}

/// The little-endian word of `b[off..off + 8]`.
fn read_le_u64(b: &[u8], off: usize) -> (r: u128)
    requires
        off + 8 <= b@.len(),
    ensures
        r == le_value(b@, off as int, 8),
        r <= u64::MAX,
{
    let blen = b.len();
    let mut w: u128 = 0;
    let mut j: usize = 8;
    proof {
        assert(pow256(0) == 1);
        assert(pow256(1) == 256);
        assert(pow256(2) == 65536);
        assert(pow256(3) == 16777216);
        assert(pow256(4) == 4294967296);
        assert(pow256(5) == 1099511627776);
        assert(pow256(6) == 281474976710656);
        assert(pow256(7) == 72057594037927936);
        assert(pow256(8) == 18446744073709551616);
    }
    while j > 0
        invariant
            j <= 8,
            off + 8 <= b@.len(),
            b@.len() == blen,
            w == le_value(b@, off + j, (8 - j) as nat),
            w < pow256((8 - j) as nat),
            pow256(8) == 18446744073709551616,
        decreases j,
    {
        j -= 1;
        let byte = b[off + j];
        proof {
            let p = pow256((7 - j) as nat);
            assert(pow256((8 - j) as nat) == 256 * p);
            assert(p <= pow256(8)) by {
                lemma_pow256_mono((7 - j) as nat, 8);
            }
            assert(w * 256 + byte < 256 * p) by (nonlinear_arith)
                requires
                    w < p,
                    byte < 256,
            ;
        }
        w = w * 256 + byte as u128;
    }
    w
}

proof fn lemma_pow256_mono(a: nat, b: nat)
    requires
        a <= b,
    ensures
        pow256(a) <= pow256(b),
    decreases b,
{
    if a < b {
        lemma_pow256_mono(a, (b - 1) as nat);
    }
}

/// Whether `cityhash64_with_seed` would overflow on `b`.
fn cityhash_overflows(b: &[u8]) -> (r: bool)
    ensures
        r == cityhash_word_sum_overflows(b@),
{
    let len = b.len();
    if len < 33 || len > 64 {
        return false;
    }
    let x = read_le_u64(b, 16);
    let y = read_le_u64(b, len - 32);
    x + y > u64::MAX as u128
}

/// Relies on `hex::encode`: two lower-case hex digits per byte, in order.
#[verifier::external_body]
fn hex_encode(b: &[u8]) -> (r: String)
    ensures
        r@ == hex_of(b@),
{
    hex::encode(b)
}

/// Relies on `md5::Md5::digest` (RustCrypto `md-5`): the 16-byte digest.
#[verifier::external_body]
fn md5_digest(b: &[u8]) -> (r: Vec<u8>)
    ensures
        r@ == md5_of(b@),
{
    <md5::Md5 as md5::Digest>::digest(b).to_vec()
}

/// Relies on `sha1::Sha1::digest`: the 20-byte digest.
#[verifier::external_body]
fn sha1_digest(b: &[u8]) -> (r: Vec<u8>)
    ensures
        r@ == sha1_of(b@),
{
    <sha1::Sha1 as sha1::Digest>::digest(b).to_vec()
}

/// Relies on `sha2::Sha224::digest`.
#[verifier::external_body]
fn sha224_digest(b: &[u8]) -> (r: Vec<u8>)
    ensures
        r@ == sha224_of(b@),
{
    <sha2::Sha224 as sha2::Digest>::digest(b).to_vec()
}

/// Relies on `sha2::Sha256::digest`.
#[verifier::external_body]
fn sha256_digest(b: &[u8]) -> (r: Vec<u8>)
    ensures
        r@ == sha256_of(b@),
{
    <sha2::Sha256 as sha2::Digest>::digest(b).to_vec()
}

/// Relies on `sha2::Sha384::digest`.
#[verifier::external_body]
fn sha384_digest(b: &[u8]) -> (r: Vec<u8>)
    ensures
        r@ == sha384_of(b@),
{
    <sha2::Sha384 as sha2::Digest>::digest(b).to_vec()
}

/// Relies on `sha2::Sha512::digest`.
#[verifier::external_body]
fn sha512_digest(b: &[u8]) -> (r: Vec<u8>)
    ensures
        r@ == sha512_of(b@),
{
    <sha2::Sha512 as sha2::Digest>::digest(b).to_vec()
}

/// Relies on `blake3::hash`: the 32-byte digest of the input.
#[verifier::external_body]
fn blake3_digest(b: &[u8]) -> (r: Vec<u8>)
    ensures
        r@ == blake3_of(b@),
{
    blake3::hash(b).as_bytes().to_vec()
}

/// Relies on `twox_hash::XxHash32` (seed 0): the 32-bit digest of the bytes
/// written, which `finish` returns widened to `u64`.
#[verifier::external_body]
fn xxhash32_digest(b: &[u8]) -> (r: u32)
    ensures
        r == xxhash32_of(b@),
{
    let mut hasher = twox_hash::XxHash32::with_seed(0);
    std::hash::Hasher::write(&mut hasher, b);
    std::hash::Hasher::finish(&hasher) as u32
}

/// Relies on `naive_cityhash::cityhash64_with_seed`. For inputs of 33 to 64
/// bytes that crate adds the words at offsets 16 and `len - 32` with a plain
/// `+`, which panics on overflow; such inputs are left out.
#[verifier::external_body]
fn cityhash64_with_seed(b: &[u8], seed: u64) -> (r: u64)
    requires
        !cityhash_word_sum_overflows(b@),
    ensures
        r == cityhash64_of(b@, seed),
{
    naive_cityhash::cityhash64_with_seed(b, seed)
}

/// Relies on `twox_hash::XxHash64` (seed 0): the digest of the bytes written,
/// a function of those bytes alone.
#[verifier::external_body]
fn xxhash64_digest(b: &[u8]) -> (r: u64)
    ensures
        r == xxhash64_of(b@),
{
    let mut hasher = twox_hash::XxHash64::with_seed(0);
    std::hash::Hasher::write(&mut hasher, b);
    std::hash::Hasher::finish(&hasher)
}

/// Failures of the string hash functions.
#[derive(Clone, Copy, Debug, PartialEq, Eq, Structural)]
pub enum HashError {
    /// `sha2` accepts only 0, 224, 256, 384 and 512 as its length.
    UnsupportedSha2Length(u64),
}

/// `md5(s)`: hex of the MD5 digest.
pub fn md5_hex(val: &[u8]) -> (r: String)
    ensures
        r@ == hex_of(md5_of(val@)),
{
    let d = md5_digest(val);
    hex_encode(d.as_slice())
}

/// `sha(s)` / `sha1(s)`: hex of the SHA-1 digest.
pub fn sha1_hex(val: &[u8]) -> (r: String)
    ensures
        r@ == hex_of(sha1_of(val@)),
{
    let d = sha1_digest(val);
    hex_encode(d.as_slice())
}

/// `blake3(s)`: hex of the BLAKE3 digest.
pub fn blake3_hex(val: &[u8]) -> (r: String)
    ensures
        r@ == hex_of(blake3_of(val@)),
{
    let d = blake3_digest(val);
    hex_encode(d.as_slice())
}

/// The SHA-2 digest `sha2(s, len)` selects: 224, 384 and 512 bits by name,
/// 256 bits for 256 and for 0.
pub open spec fn sha2_digest_of(val: Seq<u8>, len: u64) -> Option<Seq<u8>> {
    if len == 224 {
        Some(sha224_of(val))
    } else if len == 256 || len == 0 {
        Some(sha256_of(val))
    } else if len == 384 {
        Some(sha384_of(val))
    } else if len == 512 {
        Some(sha512_of(val))
    } else {
        None
    }
}

/// `sha2(s, len)`: hex of the SHA-2 digest of the selected length.
pub fn sha2_hex(val: &[u8], len: u64) -> (r: Result<String, HashError>)
    ensures
        match sha2_digest_of(val@, len) {
            Some(d) => r is Ok && r->Ok_0@ == hex_of(d),
            None => r == Err::<String, HashError>(HashError::UnsupportedSha2Length(len)),
        },
{
    let d = if len == 224 {
        sha224_digest(val)
    } else if len == 256 || len == 0 {
        sha256_digest(val)
    } else if len == 384 {
        sha384_digest(val)
    } else if len == 512 {
        sha512_digest(val)
    } else {
        return Err(HashError::UnsupportedSha2Length(len));
    };
    Ok(hex_encode(d.as_slice()))
}

/// `siphash64(s)`: the standard library's default hasher over the bytes.
pub fn siphash64(val: &[u8]) -> (r: u64)
    ensures
        r == DefaultHasher::spec_finish(seq![val@]),
{
    let mut hasher = DefaultHasher::new();
    hasher.write(val);
    proof {
        assert(hasher@ =~= seq![val@]);
    }
    hasher.finish()
}

/// `xxhash64(s)`.
pub fn xxhash64(val: &[u8]) -> (r: u64)
    ensures
        r == xxhash64_of(val@),
{
    xxhash64_digest(val)
}

/// `xxhash32(s)`.
pub fn xxhash32(val: &[u8]) -> (r: u32)
    ensures
        r == xxhash32_of(val@),
{
    xxhash32_digest(val)
}

/// A hasher that keeps the CityHash64 (with its seed) of the last bytes written.
#[derive(Clone, Copy, Debug)]
pub struct CityHasher64 {
    pub seed: u64,
    pub value: u64,
}

impl CityHasher64 {
    pub fn with_seed(s: u64) -> (r: Self)
        ensures
            r.seed == s,
            r.value == 0,
    {
        CityHasher64 { seed: s, value: 0 }
    }

    pub fn finish(&self) -> (r: u64)
        ensures
            r == self.value,
    {
        self.value
    }

    pub fn write(&mut self, bytes: &[u8])
        requires
            !cityhash_word_sum_overflows(bytes@),
        ensures
            final(self).seed == old(self).seed,
            final(self).value == cityhash64_of(bytes@, old(self).seed),
    {
        self.value = cityhash64_with_seed(bytes, self.seed);
    }
}

/// `city64withseed(s, seed)`; `None` on the inputs that the outside
/// CityHash would overflow on.
pub fn city64_with_seed(val: &[u8], seed: u64) -> (r: Option<u64>)
    ensures
        r == if cityhash_word_sum_overflows(val@) {
            None
        } else {
            Some(cityhash64_of(val@, seed))
        },
{
    if cityhash_overflows(val) {
        return None;
    }
    let mut hasher = CityHasher64::with_seed(seed);
    hasher.write(val);
    Some(hasher.finish())
}

/// A value the hash functions accept, as `DFHash` feeds it to a hasher.
/// Dates are `Int32` day numbers and timestamps `Int64` microseconds; a
/// float is hashed by its bit pattern.
#[derive(Clone, Debug, PartialEq, Eq)]
pub enum HashValue {
    Boolean(bool),
    UInt8(u8),
    UInt16(u16),
    UInt32(u32),
    UInt64(u64),
    Int8(i8),
    Int16(i16),
    Int32(i32),
    Int64(i64),
    Float32Bits(u32),
    Float64Bits(u64),
    Bytes(Vec<u8>),
}

/// The `w` low bytes of `v`, least significant first.
pub open spec fn le_bytes(v: u64, w: nat) -> Seq<u8> {
    Seq::new(w, |k: int| ((v >> ((8 * k) as u64)) & 0xff) as u8)
}

/// The bytes a hasher is given for a value: an integer, a boolean or a float's
/// bits as its little-endian bytes (`Hash` writes `to_ne_bytes`, and the
/// targets here are little-endian), a string as its bytes.
pub open spec fn hash_input(v: HashValue) -> Seq<u8> {
    match v {
        HashValue::Boolean(b) => le_bytes(if b { 1 } else { 0 }, 1),
        HashValue::UInt8(x) => le_bytes(x as u64, 1),
        HashValue::UInt16(x) => le_bytes(x as u64, 2),
        HashValue::UInt32(x) => le_bytes(x as u64, 4),
        HashValue::UInt64(x) => le_bytes(x, 8),
        HashValue::Int8(x) => le_bytes(x as u8 as u64, 1),
        HashValue::Int16(x) => le_bytes(x as u16 as u64, 2),
        HashValue::Int32(x) => le_bytes(x as u32 as u64, 4),
        HashValue::Int64(x) => le_bytes(x as u64, 8),
        HashValue::Float32Bits(x) => le_bytes(x as u64, 4),
        HashValue::Float64Bits(x) => le_bytes(x, 8),
        HashValue::Bytes(b) => b@,
    }
}

fn le_bytes_of(v: u64, w: usize) -> (r: Vec<u8>)
    requires
        w <= 8,
    ensures
        r@ == le_bytes(v, w as nat),
{
    let mut r: Vec<u8> = Vec::new();
    let mut k: usize = 0;
    while k < w
        invariant
            k <= w <= 8,
            r@ == le_bytes(v, k as nat),
        decreases w - k,
    {
        r.push(((v >> ((8 * k) as u64)) & 0xff) as u8);
        proof {
            assert(r@ =~= le_bytes(v, (k + 1) as nat));
        }
        k += 1;
    }
    r
}

/// The bytes `hash_input` gives for `v`.
pub fn hash_input_bytes(v: &HashValue) -> (r: Vec<u8>)
    ensures
        r@ == hash_input(*v),
{
    match v {
        HashValue::Boolean(b) => le_bytes_of(if *b { 1 } else { 0 }, 1),
        HashValue::UInt8(x) => le_bytes_of(*x as u64, 1),
        HashValue::UInt16(x) => le_bytes_of(*x as u64, 2),
        HashValue::UInt32(x) => le_bytes_of(*x as u64, 4),
        HashValue::UInt64(x) => le_bytes_of(*x, 8),
        HashValue::Int8(x) => le_bytes_of(*x as u8 as u64, 1),
        HashValue::Int16(x) => le_bytes_of(*x as u16 as u64, 2),
        HashValue::Int32(x) => le_bytes_of(*x as u32 as u64, 4),
        HashValue::Int64(x) => le_bytes_of(*x as u64, 8),
        HashValue::Float32Bits(x) => le_bytes_of(*x as u64, 4),
        HashValue::Float64Bits(x) => le_bytes_of(*x, 8),
        HashValue::Bytes(b) => {
            let mut r: Vec<u8> = Vec::new();
            let mut k: usize = 0;
            while k < b.len()
                invariant
                    k <= b@.len(),
                    r@ == b@.subrange(0, k as int),
                decreases b@.len() - k,
            {
                r.push(b[k]);
                proof {
                    assert(b@.subrange(0, k + 1) =~= b@.subrange(0, k as int).push(b@[k as int]));
                }
                k += 1;
            }
            proof {
                assert(b@.subrange(0, b@.len() as int) =~= b@);
            }
            r
        },
    }
}

/// `siphash64(v)` for a value of any hashable type.
pub fn siphash64_value(v: &HashValue) -> (r: u64)
    ensures
        r == DefaultHasher::spec_finish(seq![hash_input(*v)]),
{
    let bytes = hash_input_bytes(v);
    siphash64(bytes.as_slice())
}

/// `xxhash64(v)` for a value of any hashable type.
pub fn xxhash64_value(v: &HashValue) -> (r: u64)
    ensures
        r == xxhash64_of(hash_input(*v)),
{
    let bytes = hash_input_bytes(v);
    xxhash64(bytes.as_slice())
}

/// `xxhash32(v)` for a value of any hashable type.
pub fn xxhash32_value(v: &HashValue) -> (r: u32)
    ensures
        r == xxhash32_of(hash_input(*v)),
{
    let bytes = hash_input_bytes(v);
    xxhash32(bytes.as_slice())
}

/// `city64withseed(v, seed)` for a value of any hashable type; `None` where
/// the outside CityHash would overflow.
pub fn city64_with_seed_value(v: &HashValue, seed: u64) -> (r: Option<u64>)
    ensures
        r == if cityhash_word_sum_overflows(hash_input(*v)) {
            None
        } else {
            Some(cityhash64_of(hash_input(*v), seed))
        },
{
    let bytes = hash_input_bytes(v);
    city64_with_seed(bytes.as_slice(), seed)
}

} // verus!
