use vstd::arithmetic::power2::{lemma2_to64, lemma_pow2_unfold, pow2};
use vstd::prelude::*;

verus! {

/// Longest hash, in bytes, whose distance to another still fits a `u32`.
pub const MAX_HASH_BYTES: usize = 0x1FFF_FFFF;

/// A perceptual fingerprint: the packed bits of an image hash.
pub struct PerceptualHash {
    pub bytes: Vec<u8>,
}

/// Number of set bits of `n`.
pub open spec fn ones(n: nat) -> nat
    decreases n,
{
    if n == 0 {
        0
    } else {
        (n % 2) + ones(n / 2)
    }
}

/// Number of differing bits among the first `n` byte pairs.
pub open spec fn hamming_prefix(a: Seq<u8>, b: Seq<u8>, n: int) -> nat
    decreases n,
{
    if n <= 0 {
        0
    } else {
        hamming_prefix(a, b, n - 1) + ones((a[n - 1] ^ b[n - 1]) as nat)
    }
}

pub open spec fn min_len(a: Seq<u8>, b: Seq<u8>) -> int {
    if a.len() <= b.len() {
        a.len() as int
    } else {
        b.len() as int
    }
}

/// Hamming distance of two bit strings, compared over their common length.
pub open spec fn hamming(a: Seq<u8>, b: Seq<u8>) -> nat {
    hamming_prefix(a, b, min_len(a, b))
}

impl PerceptualHash {
    /// Whether the hash is short enough for its distances to fit a `u32`.
    pub open spec fn wf(&self) -> bool {
        self.bytes@.len() <= MAX_HASH_BYTES
    }

    /// Distance to `other`: how many bits differ, over the bytes both have.
    pub fn distance(&self, other: &PerceptualHash) -> (r: u32)
        requires
            self.wf(),
            other.wf(),
        ensures
            r == hamming(self.bytes@, other.bytes@),
    {
        let n: usize = if self.bytes.len() <= other.bytes.len() {
            self.bytes.len()
        } else {
            other.bytes.len()
        };
        let mut total: u32 = 0;
        let mut i: usize = 0;
        while i < n
            invariant
                n == min_len(self.bytes@, other.bytes@),
                n <= MAX_HASH_BYTES,
                i <= n,
                total == hamming_prefix(self.bytes@, other.bytes@, i as int),
                total <= 8 * i,
            decreases n - i,
        {
            let x: u8 = self.bytes[i] ^ other.bytes[i];
            let c = count_ones(x);
            total = total + c;
            i = i + 1;
        }
        total
    }
}

proof fn lemma_ones_bound(n: nat, k: nat)
    requires
        n < pow2(k),
    ensures
        ones(n) <= k,
    decreases k,
{
    if k == 0 {
        assert(pow2(0) == 1) by {
            lemma2_to64();
        }
    } else {
        lemma_pow2_unfold(k);
        lemma_ones_bound(n / 2, (k - 1) as nat);
    }
}

/// Number of set bits of a byte.
pub fn count_ones(x: u8) -> (r: u32)
    ensures
        r == ones(x as nat),
        r <= 8,
{
    proof {
        lemma2_to64();
        lemma_ones_bound(x as nat, 8);
    }
    let mut v: u8 = x;
    let mut c: u32 = 0;
    while v != 0
        invariant
            c + ones(v as nat) == ones(x as nat),
            ones(x as nat) <= 8,
        decreases v,
    {
        c = c + (v % 2) as u32;
        v = v / 2;
    }
    c
}

/// Distance is symmetric, and every hash is at distance zero from itself.
pub proof fn lemma_distance_symmetric(a: Seq<u8>, b: Seq<u8>)
    ensures
        hamming(a, b) == hamming(b, a),
        hamming(a, a) == 0,
{
    lemma_prefix_symmetric(a, b, min_len(a, b));
    lemma_prefix_self(a, a.len() as int);
}

proof fn lemma_prefix_symmetric(a: Seq<u8>, b: Seq<u8>, n: int)
    ensures
        hamming_prefix(a, b, n) == hamming_prefix(b, a, n),
    decreases n,
{
    if n > 0 {
        lemma_prefix_symmetric(a, b, n - 1);
        let x = a[n - 1];
        let y = b[n - 1];
        assert(x ^ y == y ^ x) by (bit_vector);
    }
}

proof fn lemma_prefix_self(a: Seq<u8>, n: int)
    ensures
        hamming_prefix(a, a, n) == 0,
    decreases n,
{
    if n > 0 {
        lemma_prefix_self(a, n - 1);
        let x = a[n - 1];
        assert(x ^ x == 0) by (bit_vector);
    }
}

/// Two hashes with the same bits are at distance zero.
pub proof fn lemma_equal_hashes_distance_zero(a: Seq<u8>, b: Seq<u8>)
    requires
        a == b,
    ensures
        hamming(a, b) == 0,
{
    lemma_distance_symmetric(a, b);
}

} // verus!
