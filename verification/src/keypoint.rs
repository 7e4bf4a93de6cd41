//! Keypoints and binary descriptors, the plain values every other module works on.
//!
//! Fractional quantities are carried in fixed point: an integer counts
//! thousandths of the unit, so a keypoint at pixel `12.5` has coordinate `12_500`.

use vstd::prelude::*;

verus! {

/// Fixed-point units per whole unit.
pub const SUBPIXEL: i32 = 1000;

/// Largest image extent, in pixels, whose fixed-point coordinates fit an `i32`.
pub const MAX_EXTENT: usize = 2_147_483;

/// Number of bytes of a binary descriptor.
pub const DESCRIPTOR_BYTES: usize = 32;

/// Number of bits of a binary descriptor, and so the largest possible distance.
pub const DESCRIPTOR_BITS: u32 = 256;

/// A detected image location. `x` and `y` are in thousandths of a pixel; the
/// remaining fields are carried along untouched.
#[derive(Clone, Copy, Debug, PartialEq, Eq, Structural)]
pub struct Keypoint {
    pub x: i32,
    pub y: i32,
    pub size: i32,
    pub angle: i32,
    pub response: i32,
    pub octave: i32,
    pub class_id: i32,
}

/// The whole pixel that holds fixed-point coordinate `v`: its floor.
pub open spec fn pixel_floor(v: int) -> int {
    v / (SUBPIXEL as int)
}

/// The whole pixel that holds fixed-point coordinate `v`.
pub fn pixel_of(v: i32) -> (p: i32)
    ensures
        p == pixel_floor(v as int),
{
    if v >= 0 {
        v / SUBPIXEL
    } else {
        // Rust's division rounds towards zero; step down where it rounded up.
        let q: i32 = v / SUBPIXEL;
        let r: i32 = v % SUBPIXEL;
        if r == 0 {
            q
        } else {
            q - 1
        }
    }
}

impl Keypoint {
    /// A keypoint at the given fixed-point position with no further data.
    pub fn at(x: i32, y: i32) -> (k: Keypoint)
        ensures
            k == (Keypoint { x, y, size: 0, angle: 0, response: 0, octave: 0, class_id: 0 }),
    {
        Keypoint { x, y, size: 0, angle: 0, response: 0, octave: 0, class_id: 0 }
    }

    /// The pixel row of the keypoint.
    pub open spec fn row(self) -> int {
        pixel_floor(self.y as int)
    }

    /// The pixel column of the keypoint.
    pub open spec fn col(self) -> int {
        pixel_floor(self.x as int)
    }

    /// Whether the keypoint lies on a pixel of a `rows` by `cols` image.
    pub open spec fn within(self, rows: int, cols: int) -> bool {
        &&& 0 <= self.row() < rows
        &&& 0 <= self.col() < cols
    }

    /// The keypoint moved by whole pixels `dx` and `dy`.
    pub open spec fn shifted(self, dx: int, dy: int) -> Keypoint
        recommends
            i32::MIN <= self.x + dx * SUBPIXEL <= i32::MAX,
            i32::MIN <= self.y + dy * SUBPIXEL <= i32::MAX,
    {
        Keypoint {
            x: (self.x + dx * SUBPIXEL) as i32,
            y: (self.y + dy * SUBPIXEL) as i32,
            ..self
        }
    }

    /// Executable form of [`Keypoint::within`].
    pub fn is_within(&self, rows: i32, cols: i32) -> (b: bool)
        ensures
            b == self.within(rows as int, cols as int),
    {
        let row = pixel_of(self.y);
        let col = pixel_of(self.x);
        0 <= row && row < rows && 0 <= col && col < cols
    }
}

/// Number of set bits of a byte.
pub open spec fn bit_count(b: u8) -> nat
    decreases b,
{
    if b == 0 {
        0
    } else {
        (b % 2) as nat + bit_count(b / 2)
    }
}

/// Number of bit positions in which two byte strings of equal length differ.
pub open spec fn hamming_distance(a: Seq<u8>, b: Seq<u8>) -> nat
    recommends
        a.len() == b.len(),
    decreases a.len(),
{
    if a.len() == 0 || a.len() != b.len() {
        0
    } else {
        hamming_distance(a.drop_last(), b.drop_last()) + bit_count(a.last() ^ b.last())
    }
}

/// A byte sets at most eight bits.
pub proof fn lemma_bit_count_bound(b: u8)
    ensures
        bit_count(b) <= 8,
{
    reveal_with_fuel(bit_count, 10);
}

/// Only the byte 0 sets no bit.
pub proof fn lemma_bit_count_zero(b: u8)
    ensures
        bit_count(b) == 0 <==> b == 0,
    decreases b,
{
    if b != 0 && b % 2 == 0 {
        lemma_bit_count_zero(b / 2);
    }
}

/// Two byte strings differ in at most eight bits per byte.
pub proof fn lemma_hamming_bound(a: Seq<u8>, b: Seq<u8>)
    ensures
        hamming_distance(a, b) <= 8 * a.len(),
    decreases a.len(),
{
    if a.len() == 0 || a.len() != b.len() {
    } else {
        lemma_hamming_bound(a.drop_last(), b.drop_last());
        lemma_bit_count_bound(a.last() ^ b.last());
    }
}

/// The distance from `a` to `b` is that from `b` to `a`.
pub proof fn lemma_hamming_symmetric(a: Seq<u8>, b: Seq<u8>)
    ensures
        hamming_distance(a, b) == hamming_distance(b, a),
    decreases a.len(),
{
    if a.len() == 0 || a.len() != b.len() {
    } else {
        lemma_hamming_symmetric(a.drop_last(), b.drop_last());
        let x = a.last();
        let y = b.last();
        assert(x ^ y == y ^ x) by (bit_vector);
    }
}

/// Byte strings of equal length are at distance 0 exactly if they are equal.
pub proof fn lemma_hamming_zero(a: Seq<u8>, b: Seq<u8>)
    requires
        a.len() == b.len(),
    ensures
        hamming_distance(a, b) == 0 <==> a == b,
    decreases a.len(),
{
    if a.len() == 0 {
        assert(a =~= b);
    } else {
        lemma_hamming_zero(a.drop_last(), b.drop_last());
        let x = a.last();
        let y = b.last();
        assert(x ^ y == 0 <==> x == y) by (bit_vector);
        lemma_bit_count_zero(x ^ y);
        if a.drop_last() == b.drop_last() && x == y {
            assert(a =~= a.drop_last().push(x));
            assert(b =~= b.drop_last().push(y));
        }
    }
}

/// Number of set bits of a byte.
pub fn count_bits(b: u8) -> (n: u32)
    ensures
        n == bit_count(b),
        n <= 8,
{
    let mut rest: u8 = b;
    let mut n: u32 = 0;
    proof {
        lemma_bit_count_bound(b);
    }
    while rest > 0
        invariant
            n + bit_count(rest) == bit_count(b),
            bit_count(b) <= 8,
        decreases rest,
    {
        if rest % 2 == 1 {
            n = n + 1;
        }
        rest = rest / 2;
    }
    n
}

/// A 256-bit binary appearance descriptor.
#[derive(Clone, Copy, Debug, PartialEq, Eq)]
pub struct Descriptor {
    pub bytes: [u8; 32],
}

impl Descriptor {
    /// The Hamming distance between two descriptors.
    pub open spec fn spec_distance(self, other: Descriptor) -> nat {
        hamming_distance(self.bytes@, other.bytes@)
    }

    /// The Hamming distance between two descriptors: the number of differing bits.
    pub fn distance(&self, other: &Descriptor) -> (d: u32)
        ensures
            d == self.spec_distance(*other),
            d <= DESCRIPTOR_BITS,
    {
        let mut d: u32 = 0;
        let mut i: usize = 0;
        while i < DESCRIPTOR_BYTES
            invariant
                i <= DESCRIPTOR_BYTES,
                d == hamming_distance(self.bytes@.take(i as int), other.bytes@.take(i as int)),
                d <= 8 * i,
            decreases DESCRIPTOR_BYTES - i,
        {
            let differing = count_bits(self.bytes[i] ^ other.bytes[i]);
            proof {
                let a = self.bytes@.take(i + 1);
                let b = other.bytes@.take(i + 1);
                assert(a.drop_last() == self.bytes@.take(i as int));
                assert(b.drop_last() == other.bytes@.take(i as int));
            }
            d = d + differing;
            i = i + 1;
        }
        proof {
            assert(self.bytes@.take(DESCRIPTOR_BYTES as int) == self.bytes@);
            assert(other.bytes@.take(DESCRIPTOR_BYTES as int) == other.bytes@);
        }
        d
    }
}

} // verus!
