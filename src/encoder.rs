use amethyst_core::math::Vector3;
use amethyst_tiles::CoordinateEncoder as TilesEncoder;
use vstd::prelude::*;

use crate::point::Dimensions;

verus! {

/// Whether `(x, y, z)` lies inside the grid `d`.
pub open spec fn in_dims(d: Dimensions, x: u32, y: u32, z: u32) -> bool {
    x < d.x && y < d.y && z < d.z
}

pub open spec fn two_pow(n: nat) -> nat
    decreases n,
{
    if n == 0 {
        1
    } else {
        2 * two_pow((n - 1) as nat)
    }
}

pub open spec fn eight_pow(n: nat) -> nat
    decreases n,
{
    if n == 0 {
        1
    } else {
        8 * eight_pow((n - 1) as nat)
    }
}

/// Row-major index: `x` fastest, then `y`, then `z`.
pub open spec fn flat_index(d: Dimensions, x: u32, y: u32, z: u32) -> int {
    x + d.x * (y + d.y * z)
}

/// Z-order index of the lowest `n` bits of each axis: bit `i` of `x`, `y`
/// and `z` land on bits `3i`, `3i + 1` and `3i + 2`.
pub open spec fn morton_bits(x: nat, y: nat, z: nat, n: nat) -> nat
    decreases n,
{
    if n == 0 {
        0
    } else {
        8 * morton_bits(x / 2, y / 2, z / 2, (n - 1) as nat) + x % 2 + 2 * (y % 2) + 4 * (z % 2)
    }
}

/// Number of bits per axis that a 32 bit Z-order index holds.
pub const MORTON_AXIS_BITS: u32 = 10;

pub open spec fn morton_index(x: u32, y: u32, z: u32) -> nat {
    morton_bits(x as nat, y as nat, z as nat, MORTON_AXIS_BITS as nat)
}

/// Maps the coordinates of a grid of fixed dimensions to indices of a linear
/// array and rejects the coordinates outside it.
pub trait CoordinateEncoder: Sized {
    /// The grids this encoder can address.
    spec fn accepts(d: Dimensions) -> bool;

    /// The grid the encoder was made for.
    spec fn dims(&self) -> Dimensions;

    /// The index of a coordinate inside the grid.
    spec fn index_of(&self, x: u32, y: u32, z: u32) -> int;

    /// The length of the array that a grid of dimensions `d` needs.
    spec fn allocation(d: Dimensions) -> int;

    fn from_dimensions(dimensions: Dimensions) -> (r: Self)
        requires
            Self::accepts(dimensions),
        ensures
            r.dims() == dimensions,
    ;

    /// The index of `(x, y, z)`, or `None` where it lies outside the grid.
    fn encode(&self, x: u32, y: u32, z: u32) -> (r: Option<u32>)
        requires
            Self::accepts(self.dims()),
        ensures
            in_dims(self.dims(), x, y, z) ==> r == Some(self.index_of(x, y, z) as u32),
            !in_dims(self.dims(), x, y, z) ==> r.is_none(),
    ;

    fn allocation_size(dimensions: Dimensions) -> (r: usize)
        requires
            Self::accepts(dimensions),
        ensures
            r == Self::allocation(dimensions),
    ;

    /// An accepted grid fits 32 bit signed coordinates on each axis.
    proof fn lemma_accepts_signed(d: Dimensions)
        requires
            Self::accepts(d),
        ensures
            d.x <= i32::MAX && d.y <= i32::MAX && d.z <= i32::MAX,
            0 <= Self::allocation(d) <= u32::MAX,
    ;

    /// Every coordinate of the grid has an index inside the allocation.
    proof fn lemma_index_in_allocation(&self, x: u32, y: u32, z: u32)
        requires
            Self::accepts(self.dims()),
            in_dims(self.dims(), x, y, z),
        ensures
            0 <= self.index_of(x, y, z) < Self::allocation(self.dims()),
    ;

    /// No two coordinates of the grid share an index.
    proof fn lemma_index_injective(&self, x: u32, y: u32, z: u32, a: u32, b: u32, c: u32)
        requires
            Self::accepts(self.dims()),
            in_dims(self.dims(), x, y, z),
            in_dims(self.dims(), a, b, c),
            self.index_of(x, y, z) == self.index_of(a, b, c),
        ensures
            x == a && y == b && z == c,
    ;
}

/// Encoding a grid coordinate and reading the index back gives the
/// coordinate again: two coordinates of the grid never share an index, and
/// every index lies inside the grid's allocation.
pub proof fn lemma_encode_round_trip<E: CoordinateEncoder>(
    e: &E,
    x: u32,
    y: u32,
    z: u32,
    a: u32,
    b: u32,
    c: u32,
)
    requires
        E::accepts(e.dims()),
        in_dims(e.dims(), x, y, z),
        in_dims(e.dims(), a, b, c),
    ensures
        0 <= e.index_of(x, y, z) < E::allocation(e.dims()),
        e.index_of(x, y, z) == e.index_of(a, b, c) <==> (x == a && y == b && z == c),
{
    e.lemma_index_in_allocation(x, y, z);
    if e.index_of(x, y, z) == e.index_of(a, b, c) {
        e.lemma_index_injective(x, y, z, a, b, c);
    }
}

proof fn lemma_digit_unique(w: int, x: int, a: int, q1: int, q2: int)
    requires
        0 <= x < w,
        0 <= a < w,
        x + w * q1 == a + w * q2,
    ensures
        x == a,
        q1 == q2,
{
    if q1 < q2 {
        assert(w * q2 >= w * q1 + w) by (nonlinear_arith)
            requires
                q2 >= q1 + 1,
                w >= 0,
        ;
    } else if q2 < q1 {
        assert(w * q1 >= w * q2 + w) by (nonlinear_arith)
            requires
                q1 >= q2 + 1,
                w >= 0,
        ;
    }
}

/// Row-major encoder: index `x + y * w + z * w * h`.
#[derive(Clone, Copy, Debug)]
pub struct FlatEncoder {
    dimensions: Dimensions,
}

impl CoordinateEncoder for FlatEncoder {
    open spec fn accepts(d: Dimensions) -> bool {
        &&& d.x <= i32::MAX && d.y <= i32::MAX && d.z <= i32::MAX
        &&& d.x * d.y <= u32::MAX
        &&& d.x * d.y * d.z <= u32::MAX
    }

    closed spec fn dims(&self) -> Dimensions {
        self.dimensions
    }

    open spec fn index_of(&self, x: u32, y: u32, z: u32) -> int {
        flat_index(self.dims(), x, y, z)
    }

    open spec fn allocation(d: Dimensions) -> int {
        d.x * d.y * d.z
    }

    fn from_dimensions(dimensions: Dimensions) -> (r: Self) {
        FlatEncoder { dimensions }
    }

    fn encode(&self, x: u32, y: u32, z: u32) -> (r: Option<u32>) {
        let d = self.dimensions;
        if x >= d.x || y >= d.y || z >= d.z {
            return None;
        }
        proof {
            self.lemma_index_in_allocation(x, y, z);
            let (dx, dy, dz, xx, yy, zz) = (d.x as int, d.y as int, d.z as int, x as int, y as int, z as int);
            assert(zz * dx <= dx * dy * dz && zz * dx * dy <= dx * dy * dz && yy * dx <= dx * dy * dz)
                by (nonlinear_arith)
                requires
                    0 <= xx < dx,
                    0 <= yy < dy,
                    0 <= zz < dz,
            ;
        }
        tiles_flat_encode(d, x, y, z)
    }

    fn allocation_size(dimensions: Dimensions) -> (r: usize) {
        tiles_flat_allocation(dimensions)
    }

    proof fn lemma_accepts_signed(d: Dimensions) {
        assert(d.x * d.y * d.z >= 0) by (nonlinear_arith);
    }

    proof fn lemma_index_in_allocation(&self, x: u32, y: u32, z: u32) {
        let d = self.dims();
        let (dx, dy, dz, xx, yy, zz) = (d.x as int, d.y as int, d.z as int, x as int, y as int, z as int);
        assert(0 <= xx + dx * (yy + dy * zz) < dx * dy * dz) by (nonlinear_arith)
            requires
                0 <= xx < dx,
                0 <= yy < dy,
                0 <= zz < dz,
        ;
    }

    proof fn lemma_index_injective(&self, x: u32, y: u32, z: u32, a: u32, b: u32, c: u32) {
        let d = self.dims();
        assert(d.y * z >= 0 && d.y * c >= 0) by (nonlinear_arith);
        lemma_digit_unique(d.x as int, x as int, a as int, y + d.y * z, b + d.y * c);
        lemma_digit_unique(d.y as int, y as int, b as int, z as int, c as int);
    }
}

/// Z-order (Morton) encoder: interleaves the bits of the three axes so that
/// neighbouring coordinates tend to lie close together. Each axis holds at
/// most `2^10 - 1` cells, so that an index fits 32 bits.
#[derive(Clone, Copy, Debug)]
pub struct MortonEncoder {
    dimensions: Dimensions,
}

proof fn lemma_morton_bound(x: nat, y: nat, z: nat, n: nat)
    requires
        x < two_pow(n),
        y < two_pow(n),
        z < two_pow(n),
    ensures
        morton_bits(x, y, z, n) < eight_pow(n),
    decreases n,
{
    if n > 0 {
        lemma_morton_bound(x / 2, y / 2, z / 2, (n - 1) as nat);
    }
}

proof fn lemma_morton_injective(x: nat, y: nat, z: nat, a: nat, b: nat, c: nat, n: nat)
    requires
        x < two_pow(n),
        y < two_pow(n),
        z < two_pow(n),
        a < two_pow(n),
        b < two_pow(n),
        c < two_pow(n),
        morton_bits(x, y, z, n) == morton_bits(a, b, c, n),
    ensures
        x == a && y == b && z == c,
    decreases n,
{
    if n > 0 {
        let m1 = morton_bits(x / 2, y / 2, z / 2, (n - 1) as nat);
        let m2 = morton_bits(a / 2, b / 2, c / 2, (n - 1) as nat);
        let r1 = x % 2 + 2 * (y % 2) + 4 * (z % 2);
        let r2 = a % 2 + 2 * (b % 2) + 4 * (c % 2);
        lemma_digit_unique(8, r1 as int, r2 as int, m1 as int, m2 as int);
        lemma_morton_injective(x / 2, y / 2, z / 2, a / 2, b / 2, c / 2, (n - 1) as nat);
    }
}

proof fn lemma_morton_monotone(x: nat, y: nat, z: nat, a: nat, b: nat, c: nat, n: nat)
    requires
        x <= a,
        y <= b,
        z <= c,
        a < two_pow(n),
        b < two_pow(n),
        c < two_pow(n),
    ensures
        morton_bits(x, y, z, n) <= morton_bits(a, b, c, n),
        x < a ==> morton_bits(x, y, z, n) < morton_bits(a, b, c, n),
    decreases n,
{
    if n > 0 {
        let m1 = morton_bits(x / 2, y / 2, z / 2, (n - 1) as nat);
        let m2 = morton_bits(a / 2, b / 2, c / 2, (n - 1) as nat);
        lemma_morton_monotone(x / 2, y / 2, z / 2, a / 2, b / 2, c / 2, (n - 1) as nat);
        if m1 == m2 {
            lemma_morton_injective(x / 2, y / 2, z / 2, a / 2, b / 2, c / 2, (n - 1) as nat);
        }
    }
}

proof fn lemma_pow_ten()
    ensures
        two_pow(10) == 1024,
        eight_pow(10) == 0x4000_0000,
{
    reveal_with_fuel(two_pow, 11);
    reveal_with_fuel(eight_pow, 11);
}

impl CoordinateEncoder for MortonEncoder {
    open spec fn accepts(d: Dimensions) -> bool {
        d.x < 1024 && d.y < 1024 && d.z < 1024
    }

    closed spec fn dims(&self) -> Dimensions {
        self.dimensions
    }

    open spec fn index_of(&self, x: u32, y: u32, z: u32) -> int {
        morton_index(x, y, z) as int
    }

    /// The index of the upper corner: it exceeds that of every coordinate
    /// of the grid.
    open spec fn allocation(d: Dimensions) -> int {
        morton_index(d.x, d.y, d.z) as int
    }

    fn from_dimensions(dimensions: Dimensions) -> (r: Self) {
        MortonEncoder { dimensions }
    }

    fn encode(&self, x: u32, y: u32, z: u32) -> (r: Option<u32>) {
        let d = self.dimensions;
        if x >= d.x || y >= d.y || z >= d.z {
            return None;
        }
        tiles_morton_encode(x, y, z)
    }

    fn allocation_size(dimensions: Dimensions) -> (r: usize) {
        tiles_morton_allocation(dimensions)
    }

    proof fn lemma_accepts_signed(d: Dimensions) {
        lemma_pow_ten();
        lemma_morton_bound(d.x as nat, d.y as nat, d.z as nat, 10);
    }

    proof fn lemma_index_in_allocation(&self, x: u32, y: u32, z: u32) {
        lemma_pow_ten();
        let d = self.dims();
        lemma_morton_monotone(x as nat, y as nat, z as nat, d.x as nat, d.y as nat, d.z as nat, 10);
    }

    proof fn lemma_index_injective(&self, x: u32, y: u32, z: u32, a: u32, b: u32, c: u32) {
        lemma_pow_ten();
        lemma_morton_injective(x as nat, y as nat, z as nat, a as nat, b as nat, c as nat, 10);
    }
}

/// Relies on `amethyst_tiles::FlatEncoder::encode`: the row-major index
/// `z * w * h + y * w + x`, computed in 32 bits.
#[verifier::external_body]
fn tiles_flat_encode(d: Dimensions, x: u32, y: u32, z: u32) -> (r: Option<u32>)
    requires
        z * d.x <= u32::MAX,
        z * d.x * d.y <= u32::MAX,
        y * d.x <= u32::MAX,
        flat_index(d, x, y, z) <= u32::MAX,
    ensures
        r == Some(flat_index(d, x, y, z) as u32),
{
    amethyst_tiles::FlatEncoder::from_dimensions(Vector3::new(d.x, d.y, d.z)).encode(x, y, z)
}

/// Relies on `amethyst_tiles::FlatEncoder::allocation_size`: `w * h * d`
/// cells, computed in 32 bits.
#[verifier::external_body]
fn tiles_flat_allocation(d: Dimensions) -> (r: usize)
    requires
        d.x * d.y <= u32::MAX,
        d.x * d.y * d.z <= u32::MAX,
    ensures
        r == d.x * d.y * d.z,
{
    <amethyst_tiles::FlatEncoder as TilesEncoder>::allocation_size(Vector3::new(d.x, d.y, d.z))
}

/// Relies on `amethyst_tiles::MortonEncoder::encode`: for axes below
/// `2^10`, bit `i` of `x`, `y` and `z` lands on bit `3i`, `3i + 1` and
/// `3i + 2` of the index (by lookup table, or `pdep` where BMI2 is enabled).
#[verifier::external_body]
fn tiles_morton_encode(x: u32, y: u32, z: u32) -> (r: Option<u32>)
    requires
        x < 1024,
        y < 1024,
        z < 1024,
    ensures
        r == Some(morton_index(x, y, z) as u32),
{
    amethyst_tiles::MortonEncoder::default().encode(x, y, z)
}

/// Relies on `amethyst_tiles::MortonEncoder::allocation_size`: the Z-order
/// index of the dimensions themselves.
#[verifier::external_body]
fn tiles_morton_allocation(d: Dimensions) -> (r: usize)
    requires
        d.x < 1024,
        d.y < 1024,
        d.z < 1024,
    ensures
        r == morton_index(d.x, d.y, d.z),
{
    <amethyst_tiles::MortonEncoder as TilesEncoder>::allocation_size(Vector3::new(d.x, d.y, d.z))
}

} // verus!
