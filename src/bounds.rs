use vstd::prelude::*;

use crate::map::{Voxel, VoxelMap};
use crate::point::Point3;
use crate::storage::VoxelStorage;

verus! {

/// Order of the linear walk: `z` is the slowest axis, then `y`, then `x`.
pub open spec fn walk_before(p: Point3, q: Point3) -> bool {
    p.z < q.z || (p.z == q.z && (p.y < q.y || (p.y == q.y && p.x < q.x)))
}

/// Where the walk of `b` stands after `n` steps.
pub open spec fn walk_point(b: Bounds, n: nat) -> Point3
    decreases n,
{
    if n == 0 {
        if b.contains_spec(b.lo()) {
            b.lo()
        } else {
            b.end_marker()
        }
    } else {
        b.successor(walk_point(b, (n - 1) as nat))
    }
}

/// The first `n` coordinates the walk of `b` hands out.
pub open spec fn walk_prefix(b: Bounds, n: nat) -> Seq<Point3>
    decreases n,
{
    if n == 0 {
        seq![]
    } else {
        walk_prefix(b, (n - 1) as nat).push(walk_point(b, (n - 1) as nat))
    }
}

/// Axis aligned box of voxel coordinates. The lower corner is inclusive, the
/// upper corner exclusive; on every axis the lower corner is not above the
/// upper one.
#[derive(Clone, Copy, Debug, PartialEq, Eq, Structural)]
pub struct Bounds {
    min: Point3,
    max: Point3,
}

impl Bounds {
    #[verifier::type_invariant]
    spec fn ordered(&self) -> bool {
        self.min.x <= self.max.x && self.min.y <= self.max.y && self.min.z <= self.max.z
    }

    /// The inclusive lower corner.
    pub closed spec fn lo(&self) -> Point3 {
        self.min
    }

    /// The exclusive upper corner.
    pub closed spec fn hi(&self) -> Point3 {
        self.max
    }

    /// Every box satisfies this; `min` and `max` hand it to callers.
    pub open spec fn is_ordered(&self) -> bool {
        self.lo().x <= self.hi().x && self.lo().y <= self.hi().y && self.lo().z <= self.hi().z
    }

    pub open spec fn ex(&self) -> int {
        self.hi().x - self.lo().x
    }

    pub open spec fn ey(&self) -> int {
        self.hi().y - self.lo().y
    }

    pub open spec fn ez(&self) -> int {
        self.hi().z - self.lo().z
    }

    /// Number of coordinates in the box.
    pub open spec fn volume_spec(&self) -> int {
        self.ex() * self.ey() * self.ez()
    }

    pub open spec fn contains_spec(&self, p: Point3) -> bool {
        &&& self.lo().x <= p.x < self.hi().x
        &&& self.lo().y <= p.y < self.hi().y
        &&& self.lo().z <= p.z < self.hi().z
    }

    pub open spec fn intersects_spec(&self, o: Bounds) -> bool {
        &&& self.lo().x < o.hi().x && self.hi().x > o.lo().x
        &&& self.lo().y < o.hi().y && self.hi().y > o.lo().y
        &&& self.lo().z < o.hi().z && self.hi().z > o.lo().z
    }

    pub open spec fn center_spec(&self) -> Point3 {
        Point3 {
            x: (self.lo().x + self.ex() / 2) as i32,
            y: (self.lo().y + self.ey() / 2) as i32,
            z: (self.lo().z + self.ez() / 2) as i32,
        }
    }

    /// Position of `p` in the linear walk of the box.
    pub open spec fn rank(&self, p: Point3) -> int {
        (p.x - self.lo().x) + self.ex() * ((p.y - self.lo().y) + self.ey() * (p.z - self.lo().z))
    }

    /// Where the walk stands once every coordinate has been visited.
    pub open spec fn end_marker(&self) -> Point3 {
        Point3 { x: self.lo().x, y: self.lo().y, z: self.hi().z }
    }

    /// The coordinate visited after `p`: `x` moves first, wrapping into `y`,
    /// which wraps into `z`.
    pub open spec fn successor(&self, p: Point3) -> Point3 {
        if p.x + 1 < self.hi().x {
            Point3 { x: (p.x + 1) as i32, y: p.y, z: p.z }
        } else if p.y + 1 < self.hi().y {
            Point3 { x: self.lo().x, y: (p.y + 1) as i32, z: p.z }
        } else {
            Point3 { x: self.lo().x, y: self.lo().y, z: (p.z + 1) as i32 }
        }
    }

    /// Creates the box `[min, max)`; every axis of `min` must not exceed `max`.
    pub fn new(min: Point3, max: Point3) -> (r: Bounds)
        requires
            min.x <= max.x,
            min.y <= max.y,
            min.z <= max.z,
        ensures
            r.lo() == min,
            r.hi() == max,
    {
        Bounds { min, max }
    }

    /// The box with both corners at the origin, which holds no coordinate.
    pub fn empty() -> (r: Bounds)
        ensures
            r.lo() == (Point3 { x: 0, y: 0, z: 0 }),
            r.hi() == (Point3 { x: 0, y: 0, z: 0 }),
            r.volume_spec() == 0,
    {
        let r = Bounds { min: Point3::origin(), max: Point3::origin() };
        assert(r.ex() == 0);
        assert(r.volume_spec() == 0) by (nonlinear_arith)
            requires
                r.ex() == 0,
                r.volume_spec() == r.ex() * r.ey() * r.ez(),
        ;
        r
    }

    pub fn min(&self) -> (r: Point3)
        ensures
            r == self.lo(),
            self.is_ordered(),
    {
        proof {
            use_type_invariant(self);
        }
        self.min
    }

    pub fn max(&self) -> (r: Point3)
        ensures
            r == self.hi(),
            self.is_ordered(),
    {
        proof {
            use_type_invariant(self);
        }
        self.max
    }

    /// The middle of the box, rounded towards the lower corner.
    pub fn center(&self) -> (r: Point3)
        ensures
            r == self.center_spec(),
            self.lo().x <= r.x <= self.hi().x,
            self.lo().y <= r.y <= self.hi().y,
            self.lo().z <= r.z <= self.hi().z,
    {
        proof {
            use_type_invariant(self);
        }
        let x = self.min.x as i64 + (self.max.x as i64 - self.min.x as i64) / 2;
        let y = self.min.y as i64 + (self.max.y as i64 - self.min.y as i64) / 2;
        let z = self.min.z as i64 + (self.max.z as i64 - self.min.z as i64) / 2;
        Point3 { x: x as i32, y: y as i32, z: z as i32 }
    }

    /// Whether `target` lies inside the box.
    pub fn contains(&self, target: &Point3) -> (r: bool)
        ensures
            r == self.contains_spec(*target),
    {
        target.x >= self.min.x && target.x < self.max.x && target.y >= self.min.y && target.y
            < self.max.y && target.z >= self.min.z && target.z < self.max.z
    }

    /// Whether the two boxes share at least one coordinate.
    pub fn intersects(&self, other: &Bounds) -> (r: bool)
        ensures
            r == self.intersects_spec(*other),
    {
        (self.min.x < other.max.x && self.max.x > other.min.x) && (self.min.y < other.max.y
            && self.max.y > other.min.y) && (self.min.z < other.max.z && self.max.z > other.min.z)
    }

    /// Number of coordinates in the box; it must fit the result type.
    pub fn volume(&self) -> (r: u32)
        requires
            self.volume_spec() <= u32::MAX,
        ensures
            r == self.volume_spec(),
    {
        proof {
            use_type_invariant(self);
        }
        let ex = (self.max.x as i64 - self.min.x as i64) as u64;
        let ey = (self.max.y as i64 - self.min.y as i64) as u64;
        let ez = (self.max.z as i64 - self.min.z as i64) as u64;
        proof {
            assert(ex * ey <= 0xffff_ffffu64 * 0xffff_ffffu64) by (nonlinear_arith)
                requires
                    ex <= 0xffff_ffffu64,
                    ey <= 0xffff_ffffu64,
            ;
        }
        let exy = ex * ey;
        assert(exy * ez == self.volume_spec());
        let v = exy * ez;
        v as u32
    }

    /// A walk over every coordinate of the box, `x` fastest, then `y`, then
    /// `z`.
    pub fn iter(&self) -> (r: BoundsLinearIter)
        ensures
            r.wf(),
            r.domain() == *self,
            r.position() == (if self.contains_spec(self.lo()) {
                self.lo()
            } else {
                self.end_marker()
            }),
    {
        BoundsLinearIter::new(*self)
    }

    proof fn lemma_end_rank(&self)
        requires
            self.is_ordered(),
        ensures
            self.rank(self.end_marker()) == self.volume_spec(),
            self.volume_spec() >= 0,
    {
        let (ex, ey, ez) = (self.ex(), self.ey(), self.ez());
        assert(0 + ex * (0 + ey * ez) == ex * ey * ez && ex * ey * ez >= 0) by (nonlinear_arith)
            requires
                ex >= 0,
                ey >= 0,
                ez >= 0,
        ;
    }

    proof fn lemma_start_rank(&self)
        requires
            self.is_ordered(),
        ensures
            self.contains_spec(self.lo()) ==> self.rank(self.lo()) == 0,
            !self.contains_spec(self.lo()) ==> self.volume_spec() == 0,
    {
        let (ex, ey, ez) = (self.ex(), self.ey(), self.ez());
        assert(ex * (0 + ey * 0) == 0) by (nonlinear_arith);
        if !self.contains_spec(self.lo()) {
            assert(ex * ey * ez == 0) by (nonlinear_arith)
                requires
                    ex == 0 || ey == 0 || ez == 0,
            ;
        }
    }

    proof fn lemma_step(&self, p: Point3)
        requires
            self.contains_spec(p),
        ensures
            self.rank(self.successor(p)) == self.rank(p) + 1,
            0 <= self.rank(p) < self.volume_spec(),
            walk_before(p, self.successor(p)),
            self.contains_spec(self.successor(p)) || self.successor(p) == self.end_marker(),
    {
        let (ex, ey, ez) = (self.ex(), self.ey(), self.ez());
        let (b, a, c) = (p.x - self.lo().x, p.y - self.lo().y, p.z - self.lo().z);
        assert(0 <= b + ex * (a + ey * c) < ex * ey * ez) by (nonlinear_arith)
            requires
                0 <= b < ex,
                0 <= a < ey,
                0 <= c < ez,
        ;
        if p.x + 1 < self.hi().x {
        } else if p.y + 1 < self.hi().y {
            assert(0 + ex * ((a + 1) + ey * c) == ex * (a + ey * c) + ex) by (nonlinear_arith);
        } else {
            assert(0 + ex * (0 + ey * (c + 1)) == (ex - 1) + ex * ((ey - 1) + ey * c) + 1)
                by (nonlinear_arith);
        }
    }

    /// Every coordinate of the box, in the order of its walk.
    pub fn points(&self) -> (r: Vec<Point3>)
        ensures
            r@ == walk_prefix(*self, self.volume_spec() as nat),
            r@.len() == self.volume_spec(),
            forall|i: int| 0 <= i < r@.len() ==> self.contains_spec(#[trigger] r@[i]),
            forall|i: int, j: int|
                0 <= i < j < r@.len() ==> walk_before(#[trigger] r@[i], #[trigger] r@[j]),
            forall|i: int, j: int| 0 <= i < j < r@.len() ==> #[trigger] r@[i] != #[trigger] r@[j],
            forall|p: Point3| #[trigger] self.contains_spec(p) ==> r@.contains(p),
    {
        let mut it = self.iter();
        let mut out: Vec<Point3> = Vec::new();
        proof {
            use_type_invariant(self);
            self.lemma_start_rank();
            self.lemma_end_rank();
        }
        loop
            invariant
                it.wf(),
                it.domain() == *self,
                it.position() == walk_point(*self, out@.len()),
                out@ == walk_prefix(*self, out@.len()),
                out@.len() == self.rank(it.position()),
                self.rank(it.position()) <= self.volume_spec(),
                self.rank(self.end_marker()) == self.volume_spec(),
                forall|i: int| 0 <= i < out@.len() ==> self.contains_spec(#[trigger] out@[i]),
                forall|i: int, j: int|
                    0 <= i < j < out@.len() ==> walk_before(#[trigger] out@[i], #[trigger] out@[j]),
                forall|i: int| 0 <= i < out@.len() ==> walk_before(#[trigger] out@[i], it.position()),
                forall|p: Point3|
                    #[trigger] self.contains_spec(p) && walk_before(p, it.position()) ==> out@.contains(p),
            ensures
                out@.len() == self.volume_spec(),
                out@ == walk_prefix(*self, out@.len()),
                forall|i: int| 0 <= i < out@.len() ==> self.contains_spec(#[trigger] out@[i]),
                forall|i: int, j: int|
                    0 <= i < j < out@.len() ==> walk_before(#[trigger] out@[i], #[trigger] out@[j]),
                forall|p: Point3| #[trigger] self.contains_spec(p) ==> out@.contains(p),
            decreases self.volume_spec() - out@.len(),
        {
            let ghost at = it.position();
            match it.next() {
                Some(p) => {
                    proof {
                        self.lemma_step(at);
                    }
                    let ghost before = out@;
                    out.push(p);
                    assert(out@ == walk_prefix(*self, out@.len()));
                    assert forall|q: Point3|
                        #[trigger] self.contains_spec(q) && walk_before(q, it.position()) implies out@.contains(q) by {
                        if q == at {
                            assert(out@[out@.len() - 1] == q);
                        } else {
                            assert(walk_before(q, at));
                            let k = choose|k: int| 0 <= k < before.len() && before[k] == q;
                            assert(out@[k] == q);
                        }
                    }
                },
                None => {
                    assert forall|q: Point3| #[trigger] self.contains_spec(q) implies out@.contains(q) by {
                        assert(walk_before(q, it.position()));
                    }
                    break ;
                },
            }
        }
        out
    }
}

/// Walk over the coordinates of a [`Bounds`], `x` fastest, then `y`, then `z`.
pub struct BoundsLinearIter {
    track: Point3,
    bounds: Bounds,
}

impl BoundsLinearIter {
    /// The next coordinate the walk hands out, or the end marker of its box.
    pub closed spec fn position(&self) -> Point3 {
        self.track
    }

    /// The box being walked.
    pub closed spec fn domain(&self) -> Bounds {
        self.bounds
    }

    pub open spec fn wf(&self) -> bool {
        self.domain().contains_spec(self.position()) || self.position()
            == self.domain().end_marker()
    }

    /// Starts a walk at the lower corner of `bounds`; a box without
    /// coordinates starts finished.
    pub fn new(bounds: Bounds) -> (r: BoundsLinearIter)
        ensures
            r.wf(),
            r.domain() == bounds,
            r.position() == (if bounds.contains_spec(bounds.lo()) {
                bounds.lo()
            } else {
                bounds.end_marker()
            }),
    {
        let track = if bounds.contains(&bounds.min) {
            bounds.min
        } else {
            Point3 { x: bounds.min.x, y: bounds.min.y, z: bounds.max.z }
        };
        BoundsLinearIter { track, bounds }
    }

    /// Hands out the current coordinate and advances, or `None` once the
    /// walk is over.
    pub fn next(&mut self) -> (r: Option<Point3>)
        requires
            old(self).wf(),
        ensures
            final(self).wf(),
            final(self).domain() == old(self).domain(),
            old(self).domain().contains_spec(old(self).position()) ==> r == Some(old(self).position())
                && final(self).position() == old(self).domain().successor(old(self).position()),
            !old(self).domain().contains_spec(old(self).position()) ==> r.is_none()
                && final(self).position() == old(self).position(),
    {
        let ret = self.track;
        if !self.bounds.contains(&ret) {
            return None;
        }
        if ret.x + 1 < self.bounds.max.x {
            self.track = Point3 { x: ret.x + 1, y: ret.y, z: ret.z };
        } else if ret.y + 1 < self.bounds.max.y {
            self.track = Point3 { x: self.bounds.min.x, y: ret.y + 1, z: ret.z };
        } else {
            self.track = Point3 { x: self.bounds.min.x, y: self.bounds.min.y, z: ret.z + 1 };
        }
        Some(ret)
    }
}

pub open spec fn clamp_spec(v: i32, lo: i32, hi: i32) -> i32 {
    if v < lo {
        lo
    } else if v > hi {
        hi
    } else {
        v
    }
}

fn clamp_axis(v: i32, lo: i32, hi: i32) -> (r: i32)
    ensures
        r == clamp_spec(v, lo, hi),
{
    if v < lo {
        lo
    } else if v > hi {
        hi
    } else {
        v
    }
}

/// The corner `p` moved into the box `[lo, hi]` axis by axis.
pub open spec fn clamp_point(p: Point3, lo: Point3, hi: Point3) -> Point3 {
    Point3 { x: clamp_spec(p.x, lo.x, hi.x), y: clamp_spec(p.y, lo.y, hi.y), z: clamp_spec(p.z, lo.z, hi.z) }
}

/// The box to draw, from the box a caller asks for and the box the storage
/// covers: either alone is taken as it is; together, each corner of the
/// request is clamped into the storage's box on every axis, so a request
/// that reaches past the storage is cut, not dropped. With neither, nothing
/// is drawn rather than an unbounded space.
pub fn clamp_render_bounds(requested: Option<Bounds>, storage: Option<Bounds>) -> (r: Bounds)
    ensures
        match (requested, storage) {
            (None, None) => r.lo() == Point3 { x: 0, y: 0, z: 0 } && r.hi() == Point3 {
                x: 0,
                y: 0,
                z: 0,
            } && r.volume_spec() == 0,
            (Some(q), None) => r == q,
            (None, Some(s)) => r == s,
            (Some(q), Some(s)) => r.lo() == clamp_point(q.lo(), s.lo(), s.hi()) && r.hi()
                == clamp_point(q.hi(), s.lo(), s.hi()),
        },
        storage matches Some(s) ==> s.lo().x <= r.lo().x && r.hi().x <= s.hi().x && s.lo().y
            <= r.lo().y && r.hi().y <= s.hi().y && s.lo().z <= r.lo().z && r.hi().z <= s.hi().z,
{
    match (requested, storage) {
        (None, None) => Bounds::empty(),
        (Some(q), None) => q,
        (None, Some(s)) => s,
        (Some(q), Some(s)) => {
            let (qlo, qhi, slo, shi) = (q.min(), q.max(), s.min(), s.max());
            let lo = Point3::new(
                clamp_axis(qlo.x, slo.x, shi.x),
                clamp_axis(qlo.y, slo.y, shi.y),
                clamp_axis(qlo.z, slo.z, shi.z),
            );
            let hi = Point3::new(
                clamp_axis(qhi.x, slo.x, shi.x),
                clamp_axis(qhi.y, slo.y, shi.y),
                clamp_axis(qhi.z, slo.z, shi.z),
            );
            Bounds::new(lo, hi)
        },
    }
}

/// Whether `region` is the box drawn for a request `requested` over a
/// storage whose box has the corners `storage`.
pub open spec fn resolves(
    requested: Option<Bounds>,
    storage: Option<(Point3, Point3)>,
    region: Bounds,
) -> bool {
    match (requested, storage) {
        (None, None) => region.volume_spec() == 0,
        (Some(q), None) => region == q,
        (None, Some((lo, hi))) => region.lo() == lo && region.hi() == hi,
        (Some(q), Some((lo, hi))) => region.lo() == clamp_point(q.lo(), lo, hi) && region.hi()
            == clamp_point(q.hi(), lo, hi),
    }
}

/// A strategy that narrows the part of a map that is drawn, such as the
/// part a camera sees.
pub trait DrawVoxelsBounds {
    /// Whether the strategy always draws the whole map.
    spec fn whole_map() -> bool;

    /// The box to draw of `map`, or `None` to draw all of it.
    fn bounds<V: Voxel, S: VoxelStorage<V>>(map: &VoxelMap<V, S>) -> (r: Option<Bounds>)
        ensures
            Self::whole_map() ==> r.is_none(),
    ;
}

/// Draws the whole map.
#[derive(Clone, Copy, Debug, Default)]
pub struct DrawVoxelsBoundsDefault;

impl DrawVoxelsBounds for DrawVoxelsBoundsDefault {
    open spec fn whole_map() -> bool {
        true
    }

    fn bounds<V: Voxel, S: VoxelStorage<V>>(map: &VoxelMap<V, S>) -> (r: Option<Bounds>) {
        None
    }
}

/// The box of `map` to draw under the strategy `Z`: its request clamped
/// into the storage's box. Under `DrawVoxelsBoundsDefault` this is the
/// storage's box itself.
pub fn compute_render_bounds<V: Voxel, S: VoxelStorage<V>, Z: DrawVoxelsBounds>(
    map: &VoxelMap<V, S>,
) -> (r: Bounds)
    requires
        map.wf(),
    ensures
        exists|q: Option<Bounds>| resolves(q, map.spec_bounds(), r),
        Z::whole_map() ==> resolves(None, map.spec_bounds(), r),
        map.spec_bounds() matches Some((lo, hi)) ==> lo.x <= r.lo().x && r.hi().x <= hi.x
            && lo.y <= r.lo().y && r.hi().y <= hi.y && lo.z <= r.lo().z && r.hi().z <= hi.z,
{
    let requested = Z::bounds(map);
    let storage = map.bounds();
    let r = clamp_render_bounds(requested, storage);
    assert(resolves(requested, map.spec_bounds(), r));
    r
}

} // verus!
