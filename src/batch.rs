use vstd::prelude::*;

use crate::bounds::{clamp_render_bounds, resolves, walk_prefix, Bounds};
use crate::map::{Voxel, VoxelMap};
use crate::point::Point3;
use crate::storage::VoxelStorage;

verus! {

/// One drawable face: the sprite drawn on it, the voxel it belongs to, and
/// its number in the face order `+z, -z, +y, -y, -x, +x`.
#[derive(Clone, Copy, Debug, PartialEq, Eq, Structural)]
pub struct FaceInstance {
    pub sprite: usize,
    pub coordinate: Point3,
    pub face: u32,
}

/// A face as it enters the batch: with the texture it is drawn with and the
/// index of the map instance whose uniform slot it uses.
#[derive(Clone, Copy, Debug, PartialEq, Eq, Structural)]
pub struct BatchEntry {
    pub texture: u32,
    pub map_index: usize,
    pub instance: FaceInstance,
}

/// The entries drawn with one texture, in the order they were emitted.
#[derive(Clone, Debug)]
pub struct TextureGroup {
    pub texture: u32,
    pub entries: Vec<BatchEntry>,
}

/// The faces of voxel `v` at `p` among the first `k` faces that are drawn:
/// a face is drawn when no occupied neighbour lies across it, or when the
/// voxel does not let neighbours hide that face.
pub open spec fn voxel_faces_upto<V: Voxel, S: VoxelStorage<V>>(
    map: VoxelMap<V, S>,
    v: V,
    p: Point3,
    tex: [usize; 6],
    k: int,
) -> Seq<FaceInstance>
    decreases k,
{
    if k <= 0 {
        seq![]
    } else {
        let prev = voxel_faces_upto(map, v, p, tex, k - 1);
        let f = k - 1;
        if !map.neighbor_occupied(p, f) || !v.culling_spec(p)[f] {
            prev.push(FaceInstance { sprite: tex[f], coordinate: p, face: f as u32 })
        } else {
            prev
        }
    }
}

/// The faces the voxel at `p` contributes; an absent voxel, or one without
/// textures, contributes none.
pub open spec fn voxel_faces<V: Voxel, S: VoxelStorage<V>>(map: VoxelMap<V, S>, p: Point3) -> Seq<
    FaceInstance,
> {
    match map.storage().cell(p) {
        Some(v) => match v.texture_spec(p) {
            Some(tex) => voxel_faces_upto(map, v, p, tex, 6),
            None => seq![],
        },
        None => seq![],
    }
}

/// The faces of the voxels at `pts`, in that order.
pub open spec fn faces_of<V: Voxel, S: VoxelStorage<V>>(map: VoxelMap<V, S>, pts: Seq<Point3>) -> Seq<
    FaceInstance,
>
    decreases pts.len(),
{
    if pts.len() == 0 {
        seq![]
    } else {
        faces_of(map, pts.drop_last()) + voxel_faces(map, pts.last())
    }
}

/// The faces a walk over `region` emits.
pub open spec fn map_faces<V: Voxel, S: VoxelStorage<V>>(map: VoxelMap<V, S>, region: Bounds) -> Seq<
    FaceInstance,
> {
    faces_of(map, walk_prefix(region, region.volume_spec() as nat))
}

/// Faces of one map instance entering the batch with texture `t`.
pub open spec fn tagged(t: u32, map_index: usize, faces: Seq<FaceInstance>) -> Seq<BatchEntry> {
    faces.map_values(|f: FaceInstance| BatchEntry { texture: t, map_index, instance: f })
}

/// Whether `f` may be emitted for `map`: its voxel is present and has
/// textures, it carries that voxel's sprite for its face, and no occupied
/// neighbour hides it unless the voxel lets that face show.
pub open spec fn face_sound<V: Voxel, S: VoxelStorage<V>>(map: VoxelMap<V, S>, f: FaceInstance) -> bool {
    match map.storage().cell(f.coordinate) {
        Some(v) => match v.texture_spec(f.coordinate) {
            Some(tex) => f.face < 6 && f.sprite == tex[f.face as int] && (!map.neighbor_occupied(
                f.coordinate,
                f.face as int,
            ) || !v.culling_spec(f.coordinate)[f.face as int]),
            None => false,
        },
        None => false,
    }
}

proof fn lemma_upto_sound<V: Voxel, S: VoxelStorage<V>>(
    map: VoxelMap<V, S>,
    v: V,
    p: Point3,
    tex: [usize; 6],
    k: int,
)
    requires
        map.storage().cell(p) == Some(v),
        v.texture_spec(p) == Some(tex),
        k <= 6,
    ensures
        forall|i: int|
            0 <= i < voxel_faces_upto(map, v, p, tex, k).len() ==> face_sound(
                map,
                #[trigger] voxel_faces_upto(map, v, p, tex, k)[i],
            ) && voxel_faces_upto(map, v, p, tex, k)[i].coordinate == p,
    decreases k,
{
    if k > 0 {
        lemma_upto_sound(map, v, p, tex, k - 1);
        let prev = voxel_faces_upto(map, v, p, tex, k - 1);
        let f = FaceInstance { sprite: tex[k - 1], coordinate: p, face: (k - 1) as u32 };
        assert(f.face as int == k - 1);
        if !map.neighbor_occupied(p, k - 1) || !v.culling_spec(p)[k - 1] {
            assert(face_sound(map, f));
            assert forall|i: int| 0 <= i < prev.push(f).len() implies face_sound(
                map,
                #[trigger] prev.push(f)[i],
            ) && prev.push(f)[i].coordinate == p by {
                if i < prev.len() {
                    assert(prev.push(f)[i] == prev[i]);
                }
            }
        }
    }
}

proof fn lemma_faces_of_sound<V: Voxel, S: VoxelStorage<V>>(map: VoxelMap<V, S>, pts: Seq<Point3>)
    ensures
        forall|i: int|
            0 <= i < faces_of(map, pts).len() ==> face_sound(map, #[trigger] faces_of(map, pts)[i])
                && pts.contains(faces_of(map, pts)[i].coordinate),
    decreases pts.len(),
{
    if pts.len() > 0 {
        let rest = pts.drop_last();
        let p = pts.last();
        lemma_faces_of_sound(map, rest);
        let prev = faces_of(map, rest);
        let here = voxel_faces(map, p);
        match map.storage().cell(p) {
            Some(v) => match v.texture_spec(p) {
                Some(tex) => lemma_upto_sound(map, v, p, tex, 6),
                None => {},
            },
            None => {},
        }
        assert forall|i: int| 0 <= i < faces_of(map, pts).len() implies face_sound(
            map,
            #[trigger] faces_of(map, pts)[i],
        ) && pts.contains(faces_of(map, pts)[i].coordinate) by {
            if i < prev.len() {
                assert(faces_of(map, pts)[i] == prev[i]);
                let j = choose|j: int| 0 <= j < rest.len() && rest[j] == prev[i].coordinate;
                assert(pts[j] == rest[j]);
            } else {
                assert(faces_of(map, pts)[i] == here[i - prev.len()]);
                assert(pts[pts.len() - 1] == p);
            }
        }
    }
}

/// Whether `map` holds a voxel at `c` that has textures.
pub open spec fn has_textures<V: Voxel, S: VoxelStorage<V>>(map: VoxelMap<V, S>, c: Point3) -> bool {
    match map.storage().cell(c) {
        Some(v) => v.texture_spec(c).is_some(),
        None => false,
    }
}

/// Every face a walk over `region` emits is sound (see `face_sound`) and
/// belongs to a coordinate of the walk. So a face with an occupied
/// neighbour across it, on a voxel that lets neighbours hide that face, is
/// never drawn, and a voxel without textures draws no face at all.
pub proof fn lemma_map_faces_sound<V: Voxel, S: VoxelStorage<V>>(map: VoxelMap<V, S>, region: Bounds)
    ensures
        forall|i: int|
            0 <= i < map_faces(map, region).len() ==> face_sound(
                map,
                #[trigger] map_faces(map, region)[i],
            ) && walk_prefix(region, region.volume_spec() as nat).contains(
                map_faces(map, region)[i].coordinate,
            ),
        forall|i: int|
            0 <= i < map_faces(map, region).len() ==> has_textures(
                map,
                #[trigger] map_faces(map, region)[i].coordinate,
            ),
{
    lemma_faces_of_sound(map, walk_prefix(region, region.volume_spec() as nat));
}

/// Whether face `f` of the voxel at `c` is drawn: the voxel has textures,
/// and no occupied neighbour hides the face unless the voxel lets it show.
pub open spec fn face_visible<V: Voxel, S: VoxelStorage<V>>(map: VoxelMap<V, S>, c: Point3, f: int) -> bool {
    match map.storage().cell(c) {
        Some(v) => match v.texture_spec(c) {
            Some(tex) => !map.neighbor_occupied(c, f) || !v.culling_spec(c)[f],
            None => false,
        },
        None => false,
    }
}

/// Whether `faces` holds face `f` of the voxel at `c`.
pub open spec fn emits(faces: Seq<FaceInstance>, c: Point3, f: int) -> bool {
    exists|i: int| 0 <= i < faces.len() && (#[trigger] faces[i]).coordinate == c && faces[i].face == f
}

proof fn lemma_upto_complete<V: Voxel, S: VoxelStorage<V>>(
    map: VoxelMap<V, S>,
    v: V,
    p: Point3,
    tex: [usize; 6],
    k: int,
)
    requires
        map.storage().cell(p) == Some(v),
        v.texture_spec(p) == Some(tex),
        k <= 6,
    ensures
        forall|f: int|
            0 <= f < k && #[trigger] face_visible(map, p, f) ==> emits(
                voxel_faces_upto(map, v, p, tex, k),
                p,
                f,
            ),
    decreases k,
{
    if k > 0 {
        lemma_upto_complete(map, v, p, tex, k - 1);
        let prev = voxel_faces_upto(map, v, p, tex, k - 1);
        let cur = voxel_faces_upto(map, v, p, tex, k);
        assert forall|f: int| 0 <= f < k && #[trigger] face_visible(map, p, f) implies emits(
            cur,
            p,
            f,
        ) by {
            if f < k - 1 {
                let i = choose|i: int|
                    0 <= i < prev.len() && (#[trigger] prev[i]).coordinate == p && prev[i].face == f;
                assert(cur[i] == prev[i]);
            } else {
                assert(cur[prev.len() as int].face == f);
            }
        }
    }
}

proof fn lemma_faces_of_complete<V: Voxel, S: VoxelStorage<V>>(map: VoxelMap<V, S>, pts: Seq<Point3>)
    ensures
        forall|j: int, f: int|
            0 <= j < pts.len() && 0 <= f < 6 && #[trigger] face_visible(map, pts[j], f)
                ==> emits(faces_of(map, pts), pts[j], f),
    decreases pts.len(),
{
    if pts.len() > 0 {
        let rest = pts.drop_last();
        let p = pts.last();
        lemma_faces_of_complete(map, rest);
        let prev = faces_of(map, rest);
        let here = voxel_faces(map, p);
        let all = faces_of(map, pts);
        assert(all == prev + here);
        match map.storage().cell(p) {
            Some(v) => match v.texture_spec(p) {
                Some(tex) => lemma_upto_complete(map, v, p, tex, 6),
                None => {},
            },
            None => {},
        }
        assert forall|j: int, f: int|
            0 <= j < pts.len() && 0 <= f < 6 && #[trigger] face_visible(map, pts[j], f)
                implies emits(all, pts[j], f) by {
            if j < pts.len() - 1 {
                assert(rest[j] == pts[j]);
                assert(face_visible(map, rest[j], f));
                let i = choose|i: int|
                    0 <= i < prev.len() && (#[trigger] prev[i]).coordinate == rest[j] && prev[i].face == f;
                assert(all[i] == prev[i]);
            } else {
                assert(pts[j] == p);
                assert(face_visible(map, p, f));
                let i = choose|i: int|
                    0 <= i < here.len() && (#[trigger] here[i]).coordinate == p && here[i].face == f;
                assert(all[prev.len() + i] == here[i]);
            }
        }
    }
}

/// Every visible face of every voxel the walk over `region` visits is
/// emitted: a face with no occupied neighbour across it, or one the voxel
/// keeps from being hidden, is drawn.
pub proof fn lemma_map_faces_complete<V: Voxel, S: VoxelStorage<V>>(map: VoxelMap<V, S>, region: Bounds)
    ensures
        forall|j: int, f: int|
            0 <= j < region.volume_spec() && 0 <= f < 6 && #[trigger] face_visible(
                map,
                walk_prefix(region, region.volume_spec() as nat)[j],
                f,
            ) ==> emits(
                map_faces(map, region),
                walk_prefix(region, region.volume_spec() as nat)[j],
                f,
            ),
{
    let pts = walk_prefix(region, region.volume_spec() as nat);
    lemma_walk_len(region, region.volume_spec() as nat);
    lemma_faces_of_complete(map, pts);
}

proof fn lemma_walk_len(b: Bounds, n: nat)
    ensures
        walk_prefix(b, n).len() == n,
    decreases n,
{
    if n > 0 {
        lemma_walk_len(b, (n - 1) as nat);
    }
}

/// The keys of the groups: each texture of the frame's entries appears
/// exactly once, and no other.
pub proof fn lemma_group_keys(s: Seq<BatchEntry>)
    ensures
        forall|i: int, j: int|
            0 <= i < j < textures_in_order(s).len() ==> #[trigger] textures_in_order(s)[i]
                != #[trigger] textures_in_order(s)[j],
        forall|t: u32|
            #[trigger] textures_in_order(s).contains(t) <==> exists|k: int|
                0 <= k < s.len() && #[trigger] s[k].texture == t,
    decreases s.len(),
{
    if s.len() > 0 {
        let rest = s.drop_last();
        lemma_group_keys(rest);
        let prev = textures_in_order(rest);
        let keys = textures_in_order(s);
        let last = s.last().texture;
        assert forall|t: u32| #[trigger] keys.contains(t) <==> exists|k: int|
            0 <= k < s.len() && #[trigger] s[k].texture == t by {
            if keys.contains(t) {
                if prev.contains(t) {
                    let k = choose|k: int| 0 <= k < rest.len() && #[trigger] rest[k].texture == t;
                    assert(s[k] == rest[k]);
                } else {
                    assert(t == last);
                    assert(s[s.len() - 1].texture == t);
                }
            }
            if exists|k: int| 0 <= k < s.len() && #[trigger] s[k].texture == t {
                let k = choose|k: int| 0 <= k < s.len() && #[trigger] s[k].texture == t;
                if k < s.len() - 1 {
                    assert(rest[k] == s[k]);
                    assert(prev.contains(t));
                    if !prev.contains(last) {
                        let m = choose|m: int| 0 <= m < prev.len() && prev[m] == t;
                        assert(keys[m] == t);
                    }
                } else {
                    if !prev.contains(last) {
                        assert(keys[prev.len() as int] == last);
                    }
                }
            }
        }
    }
}

/// The batch as the contracts see it: the entries of the previous frame,
/// those of the frame being assembled, and whether the texture service
/// bound a new texture during it.
pub struct BatchState {
    pub previous: Seq<BatchEntry>,
    pub emitted: Seq<BatchEntry>,
    pub rebound: bool,
}

/// One map instance of a frame: its index, what the texture service gave
/// for its sprite sheet (texture and whether it was newly bound), and the
/// faces its walk emits.
pub type MapDraw = (usize, Option<(u32, bool)>, Seq<FaceInstance>);

pub open spec fn begin(s: BatchState) -> BatchState {
    BatchState { previous: s.emitted, emitted: seq![], rebound: false }
}

/// A map instance whose texture is missing is skipped whole.
pub open spec fn after_map(s: BatchState, d: MapDraw) -> BatchState {
    match d.1 {
        None => s,
        Some((t, newly)) => BatchState {
            previous: s.previous,
            emitted: s.emitted + tagged(t, d.0, d.2),
            rebound: s.rebound || newly,
        },
    }
}

pub open spec fn run_maps(s: BatchState, maps: Seq<MapDraw>) -> BatchState
    decreases maps.len(),
{
    if maps.len() == 0 {
        s
    } else {
        after_map(run_maps(s, maps.drop_last()), maps.last())
    }
}

/// A whole frame: start over, then add the map instances in order.
pub open spec fn run_frame(s: BatchState, maps: Seq<MapDraw>) -> BatchState {
    run_maps(begin(s), maps)
}

pub open spec fn any_rebound(maps: Seq<MapDraw>) -> bool {
    exists|i: int| 0 <= i < maps.len() && #[trigger] maps[i].1 matches Some((_, true))
}

/// Whether the frame's data must be uploaded anew: a texture was bound, or
/// the entries differ from those of the previous frame.
pub open spec fn dirty(s: BatchState) -> bool {
    s.rebound || s.emitted != s.previous
}

/// Distinct textures of `s`, in the order they first appear.
pub open spec fn textures_in_order(s: Seq<BatchEntry>) -> Seq<u32>
    decreases s.len(),
{
    if s.len() == 0 {
        seq![]
    } else {
        let prev = textures_in_order(s.drop_last());
        if prev.contains(s.last().texture) {
            prev
        } else {
            prev.push(s.last().texture)
        }
    }
}

/// The entries of `s` drawn with texture `t`, in order.
pub open spec fn entries_with(s: Seq<BatchEntry>, t: u32) -> Seq<BatchEntry>
    decreases s.len(),
{
    if s.len() == 0 {
        seq![]
    } else {
        let prev = entries_with(s.drop_last(), t);
        if s.last().texture == t {
            prev.push(s.last())
        } else {
            prev
        }
    }
}

proof fn lemma_run_maps_keeps(s1: BatchState, s2: BatchState, maps: Seq<MapDraw>)
    requires
        s1.emitted == s2.emitted,
        s1.rebound == s2.rebound,
    ensures
        run_maps(s1, maps).emitted == run_maps(s2, maps).emitted,
        run_maps(s1, maps).rebound == run_maps(s2, maps).rebound,
        run_maps(s1, maps).previous == s1.previous,
    decreases maps.len(),
{
    if maps.len() > 0 {
        lemma_run_maps_keeps(s1, s2, maps.drop_last());
    }
}

proof fn lemma_run_maps_rebound(s: BatchState, maps: Seq<MapDraw>)
    requires
        !s.rebound,
        !any_rebound(maps),
    ensures
        !run_maps(s, maps).rebound,
    decreases maps.len(),
{
    if maps.len() > 0 {
        let rest = maps.drop_last();
        assert forall|i: int| 0 <= i < rest.len() implies !(#[trigger] rest[i].1 matches Some(
            (_, true),
        )) by {
            assert(rest[i] == maps[i]);
        }
        lemma_run_maps_rebound(s, rest);
        assert(maps[maps.len() - 1] == maps.last());
    }
}

/// Assembling the same map instances twice in a row: the second frame
/// emits the same entries as the first, and it is clean unless the texture
/// service reported a newly bound texture.
pub proof fn lemma_rerun_is_clean(s: BatchState, maps: Seq<MapDraw>)
    ensures
        run_frame(run_frame(s, maps), maps).emitted == run_frame(s, maps).emitted,
        !any_rebound(maps) ==> !dirty(run_frame(run_frame(s, maps), maps)),
{
    let first = run_frame(s, maps);
    lemma_run_maps_keeps(begin(s), begin(first), maps);
    lemma_run_maps_keeps(begin(first), begin(first), maps);
    if !any_rebound(maps) {
        lemma_run_maps_rebound(begin(first), maps);
    }
}

/// Faces of one voxel, appended to `out`.
fn emit_voxel<V: Voxel, S: VoxelStorage<V>>(map: &VoxelMap<V, S>, p: Point3, out: &mut Vec<FaceInstance>)
    requires
        map.wf(),
    ensures
        final(out)@ == old(out)@ + voxel_faces(*map, p),
{
    let ghost start = out@;
    match map.get(&p) {
        None => {
            assert(out@ =~= start + voxel_faces(*map, p));
        },
        Some(v) => match v.texture(&p) {
            None => {
                assert(out@ =~= start + voxel_faces(*map, p));
            },
            Some(tex) => {
                let neighbors = map.get_neighbors(p);
                let culling = v.neighbor_culling(&p);
                let mut f: usize = 0;
                assert(out@ =~= start + voxel_faces_upto(*map, *v, p, tex, 0));
                while f < 6
                    invariant
                        f <= 6,
                        map.wf(),
                        culling == v.culling_spec(p),
                        forall|g: int| 0 <= g < 6 ==> neighbors[g] == map.neighbor_occupied(p, g),
                        out@ == start + voxel_faces_upto(*map, *v, p, tex, f as int),
                    decreases 6 - f,
                {
                    let ghost before = out@;
                    if !neighbors[f] || !culling[f] {
                        out.push(FaceInstance { sprite: tex[f], coordinate: p, face: f as u32 });
                    }
                    proof {
                        let prev = voxel_faces_upto(*map, *v, p, tex, f as int);
                        if !map.neighbor_occupied(p, f as int) || !v.culling_spec(p)[f as int] {
                            assert(out@ =~= start + prev.push(
                                FaceInstance { sprite: tex[f as int], coordinate: p, face: f as u32 },
                            ));
                        }
                    }
                    f = f + 1;
                }
            },
        },
    }
}

/// The faces a walk over `region` of `map` emits, in walk order.
pub fn collect_faces<V: Voxel, S: VoxelStorage<V>>(map: &VoxelMap<V, S>, region: &Bounds) -> (r: Vec<
    FaceInstance,
>)
    requires
        map.wf(),
    ensures
        r@ == map_faces(*map, *region),
{
    let pts = region.points();
    let mut out: Vec<FaceInstance> = Vec::new();
    let mut i: usize = 0;
    assert(pts@.subrange(0, 0) =~= seq![]);
    while i < pts.len()
        invariant
            i <= pts@.len(),
            map.wf(),
            out@ == faces_of(*map, pts@.subrange(0, i as int)),
        decreases pts@.len() - i,
    {
        proof {
            let next = pts@.subrange(0, i + 1);
            assert(next.drop_last() =~= pts@.subrange(0, i as int));
            assert(next.last() == pts@[i as int]);
        }
        emit_voxel(map, pts[i], &mut out);
        i = i + 1;
    }
    assert(pts@.subrange(0, pts@.len() as int) =~= pts@);
    out
}

/// The texture-grouped face batch of a frame, with what is needed to tell
/// whether it changed since the previous frame.
pub struct VoxelBatch {
    previous: Vec<BatchEntry>,
    emitted: Vec<BatchEntry>,
    rebound: bool,
}

impl View for VoxelBatch {
    type V = BatchState;

    closed spec fn view(&self) -> BatchState {
        BatchState { previous: self.previous@, emitted: self.emitted@, rebound: self.rebound }
    }
}

impl VoxelBatch {
    pub fn new() -> (r: VoxelBatch)
        ensures
            r@ == (BatchState { previous: seq![], emitted: seq![], rebound: false }),
    {
        VoxelBatch { previous: Vec::new(), emitted: Vec::new(), rebound: false }
    }

    /// Starts a frame: this frame's entries become the previous ones.
    pub fn begin_frame(&mut self)
        ensures
            final(self)@ == begin(old(self)@),
    {
        std::mem::swap(&mut self.previous, &mut self.emitted);
        self.emitted.clear();
        self.rebound = false;
    }

    /// Adds one map instance to the frame. `texture` is what the texture
    /// service gave for the map's sprite sheet: the texture and whether it
    /// was newly bound, or `None` when it is missing, in which case the
    /// whole instance is skipped. Returns the box that was walked.
    pub fn prepare_map<V: Voxel, S: VoxelStorage<V>>(
        &mut self,
        map_index: usize,
        map: &VoxelMap<V, S>,
        requested: Option<Bounds>,
        texture: Option<(u32, bool)>,
    ) -> (region: Bounds)
        requires
            map.wf(),
        ensures
            resolves(requested, map.spec_bounds(), region),
            final(self)@ == after_map(old(self)@, (map_index, texture, map_faces(*map, region))),
    {
        let region = clamp_render_bounds(requested, map.bounds());
        if let Some((t, newly)) = texture {
            let faces = collect_faces(map, &region);
            let ghost start = self.emitted@;
            let mut i: usize = 0;
            while i < faces.len()
                invariant
                    i <= faces@.len(),
                    self.emitted@ == start + tagged(t, map_index, faces@.subrange(0, i as int)),
                    self.previous@ == old(self).previous@,
                    self.rebound == old(self).rebound,
                decreases faces@.len() - i,
            {
                self.emitted.push(BatchEntry { texture: t, map_index, instance: faces[i] });
                proof {
                    assert(tagged(t, map_index, faces@.subrange(0, i + 1)) =~= tagged(
                        t,
                        map_index,
                        faces@.subrange(0, i as int),
                    ).push(BatchEntry { texture: t, map_index, instance: faces@[i as int] }));
                }
                i = i + 1;
            }
            assert(faces@.subrange(0, faces@.len() as int) =~= faces@);
            self.rebound = self.rebound || newly;
        }
        region
    }

    /// Whether the frame must be uploaded anew: a texture was newly bound
    /// during it, or its entries differ from the previous frame's.
    pub fn changed(&self) -> (r: bool)
        ensures
            r == dirty(self@),
    {
        if self.rebound {
            return true;
        }
        if self.previous.len() != self.emitted.len() {
            return true;
        }
        let mut i: usize = 0;
        while i < self.emitted.len()
            invariant
                i <= self.emitted@.len(),
                self.previous@.len() == self.emitted@.len(),
                forall|k: int| 0 <= k < i ==> self.previous@[k] == self.emitted@[k],
            decreases self.emitted@.len() - i,
        {
            if self.previous[i] != self.emitted[i] {
                return true;
            }
            i = i + 1;
        }
        assert(self.previous@ =~= self.emitted@);
        false
    }

    /// Number of entries in the frame.
    pub fn count(&self) -> (r: usize)
        ensures
            r == self@.emitted.len(),
    {
        self.emitted.len()
    }

    /// The frame's entries grouped by texture: one group per texture, in
    /// the order textures first appear, each keeping emission order.
    pub fn groups(&self) -> (r: Vec<TextureGroup>)
        ensures
            r@.len() == textures_in_order(self@.emitted).len(),
            forall|k: int|
                0 <= k < r@.len() ==> (#[trigger] r@[k]).texture == textures_in_order(
                    self@.emitted,
                )[k] && r@[k].entries@ == entries_with(self@.emitted, r@[k].texture),
    {
        let n = self.emitted.len();
        let mut textures: Vec<u32> = Vec::new();
        let mut i: usize = 0;
        assert(self.emitted@.subrange(0, 0) =~= seq![]);
        while i < n
            invariant
                n == self.emitted@.len(),
                i <= n,
                textures@ == textures_in_order(self.emitted@.subrange(0, i as int)),
            decreases n - i,
        {
            let t = self.emitted[i].texture;
            let mut found = false;
            let mut j: usize = 0;
            while j < textures.len()
                invariant
                    j <= textures@.len(),
                    found <==> exists|k: int| 0 <= k < j && textures@[k] == t,
                decreases textures@.len() - j,
            {
                if textures[j] == t {
                    found = true;
                }
                j = j + 1;
            }
            proof {
                let next = self.emitted@.subrange(0, i + 1);
                assert(next.drop_last() =~= self.emitted@.subrange(0, i as int));
                assert(next.last() == self.emitted@[i as int]);
                if found {
                    let k = choose|k: int| 0 <= k < j && textures@[k] == t;
                    assert(textures@.contains(t));
                }
            }
            if !found {
                textures.push(t);
            }
            i = i + 1;
        }
        assert(self.emitted@.subrange(0, n as int) =~= self.emitted@);
        let mut out: Vec<TextureGroup> = Vec::new();
        let mut k: usize = 0;
        while k < textures.len()
            invariant
                n == self.emitted@.len(),
                textures@ == textures_in_order(self.emitted@),
                k <= textures@.len(),
                out@.len() == k,
                forall|m: int|
                    0 <= m < k ==> (#[trigger] out@[m]).texture == textures@[m] && out@[m].entries@
                        == entries_with(self.emitted@, out@[m].texture),
            decreases textures@.len() - k,
        {
            let t = textures[k];
            let mut es: Vec<BatchEntry> = Vec::new();
            let mut i: usize = 0;
            while i < n
                invariant
                    n == self.emitted@.len(),
                    i <= n,
                    es@ == entries_with(self.emitted@.subrange(0, i as int), t),
                decreases n - i,
            {
                proof {
                    let next = self.emitted@.subrange(0, i + 1);
                    assert(next.drop_last() =~= self.emitted@.subrange(0, i as int));
                    assert(next.last() == self.emitted@[i as int]);
                }
                if self.emitted[i].texture == t {
                    es.push(self.emitted[i]);
                }
                i = i + 1;
            }
            assert(self.emitted@.subrange(0, n as int) =~= self.emitted@);
            out.push(TextureGroup { texture: t, entries: es });
            k = k + 1;
        }
        out
    }
}

/// Number of per-map uniform slots to keep for a frame that draws
/// `needed` map instances with `current` slots: grow when short, shrink
/// once at most half of the slots would be used, keep otherwise.
pub fn pool_len(current: usize, needed: usize) -> (r: usize)
    ensures
        r == if current < needed || needed <= current / 2 {
            needed
        } else {
            current
        },
{
    if current < needed || needed <= current / 2 {
        needed
    } else {
        current
    }
}

/// Whether `runs` splits `entries` into maximal runs of one map instance:
/// `(map_index, start, end)` in order, covering every entry once.
pub open spec fn splits_by_map(entries: Seq<BatchEntry>, runs: Seq<(usize, usize, usize)>) -> bool {
    &&& (runs.len() == 0 <==> entries.len() == 0)
    &&& runs.len() > 0 ==> runs[0].1 == 0 && runs.last().2 == entries.len()
    &&& forall|k: int| 0 <= k < runs.len() ==> (#[trigger] runs[k]).1 < runs[k].2
    &&& forall|k: int| 0 <= k < runs.len() - 1 ==> (#[trigger] runs[k]).2 == runs[k + 1].1
        && runs[k].0 != runs[k + 1].0
    &&& forall|k: int, i: int|
        0 <= k < runs.len() && runs[k].1 <= i < runs[k].2 ==> (#[trigger] entries[i]).map_index
            == (#[trigger] runs[k]).0
}

/// The runs of one map instance within a group, each drawn with that
/// instance's uniform slot.
pub fn map_runs(entries: &Vec<BatchEntry>) -> (r: Vec<(usize, usize, usize)>)
    ensures
        splits_by_map(entries@, r@),
{
    let mut out: Vec<(usize, usize, usize)> = Vec::new();
    let mut i: usize = 0;
    while i < entries.len()
        invariant
            i <= entries@.len(),
            out@.len() == 0 <==> i == 0,
            out@.len() > 0 ==> out@[0].1 == 0 && out@.last().2 == i,
            forall|k: int| 0 <= k < out@.len() ==> (#[trigger] out@[k]).1 < out@[k].2,
            forall|k: int|
                0 <= k < out@.len() - 1 ==> (#[trigger] out@[k]).2 == out@[k + 1].1 && out@[k].0
                    != out@[k + 1].0,
            forall|k: int, j: int|
                0 <= k < out@.len() && out@[k].1 <= j < out@[k].2 ==> (#[trigger] entries@[j]).map_index
                    == (#[trigger] out@[k]).0,
        decreases entries@.len() - i,
    {
        let m = entries[i].map_index;
        let n = out.len();
        let ghost before = out@;
        if n == 0 || out[n - 1].0 != m {
            out.push((m, i, i + 1));
            proof {
                assert forall|k: int, j: int|
                    0 <= k < out@.len() && out@[k].1 <= j < out@[k].2 implies (
                    #[trigger] entries@[j]).map_index == (#[trigger] out@[k]).0 by {
                    if k < before.len() {
                        assert(out@[k] == before[k]);
                    }
                }
                assert forall|k: int| 0 <= k < out@.len() - 1 implies (#[trigger] out@[k]).2
                    == out@[k + 1].1 && out@[k].0 != out@[k + 1].0 by {
                    assert(out@[k] == before[k]);
                    if k + 1 < before.len() {
                        assert(out@[k + 1] == before[k + 1]);
                    }
                }
            }
        } else {
            let (lm, ls, _) = out[n - 1];
            out.set(n - 1, (lm, ls, i + 1));
            proof {
                assert forall|k: int, j: int|
                    0 <= k < out@.len() && out@[k].1 <= j < out@[k].2 implies (
                    #[trigger] entries@[j]).map_index == (#[trigger] out@[k]).0 by {
                    if k < n - 1 {
                        assert(out@[k] == before[k]);
                    } else if j < i {
                        assert(before[k].1 <= j < before[k].2);
                    }
                }
                assert forall|k: int| 0 <= k < out@.len() - 1 implies (#[trigger] out@[k]).2
                    == out@[k + 1].1 && out@[k].0 != out@[k + 1].0 by {
                    assert(out@[k] == before[k]);
                }
            }
        }
        i = i + 1;
    }
    out
}

} // verus!
