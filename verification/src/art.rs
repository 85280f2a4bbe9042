//! The geometry arena and the art catalogue: fixed-capacity vertex and
//! index storage that the rail generator and the mesh importer append
//! into, plus the per-art index ranges the renderer draws from.

use vstd::prelude::*;
use std::borrow::ToOwned;
use std::string::String;
use crate::geom::{Vec2i, in_range, dist, dist_spec, div_floor};
use crate::geom;
use crate::track::{Track, track_len_spec, track_point_spec};
use crate::curve::{BezierCurve, curve_wf};
use vstd::arithmetic::mul::lemma_mul_inequality;
use vstd::arithmetic::div_mod::{lemma_div_is_ordered, lemma_fundamental_div_mod};

verus! {

/// How many bytes the scene texture holds: a 16 by 16 RGBA image.
pub const IMAGE_SIZE: usize = 1024;

/// The fixed capacity of the vertex arena.
pub const VERTEX_COUNT: usize = 16000;

/// The fixed capacity of the index arena.
pub const INDEX_COUNT: usize = 32000;

/// How many Bezier segments the packed track carries.
pub const TRACK_SEGMENTS: usize = 3;

/// A bound on every component of a vertex the arena accepts.
pub const VERT_LIMIT: i64 = 4194304;

/// The identifiers of the drawable meshes.
#[derive(Clone, Copy, PartialEq, Eq, Structural, Debug)]
pub enum Art {
    Cart,
    Train,
    Wheel,
    Gun,
}

/// Which art identifier a mesh name of the interchange scene stands for.
pub open spec fn art_of_name(name: Seq<char>) -> Option<Art> {
    if name == "cart"@ {
        Some(Art::Cart)
    } else if name == "train"@ {
        Some(Art::Train)
    } else if name == "wheel"@ {
        Some(Art::Wheel)
    } else if name == "gun"@ {
        Some(Art::Gun)
    } else {
        None
    }
}

/// What can go wrong while filling the arena or the art catalogue.
#[derive(Clone, Copy, PartialEq, Eq, Structural, Debug)]
pub enum ArtError {
    /// A mesh name of the interchange scene matches no art identifier.
    UnknownMesh,
    /// An expected mesh never arrived, so the catalogue cannot be closed.
    MissingMesh,
    /// An append would step past the arena's fixed capacity.
    GeometryOverflow,
}

/// A `(start, count)` span of the shared index arena.
#[derive(Clone, Copy, PartialEq, Eq, Structural, Debug)]
pub struct IndexRange {
    pub start: u32,
    pub count: u32,
}

/// The index range of every art in the shared index arena.
#[derive(Clone, Copy, PartialEq, Eq, Structural, Debug)]
pub struct ArtIndices {
    pub cart: IndexRange,
    pub train: IndexRange,
    pub wheel: IndexRange,
    pub gun: IndexRange,
}

/// The index range recorded for one art identifier.
pub open spec fn art_range(ai: ArtIndices, art: Art) -> IndexRange {
    match art {
        Art::Cart => ai.cart,
        Art::Train => ai.train,
        Art::Wheel => ai.wheel,
        Art::Gun => ai.gun,
    }
}

impl Default for ArtIndices {
    /// An empty catalogue: every range is zero.
    fn default() -> (r: ArtIndices)
        ensures
            r.cart == (IndexRange { start: 0, count: 0 }),
            r.train == (IndexRange { start: 0, count: 0 }),
            r.wheel == (IndexRange { start: 0, count: 0 }),
            r.gun == (IndexRange { start: 0, count: 0 }),
    {
        let zero = IndexRange { start: 0, count: 0 };
        ArtIndices { cart: zero, train: zero, wheel: zero, gun: zero }
    }
}

impl ArtIndices {
    /// Returns the index range for this art.
    pub fn indices(&self, art: Art) -> (r: IndexRange)
        ensures
            r == art_range(*self, art),
    {
        match art {
            Art::Cart => self.cart,
            Art::Train => self.train,
            Art::Wheel => self.wheel,
            Art::Gun => self.gun,
        }
    }
}

/// Collects the per-art index ranges while the importer walks the meshes of
/// an interchange scene, rejecting names that match no art.
#[derive(Clone, Copy, PartialEq, Eq, Structural, Debug)]
pub struct ArtIndicesBuilder {
    pub cart: Option<IndexRange>,
    pub train: Option<IndexRange>,
    pub wheel: Option<IndexRange>,
    pub gun: Option<IndexRange>,
}

impl Default for ArtIndicesBuilder {
    /// A builder with no range recorded yet.
    fn default() -> (r: ArtIndicesBuilder)
        ensures
            r.cart is None,
            r.train is None,
            r.wheel is None,
            r.gun is None,
    {
        ArtIndicesBuilder { cart: None, train: None, wheel: None, gun: None }
    }
}

impl ArtIndicesBuilder {
    /// Records the index range of the mesh called `name`. A name that is no
    /// mesh of the scene is rejected and changes nothing.
    pub fn insert(&mut self, name: &String, start: u32, num: u32) -> (r: Result<(), ArtError>)
        ensures
            r is Ok <==> art_of_name(name@) is Some,
            r is Err ==> r == Err::<(), ArtError>(ArtError::UnknownMesh) && *final(self) == *old(self),
            final(self).cart == if art_of_name(name@) == Some(Art::Cart) {
                Some(IndexRange { start, count: num })
            } else {
                old(self).cart
            },
            final(self).train == if art_of_name(name@) == Some(Art::Train) {
                Some(IndexRange { start, count: num })
            } else {
                old(self).train
            },
            final(self).wheel == if art_of_name(name@) == Some(Art::Wheel) {
                Some(IndexRange { start, count: num })
            } else {
                old(self).wheel
            },
            final(self).gun == if art_of_name(name@) == Some(Art::Gun) {
                Some(IndexRange { start, count: num })
            } else {
                old(self).gun
            },
    {
        proof {
            reveal_strlit("cart");
            reveal_strlit("train");
            reveal_strlit("wheel");
            reveal_strlit("gun");
        }
        if name.eq(&"cart".to_owned()) {
            self.cart = Some(IndexRange { start, count: num });
            Ok(())
        } else if name.eq(&"train".to_owned()) {
            self.train = Some(IndexRange { start, count: num });
            Ok(())
        } else if name.eq(&"wheel".to_owned()) {
            self.wheel = Some(IndexRange { start, count: num });
            Ok(())
        } else if name.eq(&"gun".to_owned()) {
            self.gun = Some(IndexRange { start, count: num });
            Ok(())
        } else {
            Err(ArtError::UnknownMesh)
        }
    }

    /// Closes the catalogue once every art has its range; reports the
    /// catalogue incomplete otherwise.
    pub fn finish(self) -> (r: Result<ArtIndices, ArtError>)
        ensures
            r is Ok <==> self.cart is Some && self.train is Some && self.wheel is Some
                && self.gun is Some,
            r matches Ok(ai) ==> self.cart == Some(ai.cart) && self.train == Some(ai.train)
                && self.wheel == Some(ai.wheel) && self.gun == Some(ai.gun),
            r is Err ==> r == Err::<ArtIndices, ArtError>(ArtError::MissingMesh),
    {
        match (self.cart, self.train, self.wheel, self.gun) {
            (Some(cart), Some(train), Some(wheel), Some(gun)) => {
                Ok(ArtIndices { cart, train, wheel, gun })
            },
            _ => Err(ArtError::MissingMesh),
        }
    }
}

/// A point or direction of the 3D mesh data, in fixed-point milliunits.
#[derive(Clone, Copy, PartialEq, Eq, Structural, Debug)]
pub struct Vec3i {
    pub x: i64,
    pub y: i64,
    pub z: i64,
}

/// One mesh vertex: a position, a normal and a texture coordinate, all in
/// fixed-point milliunits.
#[derive(Clone, Copy, PartialEq, Eq, Structural, Debug)]
pub struct Vertex {
    pub pos: Vec3i,
    pub norm: Vec3i,
    pub uv: Vec2i,
}

impl Default for Vertex {
    /// The zero vertex unused arena slots hold.
    fn default() -> (r: Vertex)
        ensures
            r == zero_vertex(),
    {
        Vertex {
            pos: Vec3i { x: 0, y: 0, z: 0 },
            norm: Vec3i { x: 0, y: 0, z: 0 },
            uv: Vec2i { x: 0, y: 0 },
        }
    }
}

/// Every component of a vertex the arena accepts is bounded.
pub open spec fn vert_wf(v: Vertex) -> bool {
    &&& -VERT_LIMIT <= v.pos.x <= VERT_LIMIT
    &&& -VERT_LIMIT <= v.pos.y <= VERT_LIMIT
    &&& -VERT_LIMIT <= v.pos.z <= VERT_LIMIT
    &&& -VERT_LIMIT <= v.norm.x <= VERT_LIMIT
    &&& -VERT_LIMIT <= v.norm.y <= VERT_LIMIT
    &&& -VERT_LIMIT <= v.norm.z <= VERT_LIMIT
    &&& -VERT_LIMIT <= v.uv.x <= VERT_LIMIT
    &&& -VERT_LIMIT <= v.uv.y <= VERT_LIMIT
}

/// The vertex every unused arena slot holds.
pub open spec fn zero_vertex() -> Vertex {
    Vertex {
        pos: Vec3i { x: 0, y: 0, z: 0 },
        norm: Vec3i { x: 0, y: 0, z: 0 },
        uv: Vec2i { x: 0, y: 0 },
    }
}

/// The packed scene data: the texture image, the geometry arena with its
/// fill state, the art catalogue, and the track with the index range of its
/// generated rail geometry.
pub struct ArtData {
    pub image: Vec<u8>,
    pub vertices: Vec<Vertex>,
    pub indices: Vec<u16>,
    pub art_indices: ArtIndices,
    pub track_indices: IndexRange,
    pub track: Track,
}

impl ArtData {
    /// The arena's invariant: the image has its fixed size, the occupied
    /// prefixes of both arenas respect their capacities, every stored
    /// vertex is bounded, every stored index points into the vertex arena,
    /// and the track holds its fixed number of well-formed segments.
    pub open spec fn wf(self) -> bool {
        &&& self.image@.len() == IMAGE_SIZE
        &&& self.vertices@.len() <= VERTEX_COUNT
        &&& forall|i: int| 0 <= i < self.vertices@.len() ==> vert_wf(#[trigger] self.vertices@[i])
        &&& self.indices@.len() <= INDEX_COUNT
        &&& forall|i: int| 0 <= i < self.indices@.len()
            ==> (#[trigger] self.indices@[i]) < VERTEX_COUNT as u16
        &&& self.track.segments@.len() == TRACK_SEGMENTS
        &&& self.track.wf()
    }
}

impl Default for ArtData {
    /// An empty scene: a black image, empty arenas, an empty catalogue and
    /// a track of degenerate segments resting at the origin.
    fn default() -> (r: ArtData)
        ensures
            r.wf(),
            r.image@ == Seq::new(IMAGE_SIZE as nat, |i: int| 0u8),
            r.vertices@ == Seq::<Vertex>::empty(),
            r.indices@ == Seq::<u16>::empty(),
            r.art_indices == (ArtIndices {
                cart: IndexRange { start: 0, count: 0 },
                train: IndexRange { start: 0, count: 0 },
                wheel: IndexRange { start: 0, count: 0 },
                gun: IndexRange { start: 0, count: 0 },
            }),
            r.track_indices == (IndexRange { start: 0, count: 0 }),
            r.track.segments@.len() == TRACK_SEGMENTS,
            forall|i: int| 0 <= i < TRACK_SEGMENTS ==> #[trigger] r.track.segments@[i]
                == zero_curve(),
    {
        let mut image: Vec<u8> = Vec::new();
        let mut i: usize = 0;
        while i < IMAGE_SIZE
            invariant
                i <= IMAGE_SIZE,
                image@.len() == i,
                forall|j: int| 0 <= j < i ==> image@[j] == 0u8,
            decreases IMAGE_SIZE - i,
        {
            image.push(0);
            i = i + 1;
        }
        let track = Track::default();
        proof {
            assert(image@ =~= Seq::new(IMAGE_SIZE as nat, |j: int| 0u8));
        }
        let zero_range = IndexRange { start: 0, count: 0 };
        ArtData {
            image,
            vertices: Vec::new(),
            indices: Vec::new(),
            art_indices: ArtIndices {
                cart: zero_range,
                train: zero_range,
                wheel: zero_range,
                gun: zero_range,
            },
            track_indices: zero_range,
            track,
        }
    }
}

/// The degenerate segment an empty scene's track is made of.
pub open spec fn zero_curve() -> BezierCurve {
    BezierCurve {
        start: Vec2i { x: 0, y: 0 },
        left: Vec2i { x: 0, y: 0 },
        right: Vec2i { x: 0, y: 0 },
        end: Vec2i { x: 0, y: 0 },
    }
}

impl ArtData {
    /// Appends a vertex and hands back its stable slot, or reports the
    /// arena full and changes nothing.
    pub fn add_vert(&mut self, vert: Vertex) -> (r: Result<u16, ArtError>)
        requires
            old(self).wf(),
            vert_wf(vert),
        ensures
            final(self).wf(),
            final(self).image == old(self).image,
            final(self).indices == old(self).indices,
            final(self).art_indices == old(self).art_indices,
            final(self).track_indices == old(self).track_indices,
            final(self).track == old(self).track,
            match r {
                Ok(slot) => old(self).vertices@.len() < VERTEX_COUNT
                    && slot == old(self).vertices@.len()
                    && final(self).vertices@ == old(self).vertices@.push(vert),
                Err(e) => e == ArtError::GeometryOverflow
                    && old(self).vertices@.len() == VERTEX_COUNT
                    && final(self).vertices == old(self).vertices,
            },
    {
        if self.vertices.len() < VERTEX_COUNT {
            let slot = self.vertices.len() as u16;
            self.vertices.push(vert);
            Ok(slot)
        } else {
            Err(ArtError::GeometryOverflow)
        }
    }

    /// Appends a vertex the caller has shown room for.
    fn push_vert(&mut self, vert: Vertex)
        requires
            old(self).wf(),
            vert_wf(vert),
            old(self).vertices@.len() < VERTEX_COUNT,
        ensures
            final(self).wf(),
            final(self).image == old(self).image,
            final(self).indices == old(self).indices,
            final(self).art_indices == old(self).art_indices,
            final(self).track_indices == old(self).track_indices,
            final(self).track == old(self).track,
            final(self).vertices@ == old(self).vertices@.push(vert),
    {
        self.vertices.push(vert);
    }

    /// Appends an index the caller has shown room for.
    fn push_index(&mut self, index: u16)
        requires
            old(self).wf(),
            index < VERTEX_COUNT as u16,
            old(self).indices@.len() < INDEX_COUNT,
        ensures
            final(self).wf(),
            final(self).image == old(self).image,
            final(self).vertices == old(self).vertices,
            final(self).art_indices == old(self).art_indices,
            final(self).track_indices == old(self).track_indices,
            final(self).track == old(self).track,
            final(self).indices@ == old(self).indices@.push(index),
    {
        self.indices.push(index);
    }

    /// Appends an index pointing at an occupied or future vertex slot, or
    /// reports the arena full and changes nothing.
    pub fn add_index(&mut self, index: u16) -> (r: Result<(), ArtError>)
        requires
            old(self).wf(),
            index < VERTEX_COUNT as u16,
        ensures
            final(self).wf(),
            final(self).image == old(self).image,
            final(self).vertices == old(self).vertices,
            final(self).art_indices == old(self).art_indices,
            final(self).track_indices == old(self).track_indices,
            final(self).track == old(self).track,
            match r {
                Ok(()) => old(self).indices@.len() < INDEX_COUNT
                    && final(self).indices@ == old(self).indices@.push(index),
                Err(e) => e == ArtError::GeometryOverflow
                    && old(self).indices@.len() == INDEX_COUNT
                    && final(self).indices == old(self).indices,
            },
    {
        if self.indices.len() < INDEX_COUNT {
            self.indices.push(index);
            Ok(())
        } else {
            Err(ArtError::GeometryOverflow)
        }
    }
}

/// Scaling a component that the distance dominates keeps the quotient
/// within the scale.
proof fn lemma_scaled_div_bound(a: int, hl: int, half: int)
    requires
        0 < hl,
        0 <= half,
        -hl <= a <= hl,
    ensures
        -half <= (a * half) / hl <= half,
{
    lemma_mul_inequality(a, hl, half);
    lemma_mul_inequality(-hl, a, half);
    lemma_div_is_ordered(a * half, hl * half, hl);
    lemma_div_is_ordered((-hl) * half, a * half, hl);
    assert(hl * half == half * hl) by (nonlinear_arith);
    assert((-hl) * half == (-half) * hl) by (nonlinear_arith);
    geom::lemma_mul_div_exact(half, hl);
    geom::lemma_mul_div_exact(-half, hl);
}

/// The perpendicular offset of the given half width beside a tangent
/// direction: the direction's quarter turn, scaled down to `half` length.
/// A degenerate direction yields no offset.
pub open spec fn quad_offset_spec(d: Vec2i, half: int) -> Vec2i {
    let hl = dist_spec(d, Vec2i { x: 0, y: 0 });
    if hl > 0 {
        Vec2i { x: ((-d.y * half) / hl) as i64, y: ((d.x * half) / hl) as i64 }
    } else {
        Vec2i { x: 0, y: 0 }
    }
}

/// Computes the perpendicular offset beside a tangent direction. Both
/// components stay within the half width.
fn quad_offset(d: Vec2i, half: i64) -> (r: Vec2i)
    requires
        -4194304 <= d.x <= 4194304,
        -4194304 <= d.y <= 4194304,
        1 <= half <= 2000,
    ensures
        r == quad_offset_spec(d, half as int),
        -half <= r.x <= half,
        -half <= r.y <= half,
{
    let zero = Vec2i { x: 0, y: 0 };
    let hl = dist(d, zero);
    if hl > 0 {
        proof {
            geom::lemma_dist_dominates_components(d, zero);
            lemma_scaled_div_bound(-d.y as int, hl as int, half as int);
            lemma_scaled_div_bound(d.x as int, hl as int, half as int);
            assert(-0x2000000000000000 <= -d.y * half <= 0x2000000000000000
                && -0x2000000000000000 <= d.x * half <= 0x2000000000000000)
                by (nonlinear_arith)
                requires -4194304 <= d.x <= 4194304, -4194304 <= d.y <= 4194304,
                    0 <= half <= 2000;
        }
        let x = div_floor(-d.y * half, hl);
        let y = div_floor(d.x * half, hl);
        Vec2i { x, y }
    } else {
        zero
    }
}

/// The texture-coordinate perturbation one normalized component of a rail
/// corner contributes: the absolute value of the component over the point's
/// distance from the origin, sixty-fourths.
pub open spec fn uv_part_spec(c: int, plen: int) -> int {
    if plen > 0 {
        ((if c < 0 { -c } else { c }) * 1000) / (plen * 64)
    } else {
        0
    }
}

/// The perturbation is tiny: less than a sixty-fourth of full scale.
proof fn lemma_uv_part_bound(c: int, plen: int)
    requires
        -plen <= c <= plen || plen <= 0,
    ensures
        0 <= uv_part_spec(c, plen) <= 15,
{
    if plen > 0 {
        let a = if c < 0 { -c } else { c };
        let b = plen * 64;
        assert(b >= 64) by (nonlinear_arith)
            requires plen >= 1, b == plen * 64;
        lemma_mul_inequality(a, plen, 1000);
        assert(plen * 1000 < 16 * b) by (nonlinear_arith)
            requires b == plen * 64, plen >= 1;
        geom::lemma_div_bounds(a * 1000, b);
        assert(a * 1000 >= 0) by (nonlinear_arith)
            requires a >= 0;
        let q = (a * 1000) / b;
        lemma_fundamental_div_mod(a * 1000, b);
        if q >= 16 {
            assert(b * q >= 16 * b) by (nonlinear_arith)
                requires q >= 16, b >= 1;
        }
    }
}

/// The corner vertex of a rail quad at a ground point: the point lifted
/// into the ground plane, an upward normal, and the rail texture tile with
/// a small perturbation taken from the normalized position.
pub open spec fn rail_vert_spec(p: Vec2i) -> Vertex {
    let plen = dist_spec(p, Vec2i { x: 0, y: 0 });
    Vertex {
        pos: Vec3i { x: p.x, y: 0, z: p.y },
        norm: Vec3i { x: 0, y: 1000, z: 0 },
        uv: Vec2i {
            x: (125 + uv_part_spec(p.x as int, plen)) as i64,
            y: uv_part_spec(p.y as int, plen) as i64,
        },
    }
}

/// Builds the corner vertex of a rail quad.
fn rail_vert(p: Vec2i) -> (r: Vertex)
    requires
        -4194304 <= p.x <= 4194304,
        -4194304 <= p.y <= 4194304,
    ensures
        r == rail_vert_spec(p),
        vert_wf(r),
{
    let zero = Vec2i { x: 0, y: 0 };
    let plen = dist(p, zero);
    proof {
        geom::lemma_dist_dominates_components(p, zero);
        lemma_uv_part_bound(p.x as int, plen as int);
        lemma_uv_part_bound(p.y as int, plen as int);
    }
    let (u, v) = if plen > 0 {
        let ax = if p.x < 0 { -p.x } else { p.x };
        let ay = if p.y < 0 { -p.y } else { p.y };
        (div_floor(ax * 1000, plen * 64), div_floor(ay * 1000, plen * 64))
    } else {
        (0, 0)
    };
    Vertex {
        pos: Vec3i { x: p.x, y: 0, z: p.y },
        norm: Vec3i { x: 0, y: 1000, z: 0 },
        uv: Vec2i { x: 125 + u, y: v },
    }
}

/// How wide half a rail quad is, in milliunits.
pub const RAIL_QUAD_HALF: i64 = 100;

/// How far each rail sits beside the track centerline, in milliunits.
pub const RAIL_OFFSET: i64 = 1200;

/// The four corner vertices one rail quad between `from` and `to` adds, in
/// arena order: both corners beside `from`, then both beside `to`.
pub open spec fn line_verts_spec(from: Vec2i, to: Vec2i) -> Seq<Vertex> {
    let off = quad_offset_spec(geom::sub_spec(from, to), RAIL_QUAD_HALF as int);
    seq![
        rail_vert_spec(geom::sub_spec(from, off)),
        rail_vert_spec(geom::add_spec(from, off)),
        rail_vert_spec(geom::sub_spec(to, off)),
        rail_vert_spec(geom::add_spec(to, off)),
    ]
}

/// The six indices of the two triangles of a quad whose corners start at
/// vertex slot `base`.
pub open spec fn line_indices_spec(base: int) -> Seq<u16> {
    seq![
        base as u16,
        (base + 1) as u16,
        (base + 2) as u16,
        (base + 2) as u16,
        (base + 3) as u16,
        (base + 1) as u16,
    ]
}

impl ArtData {
    /// Emits one rail quad of fixed thickness between two ground points:
    /// four vertices and the six indices of its two triangles.
    #[verifier::rlimit(100)]
    fn line(&mut self, from: Vec2i, to: Vec2i)
        requires
            old(self).wf(),
            old(self).vertices@.len() + 4 <= VERTEX_COUNT,
            old(self).indices@.len() + 6 <= INDEX_COUNT,
            -2000000 <= from.x <= 2000000,
            -2000000 <= from.y <= 2000000,
            -2000000 <= to.x <= 2000000,
            -2000000 <= to.y <= 2000000,
        ensures
            final(self).wf(),
            final(self).image == old(self).image,
            final(self).art_indices == old(self).art_indices,
            final(self).track_indices == old(self).track_indices,
            final(self).track == old(self).track,
            final(self).vertices@ == old(self).vertices@ + line_verts_spec(from, to),
            final(self).indices@ == old(self).indices@
                + line_indices_spec(old(self).vertices@.len() as int),
        {
        let base = self.vertices.len() as u16;
        let d = from.sub(to);
        let off = quad_offset(d, RAIL_QUAD_HALF);
        self.push_vert(rail_vert(from.sub(off)));
        self.push_vert(rail_vert(from.add(off)));
        self.push_vert(rail_vert(to.sub(off)));
        self.push_vert(rail_vert(to.add(off)));
        self.push_index(base);
        self.push_index(base + 1);
        self.push_index(base + 2);
        self.push_index(base + 2);
        self.push_index(base + 3);
        self.push_index(base + 1);
        proof {
            assert(self.vertices@ =~= old(self).vertices@ + line_verts_spec(from, to));
            assert(self.indices@ =~= old(self).indices@
                + line_indices_spec(old(self).vertices@.len() as int));
        }
    }
}

/// How many centerline samples the rail generator takes: the total track
/// length rounded to whole world units, and at least two.
pub open spec fn rail_count_spec(t: Track) -> int {
    let c = (track_len_spec(t) + 500) / 1000;
    if c < 2 {
        2
    } else {
        c
    }
}

/// The centerline sample with index `i` of `count`, spread evenly over the
/// whole track.
pub open spec fn rail_sample_spec(t: Track, count: int, i: int) -> Vec2i {
    track_point_spec(t, i, count - 1)
}

/// The sample index whose point serves as the tangent partner of sample
/// `i`: the next sample, wrapping the last back to the second.
pub open spec fn rail_wrap(count: int, i: int) -> int {
    if i == count - 1 {
        1
    } else {
        i + 1
    }
}

/// The point behind sample `i` that the tangent estimate leans on: the
/// previous sample, or the track's end for the first one.
pub open spec fn rail_before_spec(t: Track, count: int, i: int) -> Vec2i {
    if i == 0 {
        rail_sample_spec(t, count, count - 1)
    } else {
        rail_sample_spec(t, count, i - 1)
    }
}

/// The rail offset at sample `i`: perpendicular to the local tangent,
/// `RAIL_OFFSET` long, with a fixed fallback where the tangent collapses.
pub open spec fn rail_offset_spec(t: Track, count: int, i: int) -> Vec2i {
    let d = geom::sub_spec(rail_before_spec(t, count, i),
        rail_sample_spec(t, count, rail_wrap(count, i)));
    let o = quad_offset_spec(d, RAIL_OFFSET as int);
    if o == (Vec2i { x: 0, y: 0 }) {
        Vec2i { x: RAIL_OFFSET, y: 0 }
    } else {
        o
    }
}

/// The first `k` centerline samples, in order.
pub open spec fn rail_points_spec(t: Track, count: int, k: int) -> Seq<Vec2i>
    decreases k,
{
    if k <= 0 {
        Seq::empty()
    } else {
        rail_points_spec(t, count, k - 1).push(rail_sample_spec(t, count, k - 1))
    }
}

/// The vertices the first `k` rail quads add to the arena.
pub open spec fn rail_verts_upto(t: Track, count: int, k: int) -> Seq<Vertex>
    decreases k,
{
    if k <= 0 {
        Seq::empty()
    } else {
        let m = rail_sample_spec(t, count, k - 1);
        let o = rail_offset_spec(t, count, k - 1);
        rail_verts_upto(t, count, k - 1)
            + line_verts_spec(geom::add_spec(m, o), geom::sub_spec(m, o))
    }
}

/// The indices the first `k` rail quads add, with quad corners starting at
/// vertex slot `base`.
pub open spec fn rail_indices_upto(base: int, k: int) -> Seq<u16>
    decreases k,
{
    if k <= 0 {
        Seq::empty()
    } else {
        rail_indices_upto(base, k - 1) + line_indices_spec(base + 4 * (k - 1))
    }
}

impl ArtData {
    /// Turns the track into rail geometry: samples the centerline once per
    /// world unit of length, emits one rail quad beside each sample on
    /// either rail offset, records the covered index range, and returns the
    /// centerline samples for the path follower. Emits exactly four
    /// vertices and six indices per sample; reports an overflow, and
    /// changes nothing, when the arena cannot hold them.
    #[verifier::rlimit(100)]
    pub fn make_track(&mut self) -> (r: Result<Vec<Vec2i>, ArtError>)
        requires
            old(self).wf(),
        ensures
            final(self).wf(),
            final(self).image == old(self).image,
            final(self).art_indices == old(self).art_indices,
            final(self).track == old(self).track,
            match r {
                Ok(points) => ({
                    let count = rail_count_spec(old(self).track);
                    let base = old(self).vertices@.len() as int;
                    &&& points@ == rail_points_spec(old(self).track, count, count)
                    &&& points@.len() == count
                    &&& final(self).vertices@ == old(self).vertices@
                        + rail_verts_upto(old(self).track, count, count)
                    &&& final(self).vertices@.len() == old(self).vertices@.len() + 4 * count
                    &&& final(self).indices@ == old(self).indices@
                        + rail_indices_upto(base, count)
                    &&& final(self).indices@.len() == old(self).indices@.len() + 6 * count
                    &&& final(self).track_indices == (IndexRange {
                        start: old(self).indices@.len() as u32,
                        count: (6 * count) as u32,
                    })
                    &&& forall|i: int| 0 <= i < count ==> in_range(#[trigger] points@[i])
                }),
                Err(e) => ({
                    let count = rail_count_spec(old(self).track);
                    &&& e == ArtError::GeometryOverflow
                    &&& *final(self) == *old(self)
                    &&& (old(self).vertices@.len() + 4 * count > VERTEX_COUNT
                        || old(self).indices@.len() + 6 * count > INDEX_COUNT)
                }),
            },
    {
        let total = self.track.len();
        let mut count = div_floor(total + 500, 1000);
        if count < 2 {
            count = 2;
        }
        if 4 * count + (self.vertices.len() as i64) > VERTEX_COUNT as i64
            || 6 * count + (self.indices.len() as i64) > INDEX_COUNT as i64 {
            return Err(ArtError::GeometryOverflow);
        }
        let ghost t0 = self.track;
        let ghost v0 = self.vertices@.len() as int;
        let den = count - 1;
        let start_index = self.indices.len();
        let mut points: Vec<Vec2i> = Vec::new();
        let mut before = self.track.point(den, den);
        let mut i: i64 = 0;
        while i < count
            invariant
                0 <= i <= count,
                2 <= count <= 4000,
                den == count - 1,
                count == rail_count_spec(t0),
                self.wf(),
                self.track == t0,
                t0 == old(self).track,
                t0.wf(),
                t0.segments@.len() == TRACK_SEGMENTS,
                self.image == old(self).image,
                self.art_indices == old(self).art_indices,
                self.track_indices == old(self).track_indices,
                v0 == old(self).vertices@.len() as int,
                start_index == old(self).indices@.len(),
                v0 + 4 * count <= VERTEX_COUNT,
                start_index + 6 * count <= INDEX_COUNT,
                before == rail_before_spec(t0, count as int, i as int),
                in_range(before),
                points@ == rail_points_spec(t0, count as int, i as int),
                points@.len() == i,
                forall|j: int| 0 <= j < i ==> in_range(#[trigger] points@[j]),
                self.vertices@ == old(self).vertices@ + rail_verts_upto(t0, count as int, i as int),
                self.vertices@.len() == v0 + 4 * i,
                self.indices@ == old(self).indices@ + rail_indices_upto(v0, i as int),
                self.indices@.len() == start_index + 6 * i,
            decreases count - i,
        {
            let end_i = if i == count - 1 { 1 } else { i + 1 };
            let end = self.track.point(end_i, den);
            let middle = self.track.point(i, den);
            let d = before.sub(end);
            let mut off = quad_offset(d, RAIL_OFFSET);
            if off.x == 0 && off.y == 0 {
                off = Vec2i { x: RAIL_OFFSET, y: 0 };
            }
            proof {
                assert(off == rail_offset_spec(t0, count as int, i as int));
            }
            self.line(middle.add(off), middle.sub(off));
            proof {
                assert(self.vertices@ =~= old(self).vertices@
                    + rail_verts_upto(t0, count as int, i as int + 1));
                assert(self.indices@ =~= old(self).indices@
                    + rail_indices_upto(v0, i as int + 1));
            }
            before = middle;
            points.push(middle);
            i = i + 1;
        }
        let range_count = self.indices.len() - start_index;
        self.track_indices = IndexRange {
            start: start_index as u32,
            count: range_count as u32,
        };
        Ok(points)
    }
}


} // verus!
