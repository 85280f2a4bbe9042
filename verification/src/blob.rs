//! The packed asset blob: a fixed-layout binary image of the whole scene
//! data, written and read byte for byte. All arrays are stored at full
//! capacity with zero-filled padding past the occupied prefix, exactly as
//! the two cursors say.
//!
//! The layout keeps the packed shape of the scene struct, but every number
//! is stored as a little-endian fixed-point word, biased where it is
//! signed: this is the library's own format, not a byte-compatible image
//! of any machine's in-memory floats.

use vstd::prelude::*;
use vstd::arithmetic::div_mod::{lemma_fundamental_div_mod, lemma_div_denominator,
    lemma_small_mod};
use crate::geom::Vec2i;
use crate::geom;
use crate::curve::{BezierCurve, curve_wf};
use crate::track::Track;
use crate::art::{ArtData, ArtIndices, IndexRange, Vertex, Vec3i, vert_wf, zero_vertex,
    IMAGE_SIZE, VERTEX_COUNT, INDEX_COUNT, TRACK_SEGMENTS, VERT_LIMIT};
use crate::COORD_LIMIT;

verus! {

/// The bias added to every signed coordinate before it is stored as an
/// unsigned 32-bit word.
pub const COORD_BIAS: i64 = 4194304;

/// Where the fixed blob regions start; the art catalogue opens the blob.
pub const OFF_IMAGE: usize = 32;
pub const OFF_VERTS: usize = 1056;
pub const OFF_NV: usize = 513056;
pub const OFF_NI: usize = 513060;
pub const OFF_INDICES: usize = 513064;
pub const OFF_TRACK_RANGE: usize = 577064;
pub const OFF_TRACK: usize = 577072;

/// The exact byte size of a packed blob.
pub const BLOB_SIZE: usize = 577168;

/// Why a byte string is no packed blob.
#[derive(Clone, Copy, PartialEq, Eq, Structural, Debug)]
pub enum BlobError {
    /// The byte string has the wrong length.
    WrongSize,
    /// A cursor claims more occupied entries than its arena can hold.
    BadCursor,
    /// A stored vertex, index or track coordinate is out of range.
    BadValue,
}

/// The little-endian 32-bit word starting at `off`.
pub open spec fn read_u32_at(s: Seq<u8>, off: int) -> int {
    s[off] + 256 * s[off + 1] + 65536 * s[off + 2] + 16777216 * s[off + 3]
}

/// The little-endian 16-bit word starting at `off`.
pub open spec fn read_u16_at(s: Seq<u8>, off: int) -> int {
    s[off] + 256 * s[off + 1]
}

/// The signed coordinate stored biased at `off`.
pub open spec fn read_coord_at(s: Seq<u8>, off: int) -> i64 {
    (read_u32_at(s, off) - COORD_BIAS) as i64
}

/// The index range stored at `off`.
pub open spec fn read_range_at(s: Seq<u8>, off: int) -> IndexRange {
    IndexRange {
        start: read_u32_at(s, off) as u32,
        count: read_u32_at(s, off + 4) as u32,
    }
}

/// The vertex stored at `off`: eight biased coordinates.
pub open spec fn read_vertex_at(s: Seq<u8>, off: int) -> Vertex {
    Vertex {
        pos: Vec3i {
            x: read_coord_at(s, off),
            y: read_coord_at(s, off + 4),
            z: read_coord_at(s, off + 8),
        },
        norm: Vec3i {
            x: read_coord_at(s, off + 12),
            y: read_coord_at(s, off + 16),
            z: read_coord_at(s, off + 20),
        },
        uv: Vec2i { x: read_coord_at(s, off + 24), y: read_coord_at(s, off + 28) },
    }
}

/// The plane point stored at `off`: two biased coordinates.
pub open spec fn read_point_at(s: Seq<u8>, off: int) -> Vec2i {
    Vec2i { x: read_coord_at(s, off), y: read_coord_at(s, off + 4) }
}

/// The Bezier segment stored at `off`: four plane points.
pub open spec fn read_curve_at(s: Seq<u8>, off: int) -> BezierCurve {
    BezierCurve {
        start: read_point_at(s, off),
        left: read_point_at(s, off + 8),
        right: read_point_at(s, off + 16),
        end: read_point_at(s, off + 24),
    }
}

/// The byte string has the one valid blob length.
pub open spec fn blob_len_ok(s: Seq<u8>) -> bool {
    s.len() == BLOB_SIZE
}

/// Both cursors fit their arenas.
pub open spec fn blob_cursors_ok(s: Seq<u8>) -> bool {
    read_u32_at(s, OFF_NV as int) <= VERTEX_COUNT
        && read_u32_at(s, OFF_NI as int) <= INDEX_COUNT
}

/// Every occupied vertex, every occupied index and every track coordinate
/// is in range.
pub open spec fn blob_values_ok(s: Seq<u8>) -> bool {
    &&& forall|j: int| 0 <= j < read_u32_at(s, OFF_NV as int)
        ==> vert_wf(#[trigger] read_vertex_at(s, OFF_VERTS + 32 * j))
    &&& forall|j: int| 0 <= j < read_u32_at(s, OFF_NI as int)
        ==> #[trigger] read_u16_at(s, OFF_INDICES + 2 * j) < VERTEX_COUNT
    &&& forall|j: int| 0 <= j < TRACK_SEGMENTS
        ==> curve_wf(#[trigger] read_curve_at(s, OFF_TRACK + 32 * j))
}

/// A byte string a packed blob can be read from.
pub open spec fn blob_ok(s: Seq<u8>) -> bool {
    blob_len_ok(s) && blob_cursors_ok(s) && blob_values_ok(s)
}

/// The mathematical content of the scene data: what the blob stores and
/// what reading it back yields.
pub struct BlobView {
    pub image: Seq<u8>,
    pub vertices: Seq<Vertex>,
    pub indices: Seq<u16>,
    pub art_indices: ArtIndices,
    pub track_indices: IndexRange,
    pub track_segments: Seq<BezierCurve>,
}

/// The content of a scene-data value.
pub open spec fn view_of(a: ArtData) -> BlobView {
    BlobView {
        image: a.image@,
        vertices: a.vertices@,
        indices: a.indices@,
        art_indices: a.art_indices,
        track_indices: a.track_indices,
        track_segments: a.track.segments@,
    }
}

/// The content stored in a valid blob.
pub open spec fn blob_decode(s: Seq<u8>) -> BlobView {
    BlobView {
        image: s.subrange(OFF_IMAGE as int, OFF_IMAGE + IMAGE_SIZE),
        vertices: Seq::new(read_u32_at(s, OFF_NV as int) as nat,
            |j: int| read_vertex_at(s, OFF_VERTS + 32 * j)),
        indices: Seq::new(read_u32_at(s, OFF_NI as int) as nat,
            |j: int| read_u16_at(s, OFF_INDICES + 2 * j) as u16),
        art_indices: ArtIndices {
            cart: read_range_at(s, 0),
            train: read_range_at(s, 8),
            wheel: read_range_at(s, 16),
            gun: read_range_at(s, 24),
        },
        track_indices: read_range_at(s, OFF_TRACK_RANGE as int),
        track_segments: Seq::new(TRACK_SEGMENTS as nat,
            |j: int| read_curve_at(s, OFF_TRACK + 32 * j)),
    }
}

/// Reads the little-endian 32-bit word at `off`.
fn read_u32(bytes: &Vec<u8>, off: usize) -> (r: u32)
    requires
        off + 4 <= bytes@.len(),
        bytes@.len() <= 0x10000000,
    ensures
        r == read_u32_at(bytes@, off as int),
        0 <= read_u32_at(bytes@, off as int) < 0x100000000,
{
    let b0 = bytes[off] as u32;
    let b1 = bytes[off + 1] as u32;
    let b2 = bytes[off + 2] as u32;
    let b3 = bytes[off + 3] as u32;
    b0 + 256 * b1 + 65536 * b2 + 16777216 * b3
}

/// Reads the little-endian 16-bit word at `off`.
fn read_u16(bytes: &Vec<u8>, off: usize) -> (r: u16)
    requires
        off + 2 <= bytes@.len(),
        bytes@.len() <= 0x10000000,
    ensures
        r == read_u16_at(bytes@, off as int),
{
    let b0 = bytes[off] as u16;
    let b1 = bytes[off + 1] as u16;
    b0 + 256 * b1
}

/// Reads the biased coordinate at `off`.
fn read_coord(bytes: &Vec<u8>, off: usize) -> (r: i64)
    requires
        off + 4 <= bytes@.len(),
        bytes@.len() <= 0x10000000,
    ensures
        r == read_coord_at(bytes@, off as int),
        -COORD_BIAS <= r < 0x100000000,
{
    let w = read_u32(bytes, off);
    (w as i64) - COORD_BIAS
}

/// Reads the index range at `off`.
fn read_range(bytes: &Vec<u8>, off: usize) -> (r: IndexRange)
    requires
        off + 8 <= bytes@.len(),
        bytes@.len() <= 0x10000000,
    ensures
        r == read_range_at(bytes@, off as int),
{
    IndexRange { start: read_u32(bytes, off), count: read_u32(bytes, off + 4) }
}

/// Reads back a packed blob. Succeeds exactly on byte strings of the right
/// length whose cursors fit the arenas and whose occupied entries are all
/// in range; the decoded scene then carries exactly the stored content.
pub fn decode(bytes: &Vec<u8>) -> (r: Result<ArtData, BlobError>)
    ensures
        r is Ok <==> blob_ok(bytes@),
        r matches Ok(a) ==> a.wf() && view_of(a) == blob_decode(bytes@),
        r == Err::<ArtData, BlobError>(BlobError::WrongSize) <==> !blob_len_ok(bytes@),
        r == Err::<ArtData, BlobError>(BlobError::BadCursor)
            <==> blob_len_ok(bytes@) && !blob_cursors_ok(bytes@),
        r == Err::<ArtData, BlobError>(BlobError::BadValue)
            <==> blob_len_ok(bytes@) && blob_cursors_ok(bytes@) && !blob_values_ok(bytes@),
{
    if bytes.len() != BLOB_SIZE {
        return Err(BlobError::WrongSize);
    }
    let nv = read_u32(bytes, OFF_NV);
    let ni = read_u32(bytes, OFF_NI);
    if nv > VERTEX_COUNT as u32 || ni > INDEX_COUNT as u32 {
        return Err(BlobError::BadCursor);
    }

    let mut image: Vec<u8> = Vec::new();
    let mut t: usize = 0;
    while t < IMAGE_SIZE
        invariant
            t <= IMAGE_SIZE,
            bytes@.len() == BLOB_SIZE,
            blob_cursors_ok(bytes@),
            image@.len() == t,
            forall|i: int| 0 <= i < t ==> image@[i] == bytes@[OFF_IMAGE + i],
        decreases IMAGE_SIZE - t,
    {
        image.push(bytes[OFF_IMAGE + t]);
        t = t + 1;
    }

    let mut vertices: Vec<Vertex> = Vec::new();
    let mut j: usize = 0;
    while j < nv as usize
        invariant
            j <= nv as usize,
            nv <= VERTEX_COUNT,
            nv == read_u32_at(bytes@, OFF_NV as int),
            bytes@.len() == BLOB_SIZE,
            blob_cursors_ok(bytes@),
            vertices@.len() == j,
            forall|i: int| 0 <= i < j
                ==> #[trigger] vertices@[i] == read_vertex_at(bytes@, OFF_VERTS + 32 * i),
            forall|i: int| 0 <= i < j ==> vert_wf(#[trigger] vertices@[i]),
        decreases nv - j,
    {
        let base = OFF_VERTS + 32 * j;
        let px = read_coord(bytes, base);
        let py = read_coord(bytes, base + 4);
        let pz = read_coord(bytes, base + 8);
        let nx = read_coord(bytes, base + 12);
        let ny = read_coord(bytes, base + 16);
        let nz = read_coord(bytes, base + 20);
        let u = read_coord(bytes, base + 24);
        let v = read_coord(bytes, base + 28);
        let vert = Vertex {
            pos: Vec3i { x: px, y: py, z: pz },
            norm: Vec3i { x: nx, y: ny, z: nz },
            uv: Vec2i { x: u, y: v },
        };
        if px > VERT_LIMIT || py > VERT_LIMIT || pz > VERT_LIMIT
            || nx > VERT_LIMIT || ny > VERT_LIMIT || nz > VERT_LIMIT
            || u > VERT_LIMIT || v > VERT_LIMIT {
            proof {
                assert(!vert_wf(read_vertex_at(bytes@, OFF_VERTS + 32 * (j as int))));
            }
            return Err(BlobError::BadValue);
        }
        vertices.push(vert);
        j = j + 1;
    }

    let mut indices: Vec<u16> = Vec::new();
    let mut j: usize = 0;
    while j < ni as usize
        invariant
            j <= ni as usize,
            ni <= INDEX_COUNT,
            ni == read_u32_at(bytes@, OFF_NI as int),
            bytes@.len() == BLOB_SIZE,
            blob_cursors_ok(bytes@),
            indices@.len() == j,
            forall|i: int| 0 <= i < j
                ==> #[trigger] indices@[i] == read_u16_at(bytes@, OFF_INDICES + 2 * i) as u16,
            forall|i: int| 0 <= i < j ==> #[trigger] indices@[i] < VERTEX_COUNT as u16,
        decreases ni - j,
    {
        let ix = read_u16(bytes, OFF_INDICES + 2 * j);
        if ix >= VERTEX_COUNT as u16 {
            proof {
                assert(read_u16_at(bytes@, OFF_INDICES + 2 * (j as int)) >= VERTEX_COUNT);
            }
            return Err(BlobError::BadValue);
        }
        indices.push(ix);
        j = j + 1;
    }

    let mut segments: Vec<BezierCurve> = Vec::new();
    let mut j: usize = 0;
    while j < TRACK_SEGMENTS
        invariant
            j <= TRACK_SEGMENTS,
            bytes@.len() == BLOB_SIZE,
            blob_cursors_ok(bytes@),
            segments@.len() == j,
            forall|i: int| 0 <= i < j
                ==> #[trigger] segments@[i] == read_curve_at(bytes@, OFF_TRACK + 32 * i),
            forall|i: int| 0 <= i < j ==> curve_wf(#[trigger] segments@[i]),
        decreases TRACK_SEGMENTS - j,
    {
        let base = OFF_TRACK + 32 * j;
        let sx = read_coord(bytes, base);
        let sy = read_coord(bytes, base + 4);
        let lx = read_coord(bytes, base + 8);
        let ly = read_coord(bytes, base + 12);
        let rx = read_coord(bytes, base + 16);
        let ry = read_coord(bytes, base + 20);
        let ex = read_coord(bytes, base + 24);
        let ey = read_coord(bytes, base + 28);
        if sx < -COORD_LIMIT || sx > COORD_LIMIT || sy < -COORD_LIMIT || sy > COORD_LIMIT
            || lx < -COORD_LIMIT || lx > COORD_LIMIT || ly < -COORD_LIMIT || ly > COORD_LIMIT
            || rx < -COORD_LIMIT || rx > COORD_LIMIT || ry < -COORD_LIMIT || ry > COORD_LIMIT
            || ex < -COORD_LIMIT || ex > COORD_LIMIT || ey < -COORD_LIMIT || ey > COORD_LIMIT {
            proof {
                assert(!curve_wf(read_curve_at(bytes@, OFF_TRACK + 32 * (j as int))));
            }
            return Err(BlobError::BadValue);
        }
        segments.push(BezierCurve {
            start: Vec2i { x: sx, y: sy },
            left: Vec2i { x: lx, y: ly },
            right: Vec2i { x: rx, y: ry },
            end: Vec2i { x: ex, y: ey },
        });
        j = j + 1;
    }

    let art_indices = ArtIndices {
        cart: read_range(bytes, 0),
        train: read_range(bytes, 8),
        wheel: read_range(bytes, 16),
        gun: read_range(bytes, 24),
    };
    let track_indices = read_range(bytes, OFF_TRACK_RANGE);
    let a = ArtData {
        image,
        vertices,
        indices,
        art_indices,
        track_indices,
        track: Track { segments },
    };
    proof {
        assert forall|i: int| 0 <= i < read_u32_at(bytes@, OFF_NV as int)
            implies vert_wf(#[trigger] read_vertex_at(bytes@, OFF_VERTS + 32 * i)) by {
            assert(a.vertices@[i] == read_vertex_at(bytes@, OFF_VERTS + 32 * i));
            assert(vert_wf(a.vertices@[i]));
        }
        assert forall|i: int| 0 <= i < read_u32_at(bytes@, OFF_NI as int)
            implies #[trigger] read_u16_at(bytes@, OFF_INDICES + 2 * i) < VERTEX_COUNT by {
            assert(a.indices@[i] == read_u16_at(bytes@, OFF_INDICES + 2 * i) as u16);
            assert(a.indices@[i] < VERTEX_COUNT as u16);
            assert(0 <= read_u16_at(bytes@, OFF_INDICES + 2 * i) < 0x10000);
        }
        assert forall|i: int| 0 <= i < TRACK_SEGMENTS
            implies curve_wf(#[trigger] read_curve_at(bytes@, OFF_TRACK + 32 * i)) by {
            assert(a.track.segments@[i] == read_curve_at(bytes@, OFF_TRACK + 32 * i));
            assert(curve_wf(a.track.segments@[i]));
        }
        assert(blob_values_ok(bytes@));
        assert(a.image@ =~= blob_decode(bytes@).image);
        assert(a.vertices@ =~= blob_decode(bytes@).vertices);
        assert(a.indices@ =~= blob_decode(bytes@).indices);
        assert(a.track.segments@ =~= blob_decode(bytes@).track_segments);
    }
    Ok(a)
}

/// The four little-endian bytes of a 32-bit word.
#[verifier::opaque]
pub open spec fn u32_bytes(x: int) -> Seq<u8> {
    seq![
        (x % 256) as u8,
        ((x / 256) % 256) as u8,
        ((x / 65536) % 256) as u8,
        ((x / 16777216) % 256) as u8,
    ]
}

/// The two little-endian bytes of a 16-bit word.
#[verifier::opaque]
pub open spec fn u16_bytes(x: int) -> Seq<u8> {
    seq![(x % 256) as u8, ((x / 256) % 256) as u8]
}

/// A stored 32-bit word is four bytes long.
pub broadcast proof fn lemma_u32_bytes_len(x: int)
    ensures
        (#[trigger] u32_bytes(x)).len() == 4,
{
    reveal(u32_bytes);
}

/// A stored 16-bit word is two bytes long.
pub broadcast proof fn lemma_u16_bytes_len(x: int)
    ensures
        (#[trigger] u16_bytes(x)).len() == 2,
{
    reveal(u16_bytes);
}

/// The stored form of a signed coordinate: biased into a 32-bit word.
pub open spec fn coord_bytes(c: int) -> Seq<u8> {
    u32_bytes(c + COORD_BIAS)
}

/// The stored form of an index range.
pub open spec fn range_bytes(r: IndexRange) -> Seq<u8> {
    u32_bytes(r.start as int) + u32_bytes(r.count as int)
}

/// The stored form of a vertex: its eight coordinates.
pub open spec fn vertex_bytes(v: Vertex) -> Seq<u8> {
    coord_bytes(v.pos.x as int) + coord_bytes(v.pos.y as int) + coord_bytes(v.pos.z as int)
        + coord_bytes(v.norm.x as int) + coord_bytes(v.norm.y as int)
        + coord_bytes(v.norm.z as int) + coord_bytes(v.uv.x as int)
        + coord_bytes(v.uv.y as int)
}

/// The stored form of a Bezier segment: its eight coordinates.
pub open spec fn curve_bytes(c: BezierCurve) -> Seq<u8> {
    coord_bytes(c.start.x as int) + coord_bytes(c.start.y as int)
        + coord_bytes(c.left.x as int) + coord_bytes(c.left.y as int)
        + coord_bytes(c.right.x as int) + coord_bytes(c.right.y as int)
        + coord_bytes(c.end.x as int) + coord_bytes(c.end.y as int)
}

/// The first `k` slots of the vertex arena at full capacity: occupied
/// entries first, zero-vertex padding after.
pub open spec fn vertex_region(vs: Seq<Vertex>, k: int) -> Seq<u8>
    decreases k,
{
    if k <= 0 {
        Seq::empty()
    } else {
        vertex_region(vs, k - 1) + vertex_bytes(
            if k - 1 < vs.len() {
                vs[k - 1]
            } else {
                zero_vertex()
            },
        )
    }
}

/// The first `k` slots of the index arena at full capacity: occupied
/// entries first, zero padding after.
pub open spec fn index_region(is: Seq<u16>, k: int) -> Seq<u8>
    decreases k,
{
    if k <= 0 {
        Seq::empty()
    } else {
        index_region(is, k - 1) + u16_bytes(
            if k - 1 < is.len() {
                is[k - 1] as int
            } else {
                0
            },
        )
    }
}

/// The packed byte image of the whole scene data, region by region: the
/// art catalogue, the texture image, the padded vertex arena, the two
/// cursors, the padded index arena, the rail index range, and the track.
pub open spec fn blob_bytes(a: ArtData) -> Seq<u8> {
    range_bytes(a.art_indices.cart) + range_bytes(a.art_indices.train)
        + range_bytes(a.art_indices.wheel) + range_bytes(a.art_indices.gun)
        + a.image@
        + vertex_region(a.vertices@, VERTEX_COUNT as int)
        + u32_bytes(a.vertices@.len() as int)
        + u32_bytes(a.indices@.len() as int)
        + index_region(a.indices@, INDEX_COUNT as int)
        + range_bytes(a.track_indices)
        + curve_bytes(a.track.segments@[0]) + curve_bytes(a.track.segments@[1])
        + curve_bytes(a.track.segments@[2])
}

/// Appends the four little-endian bytes of a 32-bit word.
fn push_u32(out: &mut Vec<u8>, x: u32)
    ensures
        final(out)@ == old(out)@ + u32_bytes(x as int),
        final(out)@.len() == old(out)@.len() + 4,
{
    out.push((x % 256) as u8);
    out.push(((x / 256) % 256) as u8);
    out.push(((x / 65536) % 256) as u8);
    out.push(((x / 16777216) % 256) as u8);
    proof {
        reveal(u32_bytes);
        assert(out@ =~= old(out)@ + u32_bytes(x as int));
    }
}

/// Appends the two little-endian bytes of a 16-bit word.
fn push_u16(out: &mut Vec<u8>, x: u16)
    ensures
        final(out)@ == old(out)@ + u16_bytes(x as int),
        final(out)@.len() == old(out)@.len() + 2,
{
    out.push((x % 256) as u8);
    out.push(((x / 256) % 256) as u8);
    proof {
        reveal(u16_bytes);
        assert(out@ =~= old(out)@ + u16_bytes(x as int));
    }
}

/// Appends a biased coordinate.
fn push_coord(out: &mut Vec<u8>, c: i64)
    requires
        -COORD_BIAS <= c <= COORD_BIAS,
    ensures
        final(out)@ == old(out)@ + coord_bytes(c as int),
        final(out)@.len() == old(out)@.len() + 4,
{
    push_u32(out, (c + COORD_BIAS) as u32);
}

/// Appends an index range.
fn push_range(out: &mut Vec<u8>, r: IndexRange)
    ensures
        final(out)@ == old(out)@ + range_bytes(r),
        final(out)@.len() == old(out)@.len() + 8,
{
    push_u32(out, r.start);
    push_u32(out, r.count);
    proof {
        assert(out@ =~= old(out)@ + range_bytes(r));
    }
}

/// Appends the eight coordinates of a vertex.
fn push_vertex(out: &mut Vec<u8>, v: Vertex)
    requires
        vert_wf(v),
    ensures
        final(out)@ == old(out)@ + vertex_bytes(v),
        final(out)@.len() == old(out)@.len() + 32,
{
    push_coord(out, v.pos.x);
    push_coord(out, v.pos.y);
    push_coord(out, v.pos.z);
    push_coord(out, v.norm.x);
    push_coord(out, v.norm.y);
    push_coord(out, v.norm.z);
    push_coord(out, v.uv.x);
    push_coord(out, v.uv.y);
    proof {
        assert(out@ =~= old(out)@ + vertex_bytes(v));
    }
}

/// Appends the eight coordinates of a Bezier segment.
fn push_curve(out: &mut Vec<u8>, c: BezierCurve)
    requires
        curve_wf(c),
    ensures
        final(out)@ == old(out)@ + curve_bytes(c),
        final(out)@.len() == old(out)@.len() + 32,
{
    push_coord(out, c.start.x);
    push_coord(out, c.start.y);
    push_coord(out, c.left.x);
    push_coord(out, c.left.y);
    push_coord(out, c.right.x);
    push_coord(out, c.right.y);
    push_coord(out, c.end.x);
    push_coord(out, c.end.y);
    proof {
        assert(out@ =~= old(out)@ + curve_bytes(c));
    }
}

/// Writes the scene data as a packed blob of exactly `BLOB_SIZE` bytes,
/// region for region as `blob_bytes` lays it out.
#[verifier::rlimit(100)]
pub fn encode(a: &ArtData) -> (r: Vec<u8>)
    requires
        a.wf(),
    ensures
        r@ == blob_bytes(*a),
        r@.len() == BLOB_SIZE,
{
    let mut out: Vec<u8> = Vec::new();
    push_range(&mut out, a.art_indices.cart);
    push_range(&mut out, a.art_indices.train);
    push_range(&mut out, a.art_indices.wheel);
    push_range(&mut out, a.art_indices.gun);
    let ghost header = out@;

    let mut t: usize = 0;
    while t < IMAGE_SIZE
        invariant
            t <= IMAGE_SIZE,
            a.wf(),
            header.len() == 32,
            out@ == header + a.image@.subrange(0, t as int),
            out@.len() == 32 + t,
        decreases IMAGE_SIZE - t,
    {
        out.push(a.image[t]);
        proof {
            assert(out@ =~= header + a.image@.subrange(0, t as int + 1));
        }
        t = t + 1;
    }
    proof {
        assert(a.image@.subrange(0, IMAGE_SIZE as int) =~= a.image@);
    }
    let ghost with_image = out@;

    let mut k: usize = 0;
    while k < VERTEX_COUNT
        invariant
            k <= VERTEX_COUNT,
            a.wf(),
            with_image.len() == 1056,
            out@ == with_image + vertex_region(a.vertices@, k as int),
            out@.len() == 1056 + 32 * k,
        decreases VERTEX_COUNT - k,
    {
        let v = if k < a.vertices.len() {
            a.vertices[k]
        } else {
            Vertex {
                pos: Vec3i { x: 0, y: 0, z: 0 },
                norm: Vec3i { x: 0, y: 0, z: 0 },
                uv: Vec2i { x: 0, y: 0 },
            }
        };
        push_vertex(&mut out, v);
        proof {
            assert(out@ =~= with_image + vertex_region(a.vertices@, k as int + 1));
        }
        k = k + 1;
    }
    push_u32(&mut out, a.vertices.len() as u32);
    push_u32(&mut out, a.indices.len() as u32);
    let ghost with_cursors = out@;

    let mut k: usize = 0;
    while k < INDEX_COUNT
        invariant
            k <= INDEX_COUNT,
            a.wf(),
            with_cursors.len() == 513064,
            out@ == with_cursors + index_region(a.indices@, k as int),
            out@.len() == 513064 + 2 * k,
        decreases INDEX_COUNT - k,
    {
        let ix = if k < a.indices.len() {
            a.indices[k]
        } else {
            0
        };
        push_u16(&mut out, ix);
        proof {
            assert(out@ =~= with_cursors + index_region(a.indices@, k as int + 1));
        }
        k = k + 1;
    }
    push_range(&mut out, a.track_indices);
    push_curve(&mut out, a.track.segments[0]);
    push_curve(&mut out, a.track.segments[1]);
    push_curve(&mut out, a.track.segments[2]);
    proof {
        broadcast use lemma_u32_bytes_len, lemma_u16_bytes_len;
        assert(out@ =~= blob_bytes(*a));
    }
    out
}

/// The four little-endian bytes of a word read back as the word itself.
proof fn lemma_u32_bytes_inverse(x: int)
    requires
        0 <= x < 0x100000000,
    ensures
        read_u32_at(u32_bytes(x), 0) == x,
{
    reveal(u32_bytes);
    lemma_fundamental_div_mod(x, 256);
    lemma_fundamental_div_mod(x / 256, 256);
    lemma_fundamental_div_mod(x / 65536, 256);
    lemma_div_denominator(x, 256, 256);
    lemma_div_denominator(x, 65536, 256);
    assert(x / 16777216 < 256) by {
        if x / 16777216 >= 256 {
            lemma_fundamental_div_mod(x, 16777216);
            assert(16777216 * (x / 16777216) >= 16777216 * 256) by (nonlinear_arith)
                requires x / 16777216 >= 256;
        }
    }
    assert(x / 16777216 >= 0) by {
        geom::lemma_div_bounds(x, 16777216);
    }
    lemma_small_mod((x / 16777216) as nat, 256);
}

/// The two little-endian bytes of a word read back as the word itself.
proof fn lemma_u16_bytes_inverse(x: int)
    requires
        0 <= x < 0x10000,
    ensures
        read_u16_at(u16_bytes(x), 0) == x,
{
    reveal(u16_bytes);
    lemma_fundamental_div_mod(x, 256);
    assert(x / 256 < 256) by {
        if x / 256 >= 256 {
            assert(256 * (x / 256) >= 256 * 256) by (nonlinear_arith)
                requires x / 256 >= 256;
        }
    }
    assert(x / 256 >= 0) by {
        geom::lemma_div_bounds(x, 256);
    }
    lemma_small_mod((x / 256) as nat, 256);
}

/// A word read inside a window of a longer byte string is the word read in
/// the window itself.
proof fn lemma_read_u32_in(s: Seq<u8>, lo: int, r: Seq<u8>, o: int)
    requires
        0 <= lo,
        0 <= o,
        o + 4 <= r.len(),
        lo + r.len() <= s.len(),
        s.subrange(lo, lo + r.len()) == r,
    ensures
        read_u32_at(s, lo + o) == read_u32_at(r, o),
{
    assert(s[lo + o] == s.subrange(lo, lo + r.len())[o]);
    assert(s[lo + o + 1] == s.subrange(lo, lo + r.len())[o + 1]);
    assert(s[lo + o + 2] == s.subrange(lo, lo + r.len())[o + 2]);
    assert(s[lo + o + 3] == s.subrange(lo, lo + r.len())[o + 3]);
}

/// As `lemma_read_u32_in`, for 16-bit words.
proof fn lemma_read_u16_in(s: Seq<u8>, lo: int, r: Seq<u8>, o: int)
    requires
        0 <= lo,
        0 <= o,
        o + 2 <= r.len(),
        lo + r.len() <= s.len(),
        s.subrange(lo, lo + r.len()) == r,
    ensures
        read_u16_at(s, lo + o) == read_u16_at(r, o),
{
    assert(s[lo + o] == s.subrange(lo, lo + r.len())[o]);
    assert(s[lo + o + 1] == s.subrange(lo, lo + r.len())[o + 1]);
}

/// Concatenation splits into its two parts.
proof fn lemma_concat_parts(a: Seq<u8>, b: Seq<u8>)
    ensures
        (a + b).subrange(0, a.len() as int) == a,
        (a + b).subrange(a.len() as int, (a.len() + b.len()) as int) == b,
{
    assert((a + b).subrange(0, a.len() as int) =~= a);
    assert((a + b).subrange(a.len() as int, (a.len() + b.len()) as int) =~= b);
}

/// A window of a known prefix is a window of the whole.
proof fn lemma_window_of_prefix(s: Seq<u8>, p: Seq<u8>, lo: int, hi: int)
    requires
        p.len() <= s.len(),
        s.subrange(0, p.len() as int) == p,
        0 <= lo <= hi <= p.len(),
    ensures
        s.subrange(lo, hi) == p.subrange(lo, hi),
{
    assert forall|i: int| 0 <= i < hi - lo implies s.subrange(lo, hi)[i]
        == p.subrange(lo, hi)[i] by {
        assert(p[lo + i] == s.subrange(0, p.len() as int)[lo + i]);
    }
    assert(s.subrange(lo, hi) =~= p.subrange(lo, hi));
}

/// Eight stored coordinates read back as the vertex they came from.
#[verifier::rlimit(100)]
proof fn lemma_vertex_bytes_inverse(v: Vertex)
    requires
        vert_wf(v),
    ensures
        read_vertex_at(vertex_bytes(v), 0) == v,
        vertex_bytes(v).len() == 32,
{
    broadcast use lemma_u32_bytes_len;
    lemma_words8_read(
        coord_bytes(v.pos.x as int), coord_bytes(v.pos.y as int),
        coord_bytes(v.pos.z as int), coord_bytes(v.norm.x as int),
        coord_bytes(v.norm.y as int), coord_bytes(v.norm.z as int),
        coord_bytes(v.uv.x as int), coord_bytes(v.uv.y as int));
    lemma_u32_bytes_inverse(v.pos.x + COORD_BIAS);
    lemma_u32_bytes_inverse(v.pos.y + COORD_BIAS);
    lemma_u32_bytes_inverse(v.pos.z + COORD_BIAS);
    lemma_u32_bytes_inverse(v.norm.x + COORD_BIAS);
    lemma_u32_bytes_inverse(v.norm.y + COORD_BIAS);
    lemma_u32_bytes_inverse(v.norm.z + COORD_BIAS);
    lemma_u32_bytes_inverse(v.uv.x + COORD_BIAS);
    lemma_u32_bytes_inverse(v.uv.y + COORD_BIAS);
}

/// Eight stored coordinates read back as the segment they came from.
#[verifier::rlimit(100)]
proof fn lemma_curve_bytes_inverse(c: BezierCurve)
    requires
        curve_wf(c),
    ensures
        read_curve_at(curve_bytes(c), 0) == c,
        curve_bytes(c).len() == 32,
{
    broadcast use lemma_u32_bytes_len;
    lemma_words8_read(
        coord_bytes(c.start.x as int), coord_bytes(c.start.y as int),
        coord_bytes(c.left.x as int), coord_bytes(c.left.y as int),
        coord_bytes(c.right.x as int), coord_bytes(c.right.y as int),
        coord_bytes(c.end.x as int), coord_bytes(c.end.y as int));
    lemma_u32_bytes_inverse(c.start.x + COORD_BIAS);
    lemma_u32_bytes_inverse(c.start.y + COORD_BIAS);
    lemma_u32_bytes_inverse(c.left.x + COORD_BIAS);
    lemma_u32_bytes_inverse(c.left.y + COORD_BIAS);
    lemma_u32_bytes_inverse(c.right.x + COORD_BIAS);
    lemma_u32_bytes_inverse(c.right.y + COORD_BIAS);
    lemma_u32_bytes_inverse(c.end.x + COORD_BIAS);
    lemma_u32_bytes_inverse(c.end.y + COORD_BIAS);
}

/// In a row of eight four-byte words, each word reads back as itself.
#[verifier::rlimit(100)]
proof fn lemma_words8_read(c0: Seq<u8>, c1: Seq<u8>, c2: Seq<u8>, c3: Seq<u8>, c4: Seq<u8>,
    c5: Seq<u8>, c6: Seq<u8>, c7: Seq<u8>)
    requires
        c0.len() == 4 && c1.len() == 4 && c2.len() == 4 && c3.len() == 4,
        c4.len() == 4 && c5.len() == 4 && c6.len() == 4 && c7.len() == 4,
    ensures
        ({
            let w = c0 + c1 + c2 + c3 + c4 + c5 + c6 + c7;
            &&& read_u32_at(w, 0) == read_u32_at(c0, 0)
            &&& read_u32_at(w, 4) == read_u32_at(c1, 0)
            &&& read_u32_at(w, 8) == read_u32_at(c2, 0)
            &&& read_u32_at(w, 12) == read_u32_at(c3, 0)
            &&& read_u32_at(w, 16) == read_u32_at(c4, 0)
            &&& read_u32_at(w, 20) == read_u32_at(c5, 0)
            &&& read_u32_at(w, 24) == read_u32_at(c6, 0)
            &&& read_u32_at(w, 28) == read_u32_at(c7, 0)
        }),
{
    let w = c0 + c1 + c2 + c3 + c4 + c5 + c6 + c7;
    let p1 = c0 + c1;
    let p2 = p1 + c2;
    let p3 = p2 + c3;
    let p4 = p3 + c4;
    let p5 = p4 + c5;
    let p6 = p5 + c6;
    lemma_concat_parts(p6, c7);
    lemma_concat_parts(p5, c6);
    lemma_concat_parts(p4, c5);
    lemma_concat_parts(p3, c4);
    lemma_concat_parts(p2, c3);
    lemma_concat_parts(p1, c2);
    lemma_concat_parts(c0, c1);
    lemma_window_of_prefix(w, p6, 0, 24);
    lemma_window_of_prefix(w, p6, 24, 28);
    lemma_window_of_prefix(w, p5, 0, 20);
    lemma_window_of_prefix(w, p5, 20, 24);
    lemma_window_of_prefix(w, p4, 0, 16);
    lemma_window_of_prefix(w, p4, 16, 20);
    lemma_window_of_prefix(w, p3, 0, 12);
    lemma_window_of_prefix(w, p3, 12, 16);
    lemma_window_of_prefix(w, p2, 0, 8);
    lemma_window_of_prefix(w, p2, 8, 12);
    lemma_window_of_prefix(w, p1, 0, 4);
    lemma_window_of_prefix(w, p1, 4, 8);
    lemma_read_u32_in(w, 0, c0, 0);
    lemma_read_u32_in(w, 4, c1, 0);
    lemma_read_u32_in(w, 8, c2, 0);
    lemma_read_u32_in(w, 12, c3, 0);
    lemma_read_u32_in(w, 16, c4, 0);
    lemma_read_u32_in(w, 20, c5, 0);
    lemma_read_u32_in(w, 24, c6, 0);
    lemma_read_u32_in(w, 28, c7, 0);
}

/// The padded vertex arena region is 32 bytes per slot.
proof fn lemma_vertex_region_len(vs: Seq<Vertex>, k: int)
    requires
        0 <= k,
    ensures
        vertex_region(vs, k).len() == 32 * k,
    decreases k,
{
    broadcast use lemma_u32_bytes_len;
    if k > 0 {
        lemma_vertex_region_len(vs, k - 1);
    }
}

/// The padded index arena region is 2 bytes per slot.
proof fn lemma_index_region_len(is: Seq<u16>, k: int)
    requires
        0 <= k,
    ensures
        index_region(is, k).len() == 2 * k,
    decreases k,
{
    broadcast use lemma_u16_bytes_len;
    if k > 0 {
        lemma_index_region_len(is, k - 1);
    }
}

/// Slot `j` of the padded vertex region reads back as its entry.
proof fn lemma_vertex_region_read(vs: Seq<Vertex>, k: int, j: int)
    requires
        0 <= j < k,
        forall|i: int| 0 <= i < vs.len() ==> vert_wf(#[trigger] vs[i]),
    ensures
        read_vertex_at(vertex_region(vs, k), 32 * j)
            == if j < vs.len() { vs[j] } else { zero_vertex() },
    decreases k,
{
    broadcast use lemma_u32_bytes_len;
    let entry = if k - 1 < vs.len() { vs[k - 1] } else { zero_vertex() };
    let prev = vertex_region(vs, k - 1);
    lemma_vertex_region_len(vs, k - 1);
    lemma_concat_parts(prev, vertex_bytes(entry));
    if j == k - 1 {
        lemma_vertex_bytes_inverse(entry);
        lemma_read_vertex_window(vertex_region(vs, k), 32 * j, vertex_bytes(entry), 0);
    } else {
        lemma_vertex_region_read(vs, k - 1, j);
        lemma_read_vertex_window(vertex_region(vs, k), 0, prev, 32 * j);
    }
}

/// A vertex read inside a window of a longer byte string is the vertex
/// read in the window itself.
proof fn lemma_read_vertex_window(s: Seq<u8>, lo: int, r: Seq<u8>, o: int)
    requires
        0 <= lo,
        0 <= o,
        o + 32 <= r.len(),
        lo + r.len() <= s.len(),
        s.subrange(lo, lo + r.len()) == r,
    ensures
        read_vertex_at(s, lo + o) == read_vertex_at(r, o),
{
    lemma_read_u32_in(s, lo, r, o);
    lemma_read_u32_in(s, lo, r, o + 4);
    lemma_read_u32_in(s, lo, r, o + 8);
    lemma_read_u32_in(s, lo, r, o + 12);
    lemma_read_u32_in(s, lo, r, o + 16);
    lemma_read_u32_in(s, lo, r, o + 20);
    lemma_read_u32_in(s, lo, r, o + 24);
    lemma_read_u32_in(s, lo, r, o + 28);
}

/// A segment read inside a window of a longer byte string is the segment
/// read in the window itself.
proof fn lemma_read_curve_window(s: Seq<u8>, lo: int, r: Seq<u8>, o: int)
    requires
        0 <= lo,
        0 <= o,
        o + 32 <= r.len(),
        lo + r.len() <= s.len(),
        s.subrange(lo, lo + r.len()) == r,
    ensures
        read_curve_at(s, lo + o) == read_curve_at(r, o),
{
    lemma_read_u32_in(s, lo, r, o);
    lemma_read_u32_in(s, lo, r, o + 4);
    lemma_read_u32_in(s, lo, r, o + 8);
    lemma_read_u32_in(s, lo, r, o + 12);
    lemma_read_u32_in(s, lo, r, o + 16);
    lemma_read_u32_in(s, lo, r, o + 20);
    lemma_read_u32_in(s, lo, r, o + 24);
    lemma_read_u32_in(s, lo, r, o + 28);
}

/// Slot `j` of the padded index region reads back as its entry.
proof fn lemma_index_region_read(is: Seq<u16>, k: int, j: int)
    requires
        0 <= j < k,
    ensures
        read_u16_at(index_region(is, k), 2 * j)
            == if j < is.len() { is[j] as int } else { 0 },
    decreases k,
{
    broadcast use lemma_u16_bytes_len, lemma_u32_bytes_len;
    let entry: int = if k - 1 < is.len() { is[k - 1] as int } else { 0 };
    let prev = index_region(is, k - 1);
    lemma_index_region_len(is, k - 1);
    lemma_concat_parts(prev, u16_bytes(entry));
    if j == k - 1 {
        lemma_u16_bytes_inverse(entry);
        lemma_read_u16_in(index_region(is, k), 2 * j, u16_bytes(entry), 0);
    } else {
        lemma_index_region_read(is, k - 1, j);
        lemma_read_u16_in(index_region(is, k), 0, prev, 2 * j);
    }
}

/// Each region of a packed blob is the window of the blob at its own
/// offsets.
#[verifier::rlimit(100)]
proof fn lemma_blob_windows(a: ArtData)
    requires
        a.wf(),
    ensures
        blob_bytes(a).len() == BLOB_SIZE,
        blob_bytes(a).subrange(0, 8) == range_bytes(a.art_indices.cart),
        blob_bytes(a).subrange(8, 16) == range_bytes(a.art_indices.train),
        blob_bytes(a).subrange(16, 24) == range_bytes(a.art_indices.wheel),
        blob_bytes(a).subrange(24, 32) == range_bytes(a.art_indices.gun),
        blob_bytes(a).subrange(32, 1056) == a.image@,
        blob_bytes(a).subrange(1056, 513056) == vertex_region(a.vertices@, VERTEX_COUNT as int),
        blob_bytes(a).subrange(513056, 513060) == u32_bytes(a.vertices@.len() as int),
        blob_bytes(a).subrange(513060, 513064) == u32_bytes(a.indices@.len() as int),
        blob_bytes(a).subrange(513064, 577064) == index_region(a.indices@, INDEX_COUNT as int),
        blob_bytes(a).subrange(577064, 577072) == range_bytes(a.track_indices),
        blob_bytes(a).subrange(577072, 577104) == curve_bytes(a.track.segments@[0]),
        blob_bytes(a).subrange(577104, 577136) == curve_bytes(a.track.segments@[1]),
        blob_bytes(a).subrange(577136, 577168) == curve_bytes(a.track.segments@[2]),
{
    broadcast use lemma_u32_bytes_len, lemma_u16_bytes_len;
    let s = blob_bytes(a);
    lemma_vertex_region_len(a.vertices@, VERTEX_COUNT as int);
    lemma_index_region_len(a.indices@, INDEX_COUNT as int);
    lemma_chain13(
        range_bytes(a.art_indices.cart), range_bytes(a.art_indices.train),
        range_bytes(a.art_indices.wheel), range_bytes(a.art_indices.gun),
        a.image@,
        vertex_region(a.vertices@, VERTEX_COUNT as int),
        u32_bytes(a.vertices@.len() as int), u32_bytes(a.indices@.len() as int),
        index_region(a.indices@, INDEX_COUNT as int),
        range_bytes(a.track_indices),
        curve_bytes(a.track.segments@[0]), curve_bytes(a.track.segments@[1]),
        curve_bytes(a.track.segments@[2]),
        s);
}

/// A chain of thirteen byte regions splits back into its regions, each the
/// window at its cumulative offset.
#[verifier::rlimit(100)]
proof fn lemma_chain13(r1: Seq<u8>, r2: Seq<u8>, r3: Seq<u8>, r4: Seq<u8>, r5: Seq<u8>,
    r6: Seq<u8>, r7: Seq<u8>, r8: Seq<u8>, r9: Seq<u8>, r10: Seq<u8>, r11: Seq<u8>,
    r12: Seq<u8>, r13: Seq<u8>, s: Seq<u8>)
    requires
        s == r1 + r2 + r3 + r4 + r5 + r6 + r7 + r8 + r9 + r10 + r11 + r12 + r13,
    ensures
        ({
            let o1 = r1.len() as int;
            let o2 = o1 + r2.len();
            let o3 = o2 + r3.len();
            let o4 = o3 + r4.len();
            let o5 = o4 + r5.len();
            let o6 = o5 + r6.len();
            let o7 = o6 + r7.len();
            let o8 = o7 + r8.len();
            let o9 = o8 + r9.len();
            let o10 = o9 + r10.len();
            let o11 = o10 + r11.len();
            let o12 = o11 + r12.len();
            let o13 = o12 + r13.len();
            &&& s.len() == o13
            &&& s.subrange(0, o1) == r1
            &&& s.subrange(o1, o2) == r2
            &&& s.subrange(o2, o3) == r3
            &&& s.subrange(o3, o4) == r4
            &&& s.subrange(o4, o5) == r5
            &&& s.subrange(o5, o6) == r6
            &&& s.subrange(o6, o7) == r7
            &&& s.subrange(o7, o8) == r8
            &&& s.subrange(o8, o9) == r9
            &&& s.subrange(o9, o10) == r10
            &&& s.subrange(o10, o11) == r11
            &&& s.subrange(o11, o12) == r12
            &&& s.subrange(o12, o13) == r13
        }),
{
    let p1 = r1;
    let p2 = p1 + r2;
    let p3 = p2 + r3;
    let p4 = p3 + r4;
    let p5 = p4 + r5;
    let p6 = p5 + r6;
    let p7 = p6 + r7;
    let p8 = p7 + r8;
    let p9 = p8 + r9;
    let p10 = p9 + r10;
    let p11 = p10 + r11;
    let p12 = p11 + r12;
    lemma_concat_parts(p12, r13);
    lemma_concat_parts(p11, r12);
    lemma_concat_parts(p10, r11);
    lemma_concat_parts(p9, r10);
    lemma_concat_parts(p8, r9);
    lemma_concat_parts(p7, r8);
    lemma_concat_parts(p6, r7);
    lemma_concat_parts(p5, r6);
    lemma_concat_parts(p4, r5);
    lemma_concat_parts(p3, r4);
    lemma_concat_parts(p2, r3);
    lemma_concat_parts(p1, r2);
    lemma_window_of_prefix(s, p12, 0, p11.len() as int);
    lemma_window_of_prefix(s, p12, p11.len() as int, p12.len() as int);
    lemma_window_of_prefix(s, p11, 0, p10.len() as int);
    lemma_window_of_prefix(s, p11, p10.len() as int, p11.len() as int);
    lemma_window_of_prefix(s, p10, 0, p9.len() as int);
    lemma_window_of_prefix(s, p10, p9.len() as int, p10.len() as int);
    lemma_window_of_prefix(s, p9, 0, p8.len() as int);
    lemma_window_of_prefix(s, p9, p8.len() as int, p9.len() as int);
    lemma_window_of_prefix(s, p8, 0, p7.len() as int);
    lemma_window_of_prefix(s, p8, p7.len() as int, p8.len() as int);
    lemma_window_of_prefix(s, p7, 0, p6.len() as int);
    lemma_window_of_prefix(s, p7, p6.len() as int, p7.len() as int);
    lemma_window_of_prefix(s, p6, 0, p5.len() as int);
    lemma_window_of_prefix(s, p6, p5.len() as int, p6.len() as int);
    lemma_window_of_prefix(s, p5, 0, p4.len() as int);
    lemma_window_of_prefix(s, p5, p4.len() as int, p5.len() as int);
    lemma_window_of_prefix(s, p4, 0, p3.len() as int);
    lemma_window_of_prefix(s, p4, p3.len() as int, p4.len() as int);
    lemma_window_of_prefix(s, p3, 0, p2.len() as int);
    lemma_window_of_prefix(s, p3, p2.len() as int, p3.len() as int);
    lemma_window_of_prefix(s, p2, 0, p1.len() as int);
    lemma_window_of_prefix(s, p2, p1.len() as int, p2.len() as int);
}

/// Every occupied vertex slot, index slot and track segment of a packed
/// blob reads back as the value the scene stored there, and both cursors
/// read back as the occupied counts.
#[verifier::rlimit(100)]
proof fn lemma_blob_reads(a: ArtData)
    requires
        a.wf(),
    ensures
        read_u32_at(blob_bytes(a), OFF_NV as int) == a.vertices@.len(),
        read_u32_at(blob_bytes(a), OFF_NI as int) == a.indices@.len(),
        read_range_at(blob_bytes(a), 0) == a.art_indices.cart,
        read_range_at(blob_bytes(a), 8) == a.art_indices.train,
        read_range_at(blob_bytes(a), 16) == a.art_indices.wheel,
        read_range_at(blob_bytes(a), 24) == a.art_indices.gun,
        read_range_at(blob_bytes(a), OFF_TRACK_RANGE as int) == a.track_indices,
        forall|j: int| 0 <= j < a.vertices@.len()
            ==> #[trigger] read_vertex_at(blob_bytes(a), OFF_VERTS + 32 * j)
                == a.vertices@[j],
        forall|j: int| 0 <= j < a.indices@.len()
            ==> #[trigger] read_u16_at(blob_bytes(a), OFF_INDICES + 2 * j)
                == a.indices@[j],
        forall|j: int| 0 <= j < TRACK_SEGMENTS
            ==> #[trigger] read_curve_at(blob_bytes(a), OFF_TRACK + 32 * j)
                == a.track.segments@[j],
{
    broadcast use lemma_u32_bytes_len, lemma_u16_bytes_len;
    let s = blob_bytes(a);
    let vs = a.vertices@;
    let is = a.indices@;
    let vreg = vertex_region(vs, VERTEX_COUNT as int);
    let ireg = index_region(is, INDEX_COUNT as int);
    lemma_blob_windows(a);
    lemma_vertex_region_len(vs, VERTEX_COUNT as int);
    lemma_index_region_len(is, INDEX_COUNT as int);

    lemma_read_u32_in(s, 513056, u32_bytes(vs.len() as int), 0);
    lemma_u32_bytes_inverse(vs.len() as int);
    lemma_read_u32_in(s, 513060, u32_bytes(is.len() as int), 0);
    lemma_u32_bytes_inverse(is.len() as int);

    lemma_read_range_window(s, 0, range_bytes(a.art_indices.cart), a.art_indices.cart);
    lemma_read_range_window(s, 8, range_bytes(a.art_indices.train), a.art_indices.train);
    lemma_read_range_window(s, 16, range_bytes(a.art_indices.wheel), a.art_indices.wheel);
    lemma_read_range_window(s, 24, range_bytes(a.art_indices.gun), a.art_indices.gun);
    lemma_read_range_window(s, 577064, range_bytes(a.track_indices), a.track_indices);

    assert forall|j: int| 0 <= j < vs.len() implies
        #[trigger] read_vertex_at(s, OFF_VERTS + 32 * j) == vs[j] by {
        lemma_vertex_region_read(vs, VERTEX_COUNT as int, j);
        lemma_read_vertex_window(s, 1056, vreg, 32 * j);
    }
    assert forall|j: int| 0 <= j < is.len() implies
        #[trigger] read_u16_at(s, OFF_INDICES + 2 * j) == is[j] by {
        lemma_index_region_read(is, INDEX_COUNT as int, j);
        lemma_read_u16_in(s, 513064, ireg, 2 * j);
    }

    lemma_curve_bytes_inverse(a.track.segments@[0]);
    lemma_curve_bytes_inverse(a.track.segments@[1]);
    lemma_curve_bytes_inverse(a.track.segments@[2]);
    lemma_read_curve_window(s, 577072, curve_bytes(a.track.segments@[0]), 0);
    lemma_read_curve_window(s, 577104, curve_bytes(a.track.segments@[1]), 0);
    lemma_read_curve_window(s, 577136, curve_bytes(a.track.segments@[2]), 0);
    assert forall|j: int| 0 <= j < TRACK_SEGMENTS implies
        #[trigger] read_curve_at(s, OFF_TRACK + 32 * j) == a.track.segments@[j] by {
        assert(j == 0 || j == 1 || j == 2);
        assert(read_curve_at(s, 577072) == a.track.segments@[0]);
        assert(read_curve_at(s, 577104) == a.track.segments@[1]);
        assert(read_curve_at(s, 577136) == a.track.segments@[2]);
    }
}

/// Writing the scene as a packed blob and reading that blob back restores
/// every field: the blob is valid, and its decoded content is the scene's
/// own content, image, arenas, cursors, catalogue, index range and track
/// alike.
#[verifier::rlimit(100)]
pub proof fn lemma_blob_roundtrip(a: ArtData)
    requires
        a.wf(),
    ensures
        blob_ok(blob_bytes(a)),
        blob_decode(blob_bytes(a)) == view_of(a),
{
    let s = blob_bytes(a);
    lemma_blob_windows(a);
    lemma_blob_reads(a);
    assert(blob_values_ok(s)) by {
        assert forall|j: int| 0 <= j < read_u32_at(s, OFF_NV as int)
            implies vert_wf(#[trigger] read_vertex_at(s, OFF_VERTS + 32 * j)) by {
            assert(read_vertex_at(s, OFF_VERTS + 32 * j) == a.vertices@[j]);
        }
        assert forall|j: int| 0 <= j < read_u32_at(s, OFF_NI as int)
            implies #[trigger] read_u16_at(s, OFF_INDICES + 2 * j) < VERTEX_COUNT by {
            assert(read_u16_at(s, OFF_INDICES + 2 * j) == a.indices@[j]);
        }
        assert forall|j: int| 0 <= j < TRACK_SEGMENTS
            implies curve_wf(#[trigger] read_curve_at(s, OFF_TRACK + 32 * j)) by {
            assert(read_curve_at(s, OFF_TRACK + 32 * j) == a.track.segments@[j]);
        }
    }
    let d = blob_decode(s);
    assert(d.image == a.image@);
    assert(d.vertices =~= a.vertices@);
    assert(d.indices =~= a.indices@);
    assert(d.track_segments =~= a.track.segments@);
}

/// A range read inside a window of a longer byte string is the range that
/// was stored there.
proof fn lemma_read_range_window(s: Seq<u8>, lo: int, r: Seq<u8>, v: IndexRange)
    requires
        0 <= lo,
        r == range_bytes(v),
        lo + r.len() <= s.len(),
        s.subrange(lo, lo + r.len()) == r,
    ensures
        read_range_at(s, lo) == v,
{
    broadcast use lemma_u32_bytes_len;
    lemma_concat_parts(u32_bytes(v.start as int), u32_bytes(v.count as int));
    lemma_read_u32_in(s, lo, r, 0);
    lemma_read_u32_in(s, lo, r, 4);
    lemma_read_u32_in(r, 0, u32_bytes(v.start as int), 0);
    lemma_read_u32_in(r, 4, u32_bytes(v.count as int), 0);
    lemma_u32_bytes_inverse(v.start as int);
    lemma_u32_bytes_inverse(v.count as int);
}

} // verus!
