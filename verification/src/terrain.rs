//! The terrain mesh: flat vertex, index and face-normal arrays, the derived
//! per-face triangle view, and the parser for the terrain asset's binary
//! layout.
//!
//! The asset holds three little-endian blocks, each preceded by a `u32` byte
//! count: vertex data (12 bytes per vertex), index data (the count is raw
//! bytes, holding half as many `u16` indices, three per triangle), and face
//! normal data (12 bytes per triangle).  The parser returns the raw 32-bit
//! patterns of each field; turning them into grid coordinates is the
//! caller's concern.  A malformed file is a load-time error: the terrain is
//! required for everything that follows, so there is no degraded mode.

use vstd::prelude::*;
use crate::vec3::{Vec3, Vec2, world_ok, MAX_COORD};
use crate::shapes::{Triangle, Plane, tri_plane_spec, project2};
use crate::intersect::{
    ray_den, ray_pden, ray_pnum, ray_point, ray_point_in_world, spoint_in_triangle,
};

verus! {

/// Why a terrain asset was rejected.
#[derive(Clone, Copy, PartialEq, Eq, Structural, Debug)]
pub enum TerrainError {
    /// A block header or block body runs past the end of the file.
    Truncated,
    /// The vertex block's byte count is not a whole number of 12-byte vertices.
    BadVertexBlock,
    /// The index count is not a whole number of triangles.
    BadIndexBlock,
    /// The normal block is not whole 12-byte normals, one per triangle.
    BadNormalBlock,
    /// An index points past the end of the vertex array.
    IndexOutOfRange,
    /// A coordinate (after the caller's conversion) leaves the world bounds.
    OutOfWorld,
    /// A face normal is the zero vector, which spans no plane.
    ZeroNormal,
}

/// The raw 32-bit little-endian patterns of a parsed terrain asset.
pub struct OztMesh {
    pub vertex_bits: Vec<(u32, u32, u32)>,
    pub indices: Vec<u16>,
    pub normal_bits: Vec<(u32, u32, u32)>,
}

/// The 16-bit little-endian value at offset `i`.
pub open spec fn le16(b: Seq<u8>, i: int) -> int {
    b[i] + 0x100 * b[i + 1]
}

/// The 32-bit little-endian value at offset `i`.
pub open spec fn le32(b: Seq<u8>, i: int) -> int {
    b[i] + 0x100 * b[i + 1] + 0x1_0000 * b[i + 2] + 0x100_0000 * b[i + 3]
}

/// Byte count of the vertex block.
pub open spec fn ozt_vc(b: Seq<u8>) -> int {
    le32(b, 0)
}

/// Offset of the index block's count field.
pub open spec fn ozt_vend(b: Seq<u8>) -> int {
    4 + ozt_vc(b)
}

/// Number of `u16` indices: the index block's count field is raw bytes and
/// holds half as many indices.
pub open spec fn ozt_icount(b: Seq<u8>) -> int {
    le32(b, ozt_vend(b)) / 2
}

/// Offset of the normal block's count field.
pub open spec fn ozt_iend(b: Seq<u8>) -> int {
    ozt_vend(b) + 4 + 2 * ozt_icount(b)
}

/// Byte count of the normal block.
pub open spec fn ozt_nc(b: Seq<u8>) -> int {
    le32(b, ozt_iend(b))
}

/// The `j`-th index value.
pub open spec fn ozt_index(b: Seq<u8>, j: int) -> int {
    le16(b, ozt_vend(b) + 4 + 2 * j)
}

/// The triple of 32-bit patterns starting at offset `off`.
pub open spec fn ozt_triple(b: Seq<u8>, off: int) -> (int, int, int) {
    (le32(b, off), le32(b, off + 4), le32(b, off + 8))
}

/// The verdict of the parser on a byte string, errors in the order the
/// blocks are read: a read past the end fails first, then each block's shape
/// check, and the index range check last, once everything has been read.
pub open spec fn ozt_parse_err(b: Seq<u8>) -> Option<TerrainError> {
    if b.len() < 4 {
        Some(TerrainError::Truncated)
    } else if b.len() < ozt_vend(b) {
        Some(TerrainError::Truncated)
    } else if ozt_vc(b) % 12 != 0 {
        Some(TerrainError::BadVertexBlock)
    } else if b.len() < ozt_vend(b) + 4 {
        Some(TerrainError::Truncated)
    } else if b.len() < ozt_iend(b) {
        Some(TerrainError::Truncated)
    } else if ozt_icount(b) % 3 != 0 {
        Some(TerrainError::BadIndexBlock)
    } else if b.len() < ozt_iend(b) + 4 {
        Some(TerrainError::Truncated)
    } else if b.len() < ozt_iend(b) + 4 + ozt_nc(b) {
        Some(TerrainError::Truncated)
    } else if ozt_nc(b) % 12 != 0 || ozt_nc(b) / 12 != ozt_icount(b) / 3 {
        Some(TerrainError::BadNormalBlock)
    } else if exists|j: int| 0 <= j < ozt_icount(b) && ozt_index(b, j) >= ozt_vc(b) / 12 {
        Some(TerrainError::IndexOutOfRange)
    } else {
        None
    }
}

/// The 32-bit little-endian value at `i`, exactly `le32`.
fn read_u32(bytes: &Vec<u8>, i: usize) -> (r: u32)
    requires
        i + 4 <= bytes@.len(),
    ensures
        r == le32(bytes@, i as int),
{
    let blen: usize = bytes.len();
    (bytes[i] as u32) + 0x100 * (bytes[i + 1] as u32) + 0x1_0000 * (bytes[i + 2] as u32)
        + 0x100_0000 * (bytes[i + 3] as u32)
}

/// The 16-bit little-endian value at `i`, exactly `le16`.
fn read_u16(bytes: &Vec<u8>, i: usize) -> (r: u16)
    requires
        i + 2 <= bytes@.len(),
    ensures
        r == le16(bytes@, i as int),
{
    let blen: usize = bytes.len();
    (bytes[i] as u16) + 0x100 * (bytes[i + 1] as u16)
}

/// Parse a terrain asset.  Succeeds exactly when `ozt_parse_err` is `None`;
/// on success the three arrays hold, in order, every 32-bit vertex pattern,
/// every index, and every 32-bit normal pattern of the file, and on failure
/// the error is the verdict of `ozt_parse_err`.
#[verifier::loop_isolation(false)]
pub fn parse_ozt(bytes: &Vec<u8>) -> (r: Result<OztMesh, TerrainError>)
    ensures
        r.is_ok() <==> ozt_parse_err(bytes@).is_none(),
        r matches Err(e) ==> ozt_parse_err(bytes@) == Some(e),
        r matches Ok(m) ==> {
            let b = bytes@;
            &&& m.vertex_bits@.len() == ozt_vc(b) / 12
            &&& forall|j: int| 0 <= j < m.vertex_bits@.len() ==> {
                let t = ozt_triple(b, 4 + 12 * j);
                (#[trigger] m.vertex_bits@[j]).0 == t.0 && m.vertex_bits@[j].1 == t.1
                    && m.vertex_bits@[j].2 == t.2
            }
            &&& m.indices@.len() == ozt_icount(b)
            &&& forall|j: int| 0 <= j < m.indices@.len()
                ==> #[trigger] m.indices@[j] == ozt_index(b, j)
            &&& m.normal_bits@.len() == ozt_nc(b) / 12
            &&& forall|j: int| 0 <= j < m.normal_bits@.len() ==> {
                let t = ozt_triple(b, ozt_iend(b) + 4 + 12 * j);
                (#[trigger] m.normal_bits@[j]).0 == t.0 && m.normal_bits@[j].1 == t.1
                    && m.normal_bits@[j].2 == t.2
            }
        },
{
    let blen: usize = bytes.len();
    if blen < 4 {
        return Err(TerrainError::Truncated);
    }
    let vc: u32 = read_u32(bytes, 0);
    if (blen as u64) < 4u64 + (vc as u64) {
        return Err(TerrainError::Truncated);
    }
    if vc % 12 != 0 {
        return Err(TerrainError::BadVertexBlock);
    }
    let vcount: usize = (vc / 12) as usize;
    let vend: usize = 4 + (vc as usize);

    let mut vertex_bits: Vec<(u32, u32, u32)> = Vec::new();
    let mut j: usize = 0;
    while j < vcount
        invariant
            vcount == ozt_vc(bytes@) / 12,
            ozt_vc(bytes@) % 12 == 0,
            4 + 12 * vcount <= bytes@.len(),
            bytes@.len() <= usize::MAX,
            0 <= j <= vcount,
            vertex_bits@.len() == j,
            forall|k: int| 0 <= k < j ==> {
                let t = ozt_triple(bytes@, 4 + 12 * k);
                (#[trigger] vertex_bits@[k]).0 == t.0 && vertex_bits@[k].1 == t.1
                    && vertex_bits@[k].2 == t.2
            },
        decreases vcount - j,
    {
        let off: usize = 4 + 12 * j;
        let x: u32 = read_u32(bytes, off);
        let y: u32 = read_u32(bytes, off + 4);
        let z: u32 = read_u32(bytes, off + 8);
        vertex_bits.push((x, y, z));
        j = j + 1;
    }

    if (blen as u64) < (vend as u64) + 4u64 {
        return Err(TerrainError::Truncated);
    }
    let ibytes: u32 = read_u32(bytes, vend);
    let icount: usize = (ibytes / 2) as usize;
    if (blen as u64) < (vend as u64) + 4u64 + 2u64 * (icount as u64) {
        return Err(TerrainError::Truncated);
    }
    if icount % 3 != 0 {
        return Err(TerrainError::BadIndexBlock);
    }
    let iend: usize = vend + 4 + 2 * icount;

    let mut indices: Vec<u16> = Vec::new();
    let mut j2: usize = 0;
    while j2 < icount
        invariant
            icount == ozt_icount(bytes@),
            vend == ozt_vend(bytes@),
            iend == ozt_iend(bytes@),
            vend + 4 + 2 * icount <= bytes@.len(),
            bytes@.len() <= usize::MAX,
            0 <= j2 <= icount,
            indices@.len() == j2,
            forall|k: int| 0 <= k < j2 ==> #[trigger] indices@[k] == ozt_index(bytes@, k),
        decreases icount - j2,
    {
        let v: u16 = read_u16(bytes, vend + 4 + 2 * j2);
        indices.push(v);
        j2 = j2 + 1;
    }

    if (blen as u64) < (iend as u64) + 4u64 {
        return Err(TerrainError::Truncated);
    }
    let nc: u32 = read_u32(bytes, iend);
    if (blen as u64) < (iend as u64) + 4u64 + (nc as u64) {
        return Err(TerrainError::Truncated);
    }
    if nc % 12 != 0 || (nc / 12) as usize != icount / 3 {
        return Err(TerrainError::BadNormalBlock);
    }
    let ncount: usize = (nc / 12) as usize;

    let mut normal_bits: Vec<(u32, u32, u32)> = Vec::new();
    let mut j3: usize = 0;
    while j3 < ncount
        invariant
            ncount == ozt_nc(bytes@) / 12,
            ozt_nc(bytes@) % 12 == 0,
            iend == ozt_iend(bytes@),
            iend + 4 + 12 * ncount <= bytes@.len(),
            bytes@.len() <= usize::MAX,
            0 <= j3 <= ncount,
            normal_bits@.len() == j3,
            forall|k: int| 0 <= k < j3 ==> {
                let t = ozt_triple(bytes@, ozt_iend(bytes@) + 4 + 12 * k);
                (#[trigger] normal_bits@[k]).0 == t.0 && normal_bits@[k].1 == t.1
                    && normal_bits@[k].2 == t.2
            },
        decreases ncount - j3,
    {
        let off: usize = iend + 4 + 12 * j3;
        let x: u32 = read_u32(bytes, off);
        let y: u32 = read_u32(bytes, off + 4);
        let z: u32 = read_u32(bytes, off + 8);
        normal_bits.push((x, y, z));
        j3 = j3 + 1;
    }

    // Every index must name a vertex that exists.
    let mut j4: usize = 0;
    while j4 < icount
        invariant
            icount == ozt_icount(bytes@),
            indices@.len() == icount,
            vcount == ozt_vc(bytes@) / 12,
            forall|k: int| 0 <= k < icount ==> #[trigger] indices@[k] == ozt_index(bytes@, k),
            0 <= j4 <= icount,
            forall|k: int| 0 <= k < j4 ==> ozt_index(bytes@, k) < vcount,
        decreases icount - j4,
    {
        if (indices[j4] as usize) >= vcount {
            proof {
                assert(0 <= j4 < ozt_icount(bytes@)
                    && ozt_index(bytes@, j4 as int) >= ozt_vc(bytes@) / 12);
            }
            return Err(TerrainError::IndexOutOfRange);
        }
        j4 = j4 + 1;
    }

    Ok(OztMesh { vertex_bits, indices, normal_bits })
}

/// The level's collision geometry: flat arrays of vertices, triangle indices
/// (three per face) and one precomputed face normal per triangle.  Immutable
/// after load.
pub struct Terrain {
    pub vertices: Vec<Vec3>,
    pub indices: Vec<u16>,
    pub face_normals: Vec<Vec3>,
}

/// Structural invariant of a loaded terrain: whole triangles, one normal per
/// triangle, every index in range and every coordinate inside the world.
pub open spec fn twf(t: Terrain) -> bool {
    &&& t.indices@.len() % 3 == 0
    &&& t.face_normals@.len() == t.indices@.len() / 3
    &&& forall|i: int| 0 <= i < t.indices@.len() ==> #[trigger] t.indices@[i] < t.vertices@.len()
    &&& forall|i: int| 0 <= i < t.vertices@.len() ==> world_ok(#[trigger] t.vertices@[i])
    &&& forall|i: int| 0 <= i < t.face_normals@.len() ==> world_ok(#[trigger] t.face_normals@[i])
    &&& forall|i: int| 0 <= i < t.face_normals@.len()
        ==> crate::vec3::snorm_sq(#[trigger] t.face_normals@[i]) > 0
}

/// The triangle at base index `i` (a multiple of 3): vertices named by three
/// consecutive indices, and the face's precomputed normal.
pub open spec fn striangle(t: Terrain, i: int) -> Triangle {
    Triangle {
        a: t.vertices@[t.indices@[i] as int],
        b: t.vertices@[t.indices@[i + 1] as int],
        c: t.vertices@[t.indices@[i + 2] as int],
        normal: t.face_normals@[i / 3],
    }
}

impl Terrain {
    /// Build a terrain after checking the structural invariant; each error
    /// names the first violated condition, in the order of `twf`.
    #[verifier::loop_isolation(false)]
    pub fn new(vertices: Vec<Vec3>, indices: Vec<u16>, face_normals: Vec<Vec3>) -> (r: Result<
        Terrain,
        TerrainError,
    >)
        ensures
            r matches Ok(t) ==> twf(t) && t.vertices@ == vertices@ && t.indices@ == indices@
                && t.face_normals@ == face_normals@,
            r.is_err() ==> !twf(
                (Terrain { vertices, indices, face_normals }),
            ),
    {
        if indices.len() % 3 != 0 {
            return Err(TerrainError::BadIndexBlock);
        }
        if face_normals.len() != indices.len() / 3 {
            return Err(TerrainError::BadNormalBlock);
        }
        let mut i: usize = 0;
        while i < indices.len()
            invariant
                0 <= i <= indices@.len(),
                forall|k: int| 0 <= k < i ==> #[trigger] indices@[k] < vertices@.len(),
            decreases indices@.len() - i,
        {
            if (indices[i] as usize) >= vertices.len() {
                proof {
                    let t = Terrain { vertices, indices, face_normals };
                    assert(t.indices@[i as int] >= t.vertices@.len());
                }
                return Err(TerrainError::IndexOutOfRange);
            }
            i = i + 1;
        }
        let mut i2: usize = 0;
        while i2 < vertices.len()
            invariant
                0 <= i2 <= vertices@.len(),
                forall|k: int| 0 <= k < i2 ==> world_ok(#[trigger] vertices@[k]),
            decreases vertices@.len() - i2,
        {
            let v = vertices[i2];
            if v.x < -MAX_COORD || v.x > MAX_COORD || v.y < -MAX_COORD || v.y > MAX_COORD
                || v.z < -MAX_COORD || v.z > MAX_COORD {
                proof {
                    let t = Terrain { vertices, indices, face_normals };
                    assert(!world_ok(t.vertices@[i2 as int]));
                }
                return Err(TerrainError::OutOfWorld);
            }
            i2 = i2 + 1;
        }
        let mut i3: usize = 0;
        while i3 < face_normals.len()
            invariant
                0 <= i3 <= face_normals@.len(),
                forall|k: int| 0 <= k < i3 ==> world_ok(#[trigger] face_normals@[k]),
                forall|k: int| 0 <= k < i3
                    ==> crate::vec3::snorm_sq(#[trigger] face_normals@[k]) > 0,
            decreases face_normals@.len() - i3,
        {
            let v = face_normals[i3];
            if v.x < -MAX_COORD || v.x > MAX_COORD || v.y < -MAX_COORD || v.y > MAX_COORD
                || v.z < -MAX_COORD || v.z > MAX_COORD {
                proof {
                    let t = Terrain { vertices, indices, face_normals };
                    assert(!world_ok(t.face_normals@[i3 as int]));
                }
                return Err(TerrainError::OutOfWorld);
            }
            if v.x == 0 && v.y == 0 && v.z == 0 {
                proof {
                    let t = Terrain { vertices, indices, face_normals };
                    assert(crate::vec3::snorm_sq(t.face_normals@[i3 as int]) == 0);
                }
                return Err(TerrainError::ZeroNormal);
            }
            proof {
                crate::vec3::lemma_square_nonneg(v.x as int);
                crate::vec3::lemma_square_nonneg(v.y as int);
                crate::vec3::lemma_square_nonneg(v.z as int);
                assert(crate::vec3::snorm_sq(face_normals@[i3 as int]) > 0);
            }
            i3 = i3 + 1;
        }
        Ok(Terrain { vertices, indices, face_normals })
    }

    /// Number of triangles.
    pub fn triangle_count(&self) -> (r: usize)
        ensures
            r == self.face_normals@.len(),
    {
        self.face_normals.len()
    }
}

/// The ray strikes the triangle at base index `k`: not parallel to its
/// plane, the parameter positive (hits behind the origin are rejected), the
/// rounded point on the world grid, and that point inside the triangle in
/// the dominant-axis 2D projection.
pub open spec fn rt_hits(ter: Terrain, k: int, o: Vec3, dir: Vec3) -> bool {
    let tri = striangle(ter, k);
    let pl = tri_plane_spec(tri);
    &&& ray_den(pl, dir) != 0
    &&& ray_pnum(pl, o, dir) > 0
    &&& ray_point_in_world(pl, o, dir)
    &&& spoint_in_triangle(
        project2(tri.normal, ray_point(pl, o, dir)),
        project2(tri.normal, tri.a),
        project2(tri.normal, tri.b),
        project2(tri.normal, tri.c),
    )
}

/// Cross-multiplied comparison: the hit at base index `k1` is strictly
/// nearer along the ray than the hit at `k2`.
pub open spec fn rt_nearer(ter: Terrain, o: Vec3, dir: Vec3, k1: int, k2: int) -> bool {
    let pl1 = tri_plane_spec(striangle(ter, k1));
    let pl2 = tri_plane_spec(striangle(ter, k2));
    ray_pnum(pl1, o, dir) * ray_pden(pl2, o, dir) < ray_pnum(pl2, o, dir) * ray_pden(pl1, o, dir)
}

/// Base index of the nearest hit among the first `n` triangles, walking them
/// in order and replacing only on a strictly nearer hit, so the earliest of
/// equally near hits wins.
pub open spec fn rt_best(ter: Terrain, o: Vec3, dir: Vec3, n: int) -> Option<int>
    decreases n,
{
    if n <= 0 {
        None
    } else {
        let prev = rt_best(ter, o, dir, n - 1);
        let k = 3 * (n - 1);
        if rt_hits(ter, k, o, dir) {
            match prev {
                None => Some(k),
                Some(kp) => if rt_nearer(ter, o, dir, k, kp) {
                    Some(k)
                } else {
                    Some(kp)
                },
            }
        } else {
            prev
        }
    }
}

proof fn lemma_ratio_le_trans(a: int, b: int, c: int, d: int, e: int, f: int)
    by (nonlinear_arith)
    requires
        b > 0,
        d > 0,
        f > 0,
        a * d <= c * b,
        c * f <= e * d,
    ensures
        a * f <= e * b,
{
}

/// The nearest-hit index is a hit, and no other triangle the ray strikes is
/// strictly nearer; when it is `None`, nothing was struck.
pub proof fn lemma_ray_best_is_nearest(ter: Terrain, o: Vec3, dir: Vec3, n: int)
    requires
        forall|m: int| 0 <= m < n ==> ray_pden(tri_plane_spec(#[trigger] striangle(ter, 3 * m)), o, dir) >= 0,
    ensures
        rt_best(ter, o, dir, n) matches Some(k) ==> {
            &&& k % 3 == 0
            &&& 0 <= k < 3 * n
            &&& rt_hits(ter, k, o, dir)
            &&& forall|m: int| 0 <= m < n && rt_hits(ter, #[trigger] (3 * m), o, dir)
                ==> !rt_nearer(ter, o, dir, 3 * m, k)
        },
        rt_best(ter, o, dir, n).is_none() ==> forall|m: int| 0 <= m < n
            ==> !rt_hits(ter, #[trigger] (3 * m), o, dir),
    decreases n,
{
    if n > 0 {
        lemma_ray_best_is_nearest(ter, o, dir, n - 1);
        let k = 3 * (n - 1);
        let prev = rt_best(ter, o, dir, n - 1);
        if rt_hits(ter, k, o, dir) && prev.is_some() && rt_nearer(ter, o, dir, k, prev.unwrap()) {
            let kp = prev.unwrap();
            // a nearer new hit stays no farther than every earlier hit
            assert forall|m: int| 0 <= m < n - 1 && rt_hits(ter, #[trigger] (3 * m), o, dir)
                implies !rt_nearer(ter, o, dir, 3 * m, k) by {
                let plm = tri_plane_spec(striangle(ter, 3 * m));
                let plk = tri_plane_spec(striangle(ter, k));
                let plp = tri_plane_spec(striangle(ter, kp));
                lemma_ratio_le_trans(
                    ray_pnum(plk, o, dir),
                    ray_pden(plk, o, dir),
                    ray_pnum(plp, o, dir),
                    ray_pden(plp, o, dir),
                    ray_pnum(plm, o, dir),
                    ray_pden(plm, o, dir),
                );
            }
        }
    }
}

/// Scan every triangle and return the nearest one the ray strikes, with the
/// rounded intersection point: brute force over the whole mesh, by design.
#[verifier::loop_isolation(false)]
pub fn ray_hit_terrain(terrain: &Terrain, ray_origin: &Vec3, ray_direction: &Vec3) -> (r: Option<
    (usize, Vec3),
>)
    requires
        twf(*terrain),
        world_ok(*ray_origin),
        world_ok(*ray_direction),
    ensures
        ({
            let best = rt_best(*terrain, *ray_origin, *ray_direction, terrain.indices@.len() as int / 3);
            &&& r.is_some() == best.is_some()
            &&& (r matches Some(p) ==> best == Some(p.0 as int) && p.1 == ray_point(
                tri_plane_spec(striangle(*terrain, p.0 as int)),
                *ray_origin,
                *ray_direction,
            ))
        }),
{
    let ilen: usize = terrain.indices.len();
    let ntri: usize = ilen / 3;
    let mut found: bool = false;
    let mut best_k: usize = 0;
    let mut best_num: i128 = 0;
    let mut best_den: i128 = 1;
    let mut best_pt: Vec3 = Vec3 { x: 0, y: 0, z: 0 };
    let mut j: usize = 0;
    while j < ntri
        invariant
            0 <= j <= ntri,
            found == rt_best(*terrain, *ray_origin, *ray_direction, j as int).is_some(),
            found ==> {
                let pl = tri_plane_spec(striangle(*terrain, best_k as int));
                &&& rt_best(*terrain, *ray_origin, *ray_direction, j as int) == Some(best_k as int)
                &&& best_k % 3 == 0 && best_k + 2 < ilen
                &&& best_num == ray_pnum(pl, *ray_origin, *ray_direction)
                &&& best_den == ray_pden(pl, *ray_origin, *ray_direction)
                &&& 0 < best_den <= 0x30_0000_0000
                &&& -0x60_0000_0000 <= best_num <= 0x60_0000_0000
                &&& best_pt == ray_point(pl, *ray_origin, *ray_direction)
            },
        decreases ntri - j,
    {
        let k: usize = 3 * j;
        let tri: Triangle = get_terrain_triangle(terrain, k);
        let ghost pl = tri_plane_spec(striangle(*terrain, k as int));
        proof {
            crate::intersect::lemma_sdot_bound(*ray_direction, tri.normal, MAX_COORD as int);
            crate::vec3::lemma_dot_sub_bound(tri.normal, tri.a, *ray_origin, MAX_COORD as int);
        }
        let den: i128 = crate::vec3::dot(ray_direction, &tri.normal);
        let num: i128 = crate::vec3::dot_sub(&tri.normal, &tri.a, ray_origin);
        if den != 0 {
            let (pnum, pden): (i128, i128) = if den > 0 { (num, den) } else { (-num, -den) };
            if pnum > 0 {
                let (x, okx): (i64, bool) = crate::intersect::ray_coord(
                    ray_origin.x, ray_direction.x, pnum, pden);
                let (y, oky): (i64, bool) = crate::intersect::ray_coord(
                    ray_origin.y, ray_direction.y, pnum, pden);
                let (z, okz): (i64, bool) = crate::intersect::ray_coord(
                    ray_origin.z, ray_direction.z, pnum, pden);
                if okx && oky && okz {
                    let pt = Vec3 { x, y, z };
                    let (t2, a2, b2, c2): (Vec2, Vec2, Vec2, Vec2) = if tri.normal.z > 0 {
                        (
                            Vec2 { x: pt.x, y: pt.y },
                            Vec2 { x: tri.a.x, y: tri.a.y },
                            Vec2 { x: tri.b.x, y: tri.b.y },
                            Vec2 { x: tri.c.x, y: tri.c.y },
                        )
                    } else {
                        (
                            Vec2 { x: pt.x, y: pt.z },
                            Vec2 { x: tri.a.x, y: tri.a.z },
                            Vec2 { x: tri.b.x, y: tri.b.z },
                            Vec2 { x: tri.c.x, y: tri.c.z },
                        )
                    };
                    if crate::intersect::point_in_triangle(&t2, &a2, &b2, &c2) {
                        proof {
                            assert(rt_hits(*terrain, k as int, *ray_origin, *ray_direction));
                        }
                        let replace: bool = if !found {
                            true
                        } else {
                            proof {
                                assert(pnum * best_den <= 0x6_0000_0000_0000_0000_0000
                                    && best_num * pden <= 0x6_0000_0000_0000_0000_0000
                                    && pnum * best_den >= -0x6_0000_0000_0000_0000_0000
                                    && best_num * pden >= -0x6_0000_0000_0000_0000_0000)
                                    by (nonlinear_arith)
                                    requires
                                        0 < pden <= 0x30_0000_0000,
                                        0 < pnum <= 0x60_0000_0000,
                                        0 < best_den <= 0x30_0000_0000,
                                        -0x60_0000_0000 <= best_num <= 0x60_0000_0000;
                            }
                            pnum * best_den < best_num * pden
                        };
                        if replace {
                            found = true;
                            best_k = k;
                            best_num = pnum;
                            best_den = pden;
                            best_pt = pt;
                        }
                    }
                }
            }
        }
        proof {
            assert(rt_best(*terrain, *ray_origin, *ray_direction, j as int + 1)
                == (if found { Some(best_k as int) } else { Option::<int>::None }));
        }
        j = j + 1;
    }
    if found {
        Some((best_k, best_pt))
    } else {
        None
    }
}

/// The triangle at base index `triangle_index` of the mesh, built on demand.
pub fn get_terrain_triangle(terrain: &Terrain, triangle_index: usize) -> (r: Triangle)
    requires
        twf(*terrain),
        triangle_index % 3 == 0,
        triangle_index + 2 < terrain.indices@.len(),
    ensures
        r == striangle(*terrain, triangle_index as int),
        world_ok(r.a) && world_ok(r.b) && world_ok(r.c) && world_ok(r.normal),
{
    let ilen: usize = terrain.indices.len();
    let a = terrain.vertices[terrain.indices[triangle_index] as usize];
    let b = terrain.vertices[terrain.indices[triangle_index + 1] as usize];
    let c = terrain.vertices[terrain.indices[triangle_index + 2] as usize];
    let normal = terrain.face_normals[triangle_index / 3];
    Triangle { a, b, c, normal }
}

} // verus!
