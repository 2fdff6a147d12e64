//! The terrain asset parser and the mesh invariant checks.

use collision_core::terrain::{parse_ozt, Terrain, TerrainError, get_terrain_triangle, ray_hit_terrain};
use collision_core::vec3::Vec3;

fn v(x: i64, y: i64, z: i64) -> Vec3 {
    Vec3 { x, y, z }
}

fn le32(n: u32) -> [u8; 4] {
    [(n & 0xff) as u8, ((n >> 8) & 0xff) as u8, ((n >> 16) & 0xff) as u8, ((n >> 24) & 0xff) as u8]
}

fn le16(n: u16) -> [u8; 2] {
    [(n & 0xff) as u8, ((n >> 8) & 0xff) as u8]
}

/// One vertex block of three 32-bit fields, three indices, one normal.
fn small_asset() -> Vec<u8> {
    let mut b: Vec<u8> = Vec::new();
    b.extend_from_slice(&le32(12)); // vertex block: one 12-byte vertex
    b.extend_from_slice(&le32(0x11111111));
    b.extend_from_slice(&le32(0x22222222));
    b.extend_from_slice(&le32(0x33333333));
    b.extend_from_slice(&le32(6)); // index block: 6 raw bytes = 3 u16 indices
    b.extend_from_slice(&le16(0));
    b.extend_from_slice(&le16(0));
    b.extend_from_slice(&le16(0));
    b.extend_from_slice(&le32(12)); // normal block: one triangle's normal
    b.extend_from_slice(&le32(0xaaaaaaaa));
    b.extend_from_slice(&le32(0xbbbbbbbb));
    b.extend_from_slice(&le32(0xcccccccc));
    b
}

#[test]
fn parse_small_asset() {
    let mesh = parse_ozt(&small_asset()).unwrap();
    assert_eq!(mesh.vertex_bits.len(), 1);
    assert_eq!(mesh.vertex_bits[0], (0x11111111, 0x22222222, 0x33333333));
    assert_eq!(mesh.indices, vec![0, 0, 0]);
    assert_eq!(mesh.normal_bits.len(), 1);
    assert_eq!(mesh.normal_bits[0], (0xaaaaaaaa, 0xbbbbbbbb, 0xcccccccc));
}

#[test]
fn truncated_header_is_fatal() {
    assert_eq!(parse_ozt(&vec![1, 2, 3]).err(), Some(TerrainError::Truncated));
}

#[test]
fn truncated_vertex_block_is_fatal() {
    let mut b: Vec<u8> = Vec::new();
    b.extend_from_slice(&le32(24));
    b.extend_from_slice(&[0u8; 12]);
    assert_eq!(parse_ozt(&b).err(), Some(TerrainError::Truncated));
}

#[test]
fn ragged_vertex_block_is_fatal() {
    let mut b: Vec<u8> = Vec::new();
    b.extend_from_slice(&le32(10)); // not a whole number of vertices
    b.extend_from_slice(&[0u8; 10]);
    assert_eq!(parse_ozt(&b).err(), Some(TerrainError::BadVertexBlock));
}

#[test]
fn ragged_index_count_is_fatal() {
    let mut b: Vec<u8> = Vec::new();
    b.extend_from_slice(&le32(0)); // no vertices
    b.extend_from_slice(&le32(4)); // 2 indices: not whole triangles
    b.extend_from_slice(&le16(0));
    b.extend_from_slice(&le16(0));
    assert_eq!(parse_ozt(&b).err(), Some(TerrainError::BadIndexBlock));
}

#[test]
fn normal_count_must_match_triangles() {
    let mut b = small_asset();
    // grow the normal block to two normals for one triangle
    let iend = 4 + 12 + 4 + 6;
    b.splice(iend..iend + 4, le32(24));
    b.extend_from_slice(&[0u8; 12]);
    assert_eq!(parse_ozt(&b).err(), Some(TerrainError::BadNormalBlock));
}

#[test]
fn index_past_vertices_is_fatal() {
    let mut b = small_asset();
    // point the first index at a vertex that does not exist
    let ioff = 4 + 12 + 4;
    b.splice(ioff..ioff + 2, le16(5));
    assert_eq!(parse_ozt(&b).err(), Some(TerrainError::IndexOutOfRange));
}

#[test]
fn terrain_new_checks_structure() {
    assert_eq!(
        Terrain::new(vec![v(0, 0, 0)], vec![0, 0], vec![v(0, 0, 1)]).err(),
        Some(TerrainError::BadIndexBlock)
    );
    assert_eq!(
        Terrain::new(vec![v(0, 0, 0)], vec![0, 0, 0], Vec::new()).err(),
        Some(TerrainError::BadNormalBlock)
    );
    assert_eq!(
        Terrain::new(vec![v(0, 0, 0)], vec![0, 0, 7], vec![v(0, 0, 1)]).err(),
        Some(TerrainError::IndexOutOfRange)
    );
    assert_eq!(
        Terrain::new(vec![v(9_999_999, 0, 0)], vec![0, 0, 0], vec![v(0, 0, 1)]).err(),
        Some(TerrainError::OutOfWorld)
    );
    assert_eq!(
        Terrain::new(vec![v(0, 0, 0)], vec![0, 0, 0], vec![v(0, 0, 0)]).err(),
        Some(TerrainError::ZeroNormal)
    );
}

fn two_layer_terrain() -> Terrain {
    // two horizontal triangles, one at z = 0 and one at z = 50
    Terrain::new(
        vec![
            v(-500, -500, 0),
            v(500, -500, 0),
            v(0, 500, 0),
            v(-500, -500, 50),
            v(500, -500, 50),
            v(0, 500, 50),
        ],
        vec![0, 1, 2, 3, 4, 5],
        vec![v(0, 0, 1), v(0, 0, 1)],
    )
    .unwrap()
}

#[test]
fn triangle_view_reads_the_index_buffer() {
    let t = two_layer_terrain();
    let tri = get_terrain_triangle(&t, 3);
    assert_eq!(tri.a, v(-500, -500, 50));
    assert_eq!(tri.b, v(500, -500, 50));
    assert_eq!(tri.c, v(0, 500, 50));
    assert_eq!(tri.normal, v(0, 0, 1));
}

#[test]
fn ray_hits_the_nearest_triangle() {
    let t = two_layer_terrain();
    // cast straight down from above both layers: the upper one is nearer
    let (idx, point) = ray_hit_terrain(&t, &v(1, 1, 100), &v(0, 0, -1)).unwrap();
    assert_eq!(idx, 3);
    assert_eq!(point, v(1, 1, 50));
}

#[test]
fn ray_behind_origin_does_not_hit() {
    let t = two_layer_terrain();
    // cast straight up: both layers lie behind the ray
    assert!(ray_hit_terrain(&t, &v(0, 0, 100), &v(0, 0, 1)).is_none());
}

#[test]
fn parallel_ray_does_not_hit() {
    let t = two_layer_terrain();
    assert!(ray_hit_terrain(&t, &v(0, 0, 100), &v(1, 0, 0)).is_none());
}
