//! The layout transform, one tile's cap, and in-chunk stitching.

use hex_grid::layout::to_hex_pos;
use hex_grid::mesh::create_quad;
use hex_grid::mesh::MeshBuffers;
use hex_grid::mesh::SurfaceNormal;
use hex_grid::mesh::TexCoord;
use hex_grid::mesh::WorldPos;
use hex_grid::stitch::add_tile_sides;
use hex_grid::tile::create_tile;

const OUTER_RADIUS: f32 = 1.0;
const INNER_RADIUS: f32 = OUTER_RADIUS * 0.866025404;

fn pos(x: i64, y: u32, z: i64) -> WorldPos {
    WorldPos { x, y, z }
}

/// Scales a lattice position into renderer units.
fn to_float(p: WorldPos) -> (f32, f32) {
    (p.x as f32 * INNER_RADIUS, p.z as f32 * 0.5 * OUTER_RADIUS)
}

#[test]
fn to_world_pins_shear_and_scale() {
    // Origin maps to the origin.
    assert_eq!(to_hex_pos(0, 0, 0), pos(0, 0, 0));

    // One column east: two inner radii.
    let east = to_hex_pos(1, 0, 0);
    assert_eq!(east, pos(2, 0, 0));
    assert_eq!(to_float(east), (2.0 * INNER_RADIUS, 0.0));

    // One row south: half a column east, one and a half outer radii on.
    let south = to_hex_pos(0, 0, 1);
    assert_eq!(south, pos(1, 0, 3));
    assert_eq!(to_float(south), (INNER_RADIUS, 1.5 * OUTER_RADIUS));

    // Height passes through untouched.
    assert_eq!(to_hex_pos(3, 77, 4), pos(6, 77, 12));
}

#[test]
fn tile_cap_emits_seven_vertices_and_six_triangles() {
    let mut bufs = MeshBuffers::new();
    let base = create_tile(pos(0, 5, 0), &mut bufs);
    assert_eq!(base, 0);
    assert_eq!(bufs.positions.len(), 7);
    assert_eq!(bufs.uvs.len(), 7);
    assert_eq!(bufs.normals.len(), 7);
    assert_eq!(bufs.indices.len(), 18);
    for &i in &bufs.indices {
        assert!(i < 7);
    }
    // The fan: (centre, corner i, corner i+1) for each of the six corners.
    let expected: Vec<u32> = (0..6u32).flat_map(|i| [0, 1 + i, 1 + (i + 1) % 6]).collect();
    assert_eq!(bufs.indices, expected);
}

#[test]
fn tile_cap_vertices_follow_the_corner_table() {
    let mut bufs = MeshBuffers::new();
    create_tile(pos(10, 9, 20), &mut bufs);
    let corners = [(0, 2), (1, 1), (1, -1), (0, -2), (-1, -1), (-1, 1)];
    assert_eq!(bufs.positions[0], pos(10, 9, 20));
    for (i, (dx, dz)) in corners.iter().enumerate() {
        assert_eq!(bufs.positions[1 + i], pos(10 + dx, 9, 20 + dz));
    }
    for (i, p) in bufs.positions.iter().enumerate() {
        assert_eq!(bufs.uvs[i], TexCoord { u: p.x, v: p.z });
        assert_eq!(bufs.normals[i], SurfaceNormal { x: 0, y: 1, z: 0 });
    }
}

#[test]
fn quad_winds_its_two_triangles() {
    let verts = vec![pos(0, 0, 0), pos(1, 0, 0), pos(2, 0, 0), pos(3, 0, 0), pos(4, 0, 0)];
    let mut indices = Vec::new();
    create_quad(1, 2, 3, 4, &mut indices, &verts);
    assert_eq!(indices, vec![1, 3, 2, 1, 4, 3]);
}

#[test]
fn east_stitch_bridges_corners_one_tile_stride_apart() {
    // A 2 by 2 chunk's caps, then stitch tile (0, 0).
    let mut bufs = MeshBuffers::new();
    for z in 0..2u32 {
        for x in 0..2u32 {
            create_tile(to_hex_pos(x, 0, z), &mut bufs);
        }
    }
    assert_eq!(bufs.positions.len(), 28);
    let before = bufs.indices.len();
    add_tile_sides(0, 0, 0, 2, &mut bufs.indices, &bufs.positions);

    // East quad: this tile's corners 1,2 (vertices 2,3) meet the east
    // neighbour's corners 4,5 (vertices 7+5=12, 7+6=13).
    assert_eq!(&bufs.indices[before..before + 6], &[2, 12, 3, 2, 13, 12]);
    // South quad (even row): corners 0,1 meet the south neighbour's 3,4
    // one row stride (14) on.
    assert_eq!(&bufs.indices[before + 6..before + 12], &[1, 18, 2, 1, 19, 18]);
    assert_eq!(bufs.indices.len(), before + 12);
    for &i in &bufs.indices {
        assert!(i < 28);
    }
}

#[test]
fn corner_tile_has_no_west_or_south_neighbour() {
    let mut bufs = MeshBuffers::new();
    for z in 0..2u32 {
        for x in 0..2u32 {
            create_tile(to_hex_pos(x, 0, z), &mut bufs);
        }
    }
    let before = bufs.indices.len();
    // Tile (1, 1): odd row, last column and last row: nothing to stitch.
    add_tile_sides(1, 1, 21, 2, &mut bufs.indices, &bufs.positions);
    assert_eq!(bufs.indices.len(), before);
}
