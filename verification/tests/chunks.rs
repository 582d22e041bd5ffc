//! Whole chunks and the chunk grid.

use hex_grid::chunk::create_chunk;
use hex_grid::grid::build_map;
use hex_grid::height::HeightField;
use hex_grid::layout::to_hex_pos;
use hex_grid::mesh::WorldPos;

fn flat_field(width: u32, height: u32) -> HeightField {
    HeightField::new(width, height, vec![0; (width * height) as usize])
}

#[test]
fn single_flat_2x2_chunk_counts() {
    // A lone 2 by 2 chunk over a constant-zero height field.
    let field = flat_field(2, 2);
    let mesh = create_chunk(0, 0, 2, 1, &field);

    // Four caps of seven vertices; no seam on a one-chunk map.
    assert_eq!(mesh.positions.len(), 28);
    assert_eq!(mesh.uvs.len(), 28);
    assert_eq!(mesh.normals.len(), 28);
    for p in &mesh.positions {
        assert_eq!(p.y, 0);
    }

    // Quads by the adjacency rules: (0,0) east+south, (1,0) south+west,
    // (0,1) east only, (1,1) none — five quads in all.
    // 4 caps * 6 + 5 quads * 2 = 34 triangles.
    assert_eq!(mesh.indices.len() % 3, 0);
    assert_eq!(mesh.indices.len() / 3, 34);
    for &i in &mesh.indices {
        assert!((i as usize) < mesh.positions.len());
    }
}

#[test]
fn chunk_of_one_tile_is_a_bare_cap() {
    let field = flat_field(1, 1);
    let mesh = create_chunk(0, 0, 1, 1, &field);
    assert_eq!(mesh.positions.len(), 7);
    assert_eq!(mesh.indices.len(), 18);
    assert_eq!(mesh.indices.len() / 3, 6);
}

#[test]
fn heights_come_from_the_map_global_sample() {
    // 1-tile chunks on a 2 by 2 map: chunk (c_x, c_z) caps at the sample
    // of its own global coordinate.
    let field = HeightField::new(3, 3, vec![10, 20, 30, 40, 50, 60, 70, 80, 90]);
    let chunks = build_map(2, 1, &field);
    assert_eq!(chunks.len(), 4);
    // sample (x, z) = data[z * 3 + x]
    assert_eq!(chunks[0].mesh.positions[0].y, 10); // (0,0)
    assert_eq!(chunks[1].mesh.positions[0].y, 20); // (1,0)
    assert_eq!(chunks[2].mesh.positions[0].y, 40); // (0,1)
    assert_eq!(chunks[3].mesh.positions[0].y, 50); // (1,1)
}

#[test]
fn seam_vertices_take_the_east_neighbour_heights() {
    let field = HeightField::new(2, 2, vec![10, 20, 30, 40]);
    let mesh = create_chunk(0, 0, 1, 2, &field);
    // One cap, then the even seam row adds corners 2 and 1 of the
    // boundary centre, at the height sampled one chunk east: (1, 0) = 20.
    assert_eq!(mesh.positions.len(), 9);
    assert_eq!(mesh.positions[7], WorldPos { x: 1, y: 20, z: -1 });
    assert_eq!(mesh.positions[8], WorldPos { x: 1, y: 20, z: 1 });
    // Cap fan (18 entries), no tile skirts in a 1-tile chunk, then one
    // seam quad from the cap's corners 1,2 to the new pair.
    assert_eq!(mesh.indices.len(), 24);
    assert_eq!(&mesh.indices[18..], &[2, 7, 3, 2, 8, 7]);
}

#[test]
fn east_chunks_have_seams_and_border_chunks_do_not() {
    let field = flat_field(4, 5);
    let chunks = build_map(2, 2, &field);
    assert_eq!(chunks.len(), 4);
    // Chunks with an east neighbour grow 5 seam vertices (2+3 for rows
    // 0 and 1) and 3 seam quads (1 even + 2 odd).
    assert_eq!(chunks[0].mesh.positions.len(), 33);
    assert_eq!(chunks[0].mesh.indices.len(), 120);
    assert_eq!(chunks[2].mesh.positions.len(), 33);
    // Chunks on the east border keep their bare 28 cap vertices.
    assert_eq!(chunks[1].mesh.positions.len(), 28);
    assert_eq!(chunks[1].mesh.indices.len(), 102);
    assert_eq!(chunks[3].mesh.positions.len(), 28);
}

#[test]
fn map_origins_follow_the_chunk_layout() {
    let field = flat_field(4, 5);
    let chunks = build_map(2, 2, &field);
    assert_eq!(chunks.len(), 4);
    for (k, c) in chunks.iter().enumerate() {
        let cx = (k % 2) as u32;
        let cz = (k / 2) as u32;
        assert_eq!(c.origin, to_hex_pos(cx * 2, 0, cz * 2));
    }
    assert_eq!(chunks[0].origin, WorldPos { x: 0, y: 0, z: 0 });
    assert_eq!(chunks[1].origin, WorldPos { x: 4, y: 0, z: 0 });
    assert_eq!(chunks[2].origin, WorldPos { x: 0, y: 0, z: 6 });
    assert_eq!(chunks[3].origin, WorldPos { x: 4, y: 0, z: 6 });
}
