use noise::{NoiseFn, OpenSimplex, Seedable};
use voxel_terrain::block::{Block, BlockType};
use voxel_terrain::chunk::{Chunk, TerrainError};
use voxel_terrain::mesh::{add_face_indices, Faces, Mesh, Vertex, MAX_VERTICES};

fn stone() -> Block {
    Block::from(BlockType::Stone)
}

fn air() -> Block {
    Block::from(BlockType::Air)
}

fn grid(width: usize, height: usize, depth: usize, b: Block) -> Vec<Vec<Vec<Block>>> {
    vec![vec![vec![b; width]; depth]; height]
}

fn mesh_of(blocks: Vec<Vec<Vec<Block>>>) -> Mesh {
    Chunk::from_blocks(blocks).ok().unwrap().create_mesh().ok().unwrap()
}

fn noise_levels(seed: u32, width: usize, height: usize, scale: f64) -> Vec<i64> {
    let gen = OpenSimplex::new().set_seed(seed);
    let mut levels = Vec::new();
    for z in 0..width {
        for x in 0..width {
            let signal = gen.get([x as f64 / scale, z as f64 / scale]) * height as f64;
            levels.push(signal.floor() as i64);
        }
    }
    levels
}

fn assert_indices_valid(m: &Mesh) {
    for &i in &m.indices {
        assert!((i as usize) < m.vertices.len());
    }
}

#[test]
fn block_new_is_inactive_stone() {
    let b = Block::new();
    assert!(!b.is_active);
    assert_eq!(b.block_type, BlockType::Stone);
    assert!(b.is_solid());
}

#[test]
fn block_from_air_is_not_solid() {
    let b = Block::from(BlockType::Air);
    assert!(!b.is_active);
    assert_eq!(b.block_type, BlockType::Air);
    assert!(!b.is_solid());
}

#[test]
fn generation_rejects_zero_width() {
    assert!(matches!(Chunk::new(0, 32, &vec![]), Err(TerrainError::ConfigurationError)));
}

#[test]
fn generation_rejects_zero_height() {
    assert!(matches!(Chunk::new(2, 0, &vec![0; 4]), Err(TerrainError::ConfigurationError)));
}

#[test]
fn generation_rejects_wrong_level_count() {
    assert!(matches!(Chunk::new(2, 4, &vec![0; 3]), Err(TerrainError::ConfigurationError)));
    assert!(matches!(Chunk::new(2, 4, &vec![0; 5]), Err(TerrainError::ConfigurationError)));
}

#[test]
fn generation_fills_below_and_at_level() {
    // columns (x, z): (0,0) level 0, (1,0) level 1, (0,1) level -1, (1,1) level 3
    let c = Chunk::new(2, 4, &vec![0, 1, -1, 3]).ok().unwrap();
    assert_eq!((c.width, c.height, c.depth), (2, 4, 2));
    let solid = |x: usize, y: usize, z: usize| c.blocks[y][z][x].is_solid();
    for y in 0..4 {
        assert_eq!(solid(0, y, 0), y == 0);
        assert_eq!(solid(1, y, 0), y <= 1);
        assert!(!solid(0, y, 1));
        assert!(solid(1, y, 1));
        assert!(!c.blocks[y][0][0].is_active);
    }
}

#[test]
fn column_at_or_above_height_is_all_solid() {
    for level in [32i64, 33, i64::MAX] {
        let c = Chunk::new(1, 32, &vec![level]).ok().unwrap();
        for y in 0..32 {
            assert_eq!(c.blocks[y][0][0].block_type, BlockType::Stone);
        }
    }
    let c = Chunk::new(1, 32, &vec![31]).ok().unwrap();
    assert!((0..32).all(|y| c.blocks[y][0][0].is_solid()));
}

#[test]
fn column_below_zero_is_all_air() {
    let c = Chunk::new(1, 8, &vec![-1]).ok().unwrap();
    assert!((0..8).all(|y| c.blocks[y][0][0].block_type == BlockType::Air));
    let m = c.create_mesh().ok().unwrap();
    assert!(m.vertices.is_empty() && m.indices.is_empty());
}

#[test]
fn generation_is_deterministic() {
    let levels = noise_levels(7, 8, 16, 16.0);
    let a = Chunk::new(8, 16, &levels).ok().unwrap();
    let b = Chunk::new(8, 16, &levels).ok().unwrap();
    assert_eq!(a.blocks, b.blocks);
}

#[test]
fn from_blocks_rejects_bad_shapes() {
    assert!(matches!(Chunk::from_blocks(vec![]), Err(TerrainError::ConfigurationError)));
    assert!(matches!(Chunk::from_blocks(vec![vec![]]), Err(TerrainError::ConfigurationError)));
    assert!(matches!(Chunk::from_blocks(vec![vec![vec![]]]), Err(TerrainError::ConfigurationError)));
    let ragged_row = vec![vec![vec![stone(), stone()], vec![stone()]]];
    assert!(matches!(Chunk::from_blocks(ragged_row), Err(TerrainError::ConfigurationError)));
    let ragged_layer = vec![vec![vec![stone()], vec![stone()]], vec![vec![stone()]]];
    assert!(matches!(Chunk::from_blocks(ragged_layer), Err(TerrainError::ConfigurationError)));
    let c = Chunk::from_blocks(grid(3, 2, 4, stone())).ok().unwrap();
    assert_eq!((c.width, c.height, c.depth), (3, 2, 4));
}

#[test]
fn add_face_indices_offsets_the_layout() {
    assert_eq!(add_face_indices(&Faces::Front, 0), vec![0, 1, 3, 3, 1, 2]);
    assert_eq!(add_face_indices(&Faces::Back, 8), vec![12, 13, 15, 15, 13, 14]);
    assert_eq!(add_face_indices(&Faces::Top, 16), vec![19, 18, 22, 22, 18, 23]);
    assert_eq!(add_face_indices(&Faces::Bottom, 0), vec![5, 4, 0, 0, 4, 1]);
    assert_eq!(add_face_indices(&Faces::Left, 65528), vec![65533, 65528, 65534, 65534, 65528, 65531]);
    assert_eq!(add_face_indices(&Faces::Right, 1), vec![2, 5, 3, 3, 5, 8]);
}

#[test]
fn single_isolated_block_has_six_faces() {
    let m = mesh_of(grid(1, 1, 1, stone()));
    assert_eq!(m.vertices.len(), 8);
    assert_eq!(m.indices.len(), 36);
    assert_eq!(
        m.indices,
        vec![
            4, 5, 7, 7, 5, 6, // back
            0, 1, 3, 3, 1, 2, // front
            1, 4, 2, 2, 4, 7, // right
            5, 0, 6, 6, 0, 3, // left
            3, 2, 6, 6, 2, 7, // top
            5, 4, 0, 0, 4, 1, // bottom
        ]
    );
    for (k, v) in m.vertices.iter().enumerate() {
        assert_eq!(*v, Vertex { x: 0, y: 0, z: 0, corner: k as u8, shade: 0 });
    }
}

#[test]
fn two_adjacent_blocks_hide_the_shared_face() {
    let c = Chunk::from_blocks(grid(2, 1, 1, stone())).ok().unwrap();
    assert!(!c.face_visible(0, 0, 0, Faces::Right));
    assert!(!c.face_visible(1, 0, 0, Faces::Left));
    assert!(c.face_visible(0, 0, 0, Faces::Left));
    let m = c.create_mesh().ok().unwrap();
    assert_eq!(m.vertices.len(), 16);
    assert_eq!(m.indices.len(), 60);
    assert_eq!(m.indices.len() / 6, 10);
    assert_eq!(
        m.indices[..30].to_vec(),
        vec![4, 5, 7, 7, 5, 6, 0, 1, 3, 3, 1, 2, 5, 0, 6, 6, 0, 3, 3, 2, 6, 6, 2, 7, 5, 4, 0, 0, 4, 1]
    );
    assert_eq!(
        m.indices[30..].to_vec(),
        vec![12, 13, 15, 15, 13, 14, 8, 9, 11, 11, 9, 10, 9, 12, 10, 10, 12, 15, 11, 10, 14, 14, 10, 15, 13, 12, 8, 8, 12, 9]
    );
    assert_eq!(m.vertices[8], Vertex { x: 1, y: 0, z: 0, corner: 0, shade: 8 });
    assert_indices_valid(&m);
}

#[test]
fn enclosed_block_contributes_nothing() {
    let c = Chunk::from_blocks(grid(3, 3, 3, stone())).ok().unwrap();
    assert!(!c.has_visible_face(1, 1, 1));
    assert!(c.has_visible_face(0, 1, 1));
    let m = c.create_mesh().ok().unwrap();
    assert_eq!(m.vertices.len(), 26 * 8);
    assert_eq!(m.indices.len(), 54 * 6);
    assert!(m.vertices.iter().all(|v| (v.x, v.y, v.z) != (1, 1, 1)));
    assert_indices_valid(&m);
}

#[test]
fn index_count_is_six_per_face() {
    let mut blocks = grid(3, 2, 2, air());
    blocks[0][0][0] = stone();
    blocks[0][0][1] = stone();
    blocks[1][0][1] = stone();
    blocks[1][1][2] = stone();
    let m = mesh_of(blocks);
    // 5 + 4 + 5 faces for the three touching blocks, 6 for the lone one
    assert_eq!(m.indices.len(), 20 * 6);
    assert_eq!(m.indices.len() % 3, 0);
    assert_eq!(m.vertices.len(), 4 * 8);
    assert_indices_valid(&m);
}

#[test]
fn vertex_positions_are_corners_around_the_centre() {
    let at = |corner: u8| Vertex { x: 2, y: 3, z: 4, corner, shade: 0 }.half_extent_position();
    assert_eq!(at(0), (3, 5, 7));
    assert_eq!(at(1), (5, 5, 7));
    assert_eq!(at(2), (5, 7, 7));
    assert_eq!(at(3), (3, 7, 7));
    assert_eq!(at(4), (5, 5, 9));
    assert_eq!(at(5), (3, 5, 9));
    assert_eq!(at(6), (3, 7, 9));
    assert_eq!(at(7), (5, 7, 9));
}

#[test]
fn mesh_at_the_index_ceiling_succeeds() {
    // 8192 separate visible blocks use exactly 65536 vertices
    let m = mesh_of(grid(128, 1, 64, stone()));
    assert_eq!(m.vertices.len(), MAX_VERTICES);
    assert_eq!(*m.indices.iter().max().unwrap(), 65535);
    assert_indices_valid(&m);
}

#[test]
fn mesh_past_the_index_ceiling_overflows() {
    let c = Chunk::from_blocks(grid(91, 1, 91, stone())).ok().unwrap();
    assert!(matches!(c.create_mesh(), Err(TerrainError::MeshOverflow)));
}

#[test]
fn air_after_the_ceiling_does_not_overflow() {
    // the last row along x is air: it is walked after the ceiling is reached
    let mut blocks = grid(129, 1, 64, stone());
    for z in 0..64 {
        blocks[0][z][128] = air();
    }
    let m = mesh_of(blocks);
    assert_eq!(m.vertices.len(), MAX_VERTICES);
}

#[test]
fn seeded_terrain_meshes_identically_twice() {
    let run = || {
        let levels = noise_levels(1337, 16, 32, 16.0);
        let c = Chunk::new(16, 32, &levels).ok().unwrap();
        c.create_mesh().ok().unwrap()
    };
    let a = run();
    let b = run();
    assert!(!a.vertices.is_empty());
    assert_eq!(a.vertices, b.vertices);
    assert_eq!(a.indices, b.indices);
    assert_eq!(a.indices.len() % 6, 0);
    assert_indices_valid(&a);
}
