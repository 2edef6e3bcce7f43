use vstd::prelude::*;
use crate::block::{Block, BlockType};

verus! {

/// The two conditions under which generation or meshing gives up.
#[derive(Clone, Copy, Debug, PartialEq, Eq, Structural)]
pub enum TerrainError {
    /// An extent is zero, or the supplied data does not match the extents.
    ConfigurationError,
    /// The mesh would need more vertices than a 16-bit index can address.
    MeshOverflow,
}

/// A fixed-size grid of blocks, stored as layers: `blocks[y][z][x]`.
///
/// `x` runs over `width`, `y` over `height`, `z` over `depth`.
pub struct Chunk {
    pub width: usize,
    pub height: usize,
    pub depth: usize,
    pub blocks: Vec<Vec<Vec<Block>>>,
}

/// The layers of `b` have the given extents, all of them positive.
pub open spec fn regular(b: Seq<Vec<Vec<Block>>>, width: int, height: int, depth: int) -> bool {
    &&& width > 0
    &&& height > 0
    &&& depth > 0
    &&& b.len() == height
    &&& forall|y: int| 0 <= y < height ==> (#[trigger] b[y]@).len() == depth
    &&& forall|y: int, z: int|
        0 <= y < height && 0 <= z < depth ==> (#[trigger] b[y]@[z]@).len() == width
}

/// The block that terrain generation puts at `(x, y, z)`: air above the
/// column's surface level, stone at and below it.
///
/// `levels` holds one surface level per column, column `(x, z)` at
/// `x + z * width`; the level is the greatest integer not above the column's
/// height signal, so `y > level` says the same as `y > signal`.
pub open spec fn generated_block(levels: Seq<i64>, width: int, x: int, y: int, z: int) -> Block {
    Block {
        is_active: false,
        block_type: if y > levels[x + z * width] as int {
            BlockType::Air
        } else {
            BlockType::Stone
        },
    }
}

/// `c` is the grid that generation makes from these extents and levels.
pub open spec fn generated_from(c: Chunk, width: int, height: int, levels: Seq<i64>) -> bool {
    &&& c.wf()
    &&& c.width == width
    &&& c.height == height
    &&& c.depth == width
    &&& forall|x: int, y: int, z: int|
        c.in_bounds(x, y, z) ==> #[trigger] c.cell(x, y, z) == generated_block(
            levels,
            width,
            x,
            y,
            z,
        )
}

/// Generation fails exactly on zero extents or a level count that is not one per column.
pub open spec fn generation_rejects(width: int, height: int, levels: Seq<i64>) -> bool {
    width == 0 || height == 0 || levels.len() != width * width
}

/// `b` is a non-empty grid whose extents are those of its first row and layer.
pub open spec fn well_shaped(b: Seq<Vec<Vec<Block>>>) -> bool {
    &&& b.len() > 0
    &&& b[0]@.len() > 0
    &&& regular(b, b[0]@[0]@.len() as int, b.len() as int, b[0]@.len() as int)
}

/// Two grids generated from the same extents and levels are the same grid:
/// same extents, and the same block in every cell.
pub proof fn lemma_generation_deterministic(
    a: Chunk,
    b: Chunk,
    width: int,
    height: int,
    levels: Seq<i64>,
)
    requires
        generated_from(a, width, height, levels),
        generated_from(b, width, height, levels),
    ensures
        a.width == b.width && a.height == b.height && a.depth == b.depth,
        forall|x: int, y: int, z: int| a.in_bounds(x, y, z) ==> #[trigger] a.cell(x, y, z) == b.cell(x, y, z),
{
    assert forall|x: int, y: int, z: int| a.in_bounds(x, y, z) implies #[trigger] a.cell(x, y, z) == b.cell(x, y, z) by {
        assert(b.in_bounds(x, y, z));
    }
}

proof fn lemma_column_in_range(x: int, z: int, width: int)
    requires
        0 <= x < width,
        0 <= z < width,
    ensures
        0 <= z * width,
        z * width + x < width * width,
{
    assert(0 <= z * width) by (nonlinear_arith)
        requires
            0 <= z,
            0 < width,
    ;
    assert(z * width + x < width * width) by (nonlinear_arith)
        requires
            0 <= x < width,
            0 <= z < width,
    ;
}

impl Chunk {
    pub open spec fn wf(self) -> bool {
        regular(self.blocks@, self.width as int, self.height as int, self.depth as int)
    }

    pub open spec fn in_bounds(self, x: int, y: int, z: int) -> bool {
        0 <= x < self.width && 0 <= y < self.height && 0 <= z < self.depth
    }

    pub open spec fn cell(self, x: int, y: int, z: int) -> Block {
        self.blocks@[y]@[z]@[x]
    }

    /// A cell exists at `(x, y, z)` and holds a solid block.
    pub open spec fn solid_at(self, x: int, y: int, z: int) -> bool {
        self.in_bounds(x, y, z) && self.cell(x, y, z).solid()
    }

    /// Generates a `width × height × width` grid from one surface level per
    /// column (see `generated_block`).
    pub fn new(width: usize, height: usize, levels: &Vec<i64>) -> (r: Result<Chunk, TerrainError>)
        ensures
            r is Err <==> generation_rejects(width as int, height as int, levels@),
            r matches Err(e) ==> e == TerrainError::ConfigurationError,
            r matches Ok(c) ==> generated_from(c, width as int, height as int, levels@),
    {
        if width == 0 || height == 0 {
            return Err(TerrainError::ConfigurationError);
        }
        let count = levels.len();
        match width.checked_mul(width) {
            None => {
                return Err(TerrainError::ConfigurationError);
            },
            Some(n) => {
                if n != count {
                    return Err(TerrainError::ConfigurationError);
                }
            },
        }
        let mut blocks: Vec<Vec<Vec<Block>>> = Vec::new();
        let mut y: usize = 0;
        while y < height
            invariant
                0 < width,
                y <= height,
                levels@.len() == width * width,
                levels@.len() <= usize::MAX,
                blocks@.len() == y,
                forall|j: int| 0 <= j < y ==> (#[trigger] blocks@[j]@).len() == width,
                forall|j: int, k: int|
                    0 <= j < y && 0 <= k < width ==> (#[trigger] blocks@[j]@[k]@).len() == width,
                forall|i: int, j: int, k: int|
                    0 <= i < width && 0 <= j < y && 0 <= k < width ==> #[trigger] blocks@[j]@[k]@[i]
                        == generated_block(levels@, width as int, i, j, k),
            decreases height - y,
        {
            let mut layer: Vec<Vec<Block>> = Vec::new();
            let mut z: usize = 0;
            while z < width
                invariant
                    0 < width,
                    y < height,
                    z <= width,
                    levels@.len() == width * width,
                    levels@.len() <= usize::MAX,
                levels@.len() <= usize::MAX,
                    layer@.len() == z,
                    forall|k: int| 0 <= k < z ==> (#[trigger] layer@[k]@).len() == width,
                    forall|i: int, k: int|
                        0 <= i < width && 0 <= k < z ==> #[trigger] layer@[k]@[i] == generated_block(
                            levels@,
                            width as int,
                            i,
                            y as int,
                            k,
                        ),
                decreases width - z,
            {
                let mut row: Vec<Block> = Vec::new();
                let mut x: usize = 0;
                while x < width
                    invariant
                        0 < width,
                        y < height,
                        z < width,
                        x <= width,
                        levels@.len() == width * width,
                        levels@.len() <= usize::MAX,
                    levels@.len() <= usize::MAX,
                levels@.len() <= usize::MAX,
                        row@.len() == x,
                        forall|i: int|
                            0 <= i < x ==> #[trigger] row@[i] == generated_block(
                                levels@,
                                width as int,
                                i,
                                y as int,
                                z as int,
                            ),
                    decreases width - x,
                {
                    proof {
                        lemma_column_in_range(x as int, z as int, width as int);
                    }
                    let level = levels[z * width + x];
                    let block_type = if (y as i128) > (level as i128) {
                        BlockType::Air
                    } else {
                        BlockType::Stone
                    };
                    row.push(Block::from(block_type));
                    x = x + 1;
                }
                layer.push(row);
                z = z + 1;
            }
            blocks.push(layer);
            y = y + 1;
        }
        Ok(Chunk { width, height, depth: width, blocks })
    }

    /// Takes a grid given as layers (`blocks[y][z][x]`). Its extents are read
    /// from it; it fails unless every layer and every row has the same, non-zero length.
    pub fn from_blocks(blocks: Vec<Vec<Vec<Block>>>) -> (r: Result<Chunk, TerrainError>)
        ensures
            r is Ok <==> well_shaped(blocks@),
            r matches Err(e) ==> e == TerrainError::ConfigurationError,
            r matches Ok(c) ==> c.wf() && c.blocks@ == blocks@ && c.height == blocks@.len()
                && c.depth == blocks@[0]@.len() && c.width == blocks@[0]@[0]@.len(),
    {
        let height = blocks.len();
        if height == 0 {
            return Err(TerrainError::ConfigurationError);
        }
        let depth = blocks[0].len();
        if depth == 0 {
            return Err(TerrainError::ConfigurationError);
        }
        let width = blocks[0][0].len();
        if width == 0 {
            return Err(TerrainError::ConfigurationError);
        }
        let mut y: usize = 0;
        while y < height
            invariant
                height == blocks@.len(),
                depth == blocks@[0]@.len(),
                width == blocks@[0]@[0]@.len(),
                0 < height && 0 < depth && 0 < width,
                y <= height,
                forall|j: int| 0 <= j < y ==> (#[trigger] blocks@[j]@).len() == depth,
                forall|j: int, k: int|
                    0 <= j < y && 0 <= k < depth ==> (#[trigger] blocks@[j]@[k]@).len() == width,
            decreases height - y,
        {
            if blocks[y].len() != depth {
                return Err(TerrainError::ConfigurationError);
            }
            let mut z: usize = 0;
            while z < depth
                invariant
                    height == blocks@.len(),
                    depth == blocks@[0]@.len(),
                    width == blocks@[0]@[0]@.len(),
                    0 < height && 0 < depth && 0 < width,
                    y < height,
                    z <= depth,
                    blocks@[y as int]@.len() == depth,
                    forall|k: int| 0 <= k < z ==> (#[trigger] blocks@[y as int]@[k]@).len() == width,
                decreases depth - z,
            {
                if blocks[y][z].len() != width {
                    return Err(TerrainError::ConfigurationError);
                }
                z = z + 1;
            }
            y = y + 1;
        }
        Ok(Chunk { width, height, depth, blocks })
    }
}

} // verus!
