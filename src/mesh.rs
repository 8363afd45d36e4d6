//! Triangle indices of a mesh with one hexagon per cell.
use vstd::prelude::*;

use crate::world::width;
use crate::{WORLD_CELLS, WORLD_WIDTH};

verus! {

/// Vertices of each hexagon of the mesh.
pub const NUM_VERTS_PER_HEX: u32 = 6;

/// Corner `k` of the four triangles that cover a hexagon, as a vertex of
/// that hexagon: `(0, 1, 5), (1, 2, 5), (2, 4, 5), (2, 3, 4)`.
pub open spec fn hex_corner(k: int) -> int {
    seq![0int, 1, 5, 1, 2, 5, 2, 4, 5, 2, 3, 4][k]
}

/// Index at position `j` of the mesh's index buffer: hexagons come column by
/// column, twelve indices each, and the vertices of the hexagon of cell
/// `(x, y)` start at `6 * (x + y * WIDTH)`.
pub open spec fn mesh_index(j: int) -> int {
    let hex = j / 12;
    let x = hex / width();
    let y = hex % width();
    6 * (x + y * width()) + hex_corner(j % 12)
}

/// The index buffer of the hexagon mesh.
pub fn get_indices() -> (r: Vec<u32>)
    ensures
        r@.len() == 12 * WORLD_CELLS,
        forall|j: int| 0 <= j < r@.len() ==> #[trigger] r@[j] == mesh_index(j),
{
    let corners: [u32; 12] = [0, 1, 5, 1, 2, 5, 2, 4, 5, 2, 3, 4];
    assert(corners@ =~= seq![0u32, 1, 5, 1, 2, 5, 2, 4, 5, 2, 3, 4]);
    let mut indices: Vec<u32> = Vec::new();
    let mut x: usize = 0;
    while x < WORLD_WIDTH
        invariant
            x <= WORLD_WIDTH,
            corners@ == seq![0u32, 1, 5, 1, 2, 5, 2, 4, 5, 2, 3, 4],
            indices@.len() == 12 * (WORLD_WIDTH * x),
            forall|j: int| 0 <= j < indices@.len() ==> #[trigger] indices@[j] == mesh_index(j),
        decreases WORLD_WIDTH - x,
    {
        let mut y: usize = 0;
        while y < WORLD_WIDTH
            invariant
                x < WORLD_WIDTH,
                y <= WORLD_WIDTH,
                corners@ == seq![0u32, 1, 5, 1, 2, 5, 2, 4, 5, 2, 3, 4],
                indices@.len() == 12 * (WORLD_WIDTH * x + y),
                forall|j: int| 0 <= j < indices@.len() ==> #[trigger] indices@[j] == mesh_index(j),
            decreases WORLD_WIDTH - y,
        {
            proof {
                assert(x + y * WORLD_WIDTH < 262144) by (nonlinear_arith)
                    requires
                        x < 512,
                        y < 512,
                ;
            }
            let offset: u32 = (x as u32 + (y * WORLD_WIDTH) as u32) * NUM_VERTS_PER_HEX;
            let mut k: usize = 0;
            while k < 12
                invariant
                    x < WORLD_WIDTH,
                    y < WORLD_WIDTH,
                    k <= 12,
                    offset == 6 * (x + y * WORLD_WIDTH),
                    offset < 6 * 262144,
                    corners@ == seq![0u32, 1, 5, 1, 2, 5, 2, 4, 5, 2, 3, 4],
                    indices@.len() == 12 * (WORLD_WIDTH * x + y) + k,
                    forall|j: int|
                        0 <= j < indices@.len() ==> #[trigger] indices@[j] == mesh_index(j),
                decreases 12 - k,
            {
                let ghost j = indices@.len() as int;
                proof {
                    vstd::arithmetic::div_mod::lemma_fundamental_div_mod_converse(
                        j,
                        12,
                        WORLD_WIDTH * x + y,
                        k as int,
                    );
                    vstd::arithmetic::div_mod::lemma_fundamental_div_mod_converse(
                        WORLD_WIDTH * x + y,
                        WORLD_WIDTH as int,
                        x as int,
                        y as int,
                    );
                }
                indices.push(offset + corners[k]);
                k = k + 1;
            }
            y = y + 1;
        }
        assert(12 * (WORLD_WIDTH * x + WORLD_WIDTH) == 12 * (WORLD_WIDTH * (x + 1))) by (nonlinear_arith);
        x = x + 1;
    }
    indices
}

} // verus!
