use std::collections::HashMap;
use vstd::prelude::*;

verus! {

broadcast use vstd::std_specs::hash::group_hash_axioms;

/// which material is used in block (0: no block)
pub type BlockMatIdx = u8;

/// position of a block in its chunk
pub type BlockIdx = u16;

/// Number of vertices of one block (four per face, six faces).
pub const VERTICES_PER_BLOCK: u32 = 24;

/// Visibility bit of each face direction, in the order the faces are emitted.
pub const DIR_X_POS: u8 = 1;
pub const DIR_X_NEG: u8 = 2;
pub const DIR_Y_POS: u8 = 4;
pub const DIR_Y_NEG: u8 = 8;
pub const DIR_Z_POS: u8 = 16;
pub const DIR_Z_NEG: u8 = 32;

/// The six vertex indices (two triangles) of face direction `d` of a block.
pub open spec fn face_indices(d: int) -> Seq<u32> {
    if d == 0 {
        seq![8u32, 9, 10, 10, 9, 11]
    } else if d == 1 {
        seq![12u32, 13, 14, 14, 13, 15]
    } else if d == 2 {
        seq![0u32, 1, 2, 2, 1, 3]
    } else if d == 3 {
        seq![4u32, 5, 6, 6, 5, 7]
    } else if d == 4 {
        seq![16u32, 17, 18, 18, 17, 19]
    } else {
        seq![20u32, 21, 22, 22, 21, 23]
    }
}

/// Face direction `d` is visible in `vis`.
pub open spec fn has_dir(vis: u8, d: u8) -> bool {
    (vis >> d) & 1u8 == 1u8
}

/// The indices of the visible faces from direction `d` on, in direction order.
pub open spec fn dir_indices_from(vis: u8, d: int) -> Seq<u32>
    decreases 6 - d,
{
    if d < 0 || d >= 6 {
        Seq::empty()
    } else {
        (if has_dir(vis, d as u8) { face_indices(d) } else { Seq::empty() }) + dir_indices_from(
            vis,
            d + 1,
        )
    }
}

/// Face vertex indices (0..24) of the faces visible in `vis`, in direction
/// order: +x, -x, +y, -y, +z, -z.
pub open spec fn spec_block_indices_in_dir(vis: u8) -> Seq<u32> {
    dir_indices_from(vis, 0)
}

fn face_indices_exec(d: u8) -> (r: Vec<u32>)
    requires
        d < 6,
    ensures
        r@ == face_indices(d as int),
{
    let r = if d == 0 {
        vec![8u32, 9, 10, 10, 9, 11]
    } else if d == 1 {
        vec![12u32, 13, 14, 14, 13, 15]
    } else if d == 2 {
        vec![0u32, 1, 2, 2, 1, 3]
    } else if d == 3 {
        vec![4u32, 5, 6, 6, 5, 7]
    } else if d == 4 {
        vec![16u32, 17, 18, 18, 17, 19]
    } else {
        vec![20u32, 21, 22, 22, 21, 23]
    };
    assert(r@ =~= face_indices(d as int));
    r
}

/// Indices of the visible faces of one block.
pub fn block_indices_in_dir(vis: u8) -> (r: Vec<u32>)
    ensures
        r@ == spec_block_indices_in_dir(vis),
        forall|i: int| 0 <= i < r@.len() ==> r@[i] < VERTICES_PER_BLOCK,
{
    let mut indices: Vec<u32> = Vec::new();
    let mut d: u8 = 0;
    while d < 6
        invariant
            d <= 6,
            indices@ + dir_indices_from(vis, d as int) == dir_indices_from(vis, 0),
            forall|i: int| 0 <= i < indices@.len() ==> indices@[i] < VERTICES_PER_BLOCK,
        decreases 6 - d,
    {
        let ghost before = indices@;
        if (vis >> d) & 1u8 == 1u8 {
            let mut face = face_indices_exec(d);
            indices.append(&mut face);
        }
        proof {
            assert(indices@ + dir_indices_from(vis, d + 1) =~= before + dir_indices_from(vis, d as int));
        }
        d = d + 1;
    }
    proof {
        assert(indices@ + dir_indices_from(vis, 6) =~= indices@);
    }
    indices
}

/// The index buffer contents of the blocks `block_indices`: the visible-face
/// indices of each block, moved to that block's vertices.
pub open spec fn chunk_indices_of(block_indices: Seq<BlockIdx>, vis: Seq<u8>) -> Seq<u32>
    decreases block_indices.len(),
{
    if block_indices.len() == 0 {
        Seq::empty()
    } else {
        let b = block_indices.last();
        chunk_indices_of(block_indices.drop_last(), vis) + spec_block_indices_in_dir(
            vis[b as int],
        ).map_values(|i: u32| (i + b * VERTICES_PER_BLOCK) as u32)
    }
}

/// The CPU side of a chunk's index buffer: the visible-face indices of each
/// block, offset to the vertices of that block; returns them with their count.
pub fn create_chunk_indices(block_indices: &[BlockIdx], vis: &[u8]) -> (r: (Vec<u32>, u32))
    requires
        forall|k: int| 0 <= k < block_indices@.len() ==> block_indices@[k] < vis@.len(),
    ensures
        r.0@ == chunk_indices_of(block_indices@, vis@),
        r.1 == r.0@.len() as u32,
{
    let mut v: Vec<u32> = Vec::new();
    let mut k: usize = 0;
    while k < block_indices.len()
        invariant
            k <= block_indices@.len(),
            forall|j: int| 0 <= j < block_indices@.len() ==> block_indices@[j] < vis@.len(),
            v@ == chunk_indices_of(block_indices@.take(k as int), vis@),
        decreases block_indices@.len() - k,
    {
        let block_idx = block_indices[k];
        let indices = block_indices_in_dir(vis[block_idx as usize]);
        let ghost before = v@;
        let mut j: usize = 0;
        while j < indices.len()
            invariant
                j <= indices@.len(),
                indices@ == spec_block_indices_in_dir(vis@[block_idx as int]),
                forall|i: int| 0 <= i < indices@.len() ==> indices@[i] < VERTICES_PER_BLOCK,
                v@ == before + indices@.take(j as int).map_values(
                    |i: u32| (i + block_idx * VERTICES_PER_BLOCK) as u32,
                ),
            decreases indices@.len() - j,
        {
            let idx = indices[j];
            assert(block_idx * 24 <= 65535 * 24);
            v.push(idx + (block_idx as u32) * VERTICES_PER_BLOCK);
            proof {
                assert(indices@.take(j + 1).map_values(|i: u32| (i + block_idx * VERTICES_PER_BLOCK) as u32)
                    =~= indices@.take(j as int).map_values(|i: u32| (i + block_idx * VERTICES_PER_BLOCK) as u32).push(
                    (idx + block_idx * VERTICES_PER_BLOCK) as u32));
            }
            j = j + 1;
        }
        proof {
            assert(indices@.take(indices@.len() as int) =~= indices@);
            assert(block_indices@.take(k + 1).drop_last() =~= block_indices@.take(k as int));
            assert(v@ =~= chunk_indices_of(block_indices@.take(k + 1), vis@));
        }
        k = k + 1;
    }
    proof {
        assert(block_indices@.take(block_indices@.len() as int) =~= block_indices@);
    }
    let n = v.len() as u32;
    (v, n)
}

/// Positions (as block indices) of the first `n` blocks whose material is `mat`.
pub open spec fn material_blocks(blocks: Seq<BlockMatIdx>, mat: BlockMatIdx, n: int) -> Seq<BlockIdx>
    decreases n,
{
    if n <= 0 {
        Seq::empty()
    } else if blocks[n - 1] == mat {
        material_blocks(blocks, mat, n - 1).push((n - 1) as BlockIdx)
    } else {
        material_blocks(blocks, mat, n - 1)
    }
}

/// The blocks of a chunk grouped by material: every material other than 0
/// that some block has maps to the positions of its blocks, in order.
pub fn group_blocks_by_material(blocks: &[BlockMatIdx]) -> (r: HashMap<BlockMatIdx, Vec<BlockIdx>>)
    ensures
        forall|m: BlockMatIdx|
            r@.contains_key(m) <==> (m != 0 && exists|i: int| 0 <= i < blocks@.len() && blocks@[i] == m),
        forall|m: BlockMatIdx|
            #[trigger] r@.contains_key(m) ==> r@[m]@ == material_blocks(blocks@, m, blocks@.len() as int),
{
    let mut mat_blocks: HashMap<BlockMatIdx, Vec<BlockIdx>> = HashMap::new();
    let mut idx: usize = 0;
    while idx < blocks.len()
        invariant
            idx <= blocks@.len(),
            forall|m: BlockMatIdx|
                mat_blocks@.contains_key(m) <==> (m != 0 && exists|i: int|
                    0 <= i < idx && blocks@[i] == m),
            forall|m: BlockMatIdx|
                #[trigger] mat_blocks@.contains_key(m) ==> mat_blocks@[m]@ == material_blocks(
                    blocks@,
                    m,
                    idx as int,
                ),
        decreases blocks@.len() - idx,
    {
        let mat_idx = blocks[idx];
        if mat_idx != 0 {
            let bi = idx as BlockIdx;
            if mat_blocks.contains_key(&mat_idx) {
                let mut v = mat_blocks.remove(&mat_idx).unwrap();
                v.push(bi);
                mat_blocks.insert(mat_idx, v);
            } else {
                let v = vec![bi];
                proof {
                    assert(material_blocks(blocks@, mat_idx, idx as int) =~= Seq::<BlockIdx>::empty()) by {
                        lemma_material_blocks_absent(blocks@, mat_idx, idx as int);
                    }
                }
                mat_blocks.insert(mat_idx, v);
            }
        }
        proof {
            assert forall|m: BlockMatIdx|
                mat_blocks@.contains_key(m) <==> (m != 0 && exists|i: int|
                    0 <= i < idx + 1 && blocks@[i] == m) by {
                if m != 0 && blocks@[idx as int] == m {
                    assert(0 <= idx < idx + 1 && blocks@[idx as int] == m);
                }
            }
        }
        idx = idx + 1;
    }
    mat_blocks
}

proof fn lemma_material_blocks_absent(blocks: Seq<BlockMatIdx>, mat: BlockMatIdx, n: int)
    requires
        0 <= n <= blocks.len(),
        forall|i: int| 0 <= i < n ==> blocks[i] != mat,
    ensures
        material_blocks(blocks, mat, n) == Seq::<BlockIdx>::empty(),
    decreases n,
{
    if n > 0 {
        lemma_material_blocks_absent(blocks, mat, n - 1);
    }
}

} // verus!
