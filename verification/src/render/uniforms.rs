use vstd::prelude::*;

verus! {

/// Alignment of uniform binding offsets: the value of `wgpu::BIND_BUFFER_ALIGNMENT`.
pub const BIND_BUFFER_ALIGNMENT: u64 = 256;

/// Size in bytes of a 4x4 `f32` matrix.
pub const MATRIX_SIZE: u64 = 64;

/// The smallest multiple of `alignment` that is at least `offset`.
pub open spec fn spec_aligned(offset: int, alignment: int) -> int {
    if offset == 0 {
        0
    } else {
        ((offset - 1) / alignment + 1) * alignment
    }
}

/// `offset` rounded up to the binding alignment.
pub fn aligned_offset(offset: u64) -> (r: u64)
    requires
        offset <= u64::MAX - 255,
    ensures
        r == spec_aligned(offset as int, 256),
        r % 256 == 0,
        offset <= r < offset + 256,
{
    if offset == 0 {
        return 0;
    }
    let a = BIND_BUFFER_ALIGNMENT;
    let q = (offset - 1) / a + 1;
    assert(q * 256 <= offset + 255) by (nonlinear_arith)
        requires
            q == (offset - 1) / 256 + 1,
            offset >= 1,
    ;
    assert(offset <= q * 256) by (nonlinear_arith)
        requires
            q == (offset - 1) / 256 + 1,
            offset >= 1,
    ;
    assert((q * 256) % 256 == 0) by (nonlinear_arith);
    q * a
}

/// Byte offsets of the common uniforms in their buffer: the view-projection
/// matrix, the screen-to-NDC matrix, and the total size.
pub fn common_uniform_layout() -> (r: (u64, u64, u64))
    ensures
        r.0 == 0,
        r.1 == spec_aligned(MATRIX_SIZE as int, 256),
        r.2 == r.1 + MATRIX_SIZE,
{
    let view_proj_offset = aligned_offset(0);
    let screen_to_ndc_offset = aligned_offset(view_proj_offset + MATRIX_SIZE);
    (view_proj_offset, screen_to_ndc_offset, screen_to_ndc_offset + MATRIX_SIZE)
}

} // verus!
