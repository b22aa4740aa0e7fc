use guillotiere::{AllocId, AtlasAllocator};
use vstd::prelude::*;

verus! {

#[verifier::external_type_specification]
#[verifier::external_body]
pub struct ExAtlasAllocator(AtlasAllocator);

#[verifier::external_type_specification]
#[verifier::external_body]
pub struct ExAllocId(AllocId);

/// Width and height of the area that an atlas allocator hands rectangles out of.
pub uninterp spec fn atlas_extent(atlas: AtlasAllocator) -> (int, int);

/// The allocator is as `AtlasAllocator::new` made it: nothing was allocated
/// from it yet, so its whole area is one free rectangle.
pub uninterp spec fn atlas_untouched(atlas: AtlasAllocator) -> bool;

/// Whether `AtlasAllocator::allocate` finds room for a `width` by `height`
/// rectangle in this allocator (its answer depends on the allocator's state
/// and the request alone).
pub uninterp spec fn atlas_fits(atlas: AtlasAllocator, width: int, height: int) -> bool;

/// Where `AtlasAllocator::allocate` puts the top-left corner of a `width` by
/// `height` rectangle in this allocator (its choice depends on the
/// allocator's state and the request alone).
pub uninterp spec fn atlas_place(atlas: AtlasAllocator, width: int, height: int) -> (int, int);

/// The rectangles handed out by the allocator so far, as
/// `(min_x, min_y, max_x, max_y)`.
pub uninterp spec fn atlas_allocated(atlas: AtlasAllocator) -> Set<(int, int, int, int)>;

/// The rectangles `a` and `b`, as `(min_x, min_y, max_x, max_y)`, share no pixel.
pub open spec fn rects_disjoint(a: (int, int, int, int), b: (int, int, int, int)) -> bool {
    a.2 <= b.0 || b.2 <= a.0 || a.3 <= b.1 || b.3 <= a.1
}

/// The rectangle of an allocation, as `(min_x, min_y, max_x, max_y)`.
pub open spec fn alloc_rect(a: TextureAllocation) -> (int, int, int, int) {
    (a.min_x as int, a.min_y as int, a.max_x as int, a.max_y as int)
}

/// `AtlasAllocator::new` with the default options: an allocator over a
/// `width` by `height` area (it asserts that both are positive), with nothing
/// allocated yet.
#[verifier::external_body]
fn atlas_new(width: i32, height: i32) -> (r: AtlasAllocator)
    requires
        width > 0,
        height > 0,
    ensures
        atlas_extent(r) == (width as int, height as int),
        atlas_untouched(r),
        atlas_allocated(r) == Set::<(int, int, int, int)>::empty(),
{
    AtlasAllocator::new(guillotiere::size2(width, height))
}

/// `AtlasAllocator::allocate`: with the default alignment of one pixel, a
/// returned rectangle has exactly the requested size and lies in the atlas;
/// an empty request gets `None`. An untouched allocator starts with its whole
/// area as one free rectangle, so it has room for any non-empty request no
/// larger than that area. A rectangle is carved out of a free one, so it
/// shares no pixel with the rectangles handed out before; it is then one of
/// them. Whether and where a request fits is named by `atlas_fits` and
/// `atlas_place`.
#[verifier::external_body]
fn atlas_allocate(atlas: &mut AtlasAllocator, width: i32, height: i32) -> (r: Option<TextureAllocation>)
    ensures
        atlas_extent(*final(atlas)) == atlas_extent(*old(atlas)),
        r is Some <==> atlas_fits(*old(atlas), width as int, height as int),
        width <= 0 || height <= 0 ==> r is None,
        atlas_untouched(*old(atlas)) && 0 < width <= atlas_extent(*old(atlas)).0 && 0 < height
            <= atlas_extent(*old(atlas)).1 ==> r is Some,
        r matches Some(a) ==> {
            &&& a.max_x - a.min_x == width
            &&& a.max_y - a.min_y == height
            &&& 0 <= a.min_x && a.max_x <= atlas_extent(*old(atlas)).0
            &&& 0 <= a.min_y && a.max_y <= atlas_extent(*old(atlas)).1
            &&& (a.min_x as int, a.min_y as int) == atlas_place(*old(atlas), width as int, height as int)
            &&& forall|b: (int, int, int, int)|
                #[trigger] atlas_allocated(*old(atlas)).contains(b) ==> rects_disjoint(alloc_rect(a), b)
            &&& atlas_allocated(*final(atlas)) == atlas_allocated(*old(atlas)).insert(alloc_rect(a))
        },
        r is None ==> atlas_allocated(*final(atlas)) == atlas_allocated(*old(atlas)),
{
    match atlas.allocate(guillotiere::size2(width, height)) {
        Some(a) => Some(TextureAllocation {
            id: a.id,
            min_x: a.rectangle.min.x,
            min_y: a.rectangle.min.y,
            max_x: a.rectangle.max.x,
            max_y: a.rectangle.max.y,
        }),
        None => None,
    }
}

/// Native-endian bytes of `color` (`bytemuck::cast::<u32, [u8; 4]>`): the
/// little-endian or the big-endian split, as the machine stores a `u32`.
#[verifier::external_body]
pub fn u32_to_u8_array(color: u32) -> (r: [u8; 4])
    ensures
        is_le_bytes(color, r@) || is_be_bytes(color, r@),
{
    bytemuck::cast(color)
}

/// Byte `i` (counted from the least significant) of `v`.
pub open spec fn byte_of(v: u32, i: int) -> int {
    if i == 0 {
        v as int % 256
    } else if i == 1 {
        (v as int / 256) % 256
    } else if i == 2 {
        (v as int / 65536) % 256
    } else {
        (v as int / 16777216) % 256
    }
}

/// `b` holds the bytes of `v`, least significant first.
pub open spec fn is_le_bytes(v: u32, b: Seq<u8>) -> bool {
    b.len() == 4 && b[0] == byte_of(v, 0) && b[1] == byte_of(v, 1) && b[2] == byte_of(v, 2)
        && b[3] == byte_of(v, 3)
}

/// `b` holds the bytes of `v`, most significant first.
pub open spec fn is_be_bytes(v: u32, b: Seq<u8>) -> bool {
    b.len() == 4 && b[0] == byte_of(v, 3) && b[1] == byte_of(v, 2) && b[2] == byte_of(v, 1)
        && b[3] == byte_of(v, 0)
}

/// `v as i32` keeps a `u32` that fits, and turns a larger one negative.
proof fn lemma_u32_as_i32(v: u32)
    ensures
        v <= i32::MAX ==> v as i32 == v,
        v > i32::MAX ==> (v as i32) < 0,
{
    assert(v <= 0x7fff_ffffu32 ==> (v as i32) as int == v as int) by (bit_vector);
    assert(v > 0x7fff_ffffu32 ==> (v as i32) < 0i32) by (bit_vector);
}

/// A rectangle handed out by the atlas allocator, with its id.
pub struct TextureAllocation {
    pub id: AllocId,
    pub min_x: i32,
    pub min_y: i32,
    pub max_x: i32,
    pub max_y: i32,
}

/// Gap kept around every allocated rectangle.
pub const PADDING: u32 = 2;

/// Bytes per pixel (rgba8).
pub const BYTE_PER_PIXEL: u32 = 4;

/// CPU side of a texture that is written at run time: its rgba8 pixels, a mark
/// set when they change, and an allocator of its area.
pub struct DynamicTexture {
    width: u32,
    height: u32,
    buffer: Vec<u8>,
    dirty: bool,
    allocator: AtlasAllocator,
}

impl DynamicTexture {
    pub closed spec fn width(&self) -> u32 {
        self.width
    }

    pub closed spec fn height(&self) -> u32 {
        self.height
    }

    /// The pixel bytes, row by row, four bytes per pixel.
    pub closed spec fn pixels(&self) -> Seq<u8> {
        self.buffer@
    }

    /// The pixels changed since the last commit.
    pub closed spec fn is_dirty(&self) -> bool {
        self.dirty
    }

    /// Nothing was allocated from the texture yet.
    pub closed spec fn is_untouched(&self) -> bool {
        atlas_untouched(self.allocator)
    }

    /// Whether `allocate(width, height)` finds room in the texture.
    pub closed spec fn fits(&self, width: u32, height: u32) -> bool {
        &&& width + PADDING <= i32::MAX
        &&& height + PADDING <= i32::MAX
        &&& atlas_fits(self.allocator, width + PADDING, height + PADDING)
    }

    /// Where `allocate(width, height)` puts the top-left corner of the padded
    /// area, when it finds room.
    pub closed spec fn place(&self, width: u32, height: u32) -> (int, int) {
        atlas_place(self.allocator, width + PADDING, height + PADDING)
    }

    /// The areas handed out so far, as `(min_x, min_y, max_x, max_y)`.
    pub closed spec fn allocations(&self) -> Set<(int, int, int, int)> {
        atlas_allocated(self.allocator)
    }

    pub closed spec fn wf(&self) -> bool {
        &&& self.width <= i32::MAX
        &&& self.height <= i32::MAX
        &&& self.buffer@.len() == self.width * self.height * 4
        &&& self.width * self.height * 4 <= u32::MAX
        &&& atlas_extent(self.allocator) == (self.width as int, self.height as int)
    }

    /// A well-formed texture holds four bytes per pixel.
    pub proof fn lemma_pixels_len(&self)
        requires
            self.wf(),
        ensures
            self.pixels().len() == self.width() * self.height() * 4,
    {
    }

    /// A `width` by `height` texture, all bytes zero.
    pub fn new(width: u32, height: u32) -> (r: Self)
        requires
            0 < width <= i32::MAX,
            0 < height <= i32::MAX,
            width * height * 4 <= u32::MAX,
        ensures
            r.wf(),
            r.width() == width,
            r.height() == height,
            r.pixels() == Seq::new((width * height * 4) as nat, |i: int| 0u8),
            !r.is_dirty(),
            r.is_untouched(),
            r.allocations() == Set::<(int, int, int, int)>::empty(),
    {
        assert(width * height <= width * height * 4) by (nonlinear_arith)
            requires
                width > 0,
                height > 0,
        ;
        let n = (width * height * 4) as usize;
        let mut buffer: Vec<u8> = Vec::new();
        let mut i: usize = 0;
        while i < n
            invariant
                i <= n,
                buffer@ == Seq::new(i as nat, |j: int| 0u8),
            decreases n - i,
        {
            buffer.push(0);
            i = i + 1;
        }
        let allocator = atlas_new(width as i32, height as i32);
        DynamicTexture { width, height, buffer, dirty: false, allocator }
    }

    /// Reserves an area for a `width` by `height` image plus the padding.
    pub fn allocate(&mut self, width: u32, height: u32) -> (r: Option<TextureAllocation>)
        requires
            old(self).wf(),
            width + PADDING <= u32::MAX,
            height + PADDING <= u32::MAX,
        ensures
            final(self).wf(),
            final(self).width() == old(self).width(),
            final(self).height() == old(self).height(),
            final(self).pixels() == old(self).pixels(),
            final(self).is_dirty() == old(self).is_dirty(),
            width + PADDING > i32::MAX || height + PADDING > i32::MAX ==> r is None,
            r is Some <==> old(self).fits(width, height),
            old(self).is_untouched() && width + PADDING <= old(self).width() && height + PADDING
                <= old(self).height() ==> r is Some,
            r matches Some(a) ==> {
                &&& a.max_x - a.min_x == width + PADDING
                &&& a.max_y - a.min_y == height + PADDING
                &&& 0 <= a.min_x && a.max_x <= old(self).width()
                &&& 0 <= a.min_y && a.max_y <= old(self).height()
                &&& (a.min_x as int, a.min_y as int) == old(self).place(width, height)
                &&& forall|b: (int, int, int, int)|
                    #[trigger] old(self).allocations().contains(b) ==> rects_disjoint(alloc_rect(a), b)
                &&& final(self).allocations() == old(self).allocations().insert(alloc_rect(a))
            },
            r is None ==> final(self).allocations() == old(self).allocations(),
    {
        let w = width + PADDING;
        let h = height + PADDING;
        proof {
            lemma_u32_as_i32(w);
            lemma_u32_as_i32(h);
        }
        atlas_allocate(&mut self.allocator, w as i32, h as i32)
    }

    /// Writes the native-endian bytes of `color` to the pixel at `(x, y)`.
    pub fn set_pixel(&mut self, x: u32, y: u32, color: u32)
        requires
            old(self).wf(),
            x < old(self).width(),
            y < old(self).height(),
        ensures
            final(self).wf(),
            final(self).width() == old(self).width(),
            final(self).height() == old(self).height(),
            final(self).is_dirty(),
            final(self).allocations() == old(self).allocations(),
            ({
                let idx = (x + y * old(self).width()) * 4;
                let b = final(self).pixels();
                &&& b.len() == old(self).pixels().len()
                &&& forall|i: int|
                    0 <= i < b.len() && !(idx <= i < idx + 4) ==> b[i] == old(self).pixels()[i]
                &&& is_le_bytes(color, b.subrange(idx, idx + 4)) || is_be_bytes(
                    color,
                    b.subrange(idx, idx + 4),
                )
            }),
    {
        let w = self.width;
        let h = self.height;
        assert(x + y * w < w * h) by (nonlinear_arith)
            requires
                x < w,
                y < h,
        ;
        assert((x + y * w) * 4 + 4 <= w * h * 4) by (nonlinear_arith)
            requires
                x + y * w < w * h,
        ;
        let idx = ((x + y * self.width) * BYTE_PER_PIXEL) as usize;
        let array = u32_to_u8_array(color);
        self.buffer.set(idx, array[0]);
        self.buffer.set(idx + 1, array[1]);
        self.buffer.set(idx + 2, array[2]);
        self.buffer.set(idx + 3, array[3]);
        self.dirty = true;
        proof {
            assert(self.buffer@.subrange(idx as int, idx + 4) =~= array@);
        }
    }

    /// The pixel bytes to upload.
    pub fn pixel_bytes(&self) -> (r: &[u8])
        ensures
            r@ == self.pixels(),
    {
        self.buffer.as_slice()
    }

    /// Whether the pixels changed since the last commit; clears the mark.
    pub fn commit(&mut self) -> (changed: bool)
        ensures
            changed == old(self).is_dirty(),
            !final(self).is_dirty(),
            final(self).wf() == old(self).wf(),
            final(self).width() == old(self).width(),
            final(self).height() == old(self).height(),
            final(self).pixels() == old(self).pixels(),
            final(self).allocations() == old(self).allocations(),
    {
        if !self.dirty {
            return false;
        }
        self.dirty = false;
        true
    }

    pub fn width_px(&self) -> (r: u32)
        ensures
            r == self.width(),
    {
        self.width
    }

    pub fn height_px(&self) -> (r: u32)
        ensures
            r == self.height(),
    {
        self.height
    }
}

} // verus!
