use std::collections::HashMap;
use guillotiere::AllocId;
use vstd::prelude::*;
use crate::rhi::dynamic_texture::{
    alloc_rect, is_be_bytes, is_le_bytes, rects_disjoint, DynamicTexture, TextureAllocation, PADDING,
};

verus! {

broadcast use vstd::std_specs::hash::group_hash_axioms;

/// Width of each texture of the atlas.
pub const TEXTURE_WIDTH: u32 = 1024;

/// Height of each texture of the atlas.
pub const TEXTURE_HEIGHT: u32 = 1024;

/// A glyph of a font, rasterized at a pixel size.
#[derive(Copy, Clone, Debug, PartialEq, Eq, Structural)]
pub struct GlyphKey {
    pub font_id: usize,
    pub weight: u32,
    pub glyph_id: u16,
}

impl GlyphKey {
    pub fn new(font_id: usize, weight: u32, glyph_id: u16) -> (r: Self)
        ensures
            r == (GlyphKey { font_id, weight, glyph_id }),
    {
        Self { font_id, weight, glyph_id }
    }
}

/// The number under which a glyph is cached: the three fields side by side.
pub open spec fn glyph_code(k: GlyphKey) -> int {
    k.font_id * 0x1_0000_0000_0000 + k.weight * 0x1_0000 + k.glyph_id
}

proof fn lemma_glyph_code_injective(a: GlyphKey, b: GlyphKey)
    requires
        glyph_code(a) == glyph_code(b),
    ensures
        a == b,
{
    let fa = a.font_id as int;
    let fb = b.font_id as int;
    let wa = a.weight as int;
    let wb = b.weight as int;
    let ga = a.glyph_id as int;
    let gb = b.glyph_id as int;
    assert(fa == fb) by (nonlinear_arith)
        requires
            fa * 0x1_0000_0000_0000 + wa * 0x1_0000 + ga == fb * 0x1_0000_0000_0000 + wb * 0x1_0000 + gb,
            0 <= wa < 0x1_0000_0000,
            0 <= wb < 0x1_0000_0000,
            0 <= ga < 0x1_0000,
            0 <= gb < 0x1_0000,
    ;
    assert(wa == wb) by (nonlinear_arith)
        requires
            wa * 0x1_0000 + ga == wb * 0x1_0000 + gb,
            0 <= ga < 0x1_0000,
            0 <= gb < 0x1_0000,
    ;
}

fn key_code(k: &GlyphKey) -> (r: u128)
    ensures
        r == glyph_code(*k),
{
    let f = k.font_id as u128;
    let w = k.weight as u128;
    let g = k.glyph_id as u128;
    assert(f * 0x1_0000_0000_0000 + w * 0x1_0000 + g <= u128::MAX) by (nonlinear_arith)
        requires
            f <= 0xffff_ffff_ffff_ffff,
            w <= 0xffff_ffff,
            g <= 0xffff,
    ;
    f * 0x1_0000_0000_0000 + w * 0x1_0000 + g
}

/// Where a glyph lies in the atlas: the texture, the top-left corner of its
/// pixels in that texture, its size in pixels, and its allocation.
#[derive(Copy, Clone, Debug)]
pub struct GlyphAtlasInfo {
    pub atlas_idx: usize,
    pub min_x: i32,
    pub min_y: i32,
    pub width: u32,
    pub height: u32,
    pub alloc_id: AllocId,
}

/// A `width` by `height` glyph at `info` lies inside a texture of the atlas.
pub open spec fn glyph_fits(info: GlyphAtlasInfo) -> bool {
    &&& 0 <= info.min_x
    &&& 0 <= info.min_y
    &&& info.min_x + info.width + PADDING <= TEXTURE_WIDTH
    &&& info.min_y + info.height + PADDING <= TEXTURE_HEIGHT
}

/// The area a glyph holds in its texture, padding included, as
/// `(min_x, min_y, max_x, max_y)`.
pub open spec fn glyph_rect(info: GlyphAtlasInfo) -> (int, int, int, int) {
    (
        info.min_x as int,
        info.min_y as int,
        info.min_x + info.width + PADDING,
        info.min_y + info.height + PADDING,
    )
}

/// Every texture is a well-formed texture of the atlas size.
pub open spec fn atlas_textures(textures: Seq<DynamicTexture>) -> bool {
    forall|i: int|
        0 <= i < textures.len() ==> {
            &&& (#[trigger] textures[i]).wf()
            &&& textures[i].width() == TEXTURE_WIDTH
            &&& textures[i].height() == TEXTURE_HEIGHT
        }
}

/// The positions, in order, of the textures among the first `n` whose pixels
/// changed since they were last sent.
pub open spec fn dirty_indices(textures: Seq<DynamicTexture>, n: int) -> Seq<usize>
    decreases n,
{
    if n <= 0 {
        Seq::empty()
    } else if textures[n - 1].is_dirty() {
        dirty_indices(textures, n - 1).push((n - 1) as usize)
    } else {
        dirty_indices(textures, n - 1)
    }
}

/// `n` is `o` after `register(key, width, height)` returned `r`.
pub open spec fn registered(
    o: FontAtlas,
    n: FontAtlas,
    key: GlyphKey,
    width: u32,
    height: u32,
    r: Option<GlyphAtlasInfo>,
) -> bool {
    &&& o.glyphs().contains_key(key) ==> {
        &&& r == Some(o.glyphs()[key])
        &&& n.glyphs() == o.glyphs()
        &&& n.textures() == o.textures()
    }
    &&& !o.glyphs().contains_key(key) ==> {
        &&& r is Some <==> (width + PADDING <= TEXTURE_WIDTH && height + PADDING <= TEXTURE_HEIGHT)
        &&& match r {
            Some(info) => {
                &&& n.glyphs() == o.glyphs().insert(key, info)
                &&& info.width == width && info.height == height
                &&& info.atlas_idx < n.textures().len()
                &&& glyph_fits(info)
                &&& forall|j: int|
                    0 <= j < info.atlas_idx && j < o.textures().len() ==> !(
                    #[trigger] o.textures()[j]).fits(width, height)
                &&& info.atlas_idx < o.textures().len() ==> {
                    &&& o.textures()[info.atlas_idx as int].fits(width, height)
                    &&& n.textures().len() == o.textures().len()
                    &&& (info.min_x as int, info.min_y as int) == o.textures()[info.atlas_idx as int].place(
                        width,
                        height,
                    )
                    &&& n.textures()[info.atlas_idx as int].allocations() == o.textures()[info.atlas_idx as int].allocations().insert(
                        glyph_rect(info),
                    )
                }
                &&& forall|j: int|
                    0 <= j < o.textures().len() && j != info.atlas_idx ==> (#[trigger] n.textures()[j]).allocations()
                        == o.textures()[j].allocations()
                &&& info.atlas_idx >= o.textures().len() ==> {
                    &&& info.atlas_idx == o.textures().len()
                    &&& n.textures().len() == o.textures().len() + 1
                    &&& n.textures().last().pixels() == Seq::new(
                        (TEXTURE_WIDTH * TEXTURE_HEIGHT * 4) as nat,
                        |i: int| 0u8,
                    )
                    &&& n.textures().last().allocations() == Set::<(int, int, int, int)>::empty().insert(
                        glyph_rect(info),
                    )
                }
            },
            None => {
                &&& n.glyphs() == o.glyphs()
                &&& n.textures() == o.textures()
            },
        }
    }
    &&& forall|i: int|
        0 <= i < o.textures().len() ==> (#[trigger] n.textures()[i]).pixels() == o.textures()[i].pixels()
            && n.textures()[i].is_dirty() == o.textures()[i].is_dirty()
}

/// Registering a glyph that was placed before gives the same placement again
/// and changes nothing.
pub proof fn law_register_twice_same(
    a: FontAtlas,
    b: FontAtlas,
    c: FontAtlas,
    key: GlyphKey,
    width1: u32,
    height1: u32,
    r1: Option<GlyphAtlasInfo>,
    width2: u32,
    height2: u32,
    r2: Option<GlyphAtlasInfo>,
)
    requires
        registered(a, b, key, width1, height1, r1),
        r1 is Some,
        registered(b, c, key, width2, height2, r2),
    ensures
        r2 == r1,
        c.glyphs() == b.glyphs(),
        c.textures() == b.textures(),
{
}

/// Two glyphs placed in the same texture share no pixel.
pub proof fn law_glyphs_do_not_overlap(atlas: FontAtlas, k1: GlyphKey, k2: GlyphKey)
    requires
        atlas.wf(),
        atlas.glyphs().contains_key(k1),
        atlas.glyphs().contains_key(k2),
        k1 != k2,
        atlas.glyphs()[k1].atlas_idx == atlas.glyphs()[k2].atlas_idx,
    ensures
        rects_disjoint(glyph_rect(atlas.glyphs()[k1]), glyph_rect(atlas.glyphs()[k2])),
{
}

/// Position of the first byte of pixel `(x, y)` in a texture of the atlas.
pub open spec fn pixel_index(x: int, y: int) -> int {
    (x + y * TEXTURE_WIDTH) * 4
}

/// The bytes of pixel `(x, y)` in `pixels` are those of `color`, in one of
/// the two byte orders.
pub open spec fn holds_color(pixels: Seq<u8>, x: int, y: int, color: u32) -> bool {
    let i = pixel_index(x, y);
    is_le_bytes(color, pixels.subrange(i, i + 4)) || is_be_bytes(color, pixels.subrange(i, i + 4))
}

/// Pixel `(a, b)` of a glyph comes before pixel `(x, y)`, row by row.
pub open spec fn drawn_before(a: int, b: int, x: int, y: int) -> bool {
    b < y || (b == y && a < x)
}

/// Byte `i` belongs to a pixel of the glyph at `info` that comes before `(x, y)`.
pub open spec fn in_drawn(info: GlyphAtlasInfo, x: int, y: int, i: int) -> bool {
    exists|a: int, b: int|
        0 <= a < info.width && 0 <= b < info.height && drawn_before(a, b, x, y) && pixel_index(
            info.min_x + a,
            info.min_y + b,
        ) <= i < #[trigger] pixel_index(info.min_x + a, info.min_y + b) + 4
}

/// Byte `i` belongs to a pixel of the glyph at `info`.
pub open spec fn in_glyph(info: GlyphAtlasInfo, i: int) -> bool {
    in_drawn(info, 0, info.height as int, i)
}

proof fn lemma_pixels_apart(x1: int, y1: int, x2: int, y2: int)
    requires
        0 <= x1 < TEXTURE_WIDTH,
        0 <= x2 < TEXTURE_WIDTH,
        (x1, y1) != (x2, y2),
    ensures
        pixel_index(x1, y1) + 4 <= pixel_index(x2, y2) || pixel_index(x2, y2) + 4 <= pixel_index(x1, y1),
{
    assert(x1 + y1 * 1024 != x2 + y2 * 1024) by (nonlinear_arith)
        requires
            0 <= x1 < 1024,
            0 <= x2 < 1024,
            x1 != x2 || y1 != y2,
    ;
}

/// Glyphs rasterized into textures that are created on demand; each glyph is
/// placed once and found again by its key.
pub struct FontAtlas {
    font_textures: Vec<DynamicTexture>,
    cached: HashMap<u128, GlyphAtlasInfo>,
}

impl FontAtlas {
    /// The textures, in the order they were created.
    pub closed spec fn textures(&self) -> Seq<DynamicTexture> {
        self.font_textures@
    }

    /// The placed glyphs.
    pub closed spec fn glyphs(&self) -> Map<GlyphKey, GlyphAtlasInfo> {
        Map::new(
            |k: GlyphKey| self.cached@.contains_key(glyph_code(k) as u128),
            |k: GlyphKey| self.cached@[glyph_code(k) as u128],
        )
    }

    /// Every texture is a well-formed texture of the atlas size, and every
    /// placed glyph lies inside one of them.
    pub open spec fn wf(&self) -> bool {
        &&& atlas_textures(self.textures())
        &&& forall|k: GlyphKey|
            #[trigger] self.glyphs().contains_key(k) ==> {
                &&& self.glyphs()[k].atlas_idx < self.textures().len()
                &&& glyph_fits(self.glyphs()[k])
                &&& self.textures()[self.glyphs()[k].atlas_idx as int].allocations().contains(
                    glyph_rect(self.glyphs()[k]),
                )
            }
        &&& forall|k1: GlyphKey, k2: GlyphKey|
            #[trigger] self.glyphs().contains_key(k1) && #[trigger] self.glyphs().contains_key(k2)
                && k1 != k2 && self.glyphs()[k1].atlas_idx == self.glyphs()[k2].atlas_idx
                ==> rects_disjoint(glyph_rect(self.glyphs()[k1]), glyph_rect(self.glyphs()[k2]))
    }

    /// An atlas with no texture and no glyph.
    pub fn new() -> (r: Self)
        ensures
            r.wf(),
            r.textures().len() == 0,
            r.glyphs() == Map::<GlyphKey, GlyphAtlasInfo>::empty(),
    {
        let r = FontAtlas { font_textures: Vec::new(), cached: HashMap::new() };
        assert(r.glyphs() =~= Map::<GlyphKey, GlyphAtlasInfo>::empty());
        r
    }

    /// Where the glyph `key` was placed, if it was.
    pub fn cached_glyph(&self, key: &GlyphKey) -> (r: Option<GlyphAtlasInfo>)
        ensures
            r is Some <==> self.glyphs().contains_key(*key),
            r matches Some(info) ==> info == self.glyphs()[*key],
    {
        let code = key_code(key);
        match self.cached.get(&code) {
            Some(info) => Some(*info),
            None => None,
        }
    }

    /// Places a `width` by `height` glyph: a glyph placed before is returned
    /// as it was; else it goes to the first texture with room, or to a new
    /// texture when none has room. A glyph larger than a texture is not
    /// placed.
    pub fn register(&mut self, key: GlyphKey, width: u32, height: u32) -> (r: Option<GlyphAtlasInfo>)
        requires
            old(self).wf(),
            old(self).textures().len() < usize::MAX,
        ensures
            final(self).wf(),
            registered(*old(self), *final(self), key, width, height, r),
    {
        let code = key_code(&key);
        if let Some(info) = self.cached.get(&code) {
            return Some(*info);
        }
        if width > TEXTURE_WIDTH - PADDING || height > TEXTURE_HEIGHT - PADDING {
            return None;
        }
        let ghost old_textures = self.font_textures@;
        let mut found: Option<(TextureAllocation, usize)> = None;
        let mut i: usize = 0;
        while i < self.font_textures.len()
            invariant_except_break
                found is None,
                forall|j: int|
                    0 <= j < self.font_textures@.len() ==> (#[trigger] self.font_textures@[j]).allocations()
                        == old_textures[j].allocations(),
                forall|j: int| i <= j < self.font_textures@.len() ==> #[trigger] self.font_textures@[j] == old_textures[j],
            invariant
                i <= self.font_textures@.len(),
                self.font_textures@.len() == old_textures.len(),
                self.cached@ == old(self).cached@,
                width + PADDING <= TEXTURE_WIDTH,
                height + PADDING <= TEXTURE_HEIGHT,
                atlas_textures(self.font_textures@),
                forall|j: int|
                    0 <= j < self.font_textures@.len() ==> {
                        &&& (#[trigger] self.font_textures@[j]).pixels() == old_textures[j].pixels()
                        &&& self.font_textures@[j].is_dirty() == old_textures[j].is_dirty()
                    },
                forall|j: int| 0 <= j < i ==> !(#[trigger] old_textures[j]).fits(width, height),
            ensures
                found is None ==> forall|j: int| 0 <= j < old_textures.len() ==> !(#[trigger] old_textures[j]).fits(width, height),
                found is None ==> forall|j: int|
                    0 <= j < old_textures.len() ==> (#[trigger] self.font_textures@[j]).allocations()
                        == old_textures[j].allocations(),
                found matches Some((a, idx)) ==> {
                    &&& forall|j: int|
                        0 <= j < old_textures.len() && j != idx ==> (#[trigger] self.font_textures@[j]).allocations()
                            == old_textures[j].allocations()
                    &&& self.font_textures@[idx as int].allocations() == old_textures[idx as int].allocations().insert(
                        alloc_rect(a),
                    )
                    &&& (a.min_x as int, a.min_y as int) == old_textures[idx as int].place(width, height)
                    &&& forall|b: (int, int, int, int)|
                        #[trigger] old_textures[idx as int].allocations().contains(b) ==> rects_disjoint(
                            alloc_rect(a),
                            b,
                        )
                    &&& idx < self.font_textures@.len()
                    &&& old_textures[idx as int].fits(width, height)
                    &&& forall|j: int| 0 <= j < idx ==> !(#[trigger] old_textures[j]).fits(width, height)
                    &&& a.max_x - a.min_x == width + PADDING
                    &&& a.max_y - a.min_y == height + PADDING
                    &&& 0 <= a.min_x && a.max_x <= TEXTURE_WIDTH
                    &&& 0 <= a.min_y && a.max_y <= TEXTURE_HEIGHT
                },
            decreases self.font_textures@.len() - i,
        {
            let a = self.font_textures[i].allocate(width, height);
            if let Some(alloc) = a {
                found = Some((alloc, i));
                break;
            }
            i = i + 1;
        }
        let (alloc, atlas_idx) = match found {
            Some(f) => f,
            None => {
                let mut texture = DynamicTexture::new(TEXTURE_WIDTH, TEXTURE_HEIGHT);
                match texture.allocate(width, height) {
                    Some(alloc) => {
                        self.font_textures.push(texture);
                        (alloc, self.font_textures.len() - 1)
                    },
                    None => {
                        return None;
                    },
                }
            },
        };
        let info = GlyphAtlasInfo {
            atlas_idx,
            min_x: alloc.min_x,
            min_y: alloc.min_y,
            width,
            height,
            alloc_id: alloc.id,
        };
        self.cached.insert(code, info);
        proof {
            assert forall|k: GlyphKey| self.glyphs().contains_key(k) == old(self).glyphs().insert(
                key,
                info,
            ).contains_key(k) by {
                if glyph_code(k) == glyph_code(key) {
                    lemma_glyph_code_injective(k, key);
                }
            }
            assert forall|k: GlyphKey| #[trigger] self.glyphs().contains_key(k) implies self.glyphs()[k]
                == old(self).glyphs().insert(key, info)[k] by {
                if glyph_code(k) == glyph_code(key) {
                    lemma_glyph_code_injective(k, key);
                }
            }
            assert(self.glyphs() =~= old(self).glyphs().insert(key, info));
        }
        Some(info)
    }

    /// Writes `color` to the pixel `(x, y)` of texture `atlas_idx`.
    pub fn set_pixel(&mut self, atlas_idx: usize, x: u32, y: u32, color: u32)
        requires
            old(self).wf(),
            atlas_idx < old(self).textures().len(),
            x < TEXTURE_WIDTH,
            y < TEXTURE_HEIGHT,
        ensures
            final(self).wf(),
            final(self).glyphs() == old(self).glyphs(),
            final(self).textures().len() == old(self).textures().len(),
            forall|i: int|
                0 <= i < old(self).textures().len() && i != atlas_idx ==> #[trigger] final(self).textures()[i]
                    == old(self).textures()[i],
            final(self).textures()[atlas_idx as int].is_dirty(),
            final(self).textures()[atlas_idx as int].allocations() == old(self).textures()[atlas_idx as int].allocations(),
            ({
                let idx = (x + y * TEXTURE_WIDTH) * 4;
                let b = final(self).textures()[atlas_idx as int].pixels();
                let before = old(self).textures()[atlas_idx as int].pixels();
                &&& b.len() == before.len()
                &&& forall|i: int| 0 <= i < b.len() && !(idx <= i < idx + 4) ==> b[i] == before[i]
                &&& is_le_bytes(color, b.subrange(idx, idx + 4)) || is_be_bytes(
                    color,
                    b.subrange(idx, idx + 4),
                )
            }),
    {
        assert(self.font_textures@[atlas_idx as int].width() == TEXTURE_WIDTH);
        self.font_textures[atlas_idx].set_pixel(x, y, color);
        proof {
            assert(self.glyphs() =~= old(self).glyphs());
        }
    }

    /// Draws a glyph placed at `info`: `colors` holds its pixels row by row,
    /// and pixel `(x, y)` of the glyph goes to pixel `(min_x + x, min_y + y)`
    /// of its texture.
    pub fn draw_glyph(&mut self, info: &GlyphAtlasInfo, colors: &[u32])
        requires
            old(self).wf(),
            info.atlas_idx < old(self).textures().len(),
            glyph_fits(*info),
            colors@.len() == info.width * info.height,
        ensures
            final(self).wf(),
            final(self).glyphs() == old(self).glyphs(),
            final(self).textures().len() == old(self).textures().len(),
            forall|i: int|
                0 <= i < old(self).textures().len() && i != info.atlas_idx ==> #[trigger] final(self).textures()[i]
                    == old(self).textures()[i],
            final(self).textures()[info.atlas_idx as int].allocations() == old(self).textures()[info.atlas_idx as int].allocations(),
            ({
                let b = final(self).textures()[info.atlas_idx as int].pixels();
                let before = old(self).textures()[info.atlas_idx as int].pixels();
                &&& b.len() == before.len()
                &&& forall|x: int, y: int|
                    0 <= x < info.width && 0 <= y < info.height ==> #[trigger] holds_color(
                        b,
                        info.min_x + x,
                        info.min_y + y,
                        colors@[y * info.width + x],
                    )
                &&& forall|i: int| 0 <= i < b.len() && !in_glyph(*info, i) ==> b[i] == before[i]
            }),
    {
        let w = info.width;
        let h = info.height;
        let idx = info.atlas_idx;
        let ghost orig = self.textures()[idx as int].pixels();
        let ghost old_textures = self.textures();
        let ghost old_glyphs = self.glyphs();
        let mut y: u32 = 0;
        while y < h
            invariant
                self.wf(),
                idx == info.atlas_idx,
                w == info.width,
                h == info.height,
                glyph_fits(*info),
                colors@.len() == w * h,
                idx < self.textures().len(),
                y <= h,
                self.glyphs() == old_glyphs,
                self.textures().len() == old_textures.len(),
                forall|i: int|
                    0 <= i < old_textures.len() && i != idx ==> #[trigger] self.textures()[i] == old_textures[i],
                self.textures()[idx as int].allocations() == old_textures[idx as int].allocations(),
                self.textures()[idx as int].pixels().len() == orig.len(),
                forall|a: int, b: int|
                    0 <= a < w && 0 <= b < h && drawn_before(a, b, 0, y as int) ==> #[trigger] holds_color(
                        self.textures()[idx as int].pixels(),
                        info.min_x + a,
                        info.min_y + b,
                        colors@[b * w + a],
                    ),
                forall|i: int|
                    0 <= i < orig.len() && !in_drawn(*info, 0, y as int, i) ==> self.textures()[idx as int].pixels()[i]
                        == orig[i],
            decreases h - y,
        {
            let mut x: u32 = 0;
            while x < w
                invariant
                    self.wf(),
                    idx == info.atlas_idx,
                    w == info.width,
                    h == info.height,
                    glyph_fits(*info),
                    colors@.len() == w * h,
                    idx < self.textures().len(),
                    y < h,
                    x <= w,
                    self.glyphs() == old_glyphs,
                    self.textures().len() == old_textures.len(),
                    forall|i: int|
                        0 <= i < old_textures.len() && i != idx ==> #[trigger] self.textures()[i] == old_textures[i],
                    self.textures()[idx as int].allocations() == old_textures[idx as int].allocations(),
                    self.textures()[idx as int].pixels().len() == orig.len(),
                    forall|a: int, b: int|
                        0 <= a < w && 0 <= b < h && drawn_before(a, b, x as int, y as int) ==> #[trigger] holds_color(
                            self.textures()[idx as int].pixels(),
                            info.min_x + a,
                            info.min_y + b,
                            colors@[b * w + a],
                        ),
                    forall|i: int|
                        0 <= i < orig.len() && !in_drawn(*info, x as int, y as int, i)
                            ==> self.textures()[idx as int].pixels()[i] == orig[i],
                decreases w - x,
            {
                let px = info.min_x as u32 + x;
                let py = info.min_y as u32 + y;
                assert(y * w + x < w * h) by (nonlinear_arith)
                    requires
                        x < w,
                        y < h,
                ;
                assert(w * h <= 1024 * 1024) by (nonlinear_arith)
                    requires
                        w <= 1024,
                        h <= 1024,
                ;
                let c = colors[(y * w + x) as usize];
                let ghost before = self.textures()[idx as int].pixels();
                self.set_pixel(idx, px, py, c);
                proof {
                    let after = self.textures()[idx as int].pixels();
                    self.textures()[idx as int].lemma_pixels_len();
                    let ip = pixel_index(px as int, py as int);
                    assert forall|a: int, b: int|
                        0 <= a < w && 0 <= b < h && drawn_before(a, b, x + 1, y as int) implies #[trigger] holds_color(
                            after,
                            info.min_x + a,
                            info.min_y + b,
                            colors@[b * w + a],
                        ) by {
                        if a == x && b == y {
                        } else {
                            lemma_pixels_apart(info.min_x + a, info.min_y + b, px as int, py as int);
                            let iq = pixel_index(info.min_x + a, info.min_y + b);
                            assert(iq + 4 <= after.len()) by (nonlinear_arith)
                                requires
                                    0 <= info.min_x + a < 1024,
                                    0 <= info.min_y + b < 1024,
                                    iq == (info.min_x + a + (info.min_y + b) * 1024) * 4,
                                    after.len() == 1024 * 1024 * 4,
                            ;
                            assert(0 <= iq) by (nonlinear_arith)
                                requires
                                    0 <= info.min_x + a,
                                    0 <= info.min_y + b,
                                    iq == (info.min_x + a + (info.min_y + b) * 1024) * 4,
                            ;
                            assert(after.subrange(iq, iq + 4) =~= before.subrange(iq, iq + 4));
                            assert(holds_color(before, info.min_x + a, info.min_y + b, colors@[b * w + a]));
                        }
                    }
                    assert forall|i: int|
                        0 <= i < orig.len() && !in_drawn(*info, x + 1, y as int, i) implies after[i] == orig[i] by {
                        if ip <= i < ip + 4 {
                            assert(pixel_index(info.min_x + x as int, info.min_y + y as int) == ip);
                            assert(in_drawn(*info, x + 1, y as int, i));
                        }
                        if in_drawn(*info, x as int, y as int, i) {
                            let (a, b) = choose|a: int, b: int|
                                0 <= a < info.width && 0 <= b < info.height && drawn_before(a, b, x as int, y as int)
                                    && pixel_index(info.min_x + a, info.min_y + b) <= i < #[trigger] pixel_index(
                                    info.min_x + a,
                                    info.min_y + b,
                                ) + 4;
                            assert(drawn_before(a, b, x + 1, y as int));
                        }
                    }
                }
                x = x + 1;
            }
            proof {
                let cur = self.textures()[idx as int].pixels();
                assert forall|i: int|
                    0 <= i < orig.len() && !in_drawn(*info, 0, y + 1, i) implies cur[i] == orig[i] by {
                    if in_drawn(*info, w as int, y as int, i) {
                        let (a, b) = choose|a: int, b: int|
                            0 <= a < info.width && 0 <= b < info.height && drawn_before(a, b, w as int, y as int)
                                && pixel_index(info.min_x + a, info.min_y + b) <= i < #[trigger] pixel_index(
                                info.min_x + a,
                                info.min_y + b,
                            ) + 4;
                        assert(drawn_before(a, b, 0, y + 1));
                    }
                }
            }
            y = y + 1;
        }
        proof {
            let cur = self.textures()[idx as int].pixels();
            assert forall|i: int| 0 <= i < cur.len() && !in_glyph(*info, i) implies cur[i] == orig[i] by {}
        }
    }

    /// The texture `atlas_idx`.
    pub fn get_texture(&self, atlas_idx: usize) -> (r: &DynamicTexture)
        requires
            atlas_idx < self.textures().len(),
        ensures
            *r == self.textures()[atlas_idx as int],
    {
        &self.font_textures[atlas_idx]
    }

    /// Number of textures.
    pub fn texture_count(&self) -> (r: usize)
        ensures
            r == self.textures().len(),
    {
        self.font_textures.len()
    }

    /// Marks every texture as sent; returns, in order, the textures whose
    /// pixels changed since they were last sent.
    pub fn commit(&mut self) -> (changed: Vec<usize>)
        requires
            old(self).wf(),
        ensures
            final(self).wf(),
            final(self).glyphs() == old(self).glyphs(),
            final(self).textures().len() == old(self).textures().len(),
            forall|i: int|
                0 <= i < old(self).textures().len() ==> {
                    &&& !(#[trigger] final(self).textures()[i]).is_dirty()
                    &&& final(self).textures()[i].pixels() == old(self).textures()[i].pixels()
                    &&& final(self).textures()[i].allocations() == old(self).textures()[i].allocations()
                },
            changed@ == dirty_indices(old(self).textures(), old(self).textures().len() as int),
    {
        let ghost old_textures = self.font_textures@;
        let mut changed: Vec<usize> = Vec::new();
        let mut i: usize = 0;
        while i < self.font_textures.len()
            invariant
                i <= self.font_textures@.len(),
                self.font_textures@.len() == old_textures.len(),
                self.cached@ == old(self).cached@,
                atlas_textures(self.font_textures@),
                forall|j: int|
                    0 <= j < self.font_textures@.len() ==> {
                        &&& (#[trigger] self.font_textures@[j]).pixels() == old_textures[j].pixels()
                        &&& self.font_textures@[j].allocations() == old_textures[j].allocations()
                        &&& (j < i ==> !self.font_textures@[j].is_dirty())
                        &&& (j >= i ==> self.font_textures@[j].is_dirty() == old_textures[j].is_dirty())
                    },
                changed@ == dirty_indices(old_textures, i as int),
            decreases self.font_textures@.len() - i,
        {
            let dirty = self.font_textures[i].commit();
            if dirty {
                changed.push(i);
            }
            i = i + 1;
        }
        proof {
            assert(self.glyphs() =~= old(self).glyphs());
        }
        changed
    }
}

} // verus!
