use voxrs::render::chunk::{
    block_indices_in_dir, create_chunk_indices, group_blocks_by_material, DIR_X_NEG, DIR_X_POS,
    DIR_Y_NEG, DIR_Y_POS, DIR_Z_NEG, DIR_Z_POS,
};
use voxrs::render::chunk_cache::ChunkCache;
use voxrs::render::commands::{
    after_frame, find_atlas_group, keeps_running, Command, FrameOutcome, LoopStep, PipelineTracker,
};
use voxrs::render::uniforms::{aligned_offset, common_uniform_layout, MATRIX_SIZE};
use voxrs::rhi::dynamic_buffer::{DynamicBuffer, SliceSlot};
use voxrs::types::safecloner::SafeCloner;

#[test]
fn block_faces_in_direction_order() {
    assert_eq!(block_indices_in_dir(0), Vec::<u32>::new());
    assert_eq!(block_indices_in_dir(DIR_X_POS), vec![8, 9, 10, 10, 9, 11]);
    assert_eq!(block_indices_in_dir(DIR_Z_NEG), vec![20, 21, 22, 22, 21, 23]);
    assert_eq!(
        block_indices_in_dir(DIR_Y_NEG | DIR_X_NEG),
        vec![12, 13, 14, 14, 13, 15, 4, 5, 6, 6, 5, 7]
    );
    let all = DIR_X_POS | DIR_X_NEG | DIR_Y_POS | DIR_Y_NEG | DIR_Z_POS | DIR_Z_NEG;
    let indices = block_indices_in_dir(all);
    assert_eq!(indices.len(), 36);
    assert!(indices.iter().all(|i| *i < 24));
    assert_eq!(&indices[12..18], &[0, 1, 2, 2, 1, 3]);
    assert_eq!(&indices[24..30], &[16, 17, 18, 18, 17, 19]);
}

#[test]
fn chunk_indices_are_offset_per_block() {
    let vis = vec![DIR_X_POS, 0, DIR_Y_POS];
    let (indices, count) = create_chunk_indices(&[0, 2], &vis);
    assert_eq!(indices, vec![8, 9, 10, 10, 9, 11, 48, 49, 50, 50, 49, 51]);
    assert_eq!(count, 12);

    let (indices, count) = create_chunk_indices(&[1], &vis);
    assert!(indices.is_empty());
    assert_eq!(count, 0);

    let (indices, count) = create_chunk_indices(&[], &vis);
    assert!(indices.is_empty());
    assert_eq!(count, 0);
}

#[test]
fn blocks_grouped_by_material() {
    let groups = group_blocks_by_material(&[0, 3, 1, 3, 0, 3]);
    assert_eq!(groups.len(), 2);
    assert_eq!(groups.get(&3), Some(&vec![1, 3, 5]));
    assert_eq!(groups.get(&1), Some(&vec![2]));
    assert!(groups.get(&0).is_none());
    assert!(group_blocks_by_material(&[0, 0]).is_empty());
}

#[test]
fn uniform_offsets_are_aligned() {
    assert_eq!(aligned_offset(0), 0);
    assert_eq!(aligned_offset(1), 256);
    assert_eq!(aligned_offset(256), 256);
    assert_eq!(aligned_offset(257), 512);
    assert_eq!(common_uniform_layout(), (0, 256, 256 + MATRIX_SIZE));
}

#[test]
fn frame_outcomes_drive_the_loop() {
    assert_eq!(after_frame(FrameOutcome::Drawn), LoopStep::Continue);
    assert_eq!(after_frame(FrameOutcome::Lost), LoopStep::ResizeSelf);
    assert_eq!(after_frame(FrameOutcome::OutOfMemory), LoopStep::Stop);
    assert_eq!(after_frame(FrameOutcome::Timeout), LoopStep::Report);
    assert_eq!(after_frame(FrameOutcome::Outdated), LoopStep::Report);
    assert!(keeps_running(&Command::Render(1u8)));
    assert!(keeps_running(&Command::<u8>::Resize(800, 600)));
    assert!(!keeps_running(&Command::<u8>::Exit));
}

#[test]
fn atlas_group_is_first_match() {
    let groups = vec![(2usize, 'a'), (0, 'b'), (2, 'c')];
    assert_eq!(find_atlas_group(&groups, 2), Some(0));
    assert_eq!(find_atlas_group(&groups, 0), Some(1));
    assert_eq!(find_atlas_group(&groups, 7), None);
}

#[test]
fn pipeline_rebuilt_only_on_material_change() {
    let mut tracker = PipelineTracker::new();
    assert!(tracker.world_material_changed(5));
    assert!(!tracker.world_material_changed(5));
    assert!(tracker.world_material_changed(6));
    assert!(!tracker.world_material_changed(6));
}

#[test]
fn chunk_cache_prepare_builds_missing_chunks() {
    let mut cache: ChunkCache<u32, u32> = ChunkCache::new();
    cache.add(1, SafeCloner::new(100), vec![7]);
    cache.clear_unused();
    let bps = vec![(1u64, SafeCloner::new(10u32)), (2, SafeCloner::new(20)), (2, SafeCloner::new(30))];
    let ids = cache.prepare(&bps, |b: &u32| vec![*b * 2, *b * 3]);
    assert_eq!(ids, vec![1, 2, 2]);
    // an entry that was there stays as it was
    assert_eq!(cache.get(&1), Some(&vec![7]));
    // a new entry is built from the first blueprint with its id
    assert_eq!(cache.get(&2), Some(&vec![40, 60]));
    // every prepared id is used: nothing goes
    assert_eq!(cache.clear_unused(), 0);
    assert_eq!(cache.clear_unused(), 2);
    assert!(cache.get(&1).is_none());
}

#[test]
fn dynamic_buffer_first_buffer_and_retain() {
    let mut b = DynamicBuffer::with_first_buffer(100);
    assert_eq!(b.buffer_count(), 1);
    assert_eq!(b.add_slice(60), SliceSlot { buffer_idx: 0, buffer_start: 0, new_buffer: false });
    assert_eq!(b.add_slice(60), SliceSlot { buffer_idx: 1, buffer_start: 0, new_buffer: true });
    assert_eq!(b.add_slice(40), SliceSlot { buffer_idx: 1, buffer_start: 60, new_buffer: false });
    assert_eq!(b.buffer_count(), 2);
    b.retain_last();
    assert_eq!(b.buffer_count(), 1);
    // the kept buffer is full
    assert_eq!(b.add_slice(1), SliceSlot { buffer_idx: 1, buffer_start: 0, new_buffer: true });
    b.clear();
    assert_eq!(b.buffer_count(), 1);
    assert_eq!(b.add_slice(100), SliceSlot { buffer_idx: 0, buffer_start: 0, new_buffer: false });
}

use voxrs::render::font_atlas::{FontAtlas, GlyphKey, TEXTURE_HEIGHT, TEXTURE_WIDTH};

#[test]
fn font_atlas_places_each_glyph_once() {
    let mut atlas = FontAtlas::new();
    assert_eq!(atlas.texture_count(), 0);
    let a = GlyphKey::new(0, 20, 65);
    assert!(atlas.cached_glyph(&a).is_none());

    let info = atlas.register(a, 10, 12).unwrap();
    assert_eq!(info.atlas_idx, 0);
    assert_eq!((info.width, info.height), (10, 12));
    assert!(info.min_x >= 0 && info.min_x as u32 + 12 <= TEXTURE_WIDTH);
    assert!(info.min_y >= 0 && info.min_y as u32 + 14 <= TEXTURE_HEIGHT);
    assert_eq!(atlas.texture_count(), 1);

    let again = atlas.register(a, 99, 99).unwrap();
    assert_eq!((again.atlas_idx, again.min_x, again.min_y, again.width), (0, info.min_x, info.min_y, 10));
    let cached = atlas.cached_glyph(&a).unwrap();
    assert_eq!((cached.min_x, cached.min_y, cached.height), (info.min_x, info.min_y, 12));

    // same glyph id at another size or in another font is another glyph
    assert!(atlas.cached_glyph(&GlyphKey::new(0, 21, 65)).is_none());
    assert!(atlas.cached_glyph(&GlyphKey::new(1, 20, 65)).is_none());
}

#[test]
fn font_atlas_opens_a_texture_when_full() {
    let mut atlas = FontAtlas::new();
    let big = atlas.register(GlyphKey::new(0, 900, 1), 1022, 1022).unwrap();
    assert_eq!((big.atlas_idx, big.min_x, big.min_y), (0, 0, 0));
    let next = atlas.register(GlyphKey::new(0, 900, 2), 1022, 500).unwrap();
    assert_eq!(next.atlas_idx, 1);
    assert_eq!(atlas.texture_count(), 2);
    // the first texture with room takes a small glyph: texture 0 is full
    let small = atlas.register(GlyphKey::new(0, 10, 4), 10, 10).unwrap();
    assert_eq!(small.atlas_idx, 1);
    assert_eq!(atlas.texture_count(), 2);
    // too large for any texture
    assert!(atlas.register(GlyphKey::new(0, 900, 3), 1023, 4).is_none());
    assert!(atlas.cached_glyph(&GlyphKey::new(0, 900, 3)).is_none());
    assert_eq!(atlas.texture_count(), 2);
}

#[test]
fn font_atlas_commit_reports_written_textures() {
    let mut atlas = FontAtlas::new();
    atlas.register(GlyphKey::new(0, 900, 1), 1022, 1022).unwrap();
    atlas.register(GlyphKey::new(0, 900, 2), 1022, 1022).unwrap();
    assert_eq!(atlas.commit(), Vec::<usize>::new());
    atlas.set_pixel(1, 3, 2, 0xff00_00ff);
    let bytes = atlas.get_texture(1).pixel_bytes();
    let at = ((3 + 2 * TEXTURE_WIDTH) * 4) as usize;
    assert_eq!(u32::from_ne_bytes([bytes[at], bytes[at + 1], bytes[at + 2], bytes[at + 3]]), 0xff00_00ff);
    assert_eq!(atlas.commit(), vec![1]);
    assert_eq!(atlas.commit(), Vec::<usize>::new());
}

#[test]
fn font_atlas_draws_glyph_pixels_in_place() {
    let mut atlas = FontAtlas::new();
    atlas.register(GlyphKey::new(0, 20, 1), 4, 3).unwrap();
    let info = atlas.register(GlyphKey::new(0, 20, 2), 2, 2).unwrap();
    let before = atlas.get_texture(info.atlas_idx).pixel_bytes().to_vec();
    atlas.draw_glyph(&info, &[1, 2, 3, 4]);
    let bytes = atlas.get_texture(info.atlas_idx).pixel_bytes();
    let pixel = |x: i32, y: i32| {
        let at = ((x as u32 + y as u32 * TEXTURE_WIDTH) * 4) as usize;
        u32::from_ne_bytes([bytes[at], bytes[at + 1], bytes[at + 2], bytes[at + 3]])
    };
    assert_eq!(pixel(info.min_x, info.min_y), 1);
    assert_eq!(pixel(info.min_x + 1, info.min_y), 2);
    assert_eq!(pixel(info.min_x, info.min_y + 1), 3);
    assert_eq!(pixel(info.min_x + 1, info.min_y + 1), 4);
    let changed = bytes.iter().zip(before.iter()).filter(|(a, b)| a != b).count();
    assert!(changed <= 16);
}

#[test]
fn font_atlas_glyphs_do_not_overlap() {
    let mut atlas = FontAtlas::new();
    let mut rects = Vec::new();
    for g in 0..50u16 {
        let info = atlas.register(GlyphKey::new(0, 30, g), 40 + g as u32, 30).unwrap();
        rects.push((info.atlas_idx, info.min_x, info.min_y, info.min_x + info.width as i32 + 2, info.min_y + info.height as i32 + 2));
    }
    for i in 0..rects.len() {
        for j in 0..i {
            let (ta, ax0, ay0, ax1, ay1) = rects[i];
            let (tb, bx0, by0, bx1, by1) = rects[j];
            if ta == tb {
                assert!(ax1 <= bx0 || bx1 <= ax0 || ay1 <= by0 || by1 <= ay0);
            }
        }
    }
}
