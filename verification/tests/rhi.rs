use voxrs::rhi::dynamic_buffer::{DynamicBuffer, SliceSlot};
use voxrs::rhi::dynamic_texture::{u32_to_u8_array, DynamicTexture};

#[test]
fn test_u32_to_u8_array() {
    let color = 0xaabbccdd as u32;
    let array = u32_to_u8_array(color);

    assert_eq!(array[0], 0xdd_u8);
    assert_eq!(array[1], 0xcc_u8);
    assert_eq!(array[2], 0xbb_u8);
    assert_eq!(array[3], 0xaa_u8);
}

#[test]
fn dynamic_buffer_places_slices() {
    let mut b = DynamicBuffer::new(100);
    assert_eq!(b.add_slice(40), SliceSlot { buffer_idx: 0, buffer_start: 0, new_buffer: true });
    assert_eq!(b.add_slice(40), SliceSlot { buffer_idx: 0, buffer_start: 40, new_buffer: false });
    assert_eq!(b.add_slice(40), SliceSlot { buffer_idx: 1, buffer_start: 0, new_buffer: true });
    assert_eq!(b.add_slice(60), SliceSlot { buffer_idx: 1, buffer_start: 40, new_buffer: false });
    assert_eq!(b.buffer_count(), 2);
    b.clear();
    assert_eq!(b.buffer_count(), 1);
    assert_eq!(b.add_slice(100), SliceSlot { buffer_idx: 0, buffer_start: 0, new_buffer: false });
}

#[test]
fn dynamic_texture_pixels_and_allocation() {
    let mut t = DynamicTexture::new(8, 4);
    assert!(!t.commit());
    t.set_pixel(1, 2, 0xaabbccdd);
    let idx = ((1 + 2 * 8) * 4) as usize;
    assert_eq!(&t.pixel_bytes()[idx..idx + 4], &[0xdd, 0xcc, 0xbb, 0xaa]);
    assert_eq!(t.pixel_bytes().iter().filter(|b| **b != 0).count(), 4);
    assert!(t.commit());
    assert!(!t.commit());

    let a = t.allocate(2, 1).expect("fits");
    assert_eq!(a.max_x - a.min_x, 4);
    assert_eq!(a.max_y - a.min_y, 3);
    assert!(t.allocate(10, 10).is_none());
}
