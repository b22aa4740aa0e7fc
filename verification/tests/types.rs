use voxrs::types::chunk::{WorldBlockCounts, WorldChunkCounts};
use voxrs::types::fps::Fps;

#[test]
fn test_fps() {
    let mut fps = Fps::new();

    let mut tick: u64 = 1_000_000_000;
    for _ in 0..200 {
        fps.force_tick(tick);
        tick += 33_000_000;
    }

    let avg_sec = fps.average_tick_nanos() as f32 / 1_000_000_000.0;
    let fps = 1.0 / avg_sec;
    assert_eq!(fps.floor() as i32, 30);
}

#[test]
fn fps_average_is_exact() {
    let mut fps = Fps::new();
    fps.force_tick(0);
    fps.force_tick(400);
    fps.force_tick(1000);
    // two durations (400, 600) in 200 slots
    assert_eq!(fps.average_tick_nanos(), 5);
}

#[test]
fn fps_backwards_clock_counts_zero() {
    let mut fps = Fps::new();
    fps.force_tick(1000);
    fps.force_tick(200);
    assert_eq!(fps.average_tick_nanos(), 0);
}

#[test]
fn world_chunk_counts_from_blocks() {
    let blocks = WorldBlockCounts::new(256, 32, -40);
    let chunks: WorldChunkCounts = blocks.into();
    assert_eq!(chunks, WorldChunkCounts::new(16, 2, -2));
    assert_eq!(WorldChunkCounts::new(16, 2, 3).len(), 96);
}
