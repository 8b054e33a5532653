use upscale_core::error::AppError;
use upscale_core::raster::Image;
use upscale_core::stub::StubSession;
use upscale_core::tiling::{
    extract_tile_with_mirroring, process_tiled, stitch_tile, CancelFlag, RecordingProgressSink,
    TileMetadata, TilingConfig,
};

/// An image whose every pixel carries a unique value derived from its
/// coordinates, so misplaced pixels are visible.
fn unique_image(width: u32, height: u32) -> Image {
    let mut data = Vec::new();
    for y in 0..height {
        for x in 0..width {
            let v = (y * width + x) * 3;
            data.push((v % 251) as u8);
            data.push(((v + 1) % 251) as u8);
            data.push(((v + 2) % 251) as u8);
        }
    }
    Image { width, height, data }
}

fn pixel(img: &Image, x: u32, y: u32, c: u32) -> u8 {
    img.data[(((y * img.width) + x) * 3 + c) as usize]
}

/// The ping-pong reflection written out step by step, as the reference
/// for the closed-form remapping the library uses.
fn mirror_reference(mut coord: i64, max: i64) -> i64 {
    if max == 1 {
        return 0;
    }
    while coord < 0 || coord >= max {
        if coord < 0 {
            coord = -coord;
        } else {
            coord = 2 * (max - 1) - coord;
        }
    }
    coord
}

#[test]
fn mirror_coordinate_matches_reference() {
    for max in 1..8i64 {
        for coord in -30..30i64 {
            let got = upscale_core::geometry::mirror_coordinate(coord, max);
            let want = mirror_reference(coord, max);
            assert_eq!(got as i64, want, "coord {} max {}", coord, max);
        }
    }
}

#[test]
fn mirror_correctness_on_three_by_three() {
    // Extracting beyond each edge of a 3x3 image samples the pixel at
    // the ping-pong reflection of the out-of-bound coordinate.
    let img = unique_image(3, 3);
    // tile_size 3, padding 2: the tile spans ideal coordinates -2..=4.
    let tile = extract_tile_with_mirroring(&img, 0, 0, 3, 2);
    assert_eq!(tile.width, 7);
    assert_eq!(tile.height, 7);
    for ty in 0..7i64 {
        for tx in 0..7i64 {
            let sx = mirror_reference(tx - 2, 3) as u32;
            let sy = mirror_reference(ty - 2, 3) as u32;
            for c in 0..3u32 {
                assert_eq!(
                    pixel(&tile, tx as u32, ty as u32, c),
                    pixel(&img, sx, sy, c),
                    "tile ({}, {}) channel {}",
                    tx,
                    ty,
                    c
                );
            }
        }
    }
}

#[test]
fn tiles_are_uniform_at_the_edge() {
    // An edge tile of a 5x5 image is extracted at the full size.
    let img = unique_image(5, 5);
    let tile = extract_tile_with_mirroring(&img, 4, 4, 4, 2);
    assert_eq!(tile.width, 8);
    assert_eq!(tile.height, 8);
}

#[test]
fn stitch_writes_the_content_region_only() {
    // A 2x-upscaled tile of content 2x2 with padding 1 is cropped and
    // placed at its grid position; everything else stays black.
    let mut output = Image::new_black(8, 8);
    let tile = unique_image(8, 8); // (2 + 2*1) * 2 = 8
    let meta = TileMetadata { x_index: 1, y_index: 0, content_width: 2, content_height: 2 };
    stitch_tile(&mut output, &tile, &meta, 2, 1, 2);
    for y in 0..8u32 {
        for x in 0..8u32 {
            for c in 0..3u32 {
                let inside = (4..8).contains(&x) && (0..4).contains(&y);
                if inside {
                    assert_eq!(
                        pixel(&output, x, y, c),
                        pixel(&tile, x - 4 + 2, y + 2, c),
                        "inside ({}, {})",
                        x,
                        y
                    );
                } else {
                    assert_eq!(pixel(&output, x, y, c), 0, "outside ({}, {})", x, y);
                }
            }
        }
    }
}

#[test]
fn stitch_coverage_every_pixel_written_once() {
    // With unique per-pixel input values and the pixel-replicating stub
    // model, the stitched output holds every input value at exactly its
    // scaled location: no gap and no double-write anywhere.
    let img = unique_image(8, 8);
    let config = TilingConfig { tile_size: 3, padding: 1, batch_size: 2 };
    let cancel = CancelFlag::new();
    let mut progress = RecordingProgressSink::new();
    let mut session = StubSession::new(2);
    let out = process_tiled(&img, config, 2, &cancel, &mut progress, &mut session)
        .expect("tiled pass failed");
    assert_eq!(out.width, 16);
    assert_eq!(out.height, 16);
    for y in 0..16u32 {
        for x in 0..16u32 {
            for c in 0..3u32 {
                assert_eq!(
                    pixel(&out, x, y, c),
                    pixel(&img, x / 2, y / 2, c),
                    "output ({}, {}) channel {}",
                    x,
                    y,
                    c
                );
            }
        }
    }
}

#[test]
fn single_tile_pass_s1() {
    // 256x256 image, 2x model, tile 256, padding 0, batch 1: one batch
    // of one tile, output 512x512.
    let img = unique_image(256, 256);
    let config = TilingConfig { tile_size: 256, padding: 0, batch_size: 1 };
    let cancel = CancelFlag::new();
    let mut progress = RecordingProgressSink::new();
    let mut session = StubSession::new(2);
    let out = process_tiled(&img, config, 2, &cancel, &mut progress, &mut session)
        .expect("tiled pass failed");
    assert_eq!(out.width, 512);
    assert_eq!(out.height, 512);
    assert_eq!(session.batches_run, 1);
    assert_eq!(progress.entries, vec![(1, 1)]);
}

#[test]
fn grid_and_batches_s2() {
    // 1000x1000 image, 4x model, tile 256, padding 32, batch 2: a 4x4
    // grid of 16 tiles in 8 batches, output 4000x4000 that equals the
    // pixel-replicated enlargement of the input.
    let img = unique_image(1000, 1000);
    let config = TilingConfig { tile_size: 256, padding: 32, batch_size: 2 };
    let cancel = CancelFlag::new();
    let mut progress = RecordingProgressSink::new();
    let mut session = StubSession::new(4);
    let out = process_tiled(&img, config, 4, &cancel, &mut progress, &mut session)
        .expect("tiled pass failed");
    assert_eq!(out.width, 4000);
    assert_eq!(out.height, 4000);
    assert_eq!(session.batches_run, 8);
    assert_eq!(progress.entries.last(), Some(&(16, 16)));
    // Spot-check the pixel-replication equivalence on a coarse grid.
    let mut y = 0;
    while y < 4000 {
        let mut x = 0;
        while x < 4000 {
            for c in 0..3u32 {
                assert_eq!(pixel(&out, x, y, c), pixel(&img, x / 4, y / 4, c));
            }
            x += 97;
        }
        y += 89;
    }
}

#[test]
fn progress_is_monotone_and_ends_complete() {
    let img = unique_image(1000, 1000);
    let config = TilingConfig { tile_size: 256, padding: 32, batch_size: 2 };
    let cancel = CancelFlag::new();
    let mut progress = RecordingProgressSink::new();
    let mut session = StubSession::new(4);
    process_tiled(&img, config, 4, &cancel, &mut progress, &mut session)
        .expect("tiled pass failed");
    let entries = &progress.entries;
    assert!(!entries.is_empty());
    for w in entries.windows(2) {
        assert!(w[0].0 <= w[1].0, "progress went backwards: {:?}", entries);
    }
    for e in entries {
        assert_eq!(e.1, 16);
    }
    assert_eq!(*entries.last().unwrap(), (16, 16));
}

#[test]
fn cancellation_after_three_batches_s6() {
    // The cancel flag is raised while the third batch runs; the pass
    // returns Cancelled before a fourth batch starts and hands back no
    // image.
    let img = unique_image(1000, 1000);
    let config = TilingConfig { tile_size: 256, padding: 32, batch_size: 2 };
    let cancel = CancelFlag::new();
    let mut progress = RecordingProgressSink::new();
    let mut session = StubSession::cancelling_after(4, 3, cancel.clone());
    let result = process_tiled(&img, config, 4, &cancel, &mut progress, &mut session);
    match result {
        Err(AppError::Cancelled) => {}
        other => panic!("expected Cancelled, got {:?}", other.map(|img| (img.width, img.height))),
    }
    assert_eq!(session.batches_run, 3);
}

#[test]
fn cancellation_before_start() {
    let img = unique_image(16, 16);
    let config = TilingConfig { tile_size: 8, padding: 1, batch_size: 1 };
    let cancel = CancelFlag::new();
    cancel.set();
    let mut progress = RecordingProgressSink::new();
    let mut session = StubSession::new(2);
    let result = process_tiled(&img, config, 2, &cancel, &mut progress, &mut session);
    assert!(matches!(result, Err(AppError::Cancelled)));
    assert_eq!(session.batches_run, 0);
    assert!(progress.entries.is_empty());
}
