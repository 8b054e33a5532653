use upscale_core::raster::Image;
use upscale_core::resize::resize_image;

fn dummy_image(width: u32, height: u32) -> Image {
    let mut data = Vec::new();
    for y in 0..height {
        for x in 0..width {
            data.push((x % 255) as u8);
            data.push((y % 255) as u8);
            data.push(0);
        }
    }
    Image { width, height, data }
}

#[test]
fn test_resize_image() {
    let src = dummy_image(100, 100);
    let resized = resize_image(&src, 50, 50).expect("Failed to resize image");

    assert_eq!(resized.width, 50);
    assert_eq!(resized.height, 50);
}

#[test]
fn resize_actually_resamples() {
    // The result is a new raster of the destination size, not the
    // source buffer handed back.
    let src = dummy_image(4, 4);
    let resized = resize_image(&src, 2, 2).expect("resize failed");
    assert_eq!(resized.data.len(), 12);
    assert_ne!(resized.data, src.data);
}

#[test]
fn resize_of_constant_image_is_constant() {
    // A Catmull-Rom convolution of a constant raster is the same
    // constant: the kernel weights sum to one.
    let src = Image { width: 8, height: 8, data: vec![120; 8 * 8 * 3] };
    let resized = resize_image(&src, 3, 3).expect("resize failed");
    assert!(resized.data.iter().all(|&v| v == 120), "{:?}", resized.data);
}

#[test]
fn empty_destinations_are_rejected() {
    let src = dummy_image(4, 4);
    assert!(resize_image(&src, 0, 2).is_err());
    assert!(resize_image(&src, 2, 0).is_err());
}

#[test]
fn upscale_then_exact_downscale() {
    // The overshoot path of the orchestrator resizes W*m x H*m down to
    // exactly W*t x H*t; the resizer hits those dimensions exactly.
    let src = dummy_image(10, 6);
    let resized = resize_image(&src, 5, 3).expect("resize failed");
    assert_eq!((resized.width, resized.height), (5, 3));
}
