use upscale_core::marshal::{
    batch_buffer_to_images, batch_tensor_to_images, images_to_batch_tensor, images_to_buffer,
    BufferPool,
};
use upscale_core::raster::Image;

fn image_from(width: u32, height: u32, data: Vec<u8>) -> Image {
    assert_eq!(data.len() as u64, 3 * width as u64 * height as u64);
    Image { width, height, data }
}

#[test]
fn planar_layout_is_exact() {
    // A 2x1 image with pixels (r0,g0,b0) = (10,20,30) and (11,21,31)
    // marshals to the planar buffer [r0,r1, g0,g1, b0,b1].
    let img = image_from(2, 1, vec![10, 20, 30, 11, 21, 31]);
    let (shape, buffer) = images_to_batch_tensor(&vec![img]).expect("marshalling failed");
    assert_eq!(shape, vec![1, 3, 1, 2]);
    assert_eq!(buffer, vec![10, 11, 20, 21, 30, 31]);
}

#[test]
fn batch_members_get_their_own_planes() {
    let a = image_from(1, 1, vec![1, 2, 3]);
    let b = image_from(1, 1, vec![4, 5, 6]);
    let (shape, buffer) = images_to_batch_tensor(&vec![a, b]).expect("marshalling failed");
    assert_eq!(shape, vec![2, 3, 1, 1]);
    assert_eq!(buffer, vec![1, 2, 3, 4, 5, 6]);
}

#[test]
fn round_trip_restores_the_batch() {
    // buffer_to_images(images_to_buffer(batch)) gives back the batch,
    // pixel for pixel.
    let a = image_from(3, 2, (0..18).collect());
    let b = image_from(3, 2, (100..118).collect());
    let batch = vec![a, b];
    let (shape, buffer) = images_to_batch_tensor(&batch).expect("marshalling failed");
    let len = buffer.len();
    let back = batch_buffer_to_images(&shape, &buffer, len).expect("unmarshalling failed");
    assert_eq!(back.len(), batch.len());
    for (orig, got) in batch.iter().zip(back.iter()) {
        assert_eq!(orig.width, got.width);
        assert_eq!(orig.height, got.height);
        assert_eq!(orig.data, got.data);
    }
}

#[test]
fn empty_batch_is_rejected() {
    let mut buffer = Vec::new();
    assert!(images_to_buffer(&Vec::new(), &mut buffer).is_err());
}

#[test]
fn mixed_dimensions_are_rejected() {
    let a = image_from(2, 1, vec![0; 6]);
    let b = image_from(1, 2, vec![0; 6]);
    assert!(images_to_batch_tensor(&vec![a, b]).is_err());
}

#[test]
fn bad_shapes_are_rejected() {
    let data = vec![0u8; 12];
    assert!(batch_tensor_to_images(&vec![1, 3, 2], &data).is_err());
    assert!(batch_tensor_to_images(&vec![1, 4, 2, 2], &data).is_err());
    assert!(batch_tensor_to_images(&vec![1, 3, 2, 3], &data).is_err());
    assert!(batch_tensor_to_images(&vec![1, 3, 2, 2], &data).is_ok());
}

#[test]
fn valid_length_cuts_the_buffer() {
    let mut data = vec![0u8; 12];
    data[0] = 9;
    data.extend_from_slice(&[255; 7]); // stale recycled space
    let imgs = batch_buffer_to_images(&vec![1, 3, 2, 2], &data, 12).expect("unmarshal failed");
    assert_eq!(imgs.len(), 1);
    assert_eq!(imgs[0].data[0], 9);
    assert!(batch_buffer_to_images(&vec![1, 3, 2, 2], &data, 100).is_err());
}

#[test]
fn buffer_pool_recycles() {
    let mut pool = BufferPool::new(6);
    let a = pool.acquire(16);
    assert!(a.is_empty());
    let mut b = pool.acquire(16);
    b.push(1);
    pool.release(a);
    pool.release(b);
    let c = pool.acquire(4);
    assert!(c.is_empty());
}
