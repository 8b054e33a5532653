use vstd::prelude::*;

use crate::error::{AppError, AppResult};
use crate::raster::Image;
use fast_image_resize::{images, FilterType, PixelType, ResizeAlg, ResizeOptions, Resizer};

verus! {

/// The interleaved RGB8 samples that a Catmull-Rom convolution resize
/// of the given source raster to the given destination size produces.
/// The resample is a pure function of the source samples and the two
/// sizes; its kernel weights are not restated here.
pub uninterp spec fn catmull_rom_of(
    src: Seq<u8>,
    src_w: int,
    src_h: int,
    dst_w: int,
    dst_h: int,
) -> Seq<u8>;

/// Relies on fast_image_resize: `Resizer::resize` with a Catmull-Rom
/// convolution over two `U8x3` images of nonzero size resamples the
/// source into the destination buffer of exactly `3 * width * height`
/// bytes and cannot fail (its error cases are a source buffer shorter
/// than the source size, which `image.wf()` rules out, and differing
/// pixel types, while both images here are `U8x3`).
#[verifier::external_body]
fn resize_catmull_rom(image: &Image, width: u32, height: u32) -> (r: Vec<u8>)
    requires
        image.wf(),
        image.width >= 1,
        image.height >= 1,
        width >= 1,
        height >= 1,
        3 * width * height <= usize::MAX,
    ensures
        r@.len() == 3 * width * height,
        r@ == catmull_rom_of(
            image.data@,
            image.width as int,
            image.height as int,
            width as int,
            height as int,
        ),
{
    let src = images::Image::from_vec_u8(
        image.width,
        image.height,
        image.data.clone(),
        PixelType::U8x3,
    ).unwrap();
    let mut dst = images::Image::new(width, height, PixelType::U8x3);
    let options = ResizeOptions::new().resize_alg(ResizeAlg::Convolution(FilterType::CatmullRom));
    Resizer::new().resize(&src, &mut dst, &options).unwrap();
    dst.into_vec()
}

/// Resamples a raster to the given dimensions with a Catmull-Rom
/// convolution. Fails exactly when either raster would be empty or the
/// destination does not fit in memory.
pub fn resize_image(image: &Image, width: u32, height: u32) -> (r: AppResult<Image>)
    requires
        image.wf(),
    ensures
        r is Ok <==> (image.width >= 1 && image.height >= 1 && width >= 1 && height >= 1 && 3
            * width * height <= usize::MAX),
        r matches Ok(out) ==> out.wf() && out.width == width && out.height == height
            && out.data@ == catmull_rom_of(
            image.data@,
            image.width as int,
            image.height as int,
            width as int,
            height as int,
        ),
{
    proof {
        assert(0 <= (width as int) * (height as int) && (width as int) * (height as int) * 3
            <= 0xffff_ffffu64 * 0xffff_ffffu64 * 3 && (width as int) * (height as int) * 3 == 3 * (
        width as int) * (height as int)) by (nonlinear_arith)
            requires
                0 <= width <= 0xffff_ffffu64,
                0 <= height <= 0xffff_ffffu64,
        ;
    }
    if image.width == 0 || image.height == 0 || width == 0 || height == 0 {
        return Err(AppError::ImageEncode("cannot resize an empty raster".to_owned()));
    }
    if (width as u128) * (height as u128) * 3 > usize::MAX as u128 {
        return Err(AppError::Oom("resize destination does not fit in memory".to_owned()));
    }
    let data = resize_catmull_rom(image, width, height);
    Ok(Image { width, height, data })
}

} // verus!
