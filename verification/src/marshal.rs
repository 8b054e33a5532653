use vstd::prelude::*;

use crate::error::{AppError, AppResult};
use crate::raster::Image;

verus! {

/// Index of one sample inside a planar-CHW batch buffer: image `n` of
/// the batch, channel plane `c` (all red samples first, then green,
/// then blue), row `y`, column `x`.
pub open spec fn planar_idx(w: int, h: int, n: int, c: int, y: int, x: int) -> int {
    ((n * 3 + c) * h + y) * w + x
}

/// The planar-CHW layout relation between a batch of same-sized images
/// and a sample buffer: every sample of every image sits at its planar
/// index.
pub open spec fn planar_layout(images: Seq<Image>, w: int, h: int, data: Seq<u8>) -> bool {
    forall|n: int, c: int, y: int, x: int|
        0 <= n < images.len() && 0 <= c < 3 && 0 <= y < h && 0 <= x < w ==> data[#[trigger] planar_idx(
            w,
            h,
            n,
            c,
            y,
            x,
        )] == images[n].pixel(x, y, c)
}

/// Whether a batch is valid input for marshalling: nonempty, and every
/// image has the dimensions of the first.
pub open spec fn homogeneous_batch(images: Seq<Image>) -> bool {
    &&& images.len() >= 1
    &&& forall|i: int|
        0 <= i < images.len() ==> (#[trigger] images[i]).width == images[0].width
            && images[i].height == images[0].height
}

/// Converts a batch of images into one planar-CHW buffer, reusing the
/// given buffer's allocation, and returns the tensor shape
/// `[N, 3, H, W]`. Fails exactly when the batch is empty or an image's
/// dimensions differ from the first image's.
pub fn images_to_buffer(images: &Vec<Image>, buffer: &mut Vec<u8>) -> (r: AppResult<Vec<i64>>)
    requires
        forall|i: int| 0 <= i < images@.len() ==> (#[trigger] images@[i]).wf(),
        images@.len() > 0 ==> images@[0].width >= 1 && images@[0].height >= 1,
        images@.len() * 3 * images@[0].height * images@[0].width <= usize::MAX,
    ensures
        r is Ok <==> homogeneous_batch(images@),
        r matches Ok(shape) ==> shape@ == seq![
            images@.len() as i64,
            3i64,
            images@[0].height as i64,
            images@[0].width as i64,
        ] && final(buffer)@.len() == images@.len() * 3 * images@[0].height * images@[0].width
            && planar_layout(
            images@,
            images@[0].width as int,
            images@[0].height as int,
            final(buffer)@,
        ),
{
    if images.len() == 0 {
        return Err(AppError::Unknown("no images provided for batching".to_owned()));
    }
    let w: u32 = images[0].width;
    let h: u32 = images[0].height;
    let count = images.len();
    let mut i: usize = 1;
    while i < count
        invariant
            images@.len() == count,
            1 <= i <= count,
            w == images@[0].width,
            h == images@[0].height,
            forall|k: int|
                0 <= k < i ==> (#[trigger] images@[k]).width == w && images@[k].height == h,
        decreases count - i,
    {
        if images[i].width != w || images[i].height != h {
            return Err(AppError::Unknown("batch dimension mismatch".to_owned()));
        }
        i = i + 1;
    }
    buffer.clear();
    let ghost gw = w as int;
    let ghost gh = h as int;
    proof {
        assert(planar_idx(gw, gh, 0, 0, 0, 0) == 0 && planar_idx(gw, gh, count as int, 0, 0, 0)
            == count * 3 * gh * gw) by (nonlinear_arith);
    }
    let mut n: usize = 0;
    while n < count
        invariant
            images@.len() == count,
            count >= 1,
            n <= count,
            gw == w as int,
            gh == h as int,
            w >= 1,
            h >= 1,
            w == images@[0].width,
            h == images@[0].height,
            forall|k: int| 0 <= k < count ==> (#[trigger] images@[k]).wf(),
            forall|k: int|
                0 <= k < count ==> (#[trigger] images@[k]).width == w && images@[k].height == h,
            buffer@.len() == planar_idx(gw, gh, n as int, 0, 0, 0),
            forall|n2: int, c2: int, y2: int, x2: int|
                0 <= n2 < n && 0 <= c2 < 3 && 0 <= y2 < gh && 0 <= x2 < gw
                    ==> 0 <= #[trigger] planar_idx(gw, gh, n2, c2, y2, x2) < buffer@.len()
                    && buffer@[planar_idx(gw, gh, n2, c2, y2, x2)] == images@[n2].pixel(
                    x2,
                    y2,
                    c2,
                ),
        decreases count - n,
    {
        let mut c: u32 = 0;
        while c < 3
            invariant
                images@.len() == count,
                n < count,
                c <= 3,
                gw == w as int,
                gh == h as int,
                w >= 1,
                h >= 1,
                forall|k: int| 0 <= k < count ==> (#[trigger] images@[k]).wf(),
                forall|k: int|
                    0 <= k < count ==> (#[trigger] images@[k]).width == w && images@[k].height
                        == h,
                buffer@.len() == planar_idx(gw, gh, n as int, c as int, 0, 0),
                forall|n2: int, c2: int, y2: int, x2: int|
                    0 <= n2 < n && 0 <= c2 < 3 && 0 <= y2 < gh && 0 <= x2 < gw
                        ==> 0 <= #[trigger] planar_idx(gw, gh, n2, c2, y2, x2) < buffer@.len()
                        && buffer@[planar_idx(gw, gh, n2, c2, y2, x2)] == images@[n2].pixel(
                        x2,
                        y2,
                        c2,
                    ),
                forall|c2: int, y2: int, x2: int|
                    0 <= c2 < c && 0 <= y2 < gh && 0 <= x2 < gw
                        ==> 0 <= #[trigger] planar_idx(gw, gh, n as int, c2, y2, x2)
                        < buffer@.len() && buffer@[planar_idx(gw, gh, n as int, c2, y2, x2)]
                        == images@[n as int].pixel(x2, y2, c2),
            decreases 3 - c,
        {
            let mut y: u32 = 0;
            while y < h
                invariant
                    images@.len() == count,
                    n < count,
                    c < 3,
                    y <= h,
                    gw == w as int,
                    gh == h as int,
                    w >= 1,
                    h >= 1,
                    forall|k: int| 0 <= k < count ==> (#[trigger] images@[k]).wf(),
                    forall|k: int|
                        0 <= k < count ==> (#[trigger] images@[k]).width == w && images@[k].height
                            == h,
                    buffer@.len() == planar_idx(gw, gh, n as int, c as int, y as int, 0),
                    forall|n2: int, c2: int, y2: int, x2: int|
                        0 <= n2 < n && 0 <= c2 < 3 && 0 <= y2 < gh && 0 <= x2 < gw
                            ==> 0 <= #[trigger] planar_idx(gw, gh, n2, c2, y2, x2)
                            < buffer@.len() && buffer@[planar_idx(gw, gh, n2, c2, y2, x2)]
                            == images@[n2].pixel(x2, y2, c2),
                    forall|c2: int, y2: int, x2: int|
                        0 <= c2 < c && 0 <= y2 < gh && 0 <= x2 < gw
                            ==> 0 <= #[trigger] planar_idx(gw, gh, n as int, c2, y2, x2)
                            < buffer@.len() && buffer@[planar_idx(gw, gh, n as int, c2, y2, x2)]
                            == images@[n as int].pixel(x2, y2, c2),
                    forall|y2: int, x2: int|
                        0 <= y2 < y && 0 <= x2 < gw
                            ==> 0 <= #[trigger] planar_idx(gw, gh, n as int, c as int, y2, x2)
                            < buffer@.len() && buffer@[planar_idx(
                            gw,
                            gh,
                            n as int,
                            c as int,
                            y2,
                            x2,
                        )] == images@[n as int].pixel(x2, y2, c as int),
                decreases h - y,
            {
                let mut x: u32 = 0;
                while x < w
                    invariant
                        images@.len() == count,
                        n < count,
                        c < 3,
                        y < h,
                        x <= w,
                        gw == w as int,
                        gh == h as int,
                        w >= 1,
                        h >= 1,
                        forall|k: int| 0 <= k < count ==> (#[trigger] images@[k]).wf(),
                        forall|k: int|
                            0 <= k < count ==> (#[trigger] images@[k]).width == w
                                && images@[k].height == h,
                        buffer@.len() == planar_idx(gw, gh, n as int, c as int, y as int, x as int),
                        forall|n2: int, c2: int, y2: int, x2: int|
                            0 <= n2 < n && 0 <= c2 < 3 && 0 <= y2 < gh && 0 <= x2 < gw
                                ==> 0 <= #[trigger] planar_idx(gw, gh, n2, c2, y2, x2)
                                < buffer@.len() && buffer@[planar_idx(gw, gh, n2, c2, y2, x2)]
                                == images@[n2].pixel(x2, y2, c2),
                        forall|c2: int, y2: int, x2: int|
                            0 <= c2 < c && 0 <= y2 < gh && 0 <= x2 < gw
                                ==> 0 <= #[trigger] planar_idx(gw, gh, n as int, c2, y2, x2)
                                < buffer@.len() && buffer@[planar_idx(
                                gw,
                                gh,
                                n as int,
                                c2,
                                y2,
                                x2,
                            )] == images@[n as int].pixel(x2, y2, c2),
                        forall|y2: int, x2: int|
                            0 <= y2 < y && 0 <= x2 < gw
                                ==> 0 <= #[trigger] planar_idx(gw, gh, n as int, c as int, y2, x2)
                                < buffer@.len() && buffer@[planar_idx(
                                gw,
                                gh,
                                n as int,
                                c as int,
                                y2,
                                x2,
                            )] == images@[n as int].pixel(x2, y2, c as int),
                        forall|x2: int|
                            0 <= x2 < x
                                ==> 0 <= #[trigger] planar_idx(
                                gw,
                                gh,
                                n as int,
                                c as int,
                                y as int,
                                x2,
                            ) < buffer@.len() && buffer@[planar_idx(
                                gw,
                                gh,
                                n as int,
                                c as int,
                                y as int,
                                x2,
                            )] == images@[n as int].pixel(x2, y as int, c as int),
                    decreases w - x,
                {
                    let v = images[n].get(x, y, c);
                    buffer.push(v);
                    x = x + 1;
                }
                proof {
                    assert(planar_idx(gw, gh, n as int, c as int, y as int, gw) == planar_idx(
                        gw,
                        gh,
                        n as int,
                        c as int,
                        y as int + 1,
                        0,
                    )) by (nonlinear_arith);
                }
                y = y + 1;
            }
            proof {
                assert(planar_idx(gw, gh, n as int, c as int, gh, 0) == planar_idx(
                    gw,
                    gh,
                    n as int,
                    c as int + 1,
                    0,
                    0,
                )) by (nonlinear_arith);
            }
            c = c + 1;
        }
        proof {
            assert(planar_idx(gw, gh, n as int, 3, 0, 0) == planar_idx(
                gw,
                gh,
                n as int + 1,
                0,
                0,
                0,
            )) by (nonlinear_arith);
        }
        n = n + 1;
    }
    proof {
        assert(planar_idx(gw, gh, count as int, 0, 0, 0) == count * 3 * gh * gw)
            by (nonlinear_arith);
    }
    let shape: Vec<i64> = vec![count as i64, 3i64, h as i64, w as i64];
    proof {
        assert(shape@ =~= seq![count as i64, 3i64, gh as i64, gw as i64]);
    }
    Ok(shape)
}

/// Converts a batch of images into a fresh planar-CHW buffer; the
/// shape and the buffer are returned together.
pub fn images_to_batch_tensor(images: &Vec<Image>) -> (r: AppResult<(Vec<i64>, Vec<u8>)>)
    requires
        forall|i: int| 0 <= i < images@.len() ==> (#[trigger] images@[i]).wf(),
        images@.len() > 0 ==> images@[0].width >= 1 && images@[0].height >= 1,
        images@.len() * 3 * images@[0].height * images@[0].width <= usize::MAX,
    ensures
        r is Ok <==> homogeneous_batch(images@),
        r matches Ok(p) ==> p.0@ == seq![
            images@.len() as i64,
            3i64,
            images@[0].height as i64,
            images@[0].width as i64,
        ] && p.1@.len() == images@.len() * 3 * images@[0].height * images@[0].width
            && planar_layout(images@, images@[0].width as int, images@[0].height as int, p.1@),
{
    let mut buffer: Vec<u8> = Vec::new();
    let shape = images_to_buffer(images, &mut buffer)?;
    Ok((shape, buffer))
}

/// Whether a tensor shape and sample count describe a decodable batch:
/// rank 4, three channels, positive dimensions that fit a raster, and
/// exactly the right number of samples.
pub open spec fn decodable_shape(shape: Seq<i64>, data_len: int) -> bool {
    &&& shape.len() == 4
    &&& 1 <= shape[0]
    &&& shape[1] == 3
    &&& 1 <= shape[2] <= u32::MAX
    &&& 1 <= shape[3] <= u32::MAX
    &&& data_len == shape[0] * 3 * shape[2] * shape[3]
}

/// Splits one planar-CHW sample buffer back into a batch of images.
/// Fails exactly when the shape is not rank-4 `[N, 3, H, W]` with
/// positive raster-sized dimensions matching the buffer length.
pub fn batch_tensor_to_images(shape: &Vec<i64>, data: &Vec<u8>) -> (r: AppResult<Vec<Image>>)
    ensures
        r is Ok <==> decodable_shape(shape@, data@.len() as int),
        r matches Ok(imgs) ==> imgs@.len() == shape@[0] && forall|n: int|
            0 <= n < imgs@.len() ==> (#[trigger] imgs@[n]).wf() && imgs@[n].width == shape@[3]
                && imgs@[n].height == shape@[2],
        r matches Ok(imgs) ==> planar_layout(imgs@, shape@[3] as int, shape@[2] as int, data@),
{
    if shape.len() != 4 {
        return Err(AppError::Unknown("unexpected output tensor rank".to_owned()));
    }
    let n_batch = shape[0];
    let n_chan = shape[1];
    let n_h = shape[2];
    let n_w = shape[3];
    if n_batch < 1 || n_chan != 3 || n_h < 1 || n_h > u32::MAX as i64 || n_w < 1 || n_w > u32::MAX
        as i64 {
        return Err(AppError::Unknown("unexpected output tensor shape".to_owned()));
    }
    let w: u32 = n_w as u32;
    let h: u32 = n_h as u32;
    proof {
        assert(3 * (h as int) * (w as int) >= 3 * 1 * 1 && 3 * (h as int) * (w as int) <= 3
            * 0xffff_ffffu64 * 0xffff_ffffu64) by (nonlinear_arith)
            requires
                1 <= h as int <= 0xffff_ffffu64,
                1 <= w as int <= 0xffff_ffffu64,
        ;
        assert(data.len() == data@.len());
    }
    let per_image: u128 = 3 * (h as u128) * (w as u128);
    let len128: u128 = data.len() as u128;
    if len128 % per_image != 0 || len128 / per_image != (n_batch as u128) {
        proof {
            vstd::arithmetic::div_mod::lemma_fundamental_div_mod(
                data@.len() as int,
                3 * (h as int) * (w as int),
            );
            assert(data@.len() as int != n_batch * 3 * (h as int) * (w as int))
                by (nonlinear_arith)
                requires
                    data@.len() as int == (3 * (h as int) * (w as int)) * ((data@.len() as int) / (
                    3 * (h as int) * (w as int))) + (data@.len() as int) % (3 * (h as int) * (
                    w as int)),
                    3 * (h as int) * (w as int) >= 3,
                    (data@.len() as int) % (3 * (h as int) * (w as int)) != 0 || (data@.len()
                        as int) / (3 * (h as int) * (w as int)) != n_batch as int,
                    0 <= (data@.len() as int) % (3 * (h as int) * (w as int)) < 3 * (h as int) * (
                    w as int),
                    n_batch >= 1,
            ;
        }
        return Err(AppError::Unknown("batch output size mismatch".to_owned()));
    }
    proof {
        vstd::arithmetic::div_mod::lemma_fundamental_div_mod(
            data@.len() as int,
            3 * (h as int) * (w as int),
        );
        vstd::arithmetic::div_mod::lemma_mod_division_less_than_divisor(
            data@.len() as int,
            3 * (h as int) * (w as int),
        );
        assert(data@.len() as int == n_batch * 3 * (h as int) * (w as int) && (n_batch as int) * (
        3 * (h as int) * (w as int)) <= data@.len()) by (nonlinear_arith)
            requires
                data@.len() as int == (3 * (h as int) * (w as int)) * ((data@.len() as int) / (3 * (
                h as int) * (w as int))) + (data@.len() as int) % (3 * (h as int) * (w as int)),
                (data@.len() as int) % (3 * (h as int) * (w as int)) == 0,
                (data@.len() as int) / (3 * (h as int) * (w as int)) == n_batch as int,
        ;
    }
    let count: usize = (len128 / per_image) as usize;
    let ghost gw = w as int;
    let ghost gh = h as int;
    let mut imgs: Vec<Image> = Vec::new();
    let mut n: usize = 0;
    while n < count
        invariant
            count == shape@[0],
            shape@.len() == 4,
            shape@[3] == w as int,
            shape@[2] == h as int,
            gw == w as int,
            gh == h as int,
            w >= 1,
            h >= 1,
            n <= count,
            data@.len() == count * 3 * gh * gw,
            imgs@.len() == n,
            forall|k: int|
                0 <= k < n ==> (#[trigger] imgs@[k]).wf() && imgs@[k].width == w && imgs@[k].height
                    == h,
            forall|n2: int, c2: int, y2: int, x2: int|
                0 <= n2 < n && 0 <= c2 < 3 && 0 <= y2 < gh && 0 <= x2 < gw ==> data@[#[trigger] planar_idx(
                    gw,
                    gh,
                    n2,
                    c2,
                    y2,
                    x2,
                )] == imgs@[n2].pixel(x2, y2, c2),
        decreases count - n,
    {
        let img = tensor_to_image_from_dims(data, w, h, n, Ghost(count as int));
        imgs.push(img);
        n = n + 1;
    }
    Ok(imgs)
}

/// Reads image `n` of a planar-CHW buffer back into an interleaved
/// raster of the given dimensions.
fn tensor_to_image_from_dims(data: &Vec<u8>, w: u32, h: u32, n: usize, batch: Ghost<int>) -> (r:
    Image)
    requires
        w >= 1,
        h >= 1,
        n < batch@,
        data@.len() == batch@ * 3 * h * w,
    ensures
        r.wf(),
        r.width == w,
        r.height == h,
        forall|c: int, y: int, x: int|
            0 <= c < 3 && 0 <= y < h && 0 <= x < w ==> data@[#[trigger] planar_idx(
                w as int,
                h as int,
                n as int,
                c,
                y,
                x,
            )] == r.pixel(x, y, c),
{
    let ghost gw = w as int;
    let ghost gh = h as int;
    proof {
        assert((n as int * 3 + 3) * gh * gw <= batch@ * 3 * gh * gw && 0 <= n as int * 3 * gh * gw)
            by (nonlinear_arith)
            requires
                0 <= n as int,
                n as int + 1 <= batch@,
                gw >= 1,
                gh >= 1,
        ;
    }
    let mut raw: Vec<u8> = Vec::new();
    let mut y: u32 = 0;
    while y < h
        invariant
            gw == w as int,
            gh == h as int,
            w >= 1,
            h >= 1,
            y <= h,
            (n as int * 3 + 3) * gh * gw <= data@.len(),
            raw@.len() == crate::raster::sample_idx(gw, 0, y as int, 0),
            forall|y2: int, x2: int, c2: int|
                0 <= y2 < y && 0 <= x2 < gw && 0 <= c2 < 3
                    ==> 0 <= #[trigger] crate::raster::sample_idx(gw, x2, y2, c2) < raw@.len()
                    && raw@[crate::raster::sample_idx(gw, x2, y2, c2)] == data@[planar_idx(
                    gw,
                    gh,
                    n as int,
                    c2,
                    y2,
                    x2,
                )],
        decreases h - y,
    {
        let mut x: u32 = 0;
        while x < w
            invariant
                gw == w as int,
                gh == h as int,
                w >= 1,
                h >= 1,
                y < h,
                x <= w,
                (n as int * 3 + 3) * gh * gw <= data@.len(),
                raw@.len() == crate::raster::sample_idx(gw, x as int, y as int, 0),
                forall|y2: int, x2: int, c2: int|
                    0 <= y2 < y && 0 <= x2 < gw && 0 <= c2 < 3
                        ==> 0 <= #[trigger] crate::raster::sample_idx(gw, x2, y2, c2) < raw@.len()
                        && raw@[crate::raster::sample_idx(gw, x2, y2, c2)] == data@[planar_idx(
                        gw,
                        gh,
                        n as int,
                        c2,
                        y2,
                        x2,
                    )],
                forall|x2: int, c2: int|
                    0 <= x2 < x && 0 <= c2 < 3
                        ==> 0 <= #[trigger] crate::raster::sample_idx(gw, x2, y as int, c2)
                        < raw@.len() && raw@[crate::raster::sample_idx(gw, x2, y as int, c2)]
                        == data@[planar_idx(gw, gh, n as int, c2, y as int, x2)],
            decreases w - x,
        {
            proof {
                assert(forall|c2: int|
                    0 <= c2 < 3 ==> 0 <= #[trigger] planar_idx(
                        gw,
                        gh,
                        n as int,
                        c2,
                        y as int,
                        x as int,
                    ) && planar_idx(gw, gh, n as int, c2, y as int, x as int) < (n as int * 3 + 3)
                        * gh * gw) by {
                    assert forall|c2: int| 0 <= c2 < 3 implies 0 <= #[trigger] planar_idx(
                        gw,
                        gh,
                        n as int,
                        c2,
                        y as int,
                        x as int,
                    ) && planar_idx(gw, gh, n as int, c2, y as int, x as int) < (n as int * 3 + 3)
                        * gh * gw by {
                        assert(0 <= ((n as int * 3 + c2) * gh + y) * gw + x && ((n as int * 3 + c2)
                            * gh + y) * gw + x < (n as int * 3 + 3) * gh * gw)
                            by (nonlinear_arith)
                            requires
                                0 <= c2 < 3,
                                0 <= y < gh,
                                0 <= x < gw,
                                0 <= n as int,
                                gw >= 1,
                                gh >= 1,
                        ;
                    }
                }
            }
            proof {
                assert(n as int * 3 <= (n as int * 3 + 3) * gh * gw && (n as int * 3) * gh <= (
                n as int * 3 + 3) * gh * gw && (n as int * 3) * gh + y <= (n as int * 3 + 3) * gh
                    * gw && ((n as int * 3) * gh + y) * gw + x < (n as int * 3 + 3) * gh * gw && gh
                    * gw <= (n as int * 3 + 3) * gh * gw) by (nonlinear_arith)
                    requires
                        0 <= n as int,
                        0 <= y < gh,
                        0 <= x < gw,
                        gh >= 1,
                        gw >= 1,
                ;
                assert(data.len() == data@.len());
            }
            let base: usize = ((n * 3) * (h as usize) + (y as usize)) * (w as usize) + (x
                as usize);
            let plane: usize = (h as usize) * (w as usize);
            proof {
                assert(base == planar_idx(gw, gh, n as int, 0, y as int, x as int) && base + plane
                    == planar_idx(gw, gh, n as int, 1, y as int, x as int) && base + plane + plane
                    == planar_idx(gw, gh, n as int, 2, y as int, x as int)) by (nonlinear_arith)
                    requires
                        base == ((n as int * 3) * gh + y) * gw + x,
                        plane == gh * gw,
                        gw >= 1,
                        gh >= 1,
                        0 <= y < gh,
                        0 <= x < gw,
                        0 <= n as int,
                ;
                assert(data.len() == data@.len());
            }
            let v0 = data[base];
            let v1 = data[base + plane];
            let v2 = data[base + plane + plane];
            raw.push(v0);
            raw.push(v1);
            raw.push(v2);
            x = x + 1;
        }
        proof {
            assert(crate::raster::sample_idx(gw, gw, y as int, 0) == crate::raster::sample_idx(
                gw,
                0,
                y as int + 1,
                0,
            )) by (nonlinear_arith);
        }
        y = y + 1;
    }
    proof {
        assert(crate::raster::sample_idx(gw, 0, gh, 0) == 3 * gh * gw && 3 * gh * gw == 3 * gw
            * gh) by (nonlinear_arith);
    }
    let img = match Image::from_raw(w, h, raw) {
        Some(img) => img,
        None => {
            proof {
                assert(false);
            }
            Image::new_black(1, 1)
        },
    };
    img
}

/// Splits the first `valid_len` samples of a reusable buffer back into
/// a batch of images; the rest of the buffer is stale recycled space.
pub fn batch_buffer_to_images(shape: &Vec<i64>, buffer: &Vec<u8>, valid_len: usize) -> (r:
    AppResult<Vec<Image>>)
    ensures
        valid_len <= buffer@.len() ==> (r is Ok <==> decodable_shape(
            shape@,
            valid_len as int,
        )),
        valid_len > buffer@.len() ==> r is Err,
        r matches Ok(imgs) ==> imgs@.len() == shape@[0] && forall|n: int|
            0 <= n < imgs@.len() ==> (#[trigger] imgs@[n]).wf() && imgs@[n].width == shape@[3]
                && imgs@[n].height == shape@[2],
        r matches Ok(imgs) ==> planar_layout(
            imgs@,
            shape@[3] as int,
            shape@[2] as int,
            buffer@.take(valid_len as int),
        ),
{
    if valid_len > buffer.len() {
        return Err(AppError::Unknown("valid length exceeds the buffer".to_owned()));
    }
    let mut prefix: Vec<u8> = Vec::new();
    let mut i: usize = 0;
    while i < valid_len
        invariant
            valid_len <= buffer@.len(),
            i <= valid_len,
            prefix@ =~= buffer@.take(i as int),
        decreases valid_len - i,
    {
        prefix.push(buffer[i]);
        proof {
            assert(prefix@ =~= buffer@.take(i + 1));
        }
        i = i + 1;
    }
    batch_tensor_to_images(shape, &prefix)
}

/// Marshalling is lossless: if one planar buffer is in planar layout
/// with two batches of the same dimensions, the batches agree
/// pixelwise. In particular, converting a batch to a buffer and the
/// buffer back to images returns the batch unchanged.
pub proof fn lemma_marshal_round_trip(
    batch: Seq<Image>,
    out: Seq<Image>,
    w: int,
    h: int,
    data: Seq<u8>,
)
    requires
        batch.len() == out.len(),
        w >= 1,
        h >= 1,
        forall|n: int|
            0 <= n < batch.len() ==> (#[trigger] batch[n]).wf() && batch[n].width == w
                && batch[n].height == h,
        forall|n: int|
            0 <= n < out.len() ==> (#[trigger] out[n]).wf() && out[n].width == w && out[n].height
                == h,
        planar_layout(batch, w, h, data),
        planar_layout(out, w, h, data),
    ensures
        forall|n: int|
            0 <= n < batch.len() ==> (#[trigger] out[n]).width == batch[n].width && out[n].height
                == batch[n].height && out[n].data@ =~= batch[n].data@,
{
    assert forall|n: int| 0 <= n < batch.len() implies (#[trigger] out[n]).width == batch[n].width
        && out[n].height == batch[n].height && out[n].data@ =~= batch[n].data@ by {
        assert forall|x: int, y: int, c: int|
            0 <= x < batch[n].width && 0 <= y < batch[n].height && 0 <= c < 3 implies batch[
        n].pixel(x, y, c) == out[n].pixel(x, y, c) by {
            assert(data[planar_idx(w, h, n, c, y, x)] == batch[n].pixel(x, y, c));
            assert(data[planar_idx(w, h, n, c, y, x)] == out[n].pixel(x, y, c));
        }
        batch[n].lemma_pixelwise_eq(&out[n]);
    }
}

/// A pool of reusable sample buffers: released buffers keep their
/// allocations and are handed back out by `acquire`.
pub struct BufferPool {
    buffers: Vec<Vec<u8>>,
}

impl BufferPool {
    /// How many idle buffers the pool holds.
    pub closed spec fn pooled(&self) -> nat {
        self.buffers@.len()
    }

    /// An empty pool. The capacity hint sizes the pool's own stack.
    pub fn new(capacity: usize) -> (r: BufferPool)
        ensures
            r.pooled() == 0,
    {
        BufferPool { buffers: Vec::with_capacity(capacity) }
    }

    /// Hands out an empty buffer with room for `capacity` samples:
    /// a recycled one when the pool holds any, else a fresh one.
    pub fn acquire(&mut self, capacity: usize) -> (r: Vec<u8>)
        ensures
            r@.len() == 0,
            final(self).pooled() == if old(self).pooled() > 0 {
                old(self).pooled() - 1
            } else {
                0int
            },
    {
        let popped = self.buffers.pop();
        match popped {
            Some(mut buf) => {
                buf.clear();
                buf.reserve(capacity);
                buf
            },
            None => Vec::with_capacity(capacity),
        }
    }

    /// Takes a buffer back: its contents are cleared, its allocation
    /// kept for the next `acquire`.
    pub fn release(&mut self, buffer: Vec<u8>)
        ensures
            final(self).pooled() == old(self).pooled() + 1,
    {
        let mut buf = buffer;
        buf.clear();
        self.buffers.push(buf);
    }
}

} // verus!
