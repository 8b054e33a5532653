use vstd::prelude::*;

use crate::error::{AppError, AppResult};
use crate::raster::Image;
use crate::tiling::{CancelFlag, InferenceSession};

verus! {

/// Enlarges a raster by pixel replication: output pixel `(x, y)` is
/// the source pixel `(x / scale, y / scale)`. `None` exactly when the
/// enlarged raster would not fit the raster range or memory.
pub fn nearest_neighbor_upscale(image: &Image, scale: u32) -> (r: Option<Image>)
    requires
        image.wf(),
        scale >= 1,
    ensures
        r is Some <==> (image.width * scale <= u32::MAX && image.height * scale <= u32::MAX && 3 * (
        image.width * scale) * (image.height * scale) <= usize::MAX),
        r matches Some(out) ==> out.wf() && out.width == image.width * scale && out.height
            == image.height * scale && forall|x: int, y: int, c: int|
            0 <= x < out.width && 0 <= y < out.height && 0 <= c < 3
                ==> #[trigger] out.pixel(x, y, c) == image.pixel(x / scale as int, y / scale as int, c),
{
    proof {
        assert(0 <= (image.width as int) * scale && 0 <= (image.height as int) * scale && (
        image.width as int) * scale <= 0xffff_ffffu64 * 0xffff_ffffu64 && (image.height as int)
            * scale <= 0xffff_ffffu64 * 0xffff_ffffu64 && 3 * ((image.width as int) * scale) * ((
        image.height as int) * scale) <= 3 * (0xffff_ffffu64 * 0xffff_ffffu64) * (0xffff_ffffu64
            * 0xffff_ffffu64)) by (nonlinear_arith)
            requires
                0 <= image.width <= 0xffff_ffffu64,
                0 <= image.height <= 0xffff_ffffu64,
                0 <= scale <= 0xffff_ffffu64,
        ;
    }
    let ow128: u128 = (image.width as u128) * (scale as u128);
    let oh128: u128 = (image.height as u128) * (scale as u128);
    if ow128 > u32::MAX as u128 || oh128 > u32::MAX as u128 {
        return Option::None;
    }
    proof {
        assert(3 * (ow128 as int) * (oh128 as int) <= 3 * 0xffff_ffffu64 * 0xffff_ffffu64)
            by (nonlinear_arith)
            requires
                0 <= ow128 as int <= 0xffff_ffffu64,
                0 <= oh128 as int <= 0xffff_ffffu64,
        ;
    }
    let bytes128: u128 = 3 * ow128 * oh128;
    if bytes128 > usize::MAX as u128 {
        return Option::None;
    }
    let out_w: u32 = ow128 as u32;
    let out_h: u32 = oh128 as u32;
    let mut out = Image::new_black(out_w, out_h);
    let mut y: u32 = 0;
    while y < out_h
        invariant
            image.wf(),
            scale >= 1,
            out.wf(),
            out.width == out_w,
            out.height == out_h,
            out_w == image.width * scale,
            out_h == image.height * scale,
            y <= out_h,
            forall|x2: int, y2: int, c2: int|
                0 <= x2 < out_w && 0 <= y2 < y && 0 <= c2 < 3 ==> #[trigger] out.pixel(x2, y2, c2)
                    == image.pixel(x2 / scale as int, y2 / scale as int, c2),
        decreases out_h - y,
    {
        let sy: u32 = y / scale;
        proof {
            assert((image.height as int) * (scale as int) == (scale as int) * (image.height
                as int)) by (nonlinear_arith);
            vstd::arithmetic::div_mod::lemma_multiply_divide_lt(
                y as int,
                scale as int,
                image.height as int,
            );
        }
        let mut x: u32 = 0;
        while x < out_w
            invariant
                image.wf(),
                scale >= 1,
                out.wf(),
                out.width == out_w,
                out.height == out_h,
                out_w == image.width * scale,
                out_h == image.height * scale,
                y < out_h,
                x <= out_w,
                sy == y as int / scale as int,
                sy < image.height,
                forall|x2: int, y2: int, c2: int|
                    0 <= x2 < out_w && 0 <= y2 < y && 0 <= c2 < 3 ==> #[trigger] out.pixel(
                        x2,
                        y2,
                        c2,
                    ) == image.pixel(x2 / scale as int, y2 / scale as int, c2),
                forall|x2: int, c2: int|
                    0 <= x2 < x && 0 <= c2 < 3 ==> #[trigger] out.pixel(x2, y as int, c2)
                        == image.pixel(x2 / scale as int, y as int / scale as int, c2),
            decreases out_w - x,
        {
            let sx: u32 = x / scale;
            proof {
                assert((image.width as int) * (scale as int) == (scale as int) * (image.width
                    as int)) by (nonlinear_arith);
                vstd::arithmetic::div_mod::lemma_multiply_divide_lt(
                    x as int,
                    scale as int,
                    image.width as int,
                );
            }
            let v0 = image.get(sx, sy, 0);
            let v1 = image.get(sx, sy, 1);
            let v2 = image.get(sx, sy, 2);
            out.set(x, y, 0, v0);
            out.set(x, y, 1, v1);
            out.set(x, y, 2, v2);
            x = x + 1;
        }
        y = y + 1;
    }
    Option::Some(out)
}

/// A reference inference session: it upscales every tile by pixel
/// replication at a fixed scale, and answers probes with the shape
/// such a model would produce. It stands in for a real model in tests
/// and demonstrations; a `fail_probes` session rejects every probe,
/// and a `cancel_after` session sets the given flag once it has run
/// that many batches, the way a user's cancel request lands mid-job.
pub struct StubSession {
    pub scale: u32,
    pub fail_probes: bool,
    pub batches_run: u64,
    pub probes_run: u64,
    pub cancel_after: Option<(u64, CancelFlag)>,
    pub run_count: Ghost<nat>,
    pub probe_log: Ghost<Seq<(u32, Option<Seq<i64>>)>>,
}

impl StubSession {
    /// A session that upscales by `scale` and accepts probes.
    pub fn new(scale: u32) -> (r: StubSession)
        requires
            scale >= 1,
        ensures
            r.scale == scale,
            r.fail_probes == false,
            r.runs() == 0,
            r.probed().len() == 0,
    {
        StubSession {
            scale,
            fail_probes: false,
            batches_run: 0,
            probes_run: 0,
            cancel_after: Option::None,
            run_count: Ghost(0),
            probe_log: Ghost(Seq::empty()),
        }
    }

    /// A session whose probes all fail, as a model with unsupported
    /// input shapes would.
    pub fn failing_probes(scale: u32) -> (r: StubSession)
        requires
            scale >= 1,
        ensures
            r.scale == scale,
            r.fail_probes == true,
            r.runs() == 0,
            r.probed().len() == 0,
    {
        StubSession {
            scale,
            fail_probes: true,
            batches_run: 0,
            probes_run: 0,
            cancel_after: Option::None,
            run_count: Ghost(0),
            probe_log: Ghost(Seq::empty()),
        }
    }

    /// A session that sets the flag after running `batches` batches.
    pub fn cancelling_after(scale: u32, batches: u64, flag: CancelFlag) -> (r: StubSession)
        requires
            scale >= 1,
        ensures
            r.scale == scale,
            r.fail_probes == false,
            r.runs() == 0,
            r.probed().len() == 0,
    {
        StubSession {
            scale,
            fail_probes: false,
            batches_run: 0,
            probes_run: 0,
            cancel_after: Option::Some((batches, flag)),
            run_count: Ghost(0),
            probe_log: Ghost(Seq::empty()),
        }
    }
}

impl InferenceSession for StubSession {
    open spec fn runs(&self) -> nat {
        self.run_count@
    }

    open spec fn probed(&self) -> Seq<(u32, Option<Seq<i64>>)> {
        self.probe_log@
    }

    fn infer(&mut self, tiles: &Vec<Image>) -> (r: AppResult<Vec<Image>>) {
        self.run_count = Ghost(self.run_count@ + 1);
        if self.batches_run < u64::MAX {
            self.batches_run = self.batches_run + 1;
        }
        let set_flag = match &self.cancel_after {
            Option::Some((threshold, _)) => self.batches_run >= *threshold,
            Option::None => false,
        };
        if set_flag {
            match &self.cancel_after {
                Option::Some((_, flag)) => flag.set(),
                Option::None => {},
            }
        }
        let mut out: Vec<Image> = Vec::new();
        let count = tiles.len();
        let mut k: usize = 0;
        while k < count
            invariant
                count == tiles@.len(),
                k <= count,
                self.run_count@ == old(self).run_count@ + 1,
                self.probe_log@ == old(self).probe_log@,
                forall|i: int| 0 <= i < count ==> (#[trigger] tiles@[i]).wf(),
            decreases count - k,
        {
            if self.scale < 1 {
                return Err(AppError::Runtime("the stub scale must be positive".to_owned()));
            }
            match nearest_neighbor_upscale(&tiles[k], self.scale) {
                Option::Some(up) => {
                    out.push(up);
                },
                Option::None => {
                    return Err(AppError::Oom("the enlarged tile does not fit".to_owned()));
                },
            }
            k = k + 1;
        }
        Ok(out)
    }

    fn probe(&mut self, dim: u32) -> (r: AppResult<Vec<i64>>) {
        self.run_count = Ghost(self.run_count@ + 1);
        if self.probes_run < u64::MAX {
            self.probes_run = self.probes_run + 1;
        }
        if self.fail_probes {
            self.probe_log = Ghost(self.probe_log@.push((dim, Option::None)));
            return Err(AppError::Runtime("the model rejected this input size".to_owned()));
        }
        proof {
            assert(0 <= (dim as int) * (self.scale as int) <= 0xffff_ffffu64 * 0xffff_ffffu64)
                by (nonlinear_arith)
                requires
                    0 <= dim <= 0xffff_ffffu64,
                    0 <= self.scale <= 0xffff_ffffu64,
            ;
        }
        let out_dim: u64 = (dim as u64) * (self.scale as u64);
        if out_dim > i64::MAX as u64 {
            self.probe_log = Ghost(self.probe_log@.push((dim, Option::None)));
            return Err(AppError::Runtime("the probe output would overflow".to_owned()));
        }
        let shape: Vec<i64> = vec![1i64, 3i64, out_dim as i64, out_dim as i64];
        self.probe_log = Ghost(self.probe_log@.push((dim, Option::Some(shape@))));
        Ok(shape)
    }
}

} // verus!
