use vstd::prelude::*;

use crate::error::{AppError, AppResult};
use crate::geometry::{
    content_len, lemma_grid_covers, lemma_tiles_in_bounds, mirror_coordinate, mirror_spec,
    tiles_in,
};
use crate::sysmem::{memory_preflight, system_available_memory_bytes};
use crate::raster::Image;
use core::sync::atomic::AtomicBool;
use core::sync::atomic::Ordering;
use std::sync::Arc;

verus! {

/// Shape of a tiled pass: content edge length of a tile, per-edge
/// mirror-padded overlap, and how many tiles go into one inference
/// batch.
#[derive(Clone, Copy, Debug)]
pub struct TilingConfig {
    pub tile_size: u32,
    pub padding: u32,
    pub batch_size: usize,
}

/// Per-tile record: grid position and the extent of the valid
/// (unmirrored) content, which equals `tile_size` except at the right
/// and bottom edges of the image.
#[derive(Clone, Copy, Debug)]
pub struct TileMetadata {
    pub x_index: u32,
    pub y_index: u32,
    pub content_width: u32,
    pub content_height: u32,
}

/// A job's shared cancellation flag, polled before each extracted tile
/// and before each inference batch. Nothing is known statically about
/// the value a read returns: another thread may set it at any moment.
pub struct CancelFlag {
    inner: Arc<AtomicBool>,
}

impl CancelFlag {
    /// A fresh, unset flag.
    pub fn new() -> CancelFlag {
        CancelFlag { inner: Arc::new(AtomicBool::new(false)) }
    }

    /// Requests cancellation of the job that polls this flag.
    pub fn set(&self) {
        self.inner.store(true, Ordering::Relaxed);
    }

    /// Polls the flag.
    pub fn is_set(&self) -> bool {
        self.inner.load(Ordering::Relaxed)
    }
}

impl Clone for CancelFlag {
    /// The clone shares the underlying flag with the original.
    fn clone(&self) -> CancelFlag {
        CancelFlag { inner: self.inner.clone() }
    }
}

/// One loaded model, seen by the tiling engine as something that can
/// run a forward pass. The embedding shell implements this over the
/// actual inference runtime; the engine promises in `requires` what
/// every batch it submits looks like, and assumes nothing about what
/// comes back beyond the ghost run count.
pub trait InferenceSession {
    /// How many forward passes (batches and probes) have run so far.
    spec fn runs(&self) -> nat;

    /// The probes run so far: each probe's input edge length, and the
    /// output shape the model returned when it accepted the probe.
    spec fn probed(&self) -> Seq<(u32, Option<Seq<i64>>)>;

    /// Runs one forward pass over a batch of tiles. Every tile in the
    /// batch has the same spatial dimensions.
    fn infer(&mut self, tiles: &Vec<Image>) -> (r: AppResult<Vec<Image>>)
        requires
            tiles@.len() >= 1,
            forall|i: int| 0 <= i < tiles@.len() ==> (#[trigger] tiles@[i]).wf(),
            forall|i: int|
                0 <= i < tiles@.len() ==> (#[trigger] tiles@[i]).width == tiles@[0].width
                    && tiles@[i].height == tiles@[0].height,
        ensures
            final(self).runs() == old(self).runs() + 1,
            final(self).probed() == old(self).probed(),
    ;

    /// Runs one probe pass with zeroed input of shape
    /// `[1, 3, dim, dim]`; returns the output tensor shape.
    fn probe(&mut self, dim: u32) -> (r: AppResult<Vec<i64>>)
        requires
            1 <= dim,
        ensures
            final(self).runs() == old(self).runs() + 1,
            final(self).probed() == old(self).probed().push(
                (
                    dim,
                    match r {
                        Ok(shape) => Option::Some(shape@),
                        Err(_) => Option::None,
                    },
                ),
            ),
    ;
}

/// Receiver of progress reports, as `(processed, total)` tile counts.
/// The engine may only report non-decreasing counts, so any
/// implementation sees a monotone sequence that ends at
/// `(total, total)` on success.
pub trait ProgressSink {
    /// All reports received so far.
    spec fn reported(&self) -> Seq<(int, int)>;

    /// Receives one report.
    fn report(&mut self, processed: usize, total: usize)
        requires
            1 <= total,
            processed <= total,
            old(self).reported().len() > 0 ==> old(self).reported().last().0 <= processed as int,
        ensures
            final(self).reported() == old(self).reported().push((processed as int, total as int)),
    ;
}

/// Receiver of one-shot warnings, as human-readable strings.
pub trait WarningSink {
    /// All warnings received so far.
    spec fn warnings(&self) -> Seq<Seq<char>>;

    /// Receives one warning.
    fn warn(&mut self, message: String)
        ensures
            final(self).warnings() == old(self).warnings().push(message@),
    ;
}

/// A progress sink that remembers every report it receives.
pub struct RecordingProgressSink {
    pub entries: Vec<(usize, usize)>,
}

impl RecordingProgressSink {
    /// A sink with no reports yet.
    pub fn new() -> (r: RecordingProgressSink)
        ensures
            r.reported().len() == 0,
    {
        RecordingProgressSink { entries: Vec::new() }
    }
}

impl ProgressSink for RecordingProgressSink {
    open spec fn reported(&self) -> Seq<(int, int)> {
        self.entries@.map_values(|e: (usize, usize)| (e.0 as int, e.1 as int))
    }

    fn report(&mut self, processed: usize, total: usize) {
        self.entries.push((processed, total));
        proof {
            assert(self.reported() =~= old(self).reported().push(
                (processed as int, total as int),
            ));
        }
    }
}

/// A progress sink that drops every report; used for the first pass of
/// a double upscale, whose progress is suppressed.
pub struct NullProgressSink {
    pub history: Ghost<Seq<(int, int)>>,
}

impl NullProgressSink {
    /// A sink with no reports yet.
    pub fn new() -> (r: NullProgressSink)
        ensures
            r.reported().len() == 0,
    {
        NullProgressSink { history: Ghost(Seq::empty()) }
    }
}

impl ProgressSink for NullProgressSink {
    open spec fn reported(&self) -> Seq<(int, int)> {
        self.history@
    }

    fn report(&mut self, processed: usize, total: usize) {
        proof {
            self.history@ = self.history@.push((processed as int, total as int));
        }
    }
}

/// A warning sink that remembers every warning it receives.
pub struct RecordingWarningSink {
    pub messages: Vec<String>,
}

impl RecordingWarningSink {
    /// A sink with no warnings yet.
    pub fn new() -> (r: RecordingWarningSink)
        ensures
            r.warnings().len() == 0,
    {
        RecordingWarningSink { messages: Vec::new() }
    }
}

impl WarningSink for RecordingWarningSink {
    open spec fn warnings(&self) -> Seq<Seq<char>> {
        self.messages@.map_values(|m: String| m@)
    }

    fn warn(&mut self, message: String) {
        self.messages.push(message);
        proof {
            assert(self.warnings() =~= old(self).warnings().push(
                final(self).messages@.last()@,
            ));
        }
    }
}

/// The raw forward pass an embedding shell supplies: no contract is
/// stated, and the engine validates everything that comes back. The
/// shell implements this over its inference runtime; `BackendSession`
/// lifts it into an `InferenceSession` for the engine.
pub trait SessionBackend {
    /// Runs one forward pass over a batch of equally-sized tiles.
    fn run_batch(&mut self, tiles: &Vec<Image>) -> AppResult<Vec<Image>>;

    /// Runs one probe pass with zeroed input of shape
    /// `[1, 3, dim, dim]` and returns the output tensor shape.
    fn run_probe(&mut self, dim: u32) -> AppResult<Vec<i64>>;
}

/// An inference session over a shell-supplied backend; the ghost run
/// count is kept here so the engine's bookkeeping holds whatever the
/// backend does.
pub struct BackendSession<B: SessionBackend> {
    pub backend: B,
    pub run_count: Ghost<nat>,
    pub probe_log: Ghost<Seq<(u32, Option<Seq<i64>>)>>,
}

impl<B: SessionBackend> BackendSession<B> {
    /// Wraps a backend with a fresh run count and probe log.
    pub fn new(backend: B) -> (r: BackendSession<B>)
        ensures
            r.runs() == 0,
            r.probed().len() == 0,
    {
        BackendSession { backend, run_count: Ghost(0), probe_log: Ghost(Seq::empty()) }
    }
}

impl<B: SessionBackend> InferenceSession for BackendSession<B> {
    open spec fn runs(&self) -> nat {
        self.run_count@
    }

    open spec fn probed(&self) -> Seq<(u32, Option<Seq<i64>>)> {
        self.probe_log@
    }

    fn infer(&mut self, tiles: &Vec<Image>) -> (r: AppResult<Vec<Image>>) {
        self.run_count = Ghost(self.run_count@ + 1);
        self.backend.run_batch(tiles)
    }

    fn probe(&mut self, dim: u32) -> (r: AppResult<Vec<i64>>) {
        self.run_count = Ghost(self.run_count@ + 1);
        let outcome = self.backend.run_probe(dim);
        match outcome {
            Ok(shape) => {
                self.probe_log = Ghost(self.probe_log@.push((dim, Option::Some(shape@))));
                Ok(shape)
            },
            Err(e) => {
                self.probe_log = Ghost(self.probe_log@.push((dim, Option::None)));
                Err(e)
            },
        }
    }
}

/// Receives each progress report as it happens: no contract is stated,
/// so an embedding shell can implement it and forward reports to its
/// host. `ObservedProgressSink` lifts an observer into a
/// `ProgressSink` for the engine.
pub trait ProgressObserver {
    /// Receives one `(processed, total)` report.
    fn observe(&mut self, processed: usize, total: usize);
}

/// A progress sink that records the ghost history the engine's
/// contracts speak of and hands each report on to the observer.
pub struct ObservedProgressSink<O: ProgressObserver> {
    pub observer: O,
    pub history: Ghost<Seq<(int, int)>>,
}

impl<O: ProgressObserver> ObservedProgressSink<O> {
    /// Wraps an observer with an empty report history.
    pub fn new(observer: O) -> (r: ObservedProgressSink<O>)
        ensures
            r.reported().len() == 0,
    {
        ObservedProgressSink { observer, history: Ghost(Seq::empty()) }
    }
}

impl<O: ProgressObserver> ProgressSink for ObservedProgressSink<O> {
    open spec fn reported(&self) -> Seq<(int, int)> {
        self.history@
    }

    fn report(&mut self, processed: usize, total: usize) {
        self.history = Ghost(self.history@.push((processed as int, total as int)));
        self.observer.observe(processed, total);
    }
}

/// Receives each warning as it happens: no contract is stated, so an
/// embedding shell can implement it. `ObservedWarningSink` lifts an
/// observer into a `WarningSink` for the engine.
pub trait WarningObserver {
    /// Receives one warning.
    fn observe_warning(&mut self, message: String);
}

/// A warning sink that records the ghost history the engine's
/// contracts speak of and hands each warning on to the observer.
pub struct ObservedWarningSink<O: WarningObserver> {
    pub observer: O,
    pub history: Ghost<Seq<Seq<char>>>,
}

impl<O: WarningObserver> ObservedWarningSink<O> {
    /// Wraps an observer with an empty warning history.
    pub fn new(observer: O) -> (r: ObservedWarningSink<O>)
        ensures
            r.warnings().len() == 0,
    {
        ObservedWarningSink { observer, history: Ghost(Seq::empty()) }
    }
}

impl<O: WarningObserver> WarningSink for ObservedWarningSink<O> {
    open spec fn warnings(&self) -> Seq<Seq<char>> {
        self.history@
    }

    fn warn(&mut self, message: String) {
        self.history = Ghost(self.history@.push(message@));
        self.observer.observe_warning(message);
    }
}

/// Extracts one tile of `(tile_size + 2*padding)` square pixels whose
/// top-left content pixel is `(x_start, y_start)` in the source image.
/// Every sample, the mirrored border and the filler beyond the image
/// edge included, is the source sample at the ping-pong reflection of
/// its ideal coordinate.
pub fn extract_tile_with_mirroring(
    image: &Image,
    x_start: u32,
    y_start: u32,
    tile_size: u32,
    padding: u32,
) -> (r: Image)
    requires
        image.wf(),
        image.width >= 1,
        image.height >= 1,
        tile_size >= 1,
        tile_size + 2 * padding <= u32::MAX,
        3 * (tile_size + 2 * padding) * (tile_size + 2 * padding) <= usize::MAX,
    ensures
        r.wf(),
        r.width == tile_size + 2 * padding,
        r.height == tile_size + 2 * padding,
        forall|tx: int, ty: int, c: int|
            0 <= tx < r.width && 0 <= ty < r.height && 0 <= c < 3 ==> r.pixel(tx, ty, c)
                == image.pixel(
                mirror_spec(x_start + tx - padding, image.width as int),
                mirror_spec(y_start + ty - padding, image.height as int),
                c,
            ),
{
    let total: u32 = tile_size + 2 * padding;
    let mut out = Image::new_black(total, total);
    let mut ty: u32 = 0;
    while ty < total
        invariant
            image.wf(),
            image.width >= 1,
            image.height >= 1,
            out.wf(),
            out.width == total,
            out.height == total,
            ty <= total,
            forall|tx2: int, ty2: int, c2: int|
                0 <= tx2 < total && 0 <= ty2 < ty && 0 <= c2 < 3 ==> out.pixel(tx2, ty2, c2)
                    == image.pixel(
                    mirror_spec(x_start + tx2 - padding, image.width as int),
                    mirror_spec(y_start + ty2 - padding, image.height as int),
                    c2,
                ),
        decreases total - ty,
    {
        let sy: u32 = mirror_coordinate(
            (y_start as i64) + (ty as i64) - (padding as i64),
            image.height as i64,
        );
        let mut tx: u32 = 0;
        while tx < total
            invariant
                image.wf(),
                image.width >= 1,
                image.height >= 1,
                out.wf(),
                out.width == total,
                out.height == total,
                ty < total,
                tx <= total,
                sy == mirror_spec(y_start + ty - padding, image.height as int),
                sy < image.height,
                forall|tx2: int, ty2: int, c2: int|
                    0 <= tx2 < total && 0 <= ty2 < ty && 0 <= c2 < 3 ==> out.pixel(tx2, ty2, c2)
                        == image.pixel(
                        mirror_spec(x_start + tx2 - padding, image.width as int),
                        mirror_spec(y_start + ty2 - padding, image.height as int),
                        c2,
                    ),
                forall|tx2: int, c2: int|
                    0 <= tx2 < tx && 0 <= c2 < 3 ==> out.pixel(tx2, ty as int, c2)
                        == image.pixel(
                        mirror_spec(x_start + tx2 - padding, image.width as int),
                        mirror_spec(y_start + ty - padding, image.height as int),
                        c2,
                    ),
            decreases total - tx,
        {
            let sx: u32 = mirror_coordinate(
                (x_start as i64) + (tx as i64) - (padding as i64),
                image.width as i64,
            );
            let v0 = image.get(sx, sy, 0);
            let v1 = image.get(sx, sy, 1);
            let v2 = image.get(sx, sy, 2);
            out.set(tx, ty, 0, v0);
            out.set(tx, ty, 1, v1);
            out.set(tx, ty, 2, v2);
            tx = tx + 1;
        }
        ty = ty + 1;
    }
    out
}

/// The scaled content region of the output canvas that stitching the
/// tile described by `meta` writes: the tile's content rectangle,
/// scaled and placed at its grid position.
pub open spec fn stitch_target(meta: TileMetadata, scale: int, tile_size: int, x: int, y: int) -> bool {
    &&& meta.x_index * tile_size * scale <= x < meta.x_index * tile_size * scale
        + meta.content_width * scale
    &&& meta.y_index * tile_size * scale <= y < meta.y_index * tile_size * scale
        + meta.content_height * scale
}

/// Crops the scaled content region out of one upscaled tile (skipping
/// the scaled padding ring and the mirrored filler beyond the content)
/// and writes it into the output canvas at the tile's scaled grid
/// position. Pixels outside that region keep their values.
pub fn stitch_tile(
    output: &mut Image,
    upscaled_tile: &Image,
    meta: &TileMetadata,
    scale: u32,
    padding: u32,
    tile_size: u32,
)
    requires
        old(output).wf(),
        upscaled_tile.wf(),
        scale >= 1,
        tile_size >= 1,
        upscaled_tile.width == (tile_size + 2 * padding) * scale,
        upscaled_tile.height == (tile_size + 2 * padding) * scale,
        (tile_size + 2 * padding) * scale <= u32::MAX,
        1 <= meta.content_width <= tile_size,
        1 <= meta.content_height <= tile_size,
        meta.x_index * tile_size * scale + meta.content_width * scale <= old(output).width,
        meta.y_index * tile_size * scale + meta.content_height * scale <= old(output).height,
    ensures
        final(output).wf(),
        final(output).width == old(output).width,
        final(output).height == old(output).height,
        forall|x: int, y: int, c: int|
            stitch_target(*meta, scale as int, tile_size as int, x, y) && 0 <= c < 3
                ==> #[trigger] final(output).pixel(x, y, c) == upscaled_tile.pixel(
                x - meta.x_index * tile_size * scale + padding * scale,
                y - meta.y_index * tile_size * scale + padding * scale,
                c,
            ),
        forall|x: int, y: int, c: int|
            0 <= x < old(output).width && 0 <= y < old(output).height && 0 <= c < 3
                && !stitch_target(*meta, scale as int, tile_size as int, x, y)
                ==> #[trigger] final(output).pixel(x, y, c) == old(output).pixel(x, y, c),
{
    proof {
        assert(1 * 1 <= meta.content_width * scale && 1 * 1 <= meta.content_height * scale
            && meta.x_index * tile_size <= meta.x_index * tile_size * scale
            && meta.y_index * tile_size <= meta.y_index * tile_size * scale
            && padding * scale <= (tile_size + 2 * padding) * scale
            && padding * scale + meta.content_width * scale <= (tile_size + 2 * padding) * scale
            && padding * scale + meta.content_height * scale <= (tile_size + 2 * padding) * scale
            && meta.content_width * scale <= tile_size * scale)
            by (nonlinear_arith)
            requires
                scale >= 1,
                tile_size >= 1,
                1 <= meta.content_width <= tile_size,
                1 <= meta.content_height <= tile_size,
                padding >= 0,
                meta.x_index >= 0,
                meta.y_index >= 0,
        ;
    }
    let ox: u32 = (((meta.x_index as u64) * (tile_size as u64)) * (scale as u64)) as u32;
    let oy: u32 = (((meta.y_index as u64) * (tile_size as u64)) * (scale as u64)) as u32;
    let ps: u32 = padding * scale;
    let crop_w: u32 = meta.content_width * scale;
    let crop_h: u32 = meta.content_height * scale;
    let mut dy: u32 = 0;
    while dy < crop_h
        invariant
            output.wf(),
            output.width == old(output).width,
            output.height == old(output).height,
            upscaled_tile.wf(),
            dy <= crop_h,
            ox == meta.x_index * tile_size * scale,
            oy == meta.y_index * tile_size * scale,
            ps == padding * scale,
            crop_w == meta.content_width * scale,
            crop_h == meta.content_height * scale,
            ox + crop_w <= output.width,
            oy + crop_h <= output.height,
            ps + crop_w <= upscaled_tile.width,
            ps + crop_h <= upscaled_tile.height,
            forall|x: int, y: int, c: int|
                ox <= x < ox + crop_w && oy <= y < oy + dy && 0 <= c < 3
                    ==> #[trigger] output.pixel(x, y, c) == upscaled_tile.pixel(
                    x - ox + ps,
                    y - oy + ps,
                    c,
                ),
            forall|x: int, y: int, c: int|
                0 <= x < output.width && 0 <= y < output.height && 0 <= c < 3 && !(ox <= x < ox
                    + crop_w && oy <= y < oy + crop_h)
                    ==> #[trigger] output.pixel(x, y, c) == old(output).pixel(x, y, c),
        decreases crop_h - dy,
    {
        let mut dx: u32 = 0;
        while dx < crop_w
            invariant
                output.wf(),
                output.width == old(output).width,
                output.height == old(output).height,
                upscaled_tile.wf(),
                dy < crop_h,
                dx <= crop_w,
                ox + crop_w <= output.width,
                oy + crop_h <= output.height,
                ps + crop_w <= upscaled_tile.width,
                ps + crop_h <= upscaled_tile.height,
                forall|x: int, y: int, c: int|
                    ox <= x < ox + crop_w && oy <= y < oy + dy && 0 <= c < 3
                        ==> #[trigger] output.pixel(x, y, c) == upscaled_tile.pixel(
                        x - ox + ps,
                        y - oy + ps,
                        c,
                    ),
                forall|x: int, y: int, c: int|
                    ox <= x < ox + dx && y == oy + dy && 0 <= c < 3
                        ==> #[trigger] output.pixel(x, y, c) == upscaled_tile.pixel(
                        x - ox + ps,
                        y - oy + ps,
                        c,
                    ),
                forall|x: int, y: int, c: int|
                    0 <= x < output.width && 0 <= y < output.height && 0 <= c < 3 && !(ox <= x < ox
                        + crop_w && oy <= y < oy + crop_h)
                        ==> #[trigger] output.pixel(x, y, c) == old(output).pixel(x, y, c),
            decreases crop_w - dx,
        {
            let v0 = upscaled_tile.get(ps + dx, ps + dy, 0);
            let v1 = upscaled_tile.get(ps + dx, ps + dy, 1);
            let v2 = upscaled_tile.get(ps + dx, ps + dy, 2);
            output.set(ox + dx, oy + dy, 0, v0);
            output.set(ox + dx, oy + dy, 1, v1);
            output.set(ox + dx, oy + dy, 2, v2);
            dx = dx + 1;
        }
        dy = dy + 1;
    }
}

/// Runs inference on one batch of tiles, validates what came back
/// (count and dimensions must match the batch), stitches each upscaled
/// tile into the output canvas, and reports progress once.
fn run_one_batch<S: InferenceSession, P: ProgressSink>(
    output: &mut Image,
    batch: Vec<Image>,
    metas: &Vec<TileMetadata>,
    session: &mut S,
    progress: &mut P,
    processed: usize,
    total: usize,
    scale: u32,
    padding: u32,
    tile_size: u32,
) -> (r: AppResult<()>)
    requires
        old(output).wf(),
        scale >= 1,
        tile_size >= 1,
        (tile_size + 2 * padding) * scale <= u32::MAX,
        batch@.len() == metas@.len(),
        1 <= batch@.len(),
        forall|i: int|
            0 <= i < batch@.len() ==> (#[trigger] batch@[i]).wf() && batch@[i].width == tile_size
                + 2 * padding && batch@[i].height == tile_size + 2 * padding,
        forall|i: int|
            0 <= i < metas@.len() ==> 1 <= (#[trigger] metas@[i]).content_width <= tile_size
                && 1 <= metas@[i].content_height <= tile_size
                && metas@[i].x_index * tile_size * scale + metas@[i].content_width * scale
                    <= old(output).width
                && metas@[i].y_index * tile_size * scale + metas@[i].content_height * scale
                    <= old(output).height,
        processed + metas@.len() <= total,
        total >= 1,
        old(progress).reported().len() > 0 ==> old(progress).reported().last().0
            <= processed as int,
    ensures
        final(output).wf(),
        final(output).width == old(output).width,
        final(output).height == old(output).height,
        final(session).runs() == old(session).runs() + 1,
        r is Ok ==> final(progress).reported() == old(progress).reported().push(
            ((processed + metas@.len()) as int, total as int),
        ),
        r is Err ==> final(progress).reported() == old(progress).reported(),
{
    let count = batch.len();
    let upscaled = match session.infer(&batch) {
        Ok(tiles) => tiles,
        Err(e) => {
            return Err(e);
        },
    };
    if upscaled.len() != count {
        return Err(AppError::Runtime(
            "inference returned a different number of tiles than it was given".to_owned(),
        ));
    }
    proof {
        assert(tile_size + 2 * padding <= (tile_size + 2 * padding) * scale
            && 3 * ((tile_size + 2 * padding) * scale) * ((tile_size + 2 * padding) * scale)
                <= 3 * 0xffff_ffffu64 * 0xffff_ffffu64) by (nonlinear_arith)
            requires
                scale >= 1,
                tile_size >= 1,
                padding >= 0,
                (tile_size + 2 * padding) * scale <= 0xffff_ffffu64,
        ;
    }
    let expected: u32 = (tile_size + 2 * padding) * scale;
    let expected_bytes: u128 = 3 * (expected as u128) * (expected as u128);
    let mut k: usize = 0;
    while k < upscaled.len()
        invariant
            upscaled@.len() == count,
            k <= count,
            expected == (tile_size + 2 * padding) * scale,
            expected_bytes == 3 * expected * expected,
            output.wf(),
            output.width == old(output).width,
            output.height == old(output).height,
            session.runs() == old(session).runs() + 1,
            progress.reported() == old(progress).reported(),
            forall|i: int|
                0 <= i < k ==> (#[trigger] upscaled@[i]).wf() && upscaled@[i].width == expected
                    && upscaled@[i].height == expected,
        decreases count - k,
    {
        let t = &upscaled[k];
        if t.width != expected || t.height != expected
            || (t.data.len() as u128) != expected_bytes {
            return Err(AppError::Runtime(
                "inference returned a tile of unexpected dimensions".to_owned(),
            ));
        }
        proof {
            assert(3 * (expected as int) * (expected as int) == (expected as int) * (expected
                as int) * 3) by (nonlinear_arith);
        }
        k = k + 1;
    }
    let mut k: usize = 0;
    while k < count
        invariant
            upscaled@.len() == count,
            metas@.len() == count,
            k <= count,
            output.wf(),
            output.width == old(output).width,
            output.height == old(output).height,
            session.runs() == old(session).runs() + 1,
            progress.reported() == old(progress).reported(),
            processed + count <= total,
            total >= 1,
            old(progress).reported().len() > 0 ==> old(progress).reported().last().0
                <= processed as int,
            scale >= 1,
            tile_size >= 1,
            expected == (tile_size + 2 * padding) * scale,
            (tile_size + 2 * padding) * scale <= u32::MAX,
            forall|i: int|
                0 <= i < count ==> (#[trigger] upscaled@[i]).wf() && upscaled@[i].width == expected
                    && upscaled@[i].height == expected,
            forall|i: int|
                0 <= i < metas@.len() ==> 1 <= (#[trigger] metas@[i]).content_width <= tile_size
                    && 1 <= metas@[i].content_height <= tile_size
                    && metas@[i].x_index * tile_size * scale + metas@[i].content_width * scale
                        <= old(output).width
                    && metas@[i].y_index * tile_size * scale + metas@[i].content_height * scale
                        <= old(output).height,
        decreases count - k,
    {
        stitch_tile(output, &upscaled[k], &metas[k], scale, padding, tile_size);
        k = k + 1;
    }
    progress.report(processed + count, total);
    Ok(())
}

/// Inference batches one tiled pass runs: the grid's tile count,
/// divided by the batch size and rounded up.
pub open spec fn pass_batches(w: int, h: int, t: int, b: int) -> int {
    tiles_in(tiles_in(w, t) * tiles_in(h, t), b)
}

/// Splits the image into a grid of `ceil(W/T) x ceil(H/T)` tiles, each
/// extracted at the full `(T + 2*padding)` square size with mirror
/// padding, runs them through the session in batches in raster order,
/// and stitches the upscaled content regions into the output canvas.
///
/// The cancel flag is polled before each extracted tile and before
/// each batch; when it is set the pass returns `Cancelled`. Before the
/// canvas is allocated the available memory is checked against the
/// canvas size plus headroom; a shortfall returns `Oom`. Progress is
/// reported once per batch as `(processed, total)` tile counts: the
/// counts are non-decreasing and reach `(total, total)` exactly when
/// the pass succeeds. When the grid is a single tile, the padding is
/// forced to zero.
pub fn process_tiled<S: InferenceSession, P: ProgressSink>(
    image: &Image,
    config: TilingConfig,
    scale: u32,
    cancel: &CancelFlag,
    progress: &mut P,
    session: &mut S,
) -> (r: AppResult<Image>)
    requires
        image.wf(),
        image.width >= 1,
        image.height >= 1,
        scale >= 1,
        config.tile_size >= 1,
        config.batch_size >= 1,
        image.width * scale <= u32::MAX,
        image.height * scale <= u32::MAX,
        3 * (image.width * scale) * (image.height * scale) <= usize::MAX,
        (config.tile_size + 2 * config.padding) * scale <= u32::MAX,
        3 * (config.tile_size + 2 * config.padding) * (config.tile_size + 2 * config.padding)
            <= usize::MAX,
        old(progress).reported().len() == 0,
    ensures
        r matches Ok(out) ==> out.wf() && out.width == image.width * scale && out.height
            == image.height * scale,
        r matches Ok(out) ==> final(progress).reported().len() >= 1
            && final(progress).reported().last() == (
            tiles_in(image.width as int, config.tile_size as int) * tiles_in(
                image.height as int,
                config.tile_size as int,
            ),
            tiles_in(image.width as int, config.tile_size as int) * tiles_in(
                image.height as int,
                config.tile_size as int,
            ),
        ),
        forall|i: int, j: int|
            0 <= i <= j < final(progress).reported().len()
                ==> (#[trigger] final(progress).reported()[i]).0
                <= (#[trigger] final(progress).reported()[j]).0,
        forall|i: int|
            0 <= i < final(progress).reported().len()
                ==> (#[trigger] final(progress).reported()[i]).1 == tiles_in(
                image.width as int,
                config.tile_size as int,
            ) * tiles_in(image.height as int, config.tile_size as int) && 1 <= final(progress).reported()[i].0,
        r is Ok ==> final(session).runs() == old(session).runs() + pass_batches(
            image.width as int,
            image.height as int,
            config.tile_size as int,
            config.batch_size as int,
        ),
        (r matches Err(e) && e is ModelIncompatible) ==> final(session).runs() >= old(
            session,
        ).runs() + 1,
{
    let w = image.width;
    let h = image.height;
    let t = config.tile_size;
    let out_w: u32 = w * scale;
    let out_h: u32 = h * scale;
    let available = system_available_memory_bytes();
    if !memory_preflight(out_w, out_h, available) {
        return Err(AppError::Oom(
            "not enough memory for the output canvas".to_owned(),
        ));
    }
    proof {
        lemma_tiles_in_bounds(w as int, t as int);
        lemma_tiles_in_bounds(h as int, t as int);
        assert(tiles_in(w as int, t as int) * tiles_in(h as int, t as int) <= (w as int) * (
        h as int) && 1 * 1 <= tiles_in(w as int, t as int) * tiles_in(h as int, t as int) && (
        w as int) * (h as int) <= 3 * ((w as int) * scale) * ((h as int) * scale))
            by (nonlinear_arith)
            requires
                1 <= tiles_in(w as int, t as int) <= w as int,
                1 <= tiles_in(h as int, t as int) <= h as int,
                scale >= 1,
                w >= 1,
                h >= 1,
        ;
    }
    let tiles_x: u32 = (((w as u64) + (t as u64) - 1) / (t as u64)) as u32;
    let tiles_y: u32 = (((h as u64) + (t as u64) - 1) / (t as u64)) as u32;
    let total: usize = ((tiles_x as u64) * (tiles_y as u64)) as usize;
    let padding: u32 = if tiles_x == 1 && tiles_y == 1 {
        0
    } else {
        config.padding
    };
    proof {
        assert((t + 2 * padding) * scale <= (t + 2 * config.padding) * scale && t + 2 * padding
            <= (t + 2 * padding) * scale && 3 * (t + 2 * padding) * (t + 2 * padding) <= 3 * (t
            + 2 * config.padding) * (t + 2 * config.padding)) by (nonlinear_arith)
            requires
                t >= 1,
                scale >= 1,
                padding == 0 || padding == config.padding,
                config.padding >= 0,
        ;
    }
    let mut output = Image::new_black(out_w, out_h);
    let mut batch: Vec<Image> = Vec::new();
    let mut metas: Vec<TileMetadata> = Vec::new();
    let mut processed: usize = 0;
    let ghost gw = w as int;
    let ghost gh = h as int;
    let ghost gt = t as int;
    let ghost gtotal = total as int;
    let mut ty: u32 = 0;
    while ty < tiles_y
        invariant
            image.wf(),
            w == image.width,
            h == image.height,
            t == config.tile_size,
            w >= 1,
            h >= 1,
            t >= 1,
            scale >= 1,
            config.batch_size >= 1,
            t + 2 * padding <= u32::MAX,
            (t + 2 * padding) * scale <= u32::MAX,
            3 * (t + 2 * padding) * (t + 2 * padding) <= usize::MAX,
            output.wf(),
            output.width == out_w,
            output.height == out_h,
            out_w == w * scale,
            out_h == h * scale,
            gw == image.width as int,
            gh == image.height as int,
            gt == config.tile_size as int,
            gtotal == total as int,
            tiles_x == tiles_in(gw, gt),
            tiles_y == tiles_in(gh, gt),
            gtotal == tiles_in(gw, gt) * tiles_in(gh, gt),
            total >= 1,
            ty <= tiles_y,
            batch@.len() == metas@.len(),
            batch@.len() < config.batch_size,
            forall|i: int|
                0 <= i < batch@.len() ==> (#[trigger] batch@[i]).wf() && batch@[i].width == t + 2
                    * padding && batch@[i].height == t + 2 * padding,
            forall|i: int|
                0 <= i < metas@.len() ==> 1 <= (#[trigger] metas@[i]).content_width <= t && 1
                    <= metas@[i].content_height <= t && metas@[i].x_index * t * scale + metas@[
                i].content_width * scale <= out_w && metas@[i].y_index * t * scale + metas@[
                i].content_height * scale <= out_h,
            processed + batch@.len() == ty * tiles_x,
            processed + batch@.len() <= total,
            processed as int % (config.batch_size as int) == 0,
            session.runs() == old(session).runs() + processed as int / (
            config.batch_size as int),
            processed == 0 ==> progress.reported().len() == 0,
            processed > 0 ==> progress.reported().len() >= 1 && progress.reported().last() == (
                processed as int,
                total as int,
            ),
            forall|i: int, j: int|
                0 <= i <= j < progress.reported().len()
                    ==> (#[trigger] progress.reported()[i]).0
                    <= (#[trigger] progress.reported()[j]).0,
            forall|i: int|
                0 <= i < progress.reported().len() ==> (#[trigger] progress.reported()[i]).1
                    == gtotal && 1 <= progress.reported()[i].0 <= gtotal,
        decreases tiles_y - ty,
    {
        let mut tx: u32 = 0;
        while tx < tiles_x
            invariant
                image.wf(),
                w == image.width,
                h == image.height,
                t == config.tile_size,
                w >= 1,
                h >= 1,
                t >= 1,
                scale >= 1,
                config.batch_size >= 1,
                t + 2 * padding <= u32::MAX,
                (t + 2 * padding) * scale <= u32::MAX,
                3 * (t + 2 * padding) * (t + 2 * padding) <= usize::MAX,
                output.wf(),
                output.width == out_w,
                output.height == out_h,
                out_w == w * scale,
                out_h == h * scale,
                gw == image.width as int,
            gh == image.height as int,
            gt == config.tile_size as int,
            gtotal == total as int,
            tiles_x == tiles_in(gw, gt),
                tiles_y == tiles_in(gh, gt),
                gtotal == tiles_in(gw, gt) * tiles_in(gh, gt),
                total >= 1,
                ty < tiles_y,
                tx <= tiles_x,
                batch@.len() == metas@.len(),
                batch@.len() < config.batch_size,
                forall|i: int|
                    0 <= i < batch@.len() ==> (#[trigger] batch@[i]).wf() && batch@[i].width == t
                        + 2 * padding && batch@[i].height == t + 2 * padding,
                forall|i: int|
                    0 <= i < metas@.len() ==> 1 <= (#[trigger] metas@[i]).content_width <= t && 1
                        <= metas@[i].content_height <= t && metas@[i].x_index * t * scale
                        + metas@[i].content_width * scale <= out_w && metas@[i].y_index * t
                        * scale + metas@[i].content_height * scale <= out_h,
                processed + batch@.len() == ty * tiles_x + tx,
                processed + batch@.len() <= total,
                processed as int % (config.batch_size as int) == 0,
                session.runs() == old(session).runs() + processed as int / (
                config.batch_size as int),
                processed == 0 ==> progress.reported().len() == 0,
                processed > 0 ==> progress.reported().len() >= 1 && progress.reported().last()
                    == (processed as int, total as int),
                forall|i: int, j: int|
                    0 <= i <= j < progress.reported().len()
                        ==> (#[trigger] progress.reported()[i]).0
                        <= (#[trigger] progress.reported()[j]).0,
                forall|i: int|
                    0 <= i < progress.reported().len() ==> (#[trigger] progress.reported()[i]).1
                        == gtotal && 1 <= progress.reported()[i].0 <= gtotal,
            decreases tiles_x - tx,
        {
            if cancel.is_set() {
                return Err(AppError::Cancelled);
            }
            proof {
                lemma_grid_covers(gw, gt, tx as int);
                lemma_grid_covers(gh, gt, ty as int);
                assert((tx as int) * gt * scale + content_len(gw, gt, tx as int) * scale <= gw
                    * scale && (ty as int) * gt * scale + content_len(gh, gt, ty as int) * scale
                    <= gh * scale && (tx as int) * gt <= gw && (ty as int) * gt <= gh)
                    by (nonlinear_arith)
                    requires
                        (tx as int) * gt + content_len(gw, gt, tx as int) <= gw,
                        (ty as int) * gt + content_len(gh, gt, ty as int) <= gh,
                        1 <= content_len(gw, gt, tx as int),
                        1 <= content_len(gh, gt, ty as int),
                        scale >= 1,
                        gt >= 1,
                ;
                assert((ty as int) * (tiles_x as int) + (tiles_x as int) <= (tiles_y as int) * (
                tiles_x as int) && (ty as int) * (tiles_x as int) + (tx as int) < gtotal)
                    by (nonlinear_arith)
                    requires
                        (ty as int) < (tiles_y as int),
                        (tx as int) < (tiles_x as int),
                        gtotal == (tiles_x as int) * (tiles_y as int),
                        tiles_x as int >= 1,
                        tiles_y as int >= 1,
                ;
            }
            let x_start: u32 = tx * t;
            let y_start: u32 = ty * t;
            let content_w: u32 = if w - x_start < t {
                w - x_start
            } else {
                t
            };
            let content_h: u32 = if h - y_start < t {
                h - y_start
            } else {
                t
            };
            let tile = extract_tile_with_mirroring(image, x_start, y_start, t, padding);
            let meta = TileMetadata {
                x_index: tx,
                y_index: ty,
                content_width: content_w,
                content_height: content_h,
            };
            batch.push(tile);
            metas.push(meta);
            if batch.len() >= config.batch_size {
                if cancel.is_set() {
                    return Err(AppError::Cancelled);
                }
                let emitted = metas.len();
                let full_batch = batch;
                match run_one_batch(
                    &mut output,
                    full_batch,
                    &metas,
                    session,
                    progress,
                    processed,
                    total,
                    scale,
                    padding,
                    t,
                ) {
                    Ok(_) => {},
                    Err(e) => {
                        proof {
                            vstd::arithmetic::div_mod::lemma_div_pos_is_pos(
                                processed as int,
                                config.batch_size as int,
                            );
                        }
                        return Err(e);
                    },
                }
                proof {
                    let b = config.batch_size as int;
                    let q = processed as int / b;
                    vstd::arithmetic::div_mod::lemma_fundamental_div_mod(processed as int, b);
                    assert((q + 1) * b + 0 == processed as int + b) by (nonlinear_arith)
                        requires
                            processed as int == b * q,
                    ;
                    vstd::arithmetic::div_mod::lemma_fundamental_div_mod_converse(
                        processed as int + b,
                        b,
                        q + 1,
                        0,
                    );
                }
                processed = processed + emitted;
                batch = Vec::new();
                metas = Vec::new();
            }
            tx = tx + 1;
        }
        proof {
            assert((ty as int + 1) * (tiles_x as int) == (ty as int) * (tiles_x as int) + (
            tiles_x as int)) by (nonlinear_arith);
        }
        ty = ty + 1;
    }
    proof {
        assert((tiles_y as int) * (tiles_x as int) == (tiles_x as int) * (tiles_y as int))
            by (nonlinear_arith);
    }
    if batch.len() > 0 {
        if cancel.is_set() {
            return Err(AppError::Cancelled);
        }
        let emitted = metas.len();
        let full_batch = batch;
        match run_one_batch(
            &mut output,
            full_batch,
            &metas,
            session,
            progress,
            processed,
            total,
            scale,
            padding,
            t,
        ) {
            Ok(_) => {},
            Err(e) => {
                proof {
                    vstd::arithmetic::div_mod::lemma_div_pos_is_pos(
                        processed as int,
                        config.batch_size as int,
                    );
                }
                return Err(e);
            },
        }
        proof {
            let b = config.batch_size as int;
            let q = processed as int / b;
            let rem = emitted as int;
            vstd::arithmetic::div_mod::lemma_fundamental_div_mod(processed as int, b);
            assert(gtotal + b - 1 == (q + 1) * b + (rem - 1) && 0 <= rem - 1 < b)
                by (nonlinear_arith)
                requires
                    processed as int == b * q,
                    gtotal == processed as int + rem,
                    1 <= rem,
                    rem < b,
            ;
            vstd::arithmetic::div_mod::lemma_fundamental_div_mod_converse(
                gtotal + b - 1,
                b,
                q + 1,
                rem - 1,
            );
        }
        processed = processed + emitted;
    } else {
        proof {
            let b = config.batch_size as int;
            let q = processed as int / b;
            vstd::arithmetic::div_mod::lemma_fundamental_div_mod(processed as int, b);
            assert(gtotal + b - 1 == q * b + (b - 1) && 0 <= b - 1 < b) by (nonlinear_arith)
                requires
                    processed as int == b * q,
                    gtotal == processed as int,
                    b >= 1,
            ;
            vstd::arithmetic::div_mod::lemma_fundamental_div_mod_converse(
                gtotal + b - 1,
                b,
                q,
                b - 1,
            );
        }
    }
    Ok(output)
}

} // verus!
