use vstd::prelude::*;

use crate::error::{AppError, AppResult};
use crate::geometry::{lemma_tiles_in_bounds, tiles_in};
use crate::raster::Image;
use crate::resize::resize_image;
use crate::tiling::{
    process_tiled, CancelFlag, InferenceSession, NullProgressSink, ProgressSink, TilingConfig,
    WarningSink,
};

verus! {

/// Element type of the model's input tensor.
#[derive(Clone, Copy, Debug, PartialEq, Eq, Structural)]
pub enum Dtype {
    Fp32,
    Fp16,
}

/// An execution provider the inference runtime can be asked to use.
#[derive(Clone, Copy, Debug, PartialEq, Eq, Structural)]
pub enum Provider {
    OpenVino,
    DirectMl,
    Rocm,
    Cuda,
    CoreMlAne,
    CoreMl,
    Cpu,
}

/// The platform the engine runs on; it decides the provider ranking.
#[derive(Clone, Copy, Debug, PartialEq, Eq, Structural)]
pub enum Platform {
    Windows,
    Linux,
    MacOs,
}

/// The ranked execution-provider chain for a platform: each provider
/// is tried in order and the first that commits wins, with the plain
/// CPU provider always last.
pub fn provider_chain(platform: Platform, prefer_npu: bool) -> (r: Vec<Provider>)
    ensures
        platform is Windows && prefer_npu ==> r@ == seq![
            Provider::OpenVino,
            Provider::DirectMl,
            Provider::Cpu,
        ],
        platform is Windows && !prefer_npu ==> r@ == seq![Provider::DirectMl, Provider::Cpu],
        platform is Linux ==> r@ == seq![
            Provider::Rocm,
            Provider::Cuda,
            Provider::OpenVino,
            Provider::Cpu,
        ],
        platform is MacOs && prefer_npu ==> r@ == seq![
            Provider::CoreMlAne,
            Provider::CoreMl,
            Provider::Cpu,
        ],
        platform is MacOs && !prefer_npu ==> r@ == seq![Provider::CoreMl, Provider::Cpu],
        r@.len() >= 1,
        r@.last() == Provider::Cpu,
{
    let chain: Vec<Provider> = match platform {
        Platform::Windows => {
            if prefer_npu {
                vec![Provider::OpenVino, Provider::DirectMl, Provider::Cpu]
            } else {
                vec![Provider::DirectMl, Provider::Cpu]
            }
        },
        Platform::Linux => {
            vec![Provider::Rocm, Provider::Cuda, Provider::OpenVino, Provider::Cpu]
        },
        Platform::MacOs => {
            if prefer_npu {
                vec![Provider::CoreMlAne, Provider::CoreMl, Provider::Cpu]
            } else {
                vec![Provider::CoreMl, Provider::Cpu]
            }
        },
    };
    proof {
        assert(chain@.last() == Provider::Cpu);
    }
    chain
}

/// A short label for an execution provider, for progress payloads.
pub fn provider_label(provider: Provider) -> (r: &'static str)
    ensures
        provider is OpenVino ==> r@ == "OpenVINO (NPU/Auto)"@,
        provider is DirectMl ==> r@ == "DirectML (GPU)"@,
        provider is Rocm ==> r@ == "ROCm (AMD)"@,
        provider is Cuda ==> r@ == "CUDA (NVIDIA)"@,
        provider is CoreMlAne ==> r@ == "CoreML (Neural Engine)"@,
        provider is CoreMl ==> r@ == "CoreML (NPU/GPU)"@,
        provider is Cpu ==> r@ == "CPU"@,
{
    match provider {
        Provider::OpenVino => "OpenVINO (NPU/Auto)",
        Provider::DirectMl => "DirectML (GPU)",
        Provider::Rocm => "ROCm (AMD)",
        Provider::Cuda => "CUDA (NVIDIA)",
        Provider::CoreMlAne => "CoreML (Neural Engine)",
        Provider::CoreMl => "CoreML (NPU/GPU)",
        Provider::Cpu => "CPU",
    }
}

/// How many intra-op threads to give the session: the machine's
/// available parallelism, clamped to `[1, 16]`.
pub fn intra_thread_count(available_parallelism: usize) -> (r: usize)
    ensures
        r == if available_parallelism < 1 {
            1int
        } else if available_parallelism > 16 {
            16int
        } else {
            available_parallelism as int
        },
{
    if available_parallelism < 1 {
        1
    } else if available_parallelism > 16 {
        16
    } else {
        available_parallelism
    }
}

/// Classifies a message from the inference runtime: an out-of-memory
/// condition is recognized by substring match (the runtime reports it
/// only as text), anything else stays a plain runtime error.
pub fn classify_runtime_error(message: String) -> (r: AppError)
    ensures
        r is Oom <==> (crate::strutil::contains_seq_lower(message@, "memory"@)
            || crate::strutil::contains_seq_lower(message@, "allocate"@)
            || crate::strutil::contains_seq_lower(message@, "vram"@)),
        !(r is Oom) ==> r is Runtime,
{
    let is_oom = crate::strutil::str_contains_lower(message.as_str(), "memory")
        || crate::strutil::str_contains_lower(message.as_str(), "allocate")
        || crate::strutil::str_contains_lower(message.as_str(), "vram");
    if is_oom {
        AppError::Oom(message)
    } else {
        AppError::Runtime(message)
    }
}

/// Constraints discovered from a loaded model's input signature.
#[derive(Clone, Copy, Debug)]
pub struct ModelConstraints {
    pub input_dtype: Dtype,
    pub fixed_spatial: Option<u32>,
    pub fixed_batch: Option<u32>,
}

/// What the orchestrator knows about a resolved model: its native
/// scale factor, its filename, the tile size recommended for the
/// machine, and the constraints probed from its input signature.
#[derive(Clone, Debug)]
pub struct LoadedModel {
    pub scale: u32,
    pub filename: String,
    pub recommended_tile_size: u32,
    pub constraints: ModelConstraints,
}

/// Options of one upscale request.
#[derive(Clone, Debug)]
pub struct UpscaleConfig {
    pub model: String,
    pub scale: u32,
    pub batch_size: Option<u32>,
    pub format: Option<String>,
    pub compression: Option<String>,
    pub prefer_npu: Option<bool>,
    pub output_dir: Option<String>,
}

/// Answer to a model preload request.
#[derive(Clone, Copy, Debug)]
pub struct PreloadResponse {
    pub scale: u32,
    pub batch_size: Option<u32>,
}

/// Outcome of a batch job: which inputs produced an output file, and
/// which failed with what message.
#[derive(Clone, Debug)]
pub struct BatchReport {
    pub successful: Vec<String>,
    pub failed: Vec<(String, String)>,
}

/// The requested batch size, absent treated as one, clamped to [1, 8].
pub open spec fn clamped_batch(requested: Option<u32>) -> int {
    match requested {
        Option::Some(b) => if b < 1 {
            1int
        } else if b > 8 {
            8int
        } else {
            b as int
        },
        Option::None => 1int,
    }
}

/// Whether the model's fixed batch of one forces the requested batch
/// size down, which is worth a warning.
pub open spec fn batch_override_needed(requested: Option<u32>, fixed_batch: Option<u32>) -> bool {
    fixed_batch == Option::Some(1u32) && clamped_batch(requested) > 1
}

/// The batch size a pass actually uses.
pub open spec fn spec_effective_batch(requested: Option<u32>, fixed_batch: Option<u32>) -> int {
    if batch_override_needed(requested, fixed_batch) {
        1int
    } else {
        clamped_batch(requested)
    }
}

/// Clamps the requested batch size to [1, 8] and coerces it to one
/// when the model's batch dimension is fixed at one; the flag says
/// whether that coercion happened (and deserves a warning).
pub fn effective_batch_size(requested: Option<u32>, fixed_batch: Option<u32>) -> (r: (u32, bool))
    ensures
        r.0 == spec_effective_batch(requested, fixed_batch),
        r.1 == batch_override_needed(requested, fixed_batch),
        1 <= r.0 <= 8,
{
    let base: u32 = match requested {
        Option::Some(b) => if b < 1 {
            1
        } else if b > 8 {
            8
        } else {
            b
        },
        Option::None => 1,
    };
    let needs_override = match fixed_batch {
        Option::Some(fb) => fb == 1 && base > 1,
        Option::None => false,
    };
    if needs_override {
        (1, true)
    } else {
        (base, false)
    }
}

/// The tile content size a pass uses: with a fixed spatial input `S`
/// the content is `S` minus the padding on both sides, else the size
/// recommended for the machine.
pub open spec fn spec_tile_size(
    fixed_spatial: Option<u32>,
    recommended: u32,
    padding: u32,
) -> int {
    match fixed_spatial {
        Option::Some(s) => s - 2 * padding,
        Option::None => recommended as int,
    }
}

/// Picks the tile content size. Fails exactly when the model's fixed
/// spatial input is too small to hold the padding on both sides.
pub fn tile_size_for(fixed_spatial: Option<u32>, recommended: u32, padding: u32) -> (r: AppResult<
    u32,
>)
    requires
        recommended >= 1,
        padding <= 0x3fff_ffff,
    ensures
        r is Ok <==> (match fixed_spatial {
            Option::Some(s) => s > 2 * padding,
            Option::None => true,
        }),
        r matches Ok(t) ==> t == spec_tile_size(fixed_spatial, recommended, padding) && t >= 1,
        r matches Err(e) ==> e is ModelIncompatible,
{
    match fixed_spatial {
        Option::Some(s) => {
            if s <= 2 * padding {
                Err(
                    AppError::ModelIncompatible(
                        "the model's fixed input size cannot hold the padding".to_owned(),
                    ),
                )
            } else {
                Ok(s - 2 * padding)
            }
        },
        Option::None => Ok(recommended),
    }
}

/// Output edge length of a reconciled upscale: with the model's scale
/// `m` equal to the target `t` one pass of `m`; with `m > t` a pass of
/// `m` then a downscale to exactly `t`; with `m < t` two passes of `m`.
pub open spec fn expected_output_dim(dim: int, m: int, t: int) -> int {
    if m == t {
        dim * m
    } else if m > t {
        dim * t
    } else {
        dim * m * m
    }
}

/// The upscale pipeline around one loaded model.
pub struct UpscaleEngine;

impl UpscaleEngine {
    /// Upscales one image with the loaded model: resolves the batch
    /// size (warning once when the model forces it down), picks the
    /// tile size from the model's constraints, and reconciles the
    /// model's native scale with the target scale — one tiled pass
    /// when they agree, a pass plus a Catmull-Rom downscale when the
    /// model overshoots, and two passes when it undershoots (the first
    /// pass's progress is suppressed). On success the output dimensions
    /// are exactly the reconciled multiple of the input's, and the
    /// progress reports end at completion.
    pub fn process_with_session<S: InferenceSession, P: ProgressSink, W: WarningSink>(
        model: &LoadedModel,
        config: &UpscaleConfig,
        image: &Image,
        session: &mut S,
        progress: &mut P,
        warnings: &mut W,
        cancel: &CancelFlag,
    ) -> (r: AppResult<Image>)
        requires
            image.wf(),
            image.width >= 1,
            image.height >= 1,
            model.scale >= 1,
            config.scale >= 1,
            image.width * model.scale * model.scale <= u32::MAX,
            image.height * model.scale * model.scale <= u32::MAX,
            image.width * config.scale <= u32::MAX,
            image.height * config.scale <= u32::MAX,
            3 * (image.width * model.scale * model.scale) * (image.height * model.scale
                * model.scale) <= usize::MAX,
            model.recommended_tile_size >= 1,
            (spec_tile_size(model.constraints.fixed_spatial, model.recommended_tile_size, 32) + 64)
                * model.scale <= u32::MAX,
            3 * (spec_tile_size(model.constraints.fixed_spatial, model.recommended_tile_size, 32)
                + 64) * (spec_tile_size(
                model.constraints.fixed_spatial,
                model.recommended_tile_size,
                32,
            ) + 64) <= usize::MAX,
            old(progress).reported().len() == 0,
        ensures
            r matches Ok(out) ==> out.wf() && out.width == expected_output_dim(
                image.width as int,
                model.scale as int,
                config.scale as int,
            ) && out.height == expected_output_dim(
                image.height as int,
                model.scale as int,
                config.scale as int,
            ),
            batch_override_needed(config.batch_size, model.constraints.fixed_batch) ==> final(warnings).warnings() == old(warnings).warnings().push(
                "the model requires batch size 1; the requested batch size is overridden"@,
            ),
            !batch_override_needed(config.batch_size, model.constraints.fixed_batch) ==> final(warnings).warnings() == old(warnings).warnings(),
            r is Ok ==> final(progress).reported().len() >= 1 && final(progress).reported().last().0 == final(progress).reported().last().1 && final(progress).reported().last().1 >= 1,
            forall|i: int, j: int|
                0 <= i <= j < final(progress).reported().len()
                    ==> (#[trigger] final(progress).reported()[i]).0
                    <= (#[trigger] final(progress).reported()[j]).0,
            forall|i: int|
                0 <= i < final(progress).reported().len()
                    ==> 1 <= (#[trigger] final(progress).reported()[i]).0,
            (model.constraints.fixed_spatial matches Some(s) && s <= 64) <==> (r matches Err(e)
                && e is ModelIncompatible && final(session).runs() == old(session).runs()),
            r is Ok ==> final(session).runs() == old(session).runs() + (
            if model.scale >= config.scale {
                crate::tiling::pass_batches(
                    image.width as int,
                    image.height as int,
                    spec_tile_size(model.constraints.fixed_spatial, model.recommended_tile_size, 32),
                    spec_effective_batch(config.batch_size, model.constraints.fixed_batch),
                )
            } else {
                crate::tiling::pass_batches(
                    image.width as int,
                    image.height as int,
                    spec_tile_size(model.constraints.fixed_spatial, model.recommended_tile_size, 32),
                    spec_effective_batch(config.batch_size, model.constraints.fixed_batch),
                ) + crate::tiling::pass_batches(
                    image.width as int * model.scale,
                    image.height as int * model.scale,
                    spec_tile_size(model.constraints.fixed_spatial, model.recommended_tile_size, 32),
                    spec_effective_batch(config.batch_size, model.constraints.fixed_batch),
                )
            }),
    {
        let m = model.scale;
        let t = config.scale;
        let (batch_size, needs_override) = effective_batch_size(
            config.batch_size,
            model.constraints.fixed_batch,
        );
        if needs_override {
            warnings.warn(
                "the model requires batch size 1; the requested batch size is overridden".to_owned(),
            );
        }
        let padding: u32 = 32;
        let tile_size = match tile_size_for(
            model.constraints.fixed_spatial,
            model.recommended_tile_size,
            padding,
        ) {
            Ok(ts) => ts,
            Err(e) => {
                return Err(e);
            },
        };
        let tiling = TilingConfig { tile_size, padding, batch_size: batch_size as usize };
        proof {
            assert(image.width * m <= image.width * m * m && image.height * m <= image.height * m
                * m && image.width * m >= 1 && image.height * m >= 1 && 3 * (image.width * m) * (
            image.height * m) <= 3 * (image.width * m * m) * (image.height * m * m) && (
            image.width * m) * m == image.width * m * m && (image.height * m) * m == image.height
                * m * m) by (nonlinear_arith)
                requires
                    image.width >= 1,
                    image.height >= 1,
                    m >= 1,
            ;
            assert(tile_size + 2 * padding == spec_tile_size(
                model.constraints.fixed_spatial,
                model.recommended_tile_size,
                32,
            ) + 64);
        }
        if m == t {
            let out = process_tiled(image, tiling, m, cancel, progress, session);
            proof {
                if out is Ok {
                    lemma_tiles_in_bounds(image.width as int, tile_size as int);
                    lemma_tiles_in_bounds(image.height as int, tile_size as int);
                    assert(tiles_in(image.width as int, tile_size as int) * tiles_in(
                        image.height as int,
                        tile_size as int,
                    ) >= 1 * 1) by (nonlinear_arith)
                        requires
                            tiles_in(image.width as int, tile_size as int) >= 1,
                            tiles_in(image.height as int, tile_size as int) >= 1,
                    ;
                }
            }
            out
        } else if m > t {
            let upscaled = match process_tiled(image, tiling, m, cancel, progress, session) {
                Ok(img) => img,
                Err(e) => {
                    return Err(e);
                },
            };
            proof {
                lemma_tiles_in_bounds(image.width as int, tile_size as int);
                lemma_tiles_in_bounds(image.height as int, tile_size as int);
                assert(tiles_in(image.width as int, tile_size as int) * tiles_in(
                    image.height as int,
                    tile_size as int,
                ) >= 1 * 1) by (nonlinear_arith)
                    requires
                        tiles_in(image.width as int, tile_size as int) >= 1,
                        tiles_in(image.height as int, tile_size as int) >= 1,
                ;
                assert(image.width * t >= 1 * 1 && image.height * t >= 1 * 1 && 3 * (image.width
                    * t) * (image.height * t) <= 3 * (image.width * m * m) * (image.height * m
                    * m)) by (nonlinear_arith)
                    requires
                        image.width >= 1,
                        image.height >= 1,
                        1 <= t < m,
                ;
            }
            let target_w: u32 = image.width * t;
            let target_h: u32 = image.height * t;
            match resize_image(&upscaled, target_w, target_h) {
                Ok(resized) => Ok(resized),
                Err(_) => {
                    proof {
                        assert(false);
                    }
                    Err(AppError::Unknown("unreachable".to_owned()))
                },
            }
        } else {
            let mut pass1_sink = NullProgressSink::new();
            let pass1 = match process_tiled(image, tiling, m, cancel, &mut pass1_sink, session) {
                Ok(img) => img,
                Err(e) => {
                    return Err(e);
                },
            };
            let out = process_tiled(&pass1, tiling, m, cancel, progress, session);
            proof {
                if out is Ok {
                    lemma_tiles_in_bounds(pass1.width as int, tile_size as int);
                    lemma_tiles_in_bounds(pass1.height as int, tile_size as int);
                    assert(tiles_in(pass1.width as int, tile_size as int) * tiles_in(
                        pass1.height as int,
                        tile_size as int,
                    ) >= 1 * 1) by (nonlinear_arith)
                        requires
                            tiles_in(pass1.width as int, tile_size as int) >= 1,
                            tiles_in(pass1.height as int, tile_size as int) >= 1,
                    ;
                }
            }
            out
        }
    }
}

/// The scale a probe result implies: the output width over the probe's
/// input edge length. Fails exactly when the output shape has fewer
/// than four dimensions or a width outside the raster range.
pub fn scale_from_probe(shape: &Vec<i64>, input_dim: u32) -> (r: AppResult<u32>)
    requires
        input_dim >= 1,
    ensures
        r is Ok <==> (shape@.len() >= 4 && 0 <= shape@[3] <= u32::MAX),
        r matches Ok(s) ==> s == (shape@[3] as int) / (input_dim as int),
{
    if shape.len() < 4 {
        return Err(AppError::Runtime("invalid output shape from model".to_owned()));
    }
    let out_width = shape[3];
    if out_width < 0 || out_width > u32::MAX as i64 {
        return Err(AppError::Runtime("invalid output width from model".to_owned()));
    }
    Ok((out_width as u32) / input_dim)
}

/// The probe sizes scale detection tries, in order.
pub open spec fn probe_plan() -> Seq<u32> {
    seq![64u32, 256u32, 512u32]
}

/// Probes the model's native scale factor by running it on zeroed
/// input at the spatial sizes 64, then 256, then 512, stopping at the
/// first size the model accepts (models with a fixed input reject the
/// others). The scale is the output width over the accepted input
/// size; when every size is rejected, the last rejection is returned.
/// The contract pins the probe log: the sizes submitted are a prefix
/// of the plan, every probe but the last failed, and the result is
/// computed from the last probe's outcome.
pub fn detect_scale<S: InferenceSession>(session: &mut S) -> (r: AppResult<u32>)
    ensures
        old(session).probed().is_prefix_of(final(session).probed()),
        ({
            let pre = old(session).probed().len() as int;
            let log = final(session).probed();
            let n = log.len() - pre;
            &&& 1 <= n <= 3
            &&& (forall|i: int| 0 <= i < n ==> (#[trigger] log[pre + i]).0 == probe_plan()[i])
            &&& (forall|i: int| 0 <= i < n - 1 ==> (#[trigger] log[pre + i]).1 is None)
            &&& (log.last().1 is None ==> n == 3 && r is Err)
            &&& (log.last().1 matches Some(shape) ==> ((shape.len() >= 4 && 0 <= shape[3]
                <= u32::MAX) <==> r is Ok) && (r matches Ok(sc) ==> sc == (shape[3] as int) / (
            log.last().0 as int)))
        }),
        final(session).runs() == old(session).runs() + (final(session).probed().len() - old(
            session,
        ).probed().len()),
{
    let ghost pre = old(session).probed();
    match session.probe(64) {
        Ok(shape) => {
            proof {
                assert(final(session).probed() =~= pre.push((64u32, Option::Some(shape@))));
                assert(pre.is_prefix_of(final(session).probed())) by {
                    assert(final(session).probed().subrange(0, pre.len() as int) =~= pre);
                }
            }
            return scale_from_probe(&shape, 64);
        },
        Err(_) => {},
    }
    proof {
        assert(session.probed() =~= pre.push((64u32, Option::None)));
    }
    match session.probe(256) {
        Ok(shape) => {
            proof {
                assert(final(session).probed() =~= pre.push((64u32, Option::None)).push(
                    (256u32, Option::Some(shape@)),
                ));
                assert(pre.is_prefix_of(final(session).probed())) by {
                    assert(final(session).probed().subrange(0, pre.len() as int) =~= pre);
                }
            }
            return scale_from_probe(&shape, 256);
        },
        Err(_) => {},
    }
    proof {
        assert(session.probed() =~= pre.push((64u32, Option::None)).push(
            (256u32, Option::None),
        ));
    }
    let outcome = session.probe(512);
    proof {
        assert(pre.is_prefix_of(session.probed())) by {
            assert(session.probed().subrange(0, pre.len() as int) =~= pre);
        }
    }
    match outcome {
        Ok(shape) => scale_from_probe(&shape, 512),
        Err(e) => Err(e),
    }
}

/// Dimension law: wherever the reconciliation can hit the target
/// exactly — the model's scale equals or exceeds the target, or its
/// square equals the target — the output edge length is exactly the
/// target multiple of the input's. (A model that undershoots a target
/// other than its own square, such as a 2x model asked for 3x, lands
/// at its square instead; those inputs are excluded here.)
pub proof fn lemma_dimension_law(dim: int, m: int, t: int)
    requires
        dim >= 0,
        m >= 1,
        t >= 1,
        m >= t || m * m == t,
    ensures
        expected_output_dim(dim, m, t) == dim * t,
{
    if m < t {
        assert(dim * m * m == dim * (m * m)) by (nonlinear_arith);
    }
}

} // verus!
