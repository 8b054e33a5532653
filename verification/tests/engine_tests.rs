use upscale_core::engine::{
    classify_runtime_error, detect_scale, effective_batch_size, intra_thread_count,
    provider_chain, provider_label, scale_from_probe, tile_size_for, Dtype, LoadedModel,
    ModelConstraints, Platform, Provider, UpscaleConfig, UpscaleEngine,
};
use upscale_core::error::AppError;
use upscale_core::raster::Image;
use upscale_core::stub::StubSession;
use upscale_core::tiling::{CancelFlag, RecordingProgressSink, RecordingWarningSink};

fn unique_image(width: u32, height: u32) -> Image {
    let mut data = Vec::new();
    for y in 0..height {
        for x in 0..width {
            let v = (y * width + x) * 7;
            data.push((v % 253) as u8);
            data.push(((v + 3) % 253) as u8);
            data.push(((v + 5) % 253) as u8);
        }
    }
    Image { width, height, data }
}

fn model(scale: u32, fixed_spatial: Option<u32>, fixed_batch: Option<u32>) -> LoadedModel {
    LoadedModel {
        scale,
        filename: "model.onnx".to_string(),
        recommended_tile_size: 256,
        constraints: ModelConstraints { input_dtype: Dtype::Fp32, fixed_spatial, fixed_batch },
    }
}

fn config(scale: u32, batch_size: Option<u32>) -> UpscaleConfig {
    UpscaleConfig {
        model: "model.onnx".to_string(),
        scale,
        batch_size,
        format: None,
        compression: None,
        prefer_npu: None,
        output_dir: None,
    }
}

#[test]
fn provider_chains_follow_the_platform_table() {
    assert_eq!(
        provider_chain(Platform::Windows, true),
        vec![Provider::OpenVino, Provider::DirectMl, Provider::Cpu]
    );
    assert_eq!(
        provider_chain(Platform::Windows, false),
        vec![Provider::DirectMl, Provider::Cpu]
    );
    assert_eq!(
        provider_chain(Platform::Linux, false),
        vec![Provider::Rocm, Provider::Cuda, Provider::OpenVino, Provider::Cpu]
    );
    assert_eq!(
        provider_chain(Platform::Linux, true),
        vec![Provider::Rocm, Provider::Cuda, Provider::OpenVino, Provider::Cpu]
    );
    assert_eq!(
        provider_chain(Platform::MacOs, true),
        vec![Provider::CoreMlAne, Provider::CoreMl, Provider::Cpu]
    );
    assert_eq!(
        provider_chain(Platform::MacOs, false),
        vec![Provider::CoreMl, Provider::Cpu]
    );
    assert_eq!(provider_label(Provider::Cpu), "CPU");
}

#[test]
fn intra_threads_are_clamped() {
    assert_eq!(intra_thread_count(0), 1);
    assert_eq!(intra_thread_count(1), 1);
    assert_eq!(intra_thread_count(8), 8);
    assert_eq!(intra_thread_count(16), 16);
    assert_eq!(intra_thread_count(64), 16);
}

#[test]
fn oom_is_recognized_by_substring() {
    assert!(matches!(
        classify_runtime_error("Failed to ALLOCATE buffer".to_string()),
        AppError::Oom(_)
    ));
    assert!(matches!(
        classify_runtime_error("not enough Memory on device".to_string()),
        AppError::Oom(_)
    ));
    assert!(matches!(
        classify_runtime_error("VRAM exhausted".to_string()),
        AppError::Oom(_)
    ));
    assert!(matches!(
        classify_runtime_error("shape mismatch".to_string()),
        AppError::Runtime(_)
    ));
}

#[test]
fn batch_size_is_clamped_and_overridden() {
    assert_eq!(effective_batch_size(None, None), (1, false));
    assert_eq!(effective_batch_size(Some(0), None), (1, false));
    assert_eq!(effective_batch_size(Some(4), None), (4, false));
    assert_eq!(effective_batch_size(Some(99), None), (8, false));
    assert_eq!(effective_batch_size(Some(4), Some(1)), (1, true));
    assert_eq!(effective_batch_size(Some(1), Some(1)), (1, false));
    assert_eq!(effective_batch_size(Some(4), Some(4)), (4, false));
}

#[test]
fn tile_size_honours_fixed_spatial() {
    assert_eq!(tile_size_for(None, 256, 32).unwrap(), 256);
    assert_eq!(tile_size_for(Some(320), 256, 32).unwrap(), 256);
    assert_eq!(tile_size_for(Some(128), 256, 32).unwrap(), 64);
    assert!(matches!(
        tile_size_for(Some(64), 256, 32),
        Err(AppError::ModelIncompatible(_))
    ));
    assert!(matches!(
        tile_size_for(Some(10), 256, 32),
        Err(AppError::ModelIncompatible(_))
    ));
}

#[test]
fn probe_shapes_give_the_scale() {
    assert_eq!(scale_from_probe(&vec![1, 3, 128, 128], 64).unwrap(), 2);
    assert_eq!(scale_from_probe(&vec![1, 3, 1024, 1024], 256).unwrap(), 4);
    assert!(scale_from_probe(&vec![1, 3, 128], 64).is_err());
    assert!(scale_from_probe(&vec![1, 3, 128, -1], 64).is_err());
}

#[test]
fn detect_scale_probes_the_session() {
    let mut session = StubSession::new(2);
    assert_eq!(detect_scale(&mut session).unwrap(), 2);
    assert_eq!(session.probes_run, 1);
    let mut failing = StubSession::failing_probes(2);
    assert!(detect_scale(&mut failing).is_err());
    assert_eq!(failing.probes_run, 3);
}

#[test]
fn matching_scales_run_one_pass() {
    // 64x64 image, 2x model, target 2x.
    let img = unique_image(64, 64);
    let m = model(2, None, None);
    let cfg = config(2, Some(1));
    let mut session = StubSession::new(2);
    let mut progress = RecordingProgressSink::new();
    let mut warnings = RecordingWarningSink::new();
    let cancel = CancelFlag::new();
    let out = UpscaleEngine::process_with_session(
        &m, &cfg, &img, &mut session, &mut progress, &mut warnings, &cancel,
    )
    .expect("upscale failed");
    assert_eq!((out.width, out.height), (128, 128));
    assert!(warnings.messages.is_empty());
    assert_eq!(progress.entries.last(), Some(&(1, 1)));
}

#[test]
fn batch_override_warns_once_s3() {
    // A model with fixed batch 1 and a requested batch of 4: exactly
    // one warning, sixteen batches of one tile, output 4000x4000.
    let img = unique_image(1000, 1000);
    let m = model(4, Some(320), Some(1));
    let cfg = config(4, Some(4));
    let mut session = StubSession::new(4);
    let mut progress = RecordingProgressSink::new();
    let mut warnings = RecordingWarningSink::new();
    let cancel = CancelFlag::new();
    let out = UpscaleEngine::process_with_session(
        &m, &cfg, &img, &mut session, &mut progress, &mut warnings, &cancel,
    )
    .expect("upscale failed");
    assert_eq!((out.width, out.height), (4000, 4000));
    assert_eq!(warnings.messages.len(), 1);
    assert_eq!(session.batches_run, 16);
    assert_eq!(progress.entries.last(), Some(&(16, 16)));
}

#[test]
fn overshoot_downscales_s4() {
    // 1000x1000, 4x model, target 2x: 4000x4000 internally, then a
    // Catmull-Rom resize down to 2000x2000.
    let img = unique_image(1000, 1000);
    let m = model(4, Some(320), None);
    let cfg = config(2, Some(2));
    let mut session = StubSession::new(4);
    let mut progress = RecordingProgressSink::new();
    let mut warnings = RecordingWarningSink::new();
    let cancel = CancelFlag::new();
    let out = UpscaleEngine::process_with_session(
        &m, &cfg, &img, &mut session, &mut progress, &mut warnings, &cancel,
    )
    .expect("upscale failed");
    assert_eq!((out.width, out.height), (2000, 2000));
    assert!(warnings.messages.is_empty());
}

#[test]
fn undershoot_runs_two_passes_s5() {
    // 1000x1000, 2x model, target 4x: two passes of 2x, final
    // 4000x4000; the first pass's progress is suppressed, so the sink
    // sees only the second pass, which still ends complete.
    let img = unique_image(1000, 1000);
    let m = model(2, Some(320), None);
    let cfg = config(4, Some(2));
    let mut session = StubSession::new(2);
    let mut progress = RecordingProgressSink::new();
    let mut warnings = RecordingWarningSink::new();
    let cancel = CancelFlag::new();
    let out = UpscaleEngine::process_with_session(
        &m, &cfg, &img, &mut session, &mut progress, &mut warnings, &cancel,
    )
    .expect("upscale failed");
    assert_eq!((out.width, out.height), (4000, 4000));
    let last = progress.entries.last().unwrap();
    assert_eq!(last.0, last.1);
}

#[test]
fn too_small_fixed_input_is_incompatible() {
    let img = unique_image(64, 64);
    let m = model(2, Some(64), None);
    let cfg = config(2, None);
    let mut session = StubSession::new(2);
    let mut progress = RecordingProgressSink::new();
    let mut warnings = RecordingWarningSink::new();
    let cancel = CancelFlag::new();
    let result = UpscaleEngine::process_with_session(
        &m, &cfg, &img, &mut session, &mut progress, &mut warnings, &cancel,
    );
    assert!(matches!(result, Err(AppError::ModelIncompatible(_))));
}
