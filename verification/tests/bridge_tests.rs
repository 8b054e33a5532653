use upscale_core::engine::{Dtype, LoadedModel, ModelConstraints, UpscaleConfig, UpscaleEngine};
use upscale_core::error::AppError;
use upscale_core::raster::Image;
use upscale_core::stub::{nearest_neighbor_upscale, StubSession};
use upscale_core::tiling::{
    process_tiled, BackendSession, CancelFlag, ObservedProgressSink, ObservedWarningSink,
    ProgressObserver, SessionBackend, TilingConfig, WarningObserver,
};

/// A backend supplied from outside the library, the way an embedding
/// shell would wrap its inference runtime.
struct DoublingBackend;

impl SessionBackend for DoublingBackend {
    fn run_batch(&mut self, tiles: &Vec<Image>) -> Result<Vec<Image>, AppError> {
        let mut out = Vec::new();
        for tile in tiles {
            match nearest_neighbor_upscale(tile, 2) {
                Some(up) => out.push(up),
                None => return Err(AppError::Oom("tile too large".to_string())),
            }
        }
        Ok(out)
    }

    fn run_probe(&mut self, dim: u32) -> Result<Vec<i64>, AppError> {
        Ok(vec![1, 3, (dim as i64) * 2, (dim as i64) * 2])
    }
}

/// An observer supplied from outside the library.
struct CollectingObserver {
    seen: Vec<(usize, usize)>,
}

impl ProgressObserver for CollectingObserver {
    fn observe(&mut self, processed: usize, total: usize) {
        self.seen.push((processed, total));
    }
}

struct CollectingWarnings {
    seen: Vec<String>,
}

impl WarningObserver for CollectingWarnings {
    fn observe_warning(&mut self, message: String) {
        self.seen.push(message);
    }
}

#[test]
fn engine_runs_over_an_external_backend() {
    let mut data = Vec::new();
    for i in 0..(20 * 20 * 3) {
        data.push((i % 255) as u8);
    }
    let img = Image { width: 20, height: 20, data };
    let config = TilingConfig { tile_size: 8, padding: 2, batch_size: 2 };
    let cancel = CancelFlag::new();
    let mut session = BackendSession::new(DoublingBackend);
    let mut progress = ObservedProgressSink::new(CollectingObserver { seen: Vec::new() });
    let out = process_tiled(&img, config, 2, &cancel, &mut progress, &mut session)
        .expect("tiled pass failed");
    assert_eq!((out.width, out.height), (40, 40));
    // A 3x3 grid of 9 tiles in batches of 2: the observer saw every
    // report, monotone and ending complete.
    let seen = &progress.observer.seen;
    assert_eq!(seen.len(), 5);
    assert_eq!(*seen.last().unwrap(), (9, 9));
    for w in seen.windows(2) {
        assert!(w[0].0 <= w[1].0);
    }
}

#[test]
fn warnings_reach_an_external_observer() {
    let mut data = Vec::new();
    for i in 0..(32 * 32 * 3) {
        data.push((i % 255) as u8);
    }
    let img = Image { width: 32, height: 32, data };
    let model = LoadedModel {
        scale: 2,
        filename: "m_x2.onnx".to_string(),
        recommended_tile_size: 32,
        constraints: ModelConstraints {
            input_dtype: Dtype::Fp32,
            fixed_spatial: None,
            fixed_batch: Some(1),
        },
    };
    let config = UpscaleConfig {
        model: "m_x2.onnx".to_string(),
        scale: 2,
        batch_size: Some(4),
        format: None,
        compression: None,
        prefer_npu: None,
        output_dir: None,
    };
    let cancel = CancelFlag::new();
    let mut session = StubSession::new(2);
    let mut progress = ObservedProgressSink::new(CollectingObserver { seen: Vec::new() });
    let mut warnings = ObservedWarningSink::new(CollectingWarnings { seen: Vec::new() });
    let out = UpscaleEngine::process_with_session(
        &model, &config, &img, &mut session, &mut progress, &mut warnings, &cancel,
    )
    .expect("upscale failed");
    assert_eq!((out.width, out.height), (64, 64));
    assert_eq!(warnings.observer.seen.len(), 1);
}
