use upscale_core::gpu::{GpuInfo, GpuVendor};
use upscale_core::models::{
    is_supported_image, output_file_name, resolve_model_filename, scale_from_filename,
    ModelManifest, ModelScanner, ModelUserConfig,
};

#[test]
fn scale_comes_from_the_filename() {
    assert_eq!(scale_from_filename("fast_x2.onnx"), 2);
    assert_eq!(scale_from_filename("anime_x3_strong.onnx"), 3);
    assert_eq!(scale_from_filename("realesrgan.onnx"), 4);
}

#[test]
fn scan_file_without_override_uses_defaults() {
    let config = ModelUserConfig::new();
    let m = ModelScanner::scan_file("photo_x2.onnx", &config).expect("scan failed");
    assert_eq!(m.id, "photo_x2.onnx");
    assert_eq!(m.filename, "photo_x2.onnx");
    assert_eq!(m.name, "photo_x2");
    assert_eq!(m.scale, 2);
    assert_eq!(m.alignment, 1);
    assert_eq!(m.description, "2x Upscaling Model");
    assert_eq!(m.batch_size, None);
}

#[test]
fn scan_file_reads_alignment_from_architecture_names() {
    let config = ModelUserConfig::new();
    assert_eq!(ModelScanner::scan_file("HAT_x4.onnx", &config).unwrap().alignment, 8);
    assert_eq!(ModelScanner::scan_file("big_dat_x4.onnx", &config).unwrap().alignment, 16);
    assert_eq!(ModelScanner::scan_file("plain_x4.onnx", &config).unwrap().alignment, 1);
}

#[test]
fn scan_file_rejects_non_models() {
    let config = ModelUserConfig::new();
    assert!(ModelScanner::scan_file("notes.txt", &config).is_err());
    assert!(ModelScanner::scan_file("model.onnx.bak", &config).is_err());
}

#[test]
fn scan_file_applies_the_user_override() {
    let mut config = ModelUserConfig::new();
    config.apply_override(
        &"photo_x2.onnx".to_string(),
        "My Photo Model".to_string(),
        "tuned for photos".to_string(),
        Some(2),
    );
    let m = ModelScanner::scan_file("photo_x2.onnx", &config).expect("scan failed");
    assert_eq!(m.name, "My Photo Model");
    assert_eq!(m.description, "tuned for photos");
    assert_eq!(m.batch_size, Some(2));
    assert_eq!(m.scale, 2);
}

#[test]
fn overrides_can_be_replaced_and_removed() {
    let mut config = ModelUserConfig::new();
    let id = "a.onnx".to_string();
    config.apply_override(&id, "first".to_string(), "".to_string(), None);
    config.apply_override(&id, "second".to_string(), "".to_string(), Some(1));
    let info = config.get_override(&id).expect("override missing");
    assert_eq!(info.name, "second");
    assert_eq!(info.batch_size, Some(1));
    assert!(config.remove_override(&id));
    assert!(config.get_override(&id).is_none());
    assert!(!config.remove_override(&id));
}

#[test]
fn manifest_new_copies_its_parts() {
    let m = ModelManifest::new("id.onnx", "Name", "Desc", "id.onnx", 4, 8, Some(2));
    assert_eq!(m.id, "id.onnx");
    assert_eq!(m.name, "Name");
    assert_eq!(m.description, "Desc");
    assert_eq!(m.scale, 4);
    assert_eq!(m.alignment, 8);
    assert_eq!(m.batch_size, Some(2));
}

#[test]
fn supported_images_by_extension() {
    assert!(is_supported_image("photo.png"));
    assert!(is_supported_image("photo.JPG"));
    assert!(is_supported_image("photo.jpeg"));
    assert!(is_supported_image("photo.webp"));
    assert!(!is_supported_image("photo.gif"));
    assert!(!is_supported_image("photo"));
    // A name whose only dot is the leading one has no extension.
    assert!(!is_supported_image(".png"));
    assert!(!is_supported_image(".webp"));
    assert!(is_supported_image(".hidden.png"));
}

#[test]
fn model_filenames_are_resolved() {
    assert_eq!(resolve_model_filename("fast_x2.onnx"), "fast_x2.onnx");
    assert_eq!(resolve_model_filename("fast_x2"), "fast_x2.onnx");
}

#[test]
fn output_names_carry_the_suffix_and_extension() {
    assert_eq!(output_file_name("cat", "png", &None), "cat_upscaled.png");
    assert_eq!(
        output_file_name("cat", "png", &Some("webp".to_string())),
        "cat_upscaled.webp"
    );
}

fn gpu(total: u64, used: u64, vendor: GpuVendor) -> GpuInfo {
    GpuInfo {
        name: "test adapter".to_string(),
        vram_used_mb: used,
        vram_total_mb: total,
        vendor,
        detection_method: "test".to_string(),
        is_npu: false,
    }
}

#[test]
fn vendor_from_name_substrings() {
    assert_eq!(GpuVendor::from_name("NVIDIA GeForce RTX 4090"), GpuVendor::Nvidia);
    assert_eq!(GpuVendor::from_name("AMD Radeon RX 7900"), GpuVendor::Amd);
    assert_eq!(GpuVendor::from_name("Radeon Pro"), GpuVendor::Amd);
    assert_eq!(GpuVendor::from_name("Intel Arc A770"), GpuVendor::Intel);
    assert_eq!(GpuVendor::from_name("Apple M2 Max"), GpuVendor::Apple);
    assert_eq!(GpuVendor::from_name("Unknown Device"), GpuVendor::Unknown);
}

#[test]
fn tile_size_tiers_follow_total_memory() {
    assert_eq!(gpu(2048, 0, GpuVendor::Unknown).recommended_tile_size(), 192);
    assert_eq!(gpu(4096, 0, GpuVendor::Unknown).recommended_tile_size(), 256);
    assert_eq!(gpu(6144, 0, GpuVendor::Unknown).recommended_tile_size(), 512);
    assert_eq!(gpu(8192, 0, GpuVendor::Unknown).recommended_tile_size(), 768);
    assert_eq!(gpu(16384, 0, GpuVendor::Unknown).recommended_tile_size(), 1024);
    assert_eq!(gpu(24576, 0, GpuVendor::Unknown).recommended_tile_size(), 1536);
    // Critically low free memory forces small tiles whatever the tier.
    assert_eq!(gpu(24576, 24200, GpuVendor::Unknown).recommended_tile_size(), 256);
}

#[test]
fn batch_size_tiers_follow_available_memory() {
    assert_eq!(gpu(6144, 1, GpuVendor::Nvidia).recommended_batch_size(), 1);
    assert_eq!(gpu(12289, 1, GpuVendor::Nvidia).recommended_batch_size(), 2);
    assert_eq!(gpu(24576, 1, GpuVendor::Nvidia).recommended_batch_size(), 4);
    // Unknown usage on a known vendor assumes half the total used.
    assert_eq!(gpu(16384, 0, GpuVendor::Nvidia).recommended_batch_size(), 2);
    assert_eq!(gpu(32768, 0, GpuVendor::Nvidia).recommended_batch_size(), 4);
}

#[test]
fn sufficient_vram_subtracts_usage() {
    assert!(gpu(8192, 2048, GpuVendor::Nvidia).has_sufficient_vram(6144));
    assert!(!gpu(8192, 2048, GpuVendor::Nvidia).has_sufficient_vram(6145));
    assert!(!gpu(1024, 4096, GpuVendor::Nvidia).has_sufficient_vram(1));
}
