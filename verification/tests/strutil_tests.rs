use upscale_core::error::AppError;
use upscale_core::strutil::{str_contains, str_contains_lower, str_ends_with, str_ends_with_lower};

#[test]
fn contains_is_case_sensitive() {
    assert!(str_contains("model_x2.onnx", "x2"));
    assert!(!str_contains("model_X2.onnx", "x2"));
    assert!(str_contains("abc", ""));
    assert!(!str_contains("ab", "abc"));
}

#[test]
fn contains_lower_folds_ascii_case() {
    assert!(str_contains_lower("Out Of MEMORY", "memory"));
    assert!(str_contains_lower("VRAM limit", "vram"));
    assert!(!str_contains_lower("vra m", "vram"));
}

#[test]
fn ends_with_both_cases() {
    assert!(str_ends_with("model.onnx", ".onnx"));
    assert!(!str_ends_with("model.ONNX", ".onnx"));
    assert!(str_ends_with_lower("photo.JPEG", ".jpeg"));
    assert!(!str_ends_with_lower("photo.jpg", ".jpeg"));
}

#[test]
fn error_messages_are_carried() {
    let e = AppError::Oom("vram exhausted".to_string());
    assert_eq!(e.kind_label(), "out of memory");
    assert_eq!(e.message(), "vram exhausted");
    assert_eq!(AppError::Cancelled.kind_label(), "cancelled");
    assert_eq!(AppError::Cancelled.message(), "");
    assert_eq!(AppError::NegativeCacheHit.kind_label(), "negative cache hit");
}
