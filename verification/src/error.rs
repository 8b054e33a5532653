use vstd::prelude::*;

verus! {

/// Error kinds of the upscale pipeline.
///
/// Each variant that carries a `String` holds a human-readable message;
/// the variant itself is what contracts speak about.
#[derive(Debug, Clone)]
pub enum AppError {
    /// Failure reading or writing a file.
    Io(String),
    /// The input image could not be decoded.
    ImageDecode(String),
    /// The output image could not be encoded.
    ImageEncode(String),
    /// The inference runtime reported an error.
    Runtime(String),
    /// The runtime or the preflight ran out of memory.
    Oom(String),
    /// The requested model file does not exist.
    ModelMissing(String),
    /// The model's constraints cannot be met (e.g. its fixed input is
    /// too small to hold the padding on both sides).
    ModelIncompatible(String),
    /// Scale detection for this model failed before; the failure is
    /// remembered and the probe is not retried.
    NegativeCacheHit,
    /// The job's cancel flag was set.
    Cancelled,
    /// Anything else.
    Unknown(String),
}

impl AppError {
    /// A short label for the error kind, for display by the caller.
    pub fn kind_label(&self) -> (r: &'static str)
        ensures
            r@ == self.spec_kind_label(),
    {
        match self {
            AppError::Io(_) => "io error",
            AppError::ImageDecode(_) => "image decode error",
            AppError::ImageEncode(_) => "image encode error",
            AppError::Runtime(_) => "runtime error",
            AppError::Oom(_) => "out of memory",
            AppError::ModelMissing(_) => "model missing",
            AppError::ModelIncompatible(_) => "model incompatible",
            AppError::NegativeCacheHit => "negative cache hit",
            AppError::Cancelled => "cancelled",
            AppError::Unknown(_) => "unknown error",
        }
    }

    /// The label that `kind_label` returns, as a sequence of characters.
    pub open spec fn spec_kind_label(&self) -> Seq<char> {
        match self {
            AppError::Io(_) => "io error"@,
            AppError::ImageDecode(_) => "image decode error"@,
            AppError::ImageEncode(_) => "image encode error"@,
            AppError::Runtime(_) => "runtime error"@,
            AppError::Oom(_) => "out of memory"@,
            AppError::ModelMissing(_) => "model missing"@,
            AppError::ModelIncompatible(_) => "model incompatible"@,
            AppError::NegativeCacheHit => "negative cache hit"@,
            AppError::Cancelled => "cancelled"@,
            AppError::Unknown(_) => "unknown error"@,
        }
    }

    /// The message carried by the variant, or an empty string for the
    /// variants that carry none.
    pub fn message(&self) -> (r: String)
        ensures
            r@ == self.spec_message(),
    {
        match self {
            AppError::Io(m) => m.clone(),
            AppError::ImageDecode(m) => m.clone(),
            AppError::ImageEncode(m) => m.clone(),
            AppError::Runtime(m) => m.clone(),
            AppError::Oom(m) => m.clone(),
            AppError::ModelMissing(m) => m.clone(),
            AppError::ModelIncompatible(m) => m.clone(),
            AppError::NegativeCacheHit => String::new(),
            AppError::Cancelled => String::new(),
            AppError::Unknown(m) => m.clone(),
        }
    }

    /// The message that `message` returns, as a sequence of characters.
    pub open spec fn spec_message(&self) -> Seq<char> {
        match self {
            AppError::Io(m) => m@,
            AppError::ImageDecode(m) => m@,
            AppError::ImageEncode(m) => m@,
            AppError::Runtime(m) => m@,
            AppError::Oom(m) => m@,
            AppError::ModelMissing(m) => m@,
            AppError::ModelIncompatible(m) => m@,
            AppError::NegativeCacheHit => Seq::<char>::empty(),
            AppError::Cancelled => Seq::<char>::empty(),
            AppError::Unknown(m) => m@,
        }
    }
}

/// Result alias used throughout the library.
pub type AppResult<T> = Result<T, AppError>;

} // verus!
