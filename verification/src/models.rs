use vstd::prelude::*;
use vstd::string::{StrSliceExecFns, StringExecFns};

use crate::error::{AppError, AppResult};
use crate::strutil::{
    contains_seq, contains_seq_lower, ends_with_seq, ends_with_seq_lower, str_contains,
    str_contains_lower, str_ends_with, str_ends_with_lower,
};

verus! {

/// What the model browser shows for one discovered model file.
#[derive(Clone, Debug)]
pub struct ModelManifest {
    pub id: String,
    pub name: String,
    pub description: String,
    pub filename: String,
    pub scale: u32,
    pub alignment: u32,
    pub batch_size: Option<u32>,
}

impl ModelManifest {
    /// Builds a manifest from its parts.
    pub fn new(
        id: &str,
        name: &str,
        description: &str,
        filename: &str,
        scale: u32,
        alignment: u32,
        batch_size: Option<u32>,
    ) -> (r: ModelManifest)
        ensures
            r.id@ == id@,
            r.name@ == name@,
            r.description@ == description@,
            r.filename@ == filename@,
            r.scale == scale,
            r.alignment == alignment,
            r.batch_size == batch_size,
    {
        ModelManifest {
            id: id.to_owned(),
            name: name.to_owned(),
            description: description.to_owned(),
            filename: filename.to_owned(),
            scale,
            alignment,
            batch_size,
        }
    }
}

/// A user's edits to one model's display data.
#[derive(Clone, Debug)]
pub struct UserModelInfo {
    pub name: String,
    pub description: String,
    pub batch_size: Option<u32>,
}

impl Default for UserModelInfo {
    /// Empty name and description, no batch preference.
    fn default() -> (r: UserModelInfo)
        ensures
            r.name@.len() == 0,
            r.description@.len() == 0,
            r.batch_size is None,
    {
        UserModelInfo { name: String::new(), description: String::new(), batch_size: None }
    }
}

/// The override recorded for a key in an association list, latest
/// entry winning.
pub open spec fn find_override(
    entries: Seq<(String, UserModelInfo)>,
    key: Seq<char>,
) -> Option<UserModelInfo>
    decreases entries.len(),
{
    if entries.len() == 0 {
        Option::None
    } else if entries.last().0@ == key {
        Option::Some(entries.last().1)
    } else {
        find_override(entries.drop_last(), key)
    }
}

/// The user's per-model overrides, keyed by model id.
#[derive(Clone, Debug)]
pub struct ModelUserConfig {
    pub overrides: Vec<(String, UserModelInfo)>,
}

impl ModelUserConfig {
    /// The override recorded for a model id, if any.
    pub open spec fn override_of(&self, id: Seq<char>) -> Option<UserModelInfo> {
        find_override(self.overrides@, id)
    }

    /// A config with no overrides.
    pub fn new() -> (r: ModelUserConfig)
        ensures
            forall|k: Seq<char>| r.override_of(k) is None,
    {
        let r = ModelUserConfig { overrides: Vec::new() };
        proof {
            assert(forall|k: Seq<char>| r.override_of(k) is None) by {
                assert(r.overrides@.len() == 0);
            }
        }
        r
    }

    /// Looks up the override for a model id, latest entry winning.
    pub fn get_override(&self, id: &String) -> (r: Option<UserModelInfo>)
        ensures
            r == self.override_of(id@),
    {
        let mut i: usize = self.overrides.len();
        proof {
            assert(self.overrides@.take(i as int) =~= self.overrides@);
        }
        while i > 0
            invariant
                i <= self.overrides@.len(),
                find_override(self.overrides@, id@) == find_override(
                    self.overrides@.take(i as int),
                    id@,
                ),
            decreases i,
        {
            let entry = &self.overrides[i - 1];
            proof {
                assert(self.overrides@.take(i as int).last() == self.overrides@[i - 1]);
                assert(self.overrides@.take(i as int).drop_last() =~= self.overrides@.take(i - 1));
            }
            if entry.0 == *id {
                return Option::Some(
                    UserModelInfo {
                        name: entry.1.name.clone(),
                        description: entry.1.description.clone(),
                        batch_size: entry.1.batch_size,
                    },
                );
            }
            i = i - 1;
        }
        proof {
            assert(self.overrides@.take(0) =~= Seq::<(String, UserModelInfo)>::empty());
        }
        Option::None
    }

    /// Records an override for a model id, replacing any earlier one;
    /// overrides for other ids are untouched.
    pub fn apply_override(
        &mut self,
        id: &String,
        name: String,
        description: String,
        batch_size: Option<u32>,
    )
        ensures
            final(self).override_of(id@) matches Some(info) && info.name@ == name@
                && info.description@ == description@ && info.batch_size == batch_size,
            forall|k: Seq<char>|
                k != id@ ==> final(self).override_of(k) == old(self).override_of(k),
    {
        let ghost pre = self.overrides@;
        self.overrides.push((id.clone(), UserModelInfo { name, description, batch_size }));
        proof {
            assert(self.overrides@.drop_last() =~= pre);
        }
    }

    /// Removes the override for a model id, reporting whether one was
    /// recorded; overrides for other ids are untouched.
    pub fn remove_override(&mut self, id: &String) -> (r: bool)
        ensures
            final(self).override_of(id@) is None,
            forall|k: Seq<char>|
                k != id@ ==> final(self).override_of(k) == old(self).override_of(k),
            r == (old(self).override_of(id@) is Some),
    {
        let had = match self.get_override(id) {
            Option::Some(_) => true,
            Option::None => false,
        };
        let count = self.overrides.len();
        let mut kept: Vec<(String, UserModelInfo)> = Vec::new();
        let mut i: usize = 0;
        while i < count
            invariant
                count == self.overrides@.len(),
                i <= count,
                self.overrides@ == old(self).overrides@,
                find_override(kept@, id@) is None,
                forall|k: Seq<char>|
                    k != id@ ==> find_override(kept@, k) == find_override(
                        self.overrides@.take(i as int),
                        k,
                    ),
            decreases count - i,
        {
            let entry = &self.overrides[i];
            proof {
                assert(self.overrides@.take(i + 1).last() == self.overrides@[i as int]);
                assert(self.overrides@.take(i + 1).drop_last() =~= self.overrides@.take(i as int));
            }
            if entry.0 == *id {
                proof {
                    assert forall|k: Seq<char>| k != id@ implies find_override(kept@, k)
                        == find_override(self.overrides@.take(i + 1), k) by {
                        assert(self.overrides@.take(i + 1).last().0@ == id@);
                    }
                }
            } else {
                let ghost pre = kept@;
                kept.push(
                    (
                        entry.0.clone(),
                        UserModelInfo {
                            name: entry.1.name.clone(),
                            description: entry.1.description.clone(),
                            batch_size: entry.1.batch_size,
                        },
                    ),
                );
                proof {
                    assert(kept@.drop_last() =~= pre);
                    assert(kept@.last().0@ == self.overrides@.take(i + 1).last().0@);
                    assert forall|k: Seq<char>| k != id@ implies find_override(kept@, k)
                        == find_override(self.overrides@.take(i + 1), k) by {
                        if kept@.last().0@ == k {
                        } else {
                            assert(find_override(kept@, k) == find_override(pre, k));
                        }
                    }
                }
            }
            i = i + 1;
        }
        proof {
            assert(self.overrides@.take(count as int) =~= self.overrides@);
        }
        self.overrides = kept;
        had
    }
}

/// The scale a filename implies: the substring `x2` means 2, else `x3`
/// means 3, else 4.
pub open spec fn spec_scale_from_filename(name: Seq<char>) -> int {
    if contains_seq(name, "x2"@) {
        2
    } else if contains_seq(name, "x3"@) {
        3
    } else {
        4
    }
}

/// Infers a model's scale from its filename when probing is not
/// available: `x2` means 2, `x3` means 3, anything else defaults to 4.
pub fn scale_from_filename(filename: &str) -> (r: u32)
    ensures
        r == spec_scale_from_filename(filename@),
{
    if str_contains(filename, "x2") {
        2
    } else if str_contains(filename, "x3") {
        3
    } else {
        4
    }
}

/// The spatial alignment a filename implies: architectures named `hat`
/// want multiples of 8, `dat` multiples of 16, anything else 1.
pub open spec fn spec_alignment_from_filename(name: Seq<char>) -> int {
    if contains_seq_lower(name, "hat"@) {
        8
    } else if contains_seq_lower(name, "dat"@) {
        16
    } else {
        1
    }
}

/// Whether the file name names a file the pipeline can decode: its
/// extension (compared with ASCII case folded) is png, jpg, jpeg or
/// webp. The name must be longer than the matched suffix: a name whose
/// only dot is the leading one, such as a bare `.png`, has no
/// extension and is not an image.
pub open spec fn spec_supported_image(name: Seq<char>) -> bool {
    ||| (ends_with_seq_lower(name, ".png"@) && name.len() > ".png"@.len())
    ||| (ends_with_seq_lower(name, ".jpg"@) && name.len() > ".jpg"@.len())
    ||| (ends_with_seq_lower(name, ".jpeg"@) && name.len() > ".jpeg"@.len())
    ||| (ends_with_seq_lower(name, ".webp"@) && name.len() > ".webp"@.len())
}

/// Whether the file name (the final path component, not a whole path)
/// carries a supported raster extension.
pub fn is_supported_image(filename: &str) -> (r: bool)
    ensures
        r == spec_supported_image(filename@),
{
    proof {
        reveal_strlit(".png");
        reveal_strlit(".jpg");
        reveal_strlit(".jpeg");
        reveal_strlit(".webp");
    }
    let len = filename.unicode_len();
    (str_ends_with_lower(filename, ".png") && len > 4) || (str_ends_with_lower(filename, ".jpg")
        && len > 4) || (str_ends_with_lower(filename, ".jpeg") && len > 5) || (
    str_ends_with_lower(filename, ".webp") && len > 5)
}

/// The model filename a request resolves to: the id itself when it
/// already names an ONNX file, else the id with `.onnx` appended.
pub fn resolve_model_filename(model: &str) -> (r: String)
    ensures
        ends_with_seq(model@, ".onnx"@) ==> r@ == model@,
        !ends_with_seq(model@, ".onnx"@) ==> r@ == model@ + ".onnx"@,
{
    if str_ends_with(model, ".onnx") {
        model.to_owned()
    } else {
        let mut s = model.to_owned();
        s.append(".onnx");
        s
    }
}

/// The output filename for a source stem: `{stem}_upscaled.{ext}`,
/// with the extension from the format override when one is given, else
/// from the source.
pub fn output_file_name(stem: &str, source_ext: &str, format_override: &Option<String>) -> (r:
    String)
    ensures
        r@ == stem@ + "_upscaled."@ + (match format_override {
            Option::Some(f) => f@,
            Option::None => source_ext@,
        }),
{
    let mut s = stem.to_owned();
    s.append("_upscaled.");
    match format_override {
        Option::Some(f) => {
            s.append(f.as_str());
        },
        Option::None => {
            s.append(source_ext);
        },
    }
    s
}

/// Discovers models from filenames and the user's overrides.
pub struct ModelScanner;

impl ModelScanner {
    /// Builds the manifest for one model file: the id is the filename
    /// itself; the scale and alignment are inferred from the name; the
    /// display name, description and batch preference come from the
    /// user's override when one is recorded, else the name defaults to
    /// the filename without its extension and the description to
    /// "{scale}x Upscaling Model". Fails exactly when the filename is
    /// not an `.onnx` file.
    pub fn scan_file(filename: &str, user_config: &ModelUserConfig) -> (r: AppResult<
        ModelManifest,
    >)
        ensures
            r is Ok <==> ends_with_seq(filename@, ".onnx"@),
            r matches Ok(m) ==> m.id@ == filename@ && m.filename@ == filename@ && m.scale
                == spec_scale_from_filename(filename@) && m.alignment
                == spec_alignment_from_filename(filename@) && m.batch_size == (match user_config.override_of(
                filename@,
            ) {
                Option::Some(info) => info.batch_size,
                Option::None => Option::None,
            }),
            r matches Ok(m) ==> (match user_config.override_of(filename@) {
                Option::Some(info) => m.name@ == info.name@ && m.description@
                    == info.description@,
                Option::None => m.name@ == filename@.subrange(0, filename@.len() - 5)
                    && m.description@ == (if spec_scale_from_filename(filename@) == 2 {
                    "2"@
                } else if spec_scale_from_filename(filename@) == 3 {
                    "3"@
                } else {
                    "4"@
                }) + "x Upscaling Model"@,
            }),
    {
        if !str_ends_with(filename, ".onnx") {
            return Err(AppError::Unknown("the file is not an ONNX model".to_owned()));
        }
        let id = filename.to_owned();
        let scale = scale_from_filename(filename);
        let alignment: u32 = if str_contains_lower(filename, "hat") {
            8
        } else if str_contains_lower(filename, "dat") {
            16
        } else {
            1
        };
        match user_config.get_override(&id) {
            Option::Some(info) => {
                Ok(
                    ModelManifest {
                        id,
                        name: info.name,
                        description: info.description,
                        filename: filename.to_owned(),
                        scale,
                        alignment,
                        batch_size: info.batch_size,
                    },
                )
            },
            Option::None => {
                proof {
                    reveal_strlit(".onnx");
                }
                let len = filename.unicode_len();
                let stem = filename.substring_char(0, len - 5).to_owned();
                let scale_str: &str = if scale == 2 {
                    "2"
                } else if scale == 3 {
                    "3"
                } else {
                    "4"
                };
                let mut description = scale_str.to_owned();
                description.append("x Upscaling Model");
                Ok(
                    ModelManifest {
                        id,
                        name: stem,
                        description,
                        filename: filename.to_owned(),
                        scale,
                        alignment,
                        batch_size: Option::None,
                    },
                )
            },
        }
    }
}

} // verus!
