//! Speech-to-text model selection: which whisper.cpp GGML weight file an
//! `asr_model` setting stands for. Loading the weights and decoding are the
//! caller's.
use vstd::prelude::*;

use crate::chars::{contains, contains_str, ends_with, ends_with_str, lowercase, to_lowercase, trim, trimmed};

verus! {

/// HuggingFace repo hosting the GGML whisper.cpp weights.
pub const WHISPER_REPO: &'static str = "ggerganov/whisper.cpp";

/// Default GGML model: small, fast, accurate for short push-to-talk clips.
pub const DEFAULT_GGML: &'static str = "ggml-base.en.bin";

/// The GGML file for a setting `m` (already trimmed) whose lowercase form is
/// `lower`: an explicit `ggml-*.bin` name is kept verbatim; otherwise the
/// capability keywords of the (MLX/HF) id pick the nearest weight, and anything
/// unrecognised (the Parakeet default among them) gets `base.en`.
pub open spec fn ggml_spec(m: Seq<char>, lower: Seq<char>) -> Seq<char> {
    if ends_with(lower, ".bin"@) && contains(lower, "ggml"@) {
        m
    } else if contains(lower, "large"@) || contains(lower, "turbo"@) {
        "ggml-large-v3-turbo.bin"@
    } else if contains(lower, "medium"@) {
        if contains(lower, ".en"@) { "ggml-medium.en.bin"@ } else { "ggml-medium.bin"@ }
    } else if contains(lower, "small"@) {
        if contains(lower, ".en"@) { "ggml-small.en.bin"@ } else { "ggml-small.bin"@ }
    } else if contains(lower, "tiny"@) {
        if contains(lower, ".en"@) { "ggml-tiny.en.bin"@ } else { "ggml-tiny.bin"@ }
    } else if contains(lower, "base"@) && !contains(lower, ".en"@) && contains(lower, "whisper"@) {
        "ggml-base.bin"@
    } else {
        DEFAULT_GGML@
    }
}

/// Pick the GGML file for the trimmed setting `m`, given its lowercase form
/// `lower`.
pub fn ggml_file_from(m: &str, lower: &str) -> (r: String)
    ensures
        r@ == ggml_spec(m@, lower@),
{
    if ends_with_str(lower, ".bin") && contains_str(lower, "ggml") {
        return String::from_str(m);
    }
    let en = contains_str(lower, ".en");
    if contains_str(lower, "large") || contains_str(lower, "turbo") {
        String::from_str("ggml-large-v3-turbo.bin")
    } else if contains_str(lower, "medium") {
        if en { String::from_str("ggml-medium.en.bin") } else { String::from_str("ggml-medium.bin") }
    } else if contains_str(lower, "small") {
        if en { String::from_str("ggml-small.en.bin") } else { String::from_str("ggml-small.bin") }
    } else if contains_str(lower, "tiny") {
        if en { String::from_str("ggml-tiny.en.bin") } else { String::from_str("ggml-tiny.bin") }
    } else if contains_str(lower, "base") && !en && contains_str(lower, "whisper") {
        String::from_str("ggml-base.bin")
    } else {
        String::from_str(DEFAULT_GGML)
    }
}

/// Map an `asr_model` setting to a GGML filename in [`WHISPER_REPO`]: the
/// setting is trimmed, lowercased for matching, and mapped by
/// [`ggml_spec`].
pub fn ggml_file_for(model_setting: &str) -> (r: String)
    ensures
        r@ == ggml_spec(trim(model_setting@), lowercase(trim(model_setting@))),
{
    let m = trimmed(model_setting);
    let lower = to_lowercase(m.as_str());
    ggml_file_from(m.as_str(), lower.as_str())
}

/// Whether a GGML filename is an English-only model (`*.en.bin`), which pins the
/// decode language to English.
pub fn is_english_only(ggml_file: &str) -> (r: bool)
    ensures
        r == contains(lowercase(ggml_file@), ".en."@),
{
    let lower = to_lowercase(ggml_file);
    contains_str(lower.as_str(), ".en.")
}

} // verus!
