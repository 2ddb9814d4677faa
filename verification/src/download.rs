//! First-run model downloads: progress reporting, and the fetch of a model
//! file in a build that carries no on-device ML engine.
use vstd::prelude::*;

verus! {

/// Emit a progress tick `(label, pct)` if a callback is installed (`pct` is
/// `None` while the total size is unknown).
pub fn report<F: Fn(&str, Option<u8>)>(progress: Option<&F>, label: &str, pct: Option<u8>)
    requires
        progress matches Some(cb) ==> cb.requires((label, pct)),
    ensures
        progress matches Some(cb) ==> cb.ensures((label, pct), ()),
{
    match progress {
        Some(cb) => cb(label, pct),
        None => {},
    }
}

/// Why a model file cannot be fetched in this build.
pub const NO_ML_BUILD: &'static str = "model download unavailable: built without any ML feature";

/// Fetch a model file (`file` of the HuggingFace repo `repo`) into the cache.
/// This build carries no on-device ML engine, so there is nothing to fetch
/// and the answer is always the error [`NO_ML_BUILD`].
pub fn fetch<F: Fn(&str, Option<u8>)>(repo: &str, file: &str, label: &str, progress: Option<&F>) -> (r: Result<String, String>)
    ensures
        r matches Err(e) && e@ == NO_ML_BUILD@,
{
    Err(String::from_str(NO_ML_BUILD))
}

} // verus!
