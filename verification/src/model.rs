//! Model-context bookkeeping: when a load is owed, when it may be reused,
//! and how a load attempt's outcome maps to the error taxonomy.

use vstd::prelude::*;

use crate::error::CoreError;

verus! {

/// Identity of one loaded speech-recognition model: the weight-file path and
/// the device choice it was loaded with. The native handle itself lives with
/// the inference backend, outside this crate.
pub struct ModelContext {
    pub path: String,
    pub gpu_device: Option<i32>,
    pub use_gpu: Option<bool>,
}

impl ModelContext {
    /// True iff a context loaded for (`path`, `gpu_device`) serves a request
    /// for (`new_path`, `new_gpu_device`) without reloading.
    pub fn matches_request(&self, new_path: &str, new_gpu_device: Option<i32>) -> (r: bool)
        ensures
            r == (self.path@ == new_path@ && self.gpu_device == new_gpu_device),
    {
        let np = String::from_str(new_path);
        let same_path = self.path == np;
        let same_gpu = match (self.gpu_device, new_gpu_device) {
            (None, None) => true,
            (Some(a), Some(b)) => a == b,
            _ => false,
        };
        same_path && same_gpu
    }
}

/// Maps one model-load attempt to a context or a typed error: a missing
/// weight file is reported before anything is loaded, and a failed load is
/// reported as a load failure, never as a crash.
pub fn create_context(
    model_path: &str,
    model_exists: bool,
    gpu_device: Option<i32>,
    use_gpu: Option<bool>,
    load_ok: bool,
) -> (r: Result<ModelContext, CoreError>)
    ensures
        !model_exists ==> (r matches Err(CoreError::ResourceMissing(m)) && m@
            == "whisper file doesn't exist"@),
        model_exists && !load_ok ==> (r matches Err(CoreError::ProcessFailure(m)) && m@
            == "failed to open model"@),
        model_exists && load_ok ==> (r matches Ok(c) && c.path@ == model_path@ && c.gpu_device
            == gpu_device && c.use_gpu == use_gpu),
{
    if !model_exists {
        return Err(CoreError::ResourceMissing(String::from_str("whisper file doesn't exist")));
    }
    if !load_ok {
        return Err(CoreError::ProcessFailure(String::from_str("failed to open model")));
    }
    Ok(ModelContext { path: String::from_str(model_path), gpu_device, use_gpu })
}

} // verus!
