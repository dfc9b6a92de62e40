//! What the HTTP endpoints answer, apart from chat and tasks: liveness,
//! readiness and the model list.
use vstd::prelude::*;
use crate::plugin_manager::lit;

verus! {

/// The liveness answer.
pub struct HealthResponse {
    pub status: String,
    pub timestamp: String,
    pub version: String,
    pub device_id: String,
}

impl HealthResponse {
    /// A live service, at `timestamp`, running `version` on the device
    /// whose public key is `device_id`.
    pub fn ok(timestamp: String, version: String, device_id: String) -> (r: Self)
        ensures
            r.status@ == "ok"@,
            r.timestamp@ == timestamp@,
            r.version@ == version@,
            r.device_id@ == device_id@,
    {
        HealthResponse { status: lit("ok"), timestamp, version, device_id }
    }
}

/// The readiness answer.
pub struct ReadinessResponse {
    pub ready: bool,
    pub llm_loaded: bool,
    pub memory_ok: bool,
}

impl ReadinessResponse {
    /// Ready when the model is loaded and the store answers.
    pub fn from_checks(llm_loaded: bool, memory_ok: bool) -> (r: Self)
        ensures
            r.ready == (llm_loaded && memory_ok),
            r.llm_loaded == llm_loaded,
            r.memory_ok == memory_ok,
    {
        ReadinessResponse { ready: llm_loaded && memory_ok, llm_loaded, memory_ok }
    }
}

/// One model in the list.
pub struct ModelInfo {
    pub id: String,
    pub object: String,
    pub created: i64,
    pub owned_by: String,
}

/// The model list, in the shape OpenAI clients expect.
pub struct ModelsResponse {
    pub object: String,
    pub data: Vec<ModelInfo>,
}

impl ModelsResponse {
    /// The list of the one model served, reported as created at `created`.
    pub fn for_model(model_id: String, created: i64) -> (r: Self)
        ensures
            r.object@ == "list"@,
            r.data@.len() == 1,
            r.data@[0].id@ == model_id@,
            r.data@[0].object@ == "model"@,
            r.data@[0].created == created,
            r.data@[0].owned_by@ == "fabio-claw-edge"@,
    {
        let mut data: Vec<ModelInfo> = Vec::new();
        data.push(
            ModelInfo {
                id: model_id,
                object: lit("model"),
                created,
                owned_by: lit("fabio-claw-edge"),
            },
        );
        ModelsResponse { object: lit("list"), data }
    }
}

} // verus!
