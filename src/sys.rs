//! Responses of the model listing endpoint.
use vstd::prelude::*;

verus! {

/// The models available.
#[derive(Debug, Clone, Default)]
pub struct ModelListResponse {
    pub object: String,
    pub data: Vec<ModelInfo>,
}

/// One available model.
#[derive(Debug, Clone, Default)]
pub struct ModelInfo {
    pub id: String,
    pub object: String,
    pub created: u64,
    pub owned_by: String,
}

} // verus!
