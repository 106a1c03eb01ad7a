//! Responses of the image generation endpoint.
use vstd::prelude::*;

verus! {

/// Generated images.
#[derive(Debug, Clone)]
pub struct GenerationResponse {
    pub created: u64,
    pub data: Vec<GenerationData>,
}

/// One generated image, inline or by URL.
#[derive(Debug, Clone)]
pub struct GenerationData {
    pub seed: i32,
    pub finish_reason: String,
    pub image: Option<String>,
    pub url: Option<String>,
}

/// How generated images are returned.
#[allow(non_camel_case_types)]
#[derive(Debug, Clone, Copy, PartialEq, Eq, Structural)]
pub enum GenerationFormat {
    b64_json,
    url,
}

} // verus!
