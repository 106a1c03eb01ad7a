//! Client-side types for a text and image generation API, and the verified
//! assembler that rebuilds a streamed chat completion from its event stream.
pub mod auth;
pub mod chat;
pub mod content;
pub mod driver;
pub mod error;
pub mod file;
pub mod frame;
pub mod image;
pub mod request;
pub mod sys;
pub mod tool;

pub use auth::Bearer;
pub use chat::{
    ChatCompletionResponse, ChatCompletionStreamData, ChatComplitionUsage, Choice, Message,
    MessageBuilder, ResponseFormat, ResponseType, Role, Stop, StreamChoice,
};
pub use content::{Content, ContentContainer, ImageUrl};
pub use driver::{SourceEvent, StreamDriver};
pub use error::Error;
pub use file::{
    FileContentRequest, FileContentResponse, FileDeleteRequest, FileGetRequest, FileListRequest,
    FileListResponse, FilePurpose, FileUploadResponse,
};
pub use frame::FrameExtractor;
pub use image::{GenerationData, GenerationFormat, GenerationResponse};
pub use sys::{ModelInfo, ModelListResponse};
pub use tool::{
    Function, FunctionBuilder, ParameterProperty, ParameterPropertyBuilder, ParameterType,
    Parameters, ParametersBuilder, ToolCall, ToolCallBuilder,
};
