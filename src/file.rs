//! Requests and responses of the file endpoints.
use vstd::prelude::*;

verus! {

/// Asks for the extracted content of an uploaded file.
#[derive(Debug, Clone)]
pub struct FileContentRequest {
    pub id: String,
}

/// The extracted content of a file.
#[derive(Debug, Clone)]
pub struct FileContentResponse {
    pub file_type: String,
    pub filename: String,
    pub title: String,
    pub typ: String,
    pub content: String,
}

/// Asks to delete an uploaded file.
#[derive(Debug, Clone)]
pub struct FileDeleteRequest {
    pub id: String,
}

/// Asks for the record of an uploaded file.
#[derive(Debug, Clone)]
pub struct FileGetRequest {
    pub id: String,
}

/// Asks for the records of all uploaded files.
#[derive(Debug, Clone, Copy)]
pub struct FileListRequest;

/// The records of all uploaded files.
#[derive(Debug, Clone)]
pub struct FileListResponse {
    pub object: String,
    pub data: Vec<FileUploadResponse>,
}

/// What an uploaded file is for.
#[derive(Debug, Clone, Copy, PartialEq, Eq, Structural, Default)]
pub enum FilePurpose {
    #[default]
    Extract,
}

/// The record of an uploaded file.
#[derive(Debug, Clone)]
pub struct FileUploadResponse {
    pub id: String,
    pub object: String,
    pub bytes: usize,
    pub created_at: u64,
    pub filename: String,
    pub purpose: FilePurpose,
    pub status: String,
    pub status_details: String,
}

impl FileContentRequest {
    /// A request for the content of file `id`.
    pub fn new(id: &str) -> (r: Self)
        ensures
            r.id@ == id@,
    {
        FileContentRequest { id: id.to_owned() }
    }

    /// The path of the endpoint, relative to the API root.
    pub fn path(&self) -> (r: String)
        ensures
            r@ == "files/"@ + self.id@ + "/content"@,
    {
        let mut p = "files/".to_owned();
        p.append(self.id.as_str());
        p.append("/content");
        p
    }
}

impl FileDeleteRequest {
    /// A request to delete file `id`.
    pub fn new(id: &str) -> (r: Self)
        ensures
            r.id@ == id@,
    {
        FileDeleteRequest { id: id.to_owned() }
    }

    /// The path of the endpoint, relative to the API root.
    pub fn path(&self) -> (r: String)
        ensures
            r@ == "files/"@ + self.id@,
    {
        let mut p = "files/".to_owned();
        p.append(self.id.as_str());
        p
    }
}

impl FileGetRequest {
    /// A request for the record of file `id`.
    pub fn new(id: &str) -> (r: Self)
        ensures
            r.id@ == id@,
    {
        FileGetRequest { id: id.to_owned() }
    }

    /// The path of the endpoint, relative to the API root.
    pub fn path(&self) -> (r: String)
        ensures
            r@ == "files/"@ + self.id@,
    {
        let mut p = "files/".to_owned();
        p.append(self.id.as_str());
        p
    }
}

impl FilePurpose {
    /// The name of the purpose on the wire.
    pub fn as_text(&self) -> (r: String)
        ensures
            r@ == "file-extract"@,
    {
        match self {
            FilePurpose::Extract => "file-extract".to_owned(),
        }
    }
}

} // verus!
