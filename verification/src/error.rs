use vstd::prelude::*;

verus! {

/// Why a request to the store was refused.
#[derive(Debug, Clone, Copy, PartialEq, Eq)]
pub enum StoreError {
    /// The named thing (`"podcast"`, `"podcast feed"` or `"episode"`) does not exist.
    NotFound(&'static str),
    /// A multipart upload had no `file` field.
    MissingUpload,
    /// The file's extension is not one of those allowed for its purpose.
    UnsupportedFile,
    /// The file is larger than allowed for its purpose.
    FileTooLarge,
    /// The file has no name, or its name has no extension.
    InvalidFileName,
}

/// The text that describes an error to the client.
pub open spec fn error_message(error: StoreError) -> Seq<char> {
    match error {
        StoreError::NotFound(what) => what@ + " not found"@,
        StoreError::MissingUpload => "upload file is missing"@,
        StoreError::UnsupportedFile => "unsupported file extension"@,
        StoreError::FileTooLarge => "file is too large"@,
        StoreError::InvalidFileName => "invalid file name"@,
    }
}

/// The HTTP status that answers an error: 404 for something missing, 400 for a bad upload.
pub open spec fn error_status(error: StoreError) -> u16 {
    match error {
        StoreError::NotFound(_) => 404,
        _ => 400,
    }
}

impl StoreError {
    /// The text that describes the error to the client.
    pub fn message(&self) -> (r: String)
        ensures
            r@ == error_message(*self),
    {
        match self {
            StoreError::NotFound(what) => {
                let mut text = String::from_str(what);
                text.append(" not found");
                text
            },
            StoreError::MissingUpload => String::from_str("upload file is missing"),
            StoreError::UnsupportedFile => String::from_str("unsupported file extension"),
            StoreError::FileTooLarge => String::from_str("file is too large"),
            StoreError::InvalidFileName => String::from_str("invalid file name"),
        }
    }

    /// The HTTP status that answers the error.
    pub fn status_code(&self) -> (r: u16)
        ensures
            r == error_status(*self),
    {
        match self {
            StoreError::NotFound(_) => 404,
            _ => 400,
        }
    }
}

} // verus!
