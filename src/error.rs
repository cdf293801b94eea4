use vstd::prelude::*;

verus! {

/// The kind of failure reported by the service.
#[derive(Clone, Copy, Debug, PartialEq, Eq, Structural)]
pub enum ApiErrorType {
    InternalError,
    NotFoundError,
    InvalidInput,
    Unauthorized,
    ReadError,
    WriteError,
    ScrapeErrorInvalidUrl,
    ScrapeErrorJsSandboxError,
    ScrapeErrorBase64Error,
    ScrapeErrorKeyDecryptionError,
    ScrapeErrorInputError,
    ScrapeErrorFetchError,
    ScrapeErrorParseError,
    ScrapeErrorReadError,
}

/// The name of an error kind, as shown to users.
pub open spec fn error_type_name(t: ApiErrorType) -> Seq<char> {
    match t {
        ApiErrorType::InternalError => "InternalError"@,
        ApiErrorType::NotFoundError => "NotFoundError"@,
        ApiErrorType::InvalidInput => "InvalidInput"@,
        ApiErrorType::Unauthorized => "Unauthorized"@,
        ApiErrorType::ReadError => "ReadError"@,
        ApiErrorType::WriteError => "WriteError"@,
        ApiErrorType::ScrapeErrorInvalidUrl => "ScrapeErrorInvalidUrl"@,
        ApiErrorType::ScrapeErrorJsSandboxError => "ScrapeErrorJsSandboxError"@,
        ApiErrorType::ScrapeErrorBase64Error => "ScrapeErrorBase64Error"@,
        ApiErrorType::ScrapeErrorKeyDecryptionError => "ScrapeErrorKeyDecryptionError"@,
        ApiErrorType::ScrapeErrorInputError => "ScrapeErrorInputError"@,
        ApiErrorType::ScrapeErrorFetchError => "ScrapeErrorFetchError"@,
        ApiErrorType::ScrapeErrorParseError => "ScrapeErrorParseError"@,
        ApiErrorType::ScrapeErrorReadError => "ScrapeErrorReadError"@,
    }
}

impl ApiErrorType {
    /// The name of the error kind.
    pub fn to_string(&self) -> (r: String)
        ensures
            r@ == error_type_name(*self),
    {
        match self {
            ApiErrorType::InternalError => String::from_str("InternalError"),
            ApiErrorType::NotFoundError => String::from_str("NotFoundError"),
            ApiErrorType::InvalidInput => String::from_str("InvalidInput"),
            ApiErrorType::Unauthorized => String::from_str("Unauthorized"),
            ApiErrorType::ReadError => String::from_str("ReadError"),
            ApiErrorType::WriteError => String::from_str("WriteError"),
            ApiErrorType::ScrapeErrorInvalidUrl => String::from_str("ScrapeErrorInvalidUrl"),
            ApiErrorType::ScrapeErrorJsSandboxError => String::from_str("ScrapeErrorJsSandboxError"),
            ApiErrorType::ScrapeErrorBase64Error => String::from_str("ScrapeErrorBase64Error"),
            ApiErrorType::ScrapeErrorKeyDecryptionError => String::from_str("ScrapeErrorKeyDecryptionError"),
            ApiErrorType::ScrapeErrorInputError => String::from_str("ScrapeErrorInputError"),
            ApiErrorType::ScrapeErrorFetchError => String::from_str("ScrapeErrorFetchError"),
            ApiErrorType::ScrapeErrorParseError => String::from_str("ScrapeErrorParseError"),
            ApiErrorType::ScrapeErrorReadError => String::from_str("ScrapeErrorReadError"),
        }
    }
}

/// An error as returned by the service.
#[derive(Clone, Debug)]
pub struct ApiErr {
    pub message: Option<String>,
    pub cause: Option<String>,
    pub err_type: ApiErrorType,
}

/// The text shown to a user for an error: a fixed text for a missing page,
/// else the message, else the cause, else a generic text.
pub open spec fn message_text(e: ApiErr) -> Seq<char> {
    if e.err_type == ApiErrorType::NotFoundError {
        "Page not found"@
    } else if e.message.is_some() {
        e.message.unwrap()@
    } else if e.cause.is_some() {
        e.cause.unwrap()@
    } else {
        "An unexpected error occurred"@
    }
}

impl ApiErr {
    pub fn message(&self) -> (r: String)
        ensures
            r@ == message_text(*self),
    {
        if self.err_type == ApiErrorType::NotFoundError {
            return String::from_str("Page not found");
        }
        if let Some(message) = &self.message {
            return message.clone();
        }
        if let Some(err) = &self.cause {
            return err.clone();
        }
        String::from_str("An unexpected error occurred")
    }
}

/// An error as reported by a client.
#[derive(Clone, Debug)]
pub struct ClientError {
    pub message: String,
    pub cause: Option<String>,
    pub data: Option<String>,
}

} // verus!
