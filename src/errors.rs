use vstd::prelude::*;

verus! {

/// Relies on serde_json's error type, carried unopened from a failed (de)serialization.
#[verifier::external_type_specification]
#[verifier::external_body]
pub struct ExJsonError(serde_json::Error);

/// Relies on std's error type for invalid UTF-8, carried unopened.
#[verifier::external_type_specification]
#[verifier::external_body]
pub struct ExUtf8Error(std::str::Utf8Error);

/// Why a payload could not be turned into a message.
#[derive(Debug)]
pub enum DeserializationError {
    /// A tag string names no variant of the enum it selects.
    StringToEnumParseError { enum_name: String, value: String },
    /// The payload is not JSON of the expected shape.
    SerdeError(serde_json::Error),
    /// The payload bytes are not UTF-8.
    DecodingError(std::str::Utf8Error),
}

/// Every way in which serving a connection can fail.
#[derive(Debug)]
pub enum ServerError {
    /// Reading from or writing to the transport failed, or the stream ended inside a frame.
    IoError,
    /// A header line names a key other than `Content-Length`.
    UnknownHeader { header: String },
    /// The payload of a frame could not be decoded.
    ParseError(DeserializationError),
    /// A header line has no `:`, or its value is no byte count.
    HeaderParseError { line: String },
    /// The frame does not follow the grammar at this point.
    ProtocolError { reason: String, line: String },
    /// An outgoing message could not be encoded.
    SerializationError(serde_json::Error),
    /// A success response without a body was built for a command whose answer needs one.
    ResponseConstructError,
    /// Every sequence number has been used; nothing more can be sent on this connection.
    SequenceExhausted,
    /// The shared output was poisoned by a writer that panicked while holding it.
    OutputLockError,
}

/// Errors that adapters report when they build responses.
#[derive(Debug)]
pub enum AdapterError {
    /// A success response without a body was built for a command whose answer needs one.
    ResponseConstructError,
}

} // verus!
