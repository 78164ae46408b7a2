//! A server for the debug adapter protocol: the framing of its messages on a byte stream,
//! the envelope and sequence numbers of what is sent, and the loop that reads requests,
//! hands them to an adapter and sends its responses.
//!
//! The library does no I/O of its own. The server says what it needs next from the input
//! (a line, or an exact number of bytes), takes it, and keeps everything it sends as framed
//! bytes that the caller takes and writes to the sink.
pub mod encoding;
pub mod errors;
pub mod frame;
pub mod messages;
pub mod server;
pub mod utils;

pub use errors::{AdapterError, DeserializationError, ServerError};
pub use messages::{
    BaseMessage, Command, DAPMessage, Event, Request, Response, ResponseBody, ResponseMessage,
    ReverseRequest, Sendable,
};
pub use server::{
    Adapter, BasicClient, Client, ClientContext, Context, InputState, Server, ServerOutput, Step,
};
pub use utils::{get_spec_version, Version};
