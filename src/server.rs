use vstd::prelude::*;

use crate::errors::{DeserializationError, ServerError};
use vstd::utf8::*;

use crate::frame::{
    announced_length, check_separator, decode_content, frame, header_error, parse_header_line,
    push_frame, separator, separator_error,
};
use crate::messages::{
    is_request_of_catalog, message_json, push_message_json, request_error, command_tag, Event,
    Request, Response, ResponseBody, ReverseRequest, Sendable,
};

verus! {

/// The outgoing side of a connection: the sequence counter and the bytes committed for the
/// sink, changed together by one `send` at a time.
pub struct ServerOutput {
    output_buffer: Vec<u8>,
    sequence_number: i64,
}

impl ServerOutput {
    /// The sequence number of the last message sent; 0 before the first.
    pub closed spec fn sequence(&self) -> int {
        self.sequence_number as int
    }

    /// The bytes sent and not yet taken for the sink.
    pub closed spec fn pending(&self) -> Seq<u8> {
        self.output_buffer@
    }

    /// An output that has sent nothing.
    pub fn new() -> (r: ServerOutput)
        ensures
            r.sequence() == 0,
            r.pending() == Seq::<u8>::empty(),
    {
        ServerOutput { output_buffer: Vec::new(), sequence_number: 0 }
    }

    /// The sequence number of the last message sent.
    pub fn sequence_number(&self) -> (r: i64)
        ensures
            r == self.sequence(),
    {
        self.sequence_number
    }

    /// Sends `body` under the next sequence number: the counter goes up by one and the
    /// message's frame is appended to the output, both in one step.
    pub fn send(&mut self, body: Sendable) -> (r: Result<(), ServerError>)
        ensures
            r is Ok <==> old(self).sequence() < i64::MAX,
            r is Ok ==> final(self).sequence() == old(self).sequence() + 1,
            r is Ok ==> final(self).pending() == old(self).pending() + frame(
                message_json(old(self).sequence() + 1, body),
            ),
            r is Err ==> r matches Err(ServerError::SequenceExhausted),
            r is Err ==> *final(self) == *old(self),
    {
        if self.sequence_number == i64::MAX {
            return Err(ServerError::SequenceExhausted);
        }
        let seq = self.sequence_number + 1;
        let mut json: Vec<u8> = Vec::new();
        push_message_json(&mut json, seq, &body);
        push_frame(&mut self.output_buffer, json.as_slice());
        self.sequence_number = seq;
        Ok(())
    }

    /// Sends a response.
    pub fn respond(&mut self, response: Response) -> (r: Result<(), ServerError>)
        ensures
            r is Ok <==> old(self).sequence() < i64::MAX,
            r is Ok ==> final(self).sequence() == old(self).sequence() + 1,
            r is Ok ==> final(self).pending() == old(self).pending() + frame(
                message_json(old(self).sequence() + 1, Sendable::Response(response)),
            ),
            r is Err ==> *final(self) == *old(self),
            r is Err ==> r matches Err(ServerError::SequenceExhausted),
    {
        self.send(Sendable::Response(response))
    }

    /// Sends an event.
    pub fn send_event(&mut self, event: Event) -> (r: Result<(), ServerError>)
        ensures
            r is Ok <==> old(self).sequence() < i64::MAX,
            r is Ok ==> final(self).sequence() == old(self).sequence() + 1,
            r is Ok ==> final(self).pending() == old(self).pending() + frame(
                message_json(old(self).sequence() + 1, Sendable::Event(event)),
            ),
            r is Err ==> *final(self) == *old(self),
            r is Err ==> r matches Err(ServerError::SequenceExhausted),
    {
        self.send(Sendable::Event(event))
    }

    /// Sends a reverse request.
    pub fn send_reverse_request(&mut self, request: ReverseRequest) -> (r: Result<(), ServerError>)
        ensures
            r is Ok <==> old(self).sequence() < i64::MAX,
            r is Ok ==> final(self).sequence() == old(self).sequence() + 1,
            r is Ok ==> final(self).pending() == old(self).pending() + frame(
                message_json(old(self).sequence() + 1, Sendable::ReverseRequest(request)),
            ),
            r is Err ==> *final(self) == *old(self),
            r is Err ==> r matches Err(ServerError::SequenceExhausted),
    {
        self.send(Sendable::ReverseRequest(request))
    }

    /// Hands over the bytes sent so far, for the sink, and forgets them.
    pub fn take_output(&mut self) -> (r: Vec<u8>)
        ensures
            r@ == old(self).pending(),
            final(self).pending() == Seq::<u8>::empty(),
            final(self).sequence() == old(self).sequence(),
    {
        let taken = self.output_buffer.split_off(0);
        assert(self.output_buffer@ =~= Seq::<u8>::empty());
        assert(taken@ =~= old(self).output_buffer@);
        taken
    }
}

/// Where responses go.
pub trait Client {
    /// Sends a response to the client.
    fn respond(&mut self, response: Response) -> Result<(), ServerError>;
}

/// What the code answering requests can send to the client on its own.
pub trait ClientContext {
    /// Sends an event to the client.
    fn send_event(&mut self, event: Event) -> Result<(), ServerError>;

    /// Sends a reverse request to the client.
    fn send_reverse_request(&mut self, request: ReverseRequest) -> Result<(), ServerError>;
}

/// The handle that an adapter gets while it answers a request: it sends to the client and
/// asks the server to stop once the request is answered.
pub trait Context: ClientContext {
    /// Asks the server to stop after the current request has been answered.
    fn request_exit(&mut self);

    /// Withdraws an exit asked for while answering the same request.
    fn cancel_exit(&mut self);

    /// Whether an exit has been asked for.
    fn get_exit_state(&self) -> bool;
}

/// The application logic behind a server: it answers each request in turn.
pub trait Adapter {
    /// What the adapter fails with; the server hands it back to its caller unopened.
    type Error;

    /// Answers one request. The response must carry the request's `seq` as its
    /// `request_seq`; its body may be `ResponseBody::Empty` to answer later, out of band.
    fn accept<C: Context>(&mut self, request: Request, ctx: &mut C) -> Result<
        Response,
        Self::Error,
    >;
}

/// A client that frames everything it sends into one output, and keeps the exit flag.
pub struct BasicClient {
    output: ServerOutput,
    should_exit: bool,
}

impl BasicClient {
    pub closed spec fn output(&self) -> ServerOutput {
        self.output
    }

    pub closed spec fn exit_requested(&self) -> bool {
        self.should_exit
    }

    /// A client that has sent nothing and is not asked to exit.
    pub fn new() -> (r: BasicClient)
        ensures
            r.output().sequence() == 0,
            r.output().pending() == Seq::<u8>::empty(),
            !r.exit_requested(),
    {
        BasicClient { output: ServerOutput::new(), should_exit: false }
    }

    /// Sends any message.
    pub fn send(&mut self, body: Sendable) -> (r: Result<(), ServerError>)
        ensures
            r is Ok <==> old(self).output().sequence() < i64::MAX,
            r is Ok ==> final(self).output().sequence() == old(self).output().sequence() + 1,
            r is Ok ==> final(self).output().pending() == old(self).output().pending() + frame(
                message_json(old(self).output().sequence() + 1, body),
            ),
            r is Err ==> *final(self) == *old(self),
            r is Err ==> r matches Err(ServerError::SequenceExhausted),
            final(self).exit_requested() == old(self).exit_requested(),
    {
        self.output.send(body)
    }

    /// The sequence number of the last message sent.
    pub fn sequence_number(&self) -> (r: i64)
        ensures
            r == self.output().sequence(),
    {
        self.output.sequence_number()
    }

    /// Hands over the bytes sent so far, for the sink, and forgets them.
    pub fn take_output(&mut self) -> (r: Vec<u8>)
        ensures
            r@ == old(self).output().pending(),
            final(self).output().pending() == Seq::<u8>::empty(),
            final(self).output().sequence() == old(self).output().sequence(),
            final(self).exit_requested() == old(self).exit_requested(),
    {
        self.output.take_output()
    }
}

impl Client for BasicClient {
    fn respond(&mut self, response: Response) -> (r: Result<(), ServerError>)
        ensures
            r is Ok <==> old(self).output().sequence() < i64::MAX,
            r is Ok ==> final(self).output().sequence() == old(self).output().sequence() + 1,
            r is Ok ==> final(self).output().pending() == old(self).output().pending() + frame(
                message_json(old(self).output().sequence() + 1, Sendable::Response(response)),
            ),
            r is Err ==> *final(self) == *old(self),
            r is Err ==> r matches Err(ServerError::SequenceExhausted),
            final(self).exit_requested() == old(self).exit_requested(),
    {
        self.send(Sendable::Response(response))
    }
}

impl ClientContext for BasicClient {
    fn send_event(&mut self, event: Event) -> (r: Result<(), ServerError>)
        ensures
            r is Ok <==> old(self).output().sequence() < i64::MAX,
            r is Ok ==> final(self).output().sequence() == old(self).output().sequence() + 1,
            r is Ok ==> final(self).output().pending() == old(self).output().pending() + frame(
                message_json(old(self).output().sequence() + 1, Sendable::Event(event)),
            ),
            r is Err ==> *final(self) == *old(self),
            r is Err ==> r matches Err(ServerError::SequenceExhausted),
            final(self).exit_requested() == old(self).exit_requested(),
    {
        self.send(Sendable::Event(event))
    }

    fn send_reverse_request(&mut self, request: ReverseRequest) -> (r: Result<(), ServerError>)
        ensures
            r is Ok <==> old(self).output().sequence() < i64::MAX,
            r is Ok ==> final(self).output().sequence() == old(self).output().sequence() + 1,
            r is Ok ==> final(self).output().pending() == old(self).output().pending() + frame(
                message_json(old(self).output().sequence() + 1, Sendable::ReverseRequest(request)),
            ),
            r is Err ==> *final(self) == *old(self),
            r is Err ==> r matches Err(ServerError::SequenceExhausted),
            final(self).exit_requested() == old(self).exit_requested(),
    {
        self.send(Sendable::ReverseRequest(request))
    }
}

impl Context for BasicClient {
    fn request_exit(&mut self)
        ensures
            final(self).exit_requested(),
            final(self).output() == old(self).output(),
    {
        self.should_exit = true;
    }

    fn cancel_exit(&mut self)
        ensures
            !final(self).exit_requested(),
            final(self).output() == old(self).output(),
    {
        self.should_exit = false;
    }

    fn get_exit_state(&self) -> (r: bool)
        ensures
            r == self.exit_requested(),
    {
        self.should_exit
    }
}

/// Where the server stands in the input stream.
#[derive(Debug, Clone, Copy, PartialEq, Eq, Structural)]
pub enum InputState {
    /// Expecting a header line.
    Header,
    /// Expecting the separator line; the header announced this many payload bytes.
    Separator(usize),
    /// Expecting exactly this many payload bytes.
    Content(usize),
    /// The payload has been read; its fields are being decoded into a request.
    Decoding,
    /// A request is being answered by the adapter.
    Dispatching,
    /// The server has stopped and reads nothing more.
    Exiting,
}

/// What the server needs next from its input.
#[derive(Debug, Clone, Copy, PartialEq, Eq, Structural)]
pub enum Step {
    /// One line, with its terminator; an empty line stands for the end of the stream.
    ReadLine,
    /// Exactly this many bytes.
    ReadContent(usize),
    /// Nothing: the server is done.
    Done,
}

/// A debug adapter protocol server: it reads frames, decodes requests, sends the responses
/// that the adapter gives back, and stops at the end of the stream, at the first error, or
/// when the adapter asks it to.
pub struct Server {
    state: InputState,
    client: BasicClient,
}

impl Server {
    pub closed spec fn state(&self) -> InputState {
        self.state
    }

    /// The client that the adapter answers through; it owns the outgoing side.
    pub closed spec fn client(&self) -> BasicClient {
        self.client
    }

    /// A server at the start of its input, that has sent nothing.
    pub fn new() -> (r: Server)
        ensures
            r.state() == InputState::Header,
            r.client().output().sequence() == 0,
            r.client().output().pending() == Seq::<u8>::empty(),
            !r.client().exit_requested(),
    {
        Server { state: InputState::Header, client: BasicClient::new() }
    }

    /// Where the server stands in its input.
    pub fn input_state(&self) -> (r: InputState)
        ensures
            r == self.state(),
    {
        self.state
    }

    /// Takes the next line of input. In the header state an empty line (the stream ended at
    /// a frame boundary) ends the server cleanly; at the separator it is a truncated frame.
    pub fn feed_line(&mut self, line: &[u8]) -> (r: Result<Step, ServerError>)
        requires
            old(self).state() is Header || old(self).state() is Separator,
        ensures
            final(self).client() == old(self).client(),
            old(self).state() is Header && line@.len() == 0 ==> r == Ok::<Step, ServerError>(
                Step::Done,
            ) && final(self).state() == InputState::Exiting,
            old(self).state() is Header && line@.len() > 0 ==> match announced_length(line@) {
                Some(n) => r == Ok::<Step, ServerError>(Step::ReadLine) && final(self).state()
                    == InputState::Separator(n as usize),
                None => (r matches Err(e) && header_error(line@, e)) && final(self).state()
                    == InputState::Exiting,
            },
            old(self).state() matches InputState::Separator(n) ==> {
                if line@.len() == 0 {
                    (r matches Err(ServerError::IoError)) && final(self).state()
                        == InputState::Exiting
                } else if line@ == separator() {
                    r == Ok::<Step, ServerError>(Step::ReadContent(n)) && final(self).state()
                        == InputState::Content(n)
                } else {
                    (r matches Err(e) && separator_error(line@, e)) && final(self).state()
                        == InputState::Exiting
                }
            },
    {
        match self.state {
            InputState::Separator(n) => {
                if line.len() == 0 {
                    self.state = InputState::Exiting;
                    return Err(ServerError::IoError);
                }
                match check_separator(line) {
                    Ok(()) => {
                        self.state = InputState::Content(n);
                        Ok(Step::ReadContent(n))
                    },
                    Err(e) => {
                        self.state = InputState::Exiting;
                        Err(e)
                    },
                }
            },
            _ => {
                if line.len() == 0 {
                    self.state = InputState::Exiting;
                    return Ok(Step::Done);
                }
                match parse_header_line(line) {
                    Ok(n) => {
                        self.state = InputState::Separator(n);
                        Ok(Step::ReadLine)
                    },
                    Err(e) => {
                        self.state = InputState::Exiting;
                        Err(e)
                    },
                }
            },
        }
    }

    /// Takes the payload of the frame, which must be exactly as long as announced, and
    /// gives back its text for decoding.
    pub fn feed_content(&mut self, content: &[u8]) -> (r: Result<String, ServerError>)
        requires
            old(self).state() matches InputState::Content(n) && content@.len() == n,
        ensures
            final(self).client() == old(self).client(),
            r is Ok <==> valid_utf8(content@),
            r is Ok ==> r->Ok_0@ == decode_utf8(content@) && final(self).state()
                == InputState::Decoding,
            r is Err ==> (r matches Err(
                ServerError::ParseError(DeserializationError::DecodingError(_)),
            )) && final(self).state() == InputState::Exiting,
    {
        match decode_content(content) {
            Ok(text) => {
                self.state = InputState::Decoding;
                Ok(text)
            },
            Err(e) => {
                self.state = InputState::Exiting;
                Err(e)
            },
        }
    }

    /// Takes the decoded fields of the payload and gives back the request to answer. A
    /// payload that is no request of the catalog stops the server, and nothing is sent.
    pub fn take_request(
        &mut self,
        seq: i64,
        kind: &str,
        command: &str,
        arguments: Option<String>,
    ) -> (r: Result<Request, ServerError>)
        requires
            old(self).state() == InputState::Decoding,
        ensures
            final(self).client() == old(self).client(),
            r is Ok <==> is_request_of_catalog(kind@, command@),
            r is Ok ==> r->Ok_0.seq == seq && command_tag(r->Ok_0.command) == command@
                && r->Ok_0.arguments == arguments && final(self).state()
                == InputState::Dispatching,
            r is Err ==> (r matches Err(ServerError::ParseError(e)) && request_error(
                kind@,
                command@,
                e,
            )) && final(self).state() == InputState::Exiting,
    {
        match Request::from_parts(seq, kind, command, arguments) {
            Ok(request) => {
                self.state = InputState::Dispatching;
                Ok(request)
            },
            Err(e) => {
                self.state = InputState::Exiting;
                Err(ServerError::ParseError(e))
            },
        }
    }

    /// Hands the request to the adapter, with the client as its context. An adapter that
    /// fails stops the server.
    pub fn dispatch<A: Adapter>(&mut self, adapter: &mut A, request: Request) -> (r: Result<
        Response,
        A::Error,
    >)
        requires
            old(self).state() == InputState::Dispatching,
        ensures
            r is Ok ==> final(self).state() == InputState::Dispatching,
            r is Err ==> final(self).state() == InputState::Exiting,
    {
        let r = adapter.accept(request, &mut self.client);
        if r.is_err() {
            self.state = InputState::Exiting;
        }
        r
    }

    /// Stops the server on a payload that is not JSON of the shape of a request.
    pub fn reject_payload(&mut self, error: serde_json::Error) -> (r: ServerError)
        requires
            old(self).state() == InputState::Decoding,
        ensures
            final(self).client() == old(self).client(),
            final(self).state() == InputState::Exiting,
            r matches ServerError::ParseError(DeserializationError::SerdeError(_)),
    {
        self.state = InputState::Exiting;
        ServerError::ParseError(DeserializationError::SerdeError(error))
    }

    /// Takes the adapter's response to the request being answered: sends it unless its
    /// body is `ResponseBody::Empty`, then stops if the adapter asked to exit, or waits for
    /// the next frame.
    pub fn complete_request(&mut self, response: Response) -> (r: Result<Step, ServerError>)
        requires
            old(self).state() == InputState::Dispatching,
        ensures
            final(self).client().exit_requested() == old(self).client().exit_requested(),
            response.body == Some(ResponseBody::Empty) ==> final(self).client()
                == old(self).client() && r is Ok,
            response.body != Some(ResponseBody::Empty) && old(self).client().output().sequence()
                < i64::MAX ==> client_sent(
                old(self).client(),
                Sendable::Response(response),
                final(self).client(),
            ) && r is Ok,
            response.body != Some(ResponseBody::Empty) && old(self).client().output().sequence()
                == i64::MAX ==> (r matches Err(ServerError::SequenceExhausted))
                && final(self).client() == old(self).client()
                && final(self).state() == InputState::Exiting,
            r is Ok ==> r == Ok::<Step, ServerError>(
                if old(self).client().exit_requested() {
                    Step::Done
                } else {
                    Step::ReadLine
                },
            ) && final(self).state() == if old(self).client().exit_requested() {
                InputState::Exiting
            } else {
                InputState::Header
            },
    {
        let silent = match &response.body {
            Some(ResponseBody::Empty) => true,
            _ => false,
        };
        if !silent {
            if let Err(e) = self.client.respond(response) {
                self.state = InputState::Exiting;
                return Err(e);
            }
        }
        if self.client.get_exit_state() {
            self.state = InputState::Exiting;
            Ok(Step::Done)
        } else {
            self.state = InputState::Header;
            Ok(Step::ReadLine)
        }
    }

    /// Sends any message through the client.
    pub fn send(&mut self, body: Sendable) -> (r: Result<(), ServerError>)
        ensures
            final(self).state() == old(self).state(),
            r is Ok <==> old(self).client().output().sequence() < i64::MAX,
            r is Ok ==> client_sent(old(self).client(), body, final(self).client()),
            r is Err ==> (r matches Err(ServerError::SequenceExhausted)) && *final(self)
                == *old(self),
    {
        self.client.send(body)
    }

    /// Sends a response.
    pub fn respond(&mut self, response: Response) -> (r: Result<(), ServerError>)
        ensures
            final(self).state() == old(self).state(),
            r is Ok <==> old(self).client().output().sequence() < i64::MAX,
            r is Ok ==> client_sent(
                old(self).client(),
                Sendable::Response(response),
                final(self).client(),
            ),
            r is Err ==> (r matches Err(ServerError::SequenceExhausted)) && *final(self)
                == *old(self),
    {
        self.send(Sendable::Response(response))
    }

    /// Sends an event.
    pub fn send_event(&mut self, event: Event) -> (r: Result<(), ServerError>)
        ensures
            final(self).state() == old(self).state(),
            r is Ok <==> old(self).client().output().sequence() < i64::MAX,
            r is Ok ==> client_sent(
                old(self).client(),
                Sendable::Event(event),
                final(self).client(),
            ),
            r is Err ==> (r matches Err(ServerError::SequenceExhausted)) && *final(self)
                == *old(self),
    {
        self.send(Sendable::Event(event))
    }

    /// Sends a reverse request.
    pub fn send_reverse_request(&mut self, request: ReverseRequest) -> (r: Result<(), ServerError>)
        ensures
            final(self).state() == old(self).state(),
            r is Ok <==> old(self).client().output().sequence() < i64::MAX,
            r is Ok ==> client_sent(
                old(self).client(),
                Sendable::ReverseRequest(request),
                final(self).client(),
            ),
            r is Err ==> (r matches Err(ServerError::SequenceExhausted)) && *final(self)
                == *old(self),
    {
        self.send(Sendable::ReverseRequest(request))
    }

    /// Hands over the bytes sent so far, for the sink, and forgets them.
    pub fn take_output(&mut self) -> (r: Vec<u8>)
        ensures
            r@ == old(self).client().output().pending(),
            final(self).client().output().pending() == Seq::<u8>::empty(),
            final(self).client().output().sequence() == old(self).client().output().sequence(),
            final(self).client().exit_requested() == old(self).client().exit_requested(),
            final(self).state() == old(self).state(),
    {
        self.client.take_output()
    }
}

} // verus!

verus! {

/// What one `send` of `m` does: `after` is `before` with the next sequence number used and
/// the frame of `m`, numbered with it, appended.
pub open spec fn sent(before: ServerOutput, m: Sendable, after: ServerOutput) -> bool {
    after.sequence() == before.sequence() + 1 && after.pending() == before.pending() + frame(
        message_json(before.sequence() + 1, m),
    )
}

/// What one send of `m` through a client does: its output has sent `m`, and its exit flag
/// is as it was.
pub open spec fn client_sent(before: BasicClient, m: Sendable, after: BasicClient) -> bool {
    sent(before.output(), m, after.output()) && after.exit_requested() == before.exit_requested()
}

/// The frames of `msgs` in order, numbered `first`, `first + 1`, and so on.
pub open spec fn frames_numbered(first: int, msgs: Seq<Sendable>) -> Seq<u8>
    decreases msgs.len(),
{
    if msgs.len() == 0 {
        seq![]
    } else {
        frames_numbered(first, msgs.drop_last()) + frame(
            message_json(first + msgs.len() - 1, msgs.last()),
        )
    }
}

/// However the sends of a connection are interleaved, each one is a whole `send` on the one
/// output: so the stream holds one whole frame per message, in the order the sends took
/// effect, numbered 1, 2, ... without a gap or a repeat.
pub proof fn lemma_sends_numbered(states: Seq<ServerOutput>, msgs: Seq<Sendable>)
    requires
        states.len() == msgs.len() + 1,
        states[0].sequence() == 0,
        states[0].pending() == Seq::<u8>::empty(),
        forall|k: int| 0 <= k < msgs.len() ==> sent(#[trigger] states[k], msgs[k], states[k + 1]),
    ensures
        states.last().sequence() == msgs.len(),
        states.last().pending() == frames_numbered(1, msgs),
    decreases msgs.len(),
{
    if msgs.len() > 0 {
        let n = msgs.len() - 1;
        lemma_sends_numbered(states.drop_last(), msgs.drop_last());
        assert(msgs.drop_last() =~= msgs.subrange(0, n));
        assert(states.drop_last()[n] == states[n]);
        assert(sent(states[n], msgs[n], states[n + 1]));
    }
}

} // verus!
