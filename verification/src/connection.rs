//! One client's side of the protocol: decoding a frame from the bytes of one
//! read and holding the registration state.
use vstd::prelude::*;
use vstd::utf8::*;
use bytes::Buf;
use crate::wire::{
    cursor_after, cursor_after_content, has_terminator, lemma_first_terminator_is, parse_frame,
    read_content, terminator_at, MessageView, ParseError, CR, HEADER_MESSAGE, HEADER_REQUEST, LF,
};

verus! {

/// The capacity of the buffer for one read. A frame has to arrive within one
/// read, so a frame is at most this long, header and terminator included.
pub const BUF_SIZE: usize = 512;

/// A message received from a client.
#[derive(Debug, Clone, PartialEq, Eq)]
pub enum Message {
    /// The client asks to register under this user name.
    Request(String),
    /// A chat text.
    Message(String),
    /// The client closed the stream.
    Close,
}

impl View for Message {
    type V = MessageView;

    open spec fn view(&self) -> MessageView {
        match self {
            Message::Request(name) => MessageView::Request(name@),
            Message::Message(text) => MessageView::Message(text@),
            Message::Close => MessageView::Close,
        }
    }
}

/// The outcome of an operation that gives a message, with the message as a
/// mathematical value.
pub open spec fn outcome_view<E>(outcome: Result<Message, E>) -> Result<MessageView, E> {
    match outcome {
        Ok(message) => Ok(message@),
        Err(e) => Err(e),
    }
}

/// Reads the byte under the cursor with `bytes::Buf::get_u8`, on a
/// `std::io::Cursor` over the window. `get_u8` returns the first of the
/// remaining bytes and advances the position by one; it panics where nothing
/// remains, which the precondition excludes.
#[verifier::external_body]
fn get_u8(window: &[u8], cursor: &mut usize) -> (byte: u8)
    requires
        *old(cursor) < window@.len(),
    ensures
        byte == window@[*old(cursor) as int],
        *final(cursor) == *old(cursor) + 1,
{
    let mut reader = std::io::Cursor::new(window);
    reader.set_position(*cursor as u64);
    let byte = reader.get_u8();
    *cursor = reader.position() as usize;
    byte
}

/// Converts bytes with `std::str::from_utf8`, which succeeds exactly on
/// valid UTF-8 and then hands back a string slice made of the same bytes.
/// `None` stands for its error.
#[verifier::external_body]
fn from_utf8<'a>(bytes: &'a [u8]) -> (text: Option<&'a str>)
    ensures
        text is Some <==> valid_utf8(bytes@),
        text is Some ==> encode_utf8(text->Some_0@) == bytes@,
{
    match std::str::from_utf8(bytes) {
        Ok(text) => Some(text),
        Err(_) => None,
    }
}

/// How a frame can break the registration protocol.
#[derive(Debug, Clone, Copy, PartialEq, Eq, Structural)]
pub enum Violation {
    /// A registration request on a connection that is registered already.
    DuplicateRegister,
    /// A chat message on a connection that has not registered.
    ChatBeforeRegister,
}

impl Violation {
    /// The violation in words.
    pub fn reason(&self) -> (text: &'static str)
        ensures
            text@ == (match *self {
                Violation::DuplicateRegister => "duplicate register"@,
                Violation::ChatBeforeRegister => "chat before register"@,
            }),
    {
        match self {
            Violation::DuplicateRegister => "duplicate register",
            Violation::ChatBeforeRegister => "chat before register",
        }
    }
}

/// Why a read gave no event.
#[derive(Debug, Clone, Copy, PartialEq, Eq, Structural)]
pub enum ConnectionError {
    /// The bytes do not hold a frame.
    Frame(ParseError),
    /// The frame is well formed but not allowed in the connection's state.
    ProtocolViolation(Violation),
}

/// A connection with a client: the id under which the pool holds it, and the
/// user name once the client has registered. A connection starts
/// unregistered, registers at most once and never goes back.
#[derive(Debug, Clone, PartialEq, Eq)]
pub struct Connection {
    pub id: usize,
    pub username: Option<String>,
}

/// A connection as a mathematical value.
pub struct ConnectionView {
    pub id: usize,
    pub username: Option<Seq<char>>,
}

impl View for Connection {
    type V = ConnectionView;

    open spec fn view(&self) -> ConnectionView {
        ConnectionView {
            id: self.id,
            username: match self.username {
                Some(name) => Some(name@),
                None => None,
            },
        }
    }
}

/// What one read means before the connection's state is consulted: no bytes
/// are the end of the stream, any bytes are parsed as one frame from the
/// start of the window.
pub open spec fn decode(data: Seq<u8>) -> Result<MessageView, ParseError> {
    if data.len() == 0 {
        Ok(MessageView::Close)
    } else {
        parse_frame(data, 0)
    }
}

impl ConnectionView {
    /// The connection has registered a user name.
    pub open spec fn registered(self) -> bool {
        self.username is Some
    }

    /// The verdict of the registration state machine on a frame: a request
    /// is accepted only before registration, a chat message only after it,
    /// and the end of the stream always.
    pub open spec fn judge(self, frame: MessageView) -> Result<MessageView, ConnectionError> {
        match frame {
            MessageView::Request(_) => if self.registered() {
                Err(ConnectionError::ProtocolViolation(Violation::DuplicateRegister))
            } else {
                Ok(frame)
            },
            MessageView::Message(_) => if self.registered() {
                Ok(frame)
            } else {
                Err(ConnectionError::ProtocolViolation(Violation::ChatBeforeRegister))
            },
            MessageView::Close => Ok(frame),
        }
    }

    /// The connection after a frame: an accepted request stores its name,
    /// everything else leaves the connection as it was.
    pub open spec fn after(self, frame: MessageView) -> ConnectionView {
        match frame {
            MessageView::Request(name) if !self.registered() => ConnectionView {
                id: self.id,
                username: Some(name),
            },
            _ => self,
        }
    }

    /// The event that one read of `data` gives on this connection.
    pub open spec fn read(self, data: Seq<u8>) -> Result<MessageView, ConnectionError> {
        match decode(data) {
            Ok(frame) => self.judge(frame),
            Err(e) => Err(ConnectionError::Frame(e)),
        }
    }

    /// The connection after one read of `data`.
    pub open spec fn after_read(self, data: Seq<u8>) -> ConnectionView {
        match decode(data) {
            Ok(frame) => self.after(frame),
            Err(_) => self,
        }
    }
}

/// The registration state machine: a connection keeps its id, registers at
/// most once and never goes back; only an unregistered connection gets a
/// request through and only a registered one a chat message; an accepted
/// frame is handed on as it came, and a refused one changes nothing.
pub proof fn lemma_registration(connection: ConnectionView, frame: MessageView)
    ensures
        connection.after(frame).id == connection.id,
        connection.registered() ==> connection.after(frame) == connection,
        connection.after(frame).registered() <==> connection.registered() || frame is Request,
        connection.judge(frame) matches Ok(accepted) ==> accepted == frame,
        connection.judge(frame) is Err ==> connection.after(frame) == connection,
        frame is Request ==> (connection.judge(frame) is Ok <==> !connection.registered()),
        frame is Message ==> (connection.judge(frame) is Ok <==> connection.registered()),
        frame is Close ==> connection.judge(frame) is Ok,
{
}

/// A read that is refused, and one that reports the end of the stream,
/// leave the connection as it was; any read leaves it its id.
pub proof fn lemma_read_keeps(connection: ConnectionView, data: Seq<u8>)
    ensures
        connection.after_read(data).id == connection.id,
        connection.read(data) is Err ==> connection.after_read(data) == connection,
        connection.read(data) matches Ok(MessageView::Close) ==> connection.after_read(data)
            == connection,
        data.len() == 0 ==> connection.read(data) matches Ok(MessageView::Close),
{
}

impl Connection {
    /// A fresh, unregistered connection under the given id.
    pub fn new(id: usize) -> (connection: Connection)
        ensures
            connection@ == (ConnectionView { id, username: None }),
    {
        Connection { id, username: None }
    }

    /// Handles what one read from the client's stream delivered. `data` is
    /// the filled part of the read buffer; it is empty when the peer has
    /// closed the stream. The bytes are parsed as one frame and the frame is
    /// held against the registration state.
    pub fn handle_read(&mut self, data: &[u8]) -> (event: Result<Message, ConnectionError>)
        ensures
            final(self)@ == old(self)@.after_read(data@),
            outcome_view(event) == old(self)@.read(data@),
    {
        if data.len() == 0 {
            return Ok(Message::Close);
        }
        let mut cursor: usize = 0;
        match Connection::parse_message(data, &mut cursor) {
            Ok(frame) => self.check_protocol(frame),
            Err(e) => Err(ConnectionError::Frame(e)),
        }
    }

    /// Holds a decoded frame against the registration state: accepts it and
    /// hands it back as the event, storing the user name of an accepted
    /// request, or rejects it and leaves the connection as it was.
    pub fn check_protocol(&mut self, frame: Message) -> (event: Result<Message, ConnectionError>)
        ensures
            final(self)@ == old(self)@.after(frame@),
            outcome_view(event) == old(self)@.judge(frame@),
            event is Ok ==> event->Ok_0 == frame,
    {
        match &frame {
            Message::Request(name) => {
                if self.username.is_none() {
                    self.username = Some(name.clone());
                } else {
                    return Err(ConnectionError::ProtocolViolation(Violation::DuplicateRegister));
                }
            },
            Message::Message(_) => {
                if self.username.is_none() {
                    return Err(ConnectionError::ProtocolViolation(Violation::ChatBeforeRegister));
                }
            },
            Message::Close => {},
        }
        Ok(frame)
    }

    /// Reads the content that starts under the cursor: scans for the first
    /// CR LF pair, moves the cursor behind it and decodes what lies before it.
    fn read_until_clrf<'a>(window: &'a [u8], cursor: &mut usize) -> (content: Result<
        &'a str,
        ParseError,
    >)
        requires
            *old(cursor) <= window@.len(),
        ensures
            *final(cursor) == cursor_after_content(window@, *old(cursor) as int),
            match content {
                Ok(text) => Ok(text@),
                Err(e) => Err(e),
            } == read_content(window@, *old(cursor) as int),
    {
        let start: usize = *cursor;
        let len: usize = window.len();
        let mut end: usize = start;
        while len - end >= 2
            invariant
                start <= end <= len,
                len == window@.len(),
                start == *cursor,
                start == *old(cursor),
                forall|j: int| start <= j < end ==> !#[trigger] terminator_at(window@, j),
            decreases len - end,
        {
            if window[end] == CR && window[end + 1] == LF {
                proof {
                    lemma_first_terminator_is(window@, start as int, end as int);
                }
                *cursor = end + 2;
                return match from_utf8(&window[start..end]) {
                    Some(text) => {
                        proof {
                            encode_utf8_decode_utf8(text@);
                        }
                        Ok(text)
                    },
                    None => Err(ParseError::InvalidEncoding),
                };
            }
            end = end + 1;
        }
        assert(!has_terminator(window@, start as int)) by {
            if has_terminator(window@, start as int) {
                let i = choose|i: int| start <= i && #[trigger] terminator_at(window@, i);
                assert(i < end);
            }
        }
        Err(ParseError::FrameIncomplete)
    }

    /// Parses one frame from `window` at the cursor and moves the cursor:
    /// behind the frame's terminator where one was found, behind the header
    /// where none follows it, and not at all where the window has no byte
    /// under the cursor.
    pub fn parse_message(window: &[u8], cursor: &mut usize) -> (frame: Result<Message, ParseError>)
        ensures
            *final(cursor) == cursor_after(window@, *old(cursor) as int),
            outcome_view(frame) == parse_frame(window@, *old(cursor) as int),
    {
        if *cursor >= window.len() {
            return Err(ParseError::FrameIncomplete);
        }
        let header: u8 = get_u8(window, cursor);
        let content: String = match Connection::read_until_clrf(window, cursor) {
            Ok(text) => text.to_string(),
            Err(e) => {
                return Err(e);
            },
        };
        if header == HEADER_REQUEST {
            Ok(Message::Request(content))
        } else if header == HEADER_MESSAGE {
            Ok(Message::Message(content))
        } else {
            Err(ParseError::UnexpectedHeader(header))
        }
    }
}

} // verus!
