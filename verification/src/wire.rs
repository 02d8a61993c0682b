//! The client-to-server wire format.
//!
//! A frame is one header byte, the content, and the two-byte terminator
//! CR LF. The header `$` asks to register the content as a user name, the
//! header `#` carries a chat text. The content is UTF-8 and ends at the first
//! CR LF pair after the header.
use vstd::prelude::*;
use vstd::utf8::*;

verus! {

/// First byte of the frame terminator.
pub const CR: u8 = 0x0d;

/// Second byte of the frame terminator.
pub const LF: u8 = 0x0a;

/// Header byte of a registration request (`$`).
pub const HEADER_REQUEST: u8 = 0x24;

/// Header byte of a chat message (`#`).
pub const HEADER_MESSAGE: u8 = 0x23;

/// Why a byte window does not hold a frame.
#[derive(Debug, Clone, Copy, PartialEq, Eq, Structural)]
pub enum ParseError {
    /// The header byte is neither `$` nor `#`; the byte is carried along.
    UnexpectedHeader(u8),
    /// The window ends before a header and a CR LF pair were seen.
    FrameIncomplete,
    /// The content is not valid UTF-8.
    InvalidEncoding,
}

/// A decoded frame as a mathematical value: the text as a sequence of
/// characters.
pub enum MessageView {
    Request(Seq<char>),
    Message(Seq<char>),
    Close,
}

/// The pair CR LF stands at index `i` of `window`.
pub open spec fn terminator_at(window: Seq<u8>, i: int) -> bool {
    &&& 0 <= i
    &&& i + 1 < window.len()
    &&& window[i] == CR
    &&& window[i + 1] == LF
}

/// Some CR LF pair stands at or after index `from`.
pub open spec fn has_terminator(window: Seq<u8>, from: int) -> bool {
    exists|i: int| from <= i && #[trigger] terminator_at(window, i)
}

/// `end` is the index of the first CR LF pair at or after `from`.
pub open spec fn is_first_terminator(window: Seq<u8>, from: int, end: int) -> bool {
    &&& from <= end
    &&& terminator_at(window, end)
    &&& forall|j: int| from <= j < end ==> !#[trigger] terminator_at(window, j)
}

/// The index of the first CR LF pair at or after `from`, where there is one.
pub open spec fn first_terminator(window: Seq<u8>, from: int) -> int {
    choose|end: int| is_first_terminator(window, from, end)
}

/// The content that starts at `from`: the bytes up to the first terminator at
/// or after `from`, decoded as UTF-8.
pub open spec fn read_content(window: Seq<u8>, from: int) -> Result<Seq<char>, ParseError> {
    if !has_terminator(window, from) {
        Err(ParseError::FrameIncomplete)
    } else {
        let body = window.subrange(from, first_terminator(window, from));
        if valid_utf8(body) {
            Ok(decode_utf8(body))
        } else {
            Err(ParseError::InvalidEncoding)
        }
    }
}

/// Where the cursor stands after reading the content that starts at `from`:
/// behind the terminator where there is one, whether or not the content
/// decodes, and unmoved where there is none.
pub open spec fn cursor_after_content(window: Seq<u8>, from: int) -> int {
    if has_terminator(window, from) {
        first_terminator(window, from) + 2
    } else {
        from
    }
}

/// What the window holds at `pos`.
///
/// The terminator is looked for first, then the content is decoded, and the
/// header is judged last: a window without terminator is incomplete whatever
/// its header, and an unknown header is reported only for a frame that is
/// otherwise sound.
pub open spec fn parse_frame(window: Seq<u8>, pos: int) -> Result<MessageView, ParseError> {
    if pos < 0 || pos >= window.len() {
        Err(ParseError::FrameIncomplete)
    } else {
        match read_content(window, pos + 1) {
            Err(e) => Err(e),
            Ok(text) => if window[pos] == HEADER_REQUEST {
                Ok(MessageView::Request(text))
            } else if window[pos] == HEADER_MESSAGE {
                Ok(MessageView::Message(text))
            } else {
                Err(ParseError::UnexpectedHeader(window[pos]))
            },
        }
    }
}

/// Where the cursor stands after an attempt to parse at `pos`: unmoved where
/// there is no header byte, behind the header where no terminator follows,
/// and else behind the terminator, whether or not the frame was accepted.
pub open spec fn cursor_after(window: Seq<u8>, pos: int) -> int {
    if pos < 0 || pos >= window.len() {
        pos
    } else {
        cursor_after_content(window, pos + 1)
    }
}

/// The first terminator is unique: whatever index meets
/// `is_first_terminator` is the one that `first_terminator` names.
pub proof fn lemma_first_terminator_is(window: Seq<u8>, from: int, end: int)
    requires
        is_first_terminator(window, from, end),
    ensures
        has_terminator(window, from),
        first_terminator(window, from) == end,
{
    let chosen = first_terminator(window, from);
    assert(is_first_terminator(window, from, chosen));
    if chosen < end {
        assert(!terminator_at(window, chosen));
    } else if end < chosen {
        assert(!terminator_at(window, end));
    }
}

/// What a window holds where a frame is laid out in it: where `before` is
/// followed by a header byte, a body without a CR LF pair of its own, CR LF
/// and anything else, parsing at the header ends behind that terminator,
/// whatever follows it. A body that is not UTF-8 is an encoding error
/// whatever the header; a sound body under an unknown header is rejected
/// with that header; and under `$` or `#` the decoded body comes out.
pub proof fn lemma_parse_laid_out(before: Seq<u8>, header: u8, body: Seq<u8>, rest: Seq<u8>)
    requires
        !has_terminator(body, 0),
    ensures
        ({
            let window = before + seq![header] + body + seq![CR, LF] + rest;
            let pos = before.len() as int;
            &&& parse_frame(window, pos) == (if !valid_utf8(body) {
                Err::<MessageView, ParseError>(ParseError::InvalidEncoding)
            } else if header == HEADER_REQUEST {
                Ok(MessageView::Request(decode_utf8(body)))
            } else if header == HEADER_MESSAGE {
                Ok(MessageView::Message(decode_utf8(body)))
            } else {
                Err(ParseError::UnexpectedHeader(header))
            })
            &&& cursor_after(window, pos) == pos + 1 + body.len() + 2
        }),
{
    let window = before + seq![header] + body + seq![CR, LF] + rest;
    let pos = before.len() as int;
    let from = pos + 1;
    let end = from + body.len();
    assert(window[pos] == header);
    assert(window[end] == CR);
    assert(window[end + 1] == LF);
    assert forall|j: int| from <= j < end implies !#[trigger] terminator_at(window, j) by {
        assert(window[j] == body[j - from]);
        if j + 1 < end {
            assert(window[j + 1] == body[j + 1 - from]);
            assert(!terminator_at(body, j - from));
        }
    }
    lemma_first_terminator_is(window, from, end);
    assert(window.subrange(from, end) =~= body);
}

/// A frame that is written out is read back: where the body is the UTF-8
/// encoding of `text` and holds no CR LF pair, parsing gives `text` under
/// the header `$` or `#`.
pub proof fn lemma_parse_framed(before: Seq<u8>, header: u8, text: Seq<char>, rest: Seq<u8>)
    requires
        !has_terminator(encode_utf8(text), 0),
        header == HEADER_REQUEST || header == HEADER_MESSAGE,
    ensures
        ({
            let window = before + seq![header] + encode_utf8(text) + seq![CR, LF] + rest;
            let pos = before.len() as int;
            &&& parse_frame(window, pos) == (if header == HEADER_REQUEST {
                Ok::<MessageView, ParseError>(MessageView::Request(text))
            } else {
                Ok(MessageView::Message(text))
            })
            &&& cursor_after(window, pos) == pos + 1 + encode_utf8(text).len() + 2
        }),
{
    encode_utf8_valid_utf8(text);
    encode_utf8_decode_utf8(text);
    lemma_parse_laid_out(before, header, encode_utf8(text), rest);
}

/// A window without any CR LF pair holds no frame, whatever its header.
pub proof fn lemma_parse_unterminated(window: Seq<u8>, pos: int)
    requires
        !has_terminator(window, 0),
    ensures
        parse_frame(window, pos) matches Err(ParseError::FrameIncomplete),
{
    if has_terminator(window, pos + 1) {
        let i = choose|i: int| pos + 1 <= i && #[trigger] terminator_at(window, i);
        assert(0 <= i && terminator_at(window, i));
    }
}

} // verus!
