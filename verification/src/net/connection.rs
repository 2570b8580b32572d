//! The frames of the channel between the players, and the password exchange
//! that opens it.
//!
//! A frame is a length of four bytes, highest byte first, followed by that
//! many bytes of payload. When a connection is made the client sends the
//! password; the host answers that it is correct, or answers with an error
//! and waits for another connection.

use crate::net::message::Message;
use crate::utils::result::Er;
use vstd::prelude::*;

verus! {

/// The number of bytes of a frame's length.
pub const HEADER_BYTES: usize = 4;

/// The four bytes of `length`, the highest first.
pub open spec fn header_of(length: int) -> Seq<u8> {
    seq![
        (length / 0x100_0000 % 0x100) as u8,
        (length / 0x1_0000 % 0x100) as u8,
        (length / 0x100 % 0x100) as u8,
        (length % 0x100) as u8,
    ]
}

/// The number that four bytes stand for, the highest first.
pub open spec fn length_of(header: Seq<u8>) -> int {
    ((header[0] * 0x100 + header[1]) * 0x100 + header[2]) * 0x100 + header[3]
}

/// The frame that carries `payload`.
pub open spec fn frame_of(payload: Seq<u8>) -> Seq<u8> {
    header_of(payload.len() as int) + payload
}

/// The length that a header stands for is the length it was made of.
pub proof fn lemma_header_round_trip(length: int)
    requires
        0 <= length <= u32::MAX,
    ensures
        header_of(length).len() == HEADER_BYTES,
        length_of(header_of(length)) == length,
{
}

/// A frame begins with the length of its payload and goes on with the
/// payload itself.
pub proof fn lemma_frame_round_trip(payload: Seq<u8>)
    requires
        payload.len() <= u32::MAX,
    ensures
        frame_of(payload).len() == HEADER_BYTES + payload.len(),
        length_of(frame_of(payload).take(HEADER_BYTES as int)) == payload.len(),
        frame_of(payload).skip(HEADER_BYTES as int) == payload,
{
    lemma_header_round_trip(payload.len() as int);
    assert(frame_of(payload).take(HEADER_BYTES as int) =~= header_of(payload.len() as int));
    assert(frame_of(payload).skip(HEADER_BYTES as int) =~= payload);
}

/// The four bytes that announce a payload of `length` bytes.
pub fn encode_header(length: u32) -> (header: [u8; 4])
    ensures
        header@ == header_of(length as int),
{
    let header = [
        (length / 0x100_0000) as u8,
        (length / 0x1_0000 % 0x100) as u8,
        (length / 0x100 % 0x100) as u8,
        (length % 0x100) as u8,
    ];
    assert(header@ =~= header_of(length as int));
    header
}

/// The number of payload bytes that `header` announces.
pub fn decode_header(header: &[u8; 4]) -> (length: u32)
    ensures
        length == length_of(header@),
{
    ((header[0] as u32 * 0x100 + header[1] as u32) * 0x100 + header[2] as u32) * 0x100
        + header[3] as u32
}

/// The frame that carries `payload`, or nothing if the payload is too long
/// for its length to be written in four bytes.
pub fn encode_frame(payload: &Vec<u8>) -> (frame: Option<Vec<u8>>)
    ensures
        frame is Some <==> payload.len() <= u32::MAX,
        frame matches Some(bytes) ==> bytes@ == frame_of(payload@),
{
    if payload.len() > u32::MAX as usize {
        return None;
    }
    let header = encode_header(payload.len() as u32);
    let mut frame: Vec<u8> = Vec::new();
    let mut i: usize = 0;
    while i < 4
        invariant
            i <= 4,
            frame@ == header@.take(i as int),
        decreases 4 - i,
    {
        frame.push(header[i]);
        assert(header@.take(i as int + 1) =~= header@.take(i as int).push(header@[i as int]));
        i += 1;
    }
    assert(header@.take(4) =~= header@);
    let mut j: usize = 0;
    while j < payload.len()
        invariant
            j <= payload.len(),
            frame@ == header@ + payload@.take(j as int),
        decreases payload.len() - j,
    {
        frame.push(payload[j]);
        assert(payload@.take(j as int + 1) =~= payload@.take(j as int).push(payload@[j as int]));
        assert(frame@ =~= header@ + payload@.take(j as int + 1));
        j += 1;
    }
    assert(payload@.take(payload.len() as int) =~= payload@);
    Some(frame)
}

/// What becomes of a message that was received: an error of the other
/// player is our error, with their text; anything else is handed on.
pub fn accept_message<T>(message: Message<T>) -> (r: Result<Message<T>, Er>)
    ensures
        match message {
            Message::Error { sender, info } => r matches Err(er) && er.message == info,
            _ => r == Ok::<Message<T>, Er>(message),
        },
{
    match message {
        Message::Error { sender, info } => Err(Er { message: info }),
        other => Ok(other),
    }
}

/// The name under which the host signs its messages.
pub open spec fn host_name() -> Seq<char> {
    "HOST"@
}

/// The name under which the client signs its messages.
pub open spec fn client_name() -> Seq<char> {
    "CLIENT"@
}

/// Whether `message` is a remark whose text is the password.
pub open spec fn carries_password<T>(message: Message<T>, passwd: Seq<char>) -> bool {
    message matches Message::Info { sender, info } && info@ == passwd
}

/// The host's answer to the first message of a connection, and whether the
/// connection is kept: only a remark whose text is the password is answered
/// with a remark and kept; anything else is answered with an error and
/// dropped.
pub fn host_reply<T>(received: &Message<T>, passwd: &str) -> (r: (Message<T>, bool))
    ensures
        r.1 == carries_password(*received, passwd@),
        r.1 ==> (r.0 matches Message::Info { sender, info } && sender@ == host_name() && info@
            == "Password is correct"@),
        !r.1 ==> (r.0 matches Message::Error { sender, info } && sender@ == host_name() && info@
            == "Incorrect password"@),
{
    let correct = match received {
        Message::Info { sender, info } => *info == passwd.to_owned(),
        _ => false,
    };
    if correct {
        (Message::Info { sender: "HOST".to_owned(), info: "Password is correct".to_owned() }, true)
    } else {
        (Message::Error { sender: "HOST".to_owned(), info: "Incorrect password".to_owned() }, false)
    }
}

/// The message with which the client opens a connection: a remark whose
/// text is the password.
pub fn client_greeting<T>(passwd: &str) -> (greeting: Message<T>)
    ensures
        greeting matches Message::Info { sender, info } && sender@ == client_name() && info@
            == passwd@,
        carries_password(greeting, passwd@),
{
    Message::Info { sender: "CLIENT".to_owned(), info: passwd.to_owned() }
}

/// What the host's answer means to the client: a remark opens the game, an
/// error is the client's error with the host's text, and anything else is
/// an invalid response.
pub fn client_verdict<T>(reply: &Message<T>) -> (r: Result<(), Er>)
    ensures
        match *reply {
            Message::Info { sender, info } => r is Ok,
            Message::Error { sender, info } => r matches Err(er) && er.message@ == info@,
            Message::Value(_) => r matches Err(er) && er.message@ == "Invalid response"@,
        },
{
    match reply {
        Message::Info { sender, info } => Ok(()),
        Message::Error { sender, info } => Err(Er { message: info.clone() }),
        Message::Value(_) => Err(Er::new("Invalid response")),
    }
}

} // verus!
