//! Length-prefixed framing: 4-byte big-endian length prefix followed by the
//! payload.
use vstd::prelude::*;
use vstd::string::StringExecFns;
use crate::decimal;

verus! {

/// Max message size: 1 MB.
pub const MAX_MESSAGE_SIZE: u32 = 1_048_576;

/// Why a message cannot be sent or received.
#[derive(Debug, PartialEq, Eq, Structural)]
pub enum TransportError {
    /// The message to be sent is too large.
    TooLarge { len: u64 },
    /// The length prefix announces a message that is too large.
    IncomingTooLarge { announced: u32 },
    /// The connection ended before the announced length was reached.
    CutShort,
}

/// The text of an error.
pub open spec fn error_text(error: TransportError) -> Seq<char> {
    match error {
        TransportError::TooLarge { len } => "message too large: "@ + decimal::decimal(len as nat)
            + " bytes (max "@ + decimal::decimal(MAX_MESSAGE_SIZE as nat) + ")"@,
        TransportError::IncomingTooLarge { announced } => "incoming message too large: "@
            + decimal::decimal(announced as nat) + " bytes (max "@ + decimal::decimal(
            MAX_MESSAGE_SIZE as nat,
        ) + ")"@,
        TransportError::CutShort => "failed to read message body"@,
    }
}

impl TransportError {
    /// The text of the error.
    pub fn message(&self) -> (message: String)
        ensures
            message@ == error_text(*self),
    {
        match self {
            TransportError::TooLarge { len } => {
                let mut out = "message too large: ".to_owned();
                out.append(decimal::decimal_text(*len).as_str());
                out.append(" bytes (max ");
                out.append(decimal::decimal_text(MAX_MESSAGE_SIZE as u64).as_str());
                out.append(")");
                out
            },
            TransportError::IncomingTooLarge { announced } => {
                let mut out = "incoming message too large: ".to_owned();
                out.append(decimal::decimal_text(*announced as u64).as_str());
                out.append(" bytes (max ");
                out.append(decimal::decimal_text(MAX_MESSAGE_SIZE as u64).as_str());
                out.append(")");
                out
            },
            TransportError::CutShort => "failed to read message body".to_owned(),
        }
    }
}

/// The four bytes of a number, the most significant first.
pub open spec fn prefix_of(n: u32) -> Seq<u8> {
    seq![
        (n / 0x100_0000) as u8,
        (n / 0x1_0000 % 0x100) as u8,
        (n / 0x100 % 0x100) as u8,
        (n % 0x100) as u8,
    ]
}

/// The number that four bytes stand for, the most significant first.
pub open spec fn number_of(prefix: Seq<u8>) -> int {
    prefix[0] * 0x100_0000 + prefix[1] * 0x1_0000 + prefix[2] * 0x100 + prefix[3]
}

/// The message in its frame.
pub open spec fn framed(data: Seq<u8>) -> Seq<u8> {
    prefix_of(data.len() as u32) + data
}

/// What is received from the bytes that arrive until the connection is closed:
/// no message where it is closed before a whole prefix is there.
pub open spec fn received(bytes: Seq<u8>) -> Result<Option<Seq<u8>>, TransportError> {
    if bytes.len() < 4 {
        Ok(None)
    } else {
        let len = number_of(bytes.take(4));
        if len > MAX_MESSAGE_SIZE {
            Err(TransportError::IncomingTooLarge { announced: len as u32 })
        } else if bytes.len() < 4 + len {
            Err(TransportError::CutShort)
        } else {
            Ok(Some(bytes.subrange(4, 4 + len)))
        }
    }
}

/// The frame of a message: what is written for it, length first.
pub fn send_message(data: &[u8]) -> (frame: Result<Vec<u8>, TransportError>)
    ensures
        match frame {
            Ok(frame) => data@.len() <= MAX_MESSAGE_SIZE && frame@ == framed(data@),
            Err(error) => data@.len() > MAX_MESSAGE_SIZE && error == (TransportError::TooLarge {
                len: data@.len() as u64,
            }),
        },
{
    if data.len() > MAX_MESSAGE_SIZE as usize {
        return Err(TransportError::TooLarge { len: data.len() as u64 });
    }
    let len: u32 = data.len() as u32;
    let mut frame: Vec<u8> = Vec::new();
    frame.push((len / 0x100_0000) as u8);
    frame.push((len / 0x1_0000 % 0x100) as u8);
    frame.push((len / 0x100 % 0x100) as u8);
    frame.push((len % 0x100) as u8);
    assert(frame@ =~= prefix_of(len));
    let mut i: usize = 0;
    while i < data.len()
        invariant
            i <= data.len(),
            frame@ == prefix_of(len) + data@.take(i as int),
        decreases data.len() - i,
    {
        frame.push(data[i]);
        assert(data@.take(i + 1) =~= data@.take(i as int).push(data@[i as int]));
        i += 1;
    }
    assert(data@.take(data@.len() as int) =~= data@);
    Ok(frame)
}

/// The length of the message that a prefix announces.
pub fn message_length(prefix: [u8; 4]) -> (length: Result<u32, TransportError>)
    ensures
        match length {
            Ok(len) => len <= MAX_MESSAGE_SIZE && len == number_of(prefix@),
            Err(error) => number_of(prefix@) > MAX_MESSAGE_SIZE && error == (
            TransportError::IncomingTooLarge { announced: number_of(prefix@) as u32 }),
        },
{
    let len: u32 = prefix[0] as u32 * 0x100_0000 + prefix[1] as u32 * 0x1_0000 + prefix[2] as u32
        * 0x100 + prefix[3] as u32;
    if len > MAX_MESSAGE_SIZE {
        return Err(TransportError::IncomingTooLarge { announced: len });
    }
    Ok(len)
}

/// The message in the bytes that arrive until the connection is closed.
/// `None` on clean EOF (connection closed).
pub fn recv_message(bytes: &[u8]) -> (message: Result<Option<Vec<u8>>, TransportError>)
    ensures
        match message {
            Ok(Some(data)) => received(bytes@) == Ok::<Option<Seq<u8>>, TransportError>(
                Some(data@),
            ),
            Ok(None) => received(bytes@) == Ok::<Option<Seq<u8>>, TransportError>(None),
            Err(error) => received(bytes@) == Err::<Option<Seq<u8>>, TransportError>(error),
        },
{
    if bytes.len() < 4 {
        return Ok(None);
    }
    let prefix: [u8; 4] = [bytes[0], bytes[1], bytes[2], bytes[3]];
    assert(prefix@ =~= bytes@.take(4));
    let len: usize = match message_length(prefix) {
        Ok(len) => len as usize,
        Err(error) => {
            return Err(error);
        },
    };
    if bytes.len() - 4 < len {
        return Err(TransportError::CutShort);
    }
    let mut data: Vec<u8> = Vec::new();
    let mut i: usize = 0;
    while i < len
        invariant
            i <= len,
            len + 4 <= bytes.len(),
            data@ == bytes@.subrange(4, 4 + i),
        decreases len - i,
    {
        data.push(bytes[4 + i]);
        i += 1;
    }
    Ok(Some(data))
}

/// What one side sends the other receives, whatever follows on the connection.
pub proof fn framing_round_trip(data: Seq<u8>, rest: Seq<u8>)
    requires
        data.len() <= MAX_MESSAGE_SIZE,
    ensures
        received(framed(data) + rest) == Ok::<Option<Seq<u8>>, TransportError>(Some(data)),
        framed(data).len() == data.len() + 4,
{
    let bytes = framed(data) + rest;
    let n = data.len() as u32;
    assert(bytes.take(4) =~= prefix_of(n));
    assert(number_of(prefix_of(n)) == n) by {
        assert((n / 0x100_0000) as u8 * 0x100_0000 + (n / 0x1_0000 % 0x100) as u8 * 0x1_0000 + (n
            / 0x100 % 0x100) as u8 * 0x100 + (n % 0x100) as u8 == n) by (bit_vector);
    }
    assert(bytes.subrange(4, 4 + data.len() as int) =~= data);
}

/// Different messages have different frames, and no frame starts with another.
pub proof fn framing_is_unambiguous(a: Seq<u8>, b: Seq<u8>)
    requires
        a.len() <= MAX_MESSAGE_SIZE,
        b.len() <= MAX_MESSAGE_SIZE,
        framed(a).is_prefix_of(framed(b)),
    ensures
        a == b,
{
    let rest = framed(b).skip(framed(a).len() as int);
    assert(framed(b) =~= framed(a) + rest);
    framing_round_trip(a, rest);
    framing_round_trip(b, seq![]);
    assert(framed(b) + seq![] =~= framed(b));
}

/// A connection that is closed within a frame delivers no message.
pub proof fn cut_frame_delivers_nothing(data: Seq<u8>, n: int)
    requires
        data.len() <= MAX_MESSAGE_SIZE,
        0 <= n < framed(data).len(),
    ensures
        received(framed(data).take(n)) == if n < 4 {
            Ok::<Option<Seq<u8>>, TransportError>(None)
        } else {
            Err(TransportError::CutShort)
        },
{
    let bytes = framed(data).take(n);
    framing_round_trip(data, seq![]);
    assert(framed(data) + seq![] =~= framed(data));
    if n >= 4 {
        assert(bytes.take(4) =~= framed(data).take(4));
        let whole = number_of(framed(data).take(4));
        assert(framed(data).subrange(4, 4 + whole).len() == whole);
    }
}

} // verus!
