//! Messages on a connection.
use vstd::prelude::*;
use crate::transport;
use crate::transport::TransportError;

verus! {

/// A message of up to a megabyte is sent as its length, in four bytes with the
/// most significant first, and the message itself. A longer one is refused.
pub proof fn message_goes_out_behind_its_length(
    data: &[u8],
    frame: Result<Vec<u8>, TransportError>,
)
    requires
        call_ensures(transport::send_message, (data,), frame),
    ensures
        data@.len() <= 1_048_576 ==> (frame matches Ok(bytes) && {
            &&& bytes@.len() == data@.len() + 4
            &&& bytes@[0] * 16_777_216 + bytes@[1] * 65_536 + bytes@[2] * 256 + bytes@[3]
                == data@.len()
            &&& bytes@.skip(4) == data@
        }),
        data@.len() > 1_048_576 ==> (frame matches Err(error) && error is TooLarge),
{
    if data@.len() <= 1_048_576 {
        let bytes = frame->Ok_0;
        let n = data@.len() as u32;
        assert((n / 0x100_0000) as u8 * 0x100_0000 + (n / 0x1_0000 % 0x100) as u8 * 0x1_0000 + (n
            / 0x100 % 0x100) as u8 * 0x100 + (n % 0x100) as u8 == n) by (bit_vector);
        assert(bytes@.skip(4) =~= data@);
    }
}

/// A length is read from four bytes, the most significant first, and refused
/// where it is more than a megabyte.
pub proof fn length_is_read_from_four_bytes(
    prefix: [u8; 4],
    length: Result<u32, TransportError>,
)
    requires
        call_ensures(transport::message_length, (prefix,), length),
    ensures
        ({
            let n = prefix@[0] * 16_777_216 + prefix@[1] * 65_536 + prefix@[2] * 256 + prefix@[3];
            &&& n <= 1_048_576 ==> (length matches Ok(len) && len == n)
            &&& n > 1_048_576 ==> (length matches Err(error) && error is IncomingTooLarge)
        }),
{
}

/// What one side sends the other receives, whatever follows it.
pub proof fn what_is_sent_is_received(
    data: &[u8],
    frame: Vec<u8>,
    arrived: &[u8],
    message: Result<Option<Vec<u8>>, TransportError>,
)
    requires
        call_ensures(transport::send_message, (data,), Ok(frame)),
        arrived@.len() >= frame@.len(),
        arrived@.take(frame@.len() as int) == frame@,
        call_ensures(transport::recv_message, (arrived,), message),
    ensures
        message matches Ok(Some(received)) && received@ == data@,
{
    let rest = arrived@.skip(frame@.len() as int);
    assert(arrived@ =~= frame@ + rest);
    transport::framing_round_trip(data@, rest);
}

/// A connection that ends before a whole length has arrived brings no message;
/// one that ends within a message brings an error.
pub proof fn cut_off_message_is_not_received(
    data: &[u8],
    frame: Vec<u8>,
    arrived: &[u8],
    message: Result<Option<Vec<u8>>, TransportError>,
)
    requires
        call_ensures(transport::send_message, (data,), Ok(frame)),
        arrived@.len() < frame@.len(),
        arrived@ == frame@.take(arrived@.len() as int),
        call_ensures(transport::recv_message, (arrived,), message),
    ensures
        arrived@.len() < 4 ==> message == Ok::<Option<Vec<u8>>, TransportError>(None),
        arrived@.len() >= 4 ==> (message matches Err(error) && error is CutShort),
{
    transport::cut_frame_delivers_nothing(data@, arrived@.len() as int);
}

} // verus!
