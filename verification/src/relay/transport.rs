//! Lifting complete messages out of the stream a join reads.
//!
//! The socket reads and the framing decoder's call stay with the caller; what the
//! decoder's answer means for the buffered bytes is decided here.

use vstd::prelude::*;
use vstd::slice::slice_to_vec;

use crate::relay::buffer::ReceiveBuffer;
use crate::relay::core_abi::{decode_outcome, OpcRelayMessageHeader};
use crate::relay::records::{spec_check, RelayError, OPC_RELAY_NEED_MORE};

verus! {

#[verifier::external_type_specification]
#[verifier::external_body]
pub struct ExIoError(std::io::Error);

/// A complete relay message lifted out of the stream.
#[derive(Debug, Clone)]
pub struct Message {
    pub kind: u8,
    pub payload: Vec<u8>,
}

#[derive(Debug)]
pub enum TransportError {
    Io(std::io::Error),
    Relay(RelayError),
    Closed,
}

/// Takes the message the framing decoder located at the front of `buffer`, if it
/// located one: the payload is copied out and the message's bytes consumed. `status`
/// and `header` are the decoder's answer for exactly the unread bytes.
pub fn take_message(
    buffer: &mut ReceiveBuffer,
    status: i32,
    header: &OpcRelayMessageHeader,
) -> (res: Result<Option<Message>, TransportError>)
    requires
        old(buffer).wf(),
    ensures
        final(buffer).wf(),
        status == OPC_RELAY_NEED_MORE ==> (res matches Ok(None)) && final(buffer)@ == old(
            buffer,
        )@,
        status != OPC_RELAY_NEED_MORE && spec_check(status) is Err ==> (res matches Err(
            TransportError::Relay(error),
        ) && error == spec_check(status)->Err_0) && final(buffer)@ == old(buffer)@,
        status != OPC_RELAY_NEED_MORE && spec_check(status) is Ok ==> {
            let start = header.payload_offset as int;
            let end = start + header.payload_len as int;
            if end > old(buffer)@.len() || header.consumed as int > old(buffer)@.len() {
                &&& res matches Err(TransportError::Relay(error))
                &&& error == RelayError::Malformed
                &&& final(buffer)@ == old(buffer)@
            } else {
                &&& res matches Ok(Some(message))
                &&& message.kind == header.kind
                &&& message.payload@ == old(buffer)@.subrange(start, end)
                &&& final(buffer)@ == old(buffer)@.skip(header.consumed as int)
            }
        },
{
    let length = buffer.len();
    match decode_outcome(status, header, length) {
        Err(error) => Err(TransportError::Relay(error)),
        Ok(None) => Ok(None),
        Ok(Some(message)) => {
            let payload = slice_to_vec(&buffer.readable()[message.payload_start..message.payload_end]);
            buffer.consume(message.consumed);
            Ok(Some(Message { kind: message.kind, payload }))
        },
    }
}

} // verus!
