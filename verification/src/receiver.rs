//! The receiving side of the pipeline: turning one complete wire block into
//! a frame in the back slot, the serial accept/read loop as an explicit
//! state machine, and the consumer's non-blocking poll that swaps, reads and
//! decodes the latest frame.

use vstd::prelude::*;

use crate::buffer::swapped;
use crate::buffer::DoubleBuffer;
use crate::decode::be_samples;
use crate::decode::decode_frame;
use crate::decode::pixel_color;
use crate::decode::DecodedImage;
use crate::FRAME_BYTES;
use crate::HEIGHT;
use crate::SAMPLE_COUNT;
use crate::TELEMETRY_LENGTH;
use crate::TOTAL_BLOCK_BYTES;
use crate::WIDTH;

verus! {

/// The thermal payload of one wire block: everything after the telemetry
/// header.
pub open spec fn block_payload(block: Seq<u8>) -> Seq<u8> {
    block.subrange(TELEMETRY_LENGTH as int, block.len() as int)
}

/// Consumes one complete block: strips the leading telemetry header and
/// writes the thermal payload into the buffer's back slot. The front slot is
/// untouched, so a concurrent reader never sees a partial frame.
pub fn ingest_block(buf: &mut DoubleBuffer, block: &[u8])
    requires
        block@.len() == TOTAL_BLOCK_BYTES,
    ensures
        final(buf)@.back == block_payload(block@),
        final(buf)@.front == old(buf)@.front,
{
    let payload = block_tail(block);
    buf.write_back(payload);
}

/// Borrows the thermal payload that follows the telemetry header.
fn block_tail(block: &[u8]) -> (payload: &[u8])
    requires
        block@.len() == TOTAL_BLOCK_BYTES,
    ensures
        payload@ == block_payload(block@),
        payload@.len() == FRAME_BYTES,
{
    let (_, payload) = block.split_at(TELEMETRY_LENGTH);
    payload
}

/// Where the receive loop stands: waiting for a connection, or reading
/// blocks from the one accepted connection.
#[derive(Clone, Copy, PartialEq, Eq, Debug)]
pub enum ReceiverState {
    Accepting,
    Connected,
}

/// What the outside world reported to the receive loop.
#[derive(Clone, Copy, PartialEq, Eq, Debug)]
pub enum ReceiverEvent {
    ConnectionAccepted,
    BlockRead,
    ReadEnded,
}

/// What the loop must do next.
#[derive(Clone, Copy, PartialEq, Eq, Debug)]
pub enum ReceiverAction {
    AwaitConnection,
    AwaitBlock,
    PublishFrame,
}

/// The receive loop's transition table. Connections are handled serially: a
/// complete block is published and the loop keeps reading; a failed or short
/// read closes the connection and the loop accepts the next one.
pub open spec fn receiver_step_spec(state: ReceiverState, event: ReceiverEvent) -> (
    ReceiverState,
    ReceiverAction,
) {
    match (state, event) {
        (ReceiverState::Accepting, ReceiverEvent::ConnectionAccepted) => (
            ReceiverState::Connected,
            ReceiverAction::AwaitBlock,
        ),
        (ReceiverState::Accepting, _) => (ReceiverState::Accepting, ReceiverAction::AwaitConnection),
        (ReceiverState::Connected, ReceiverEvent::BlockRead) => (
            ReceiverState::Connected,
            ReceiverAction::PublishFrame,
        ),
        (ReceiverState::Connected, ReceiverEvent::ReadEnded) => (
            ReceiverState::Accepting,
            ReceiverAction::AwaitConnection,
        ),
        (ReceiverState::Connected, ReceiverEvent::ConnectionAccepted) => (
            ReceiverState::Connected,
            ReceiverAction::AwaitBlock,
        ),
    }
}

/// Advances the receive loop by one event.
pub fn receiver_step(state: ReceiverState, event: ReceiverEvent) -> (r: (
    ReceiverState,
    ReceiverAction,
))
    ensures
        r == receiver_step_spec(state, event),
{
    match (state, event) {
        (ReceiverState::Accepting, ReceiverEvent::ConnectionAccepted) => (
            ReceiverState::Connected,
            ReceiverAction::AwaitBlock,
        ),
        (ReceiverState::Accepting, _) => (ReceiverState::Accepting, ReceiverAction::AwaitConnection),
        (ReceiverState::Connected, ReceiverEvent::BlockRead) => (
            ReceiverState::Connected,
            ReceiverAction::PublishFrame,
        ),
        (ReceiverState::Connected, ReceiverEvent::ReadEnded) => (
            ReceiverState::Accepting,
            ReceiverAction::AwaitConnection,
        ),
        (ReceiverState::Connected, ReceiverEvent::ConnectionAccepted) => (
            ReceiverState::Connected,
            ReceiverAction::AwaitBlock,
        ),
    }
}

/// Law: a connection that ends early never wedges the loop; after any failed
/// or short read the receiver is back to accepting the next connection.
pub proof fn lemma_short_read_recovers(state: ReceiverState)
    ensures
        receiver_step_spec(state, ReceiverEvent::ReadEnded).0 is Accepting,
{
}

/// The consumer's non-blocking poll. When a frame is ready it swaps the
/// buffer, so the producer's last complete frame becomes the front slot,
/// and decodes that frame; when nothing is ready it leaves the buffer alone
/// and returns nothing.
pub fn try_take_ready_frame(buf: &mut DoubleBuffer, ready: bool) -> (img: Option<DecodedImage>)
    requires
        old(buf).wf(),
    ensures
        ready ==> final(buf)@ == swapped(old(buf)@),
        !ready ==> final(buf)@ == old(buf)@,
        img is Some <==> ready,
        ready ==> (img matches Some(d) && d.width == WIDTH && d.height == HEIGHT
            && d.pixels@.len() == SAMPLE_COUNT && forall|k: int|
            0 <= k < SAMPLE_COUNT ==> d.pixels@[k] == pixel_color(
                be_samples(old(buf)@.back),
                k,
            )),
{
    if !ready {
        return None;
    }
    buf.swap();
    let frame = buf.read_front();
    let img = decode_frame(frame.as_slice());
    Some(img)
}

} // verus!
