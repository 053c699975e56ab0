//! A pub/sub event bus over a ring buffer, in the manner of the LMAX disruptor,
//! with the framing and connection bookkeeping of its network channels.
//!
//! Publishers claim sequence numbers from a [`Sequencer`] and overwrite the
//! oldest slot of the [`RingBuffer`]; subscribers read the events of their type
//! in order. Under [`WaitStrategy::AllSubscribers`] no event is overwritten
//! before every subscriber has read it.
use vstd::prelude::*;

pub mod channel;
pub mod connection;
pub mod event;
pub mod handshake;
pub mod laws;
pub mod publisher;
pub mod ring_buffer;
pub mod sequence;
pub mod sequencer;
pub mod stitch;
pub mod wait_strategy;

pub use channel::{channel_factory, sync_channel_factory};
pub use connection::{
    accept_step, hand_off_step, hand_off_step_with, poll_action, AcceptAction, AcceptEvent, HandOffPolicy, PollAction, Readiness,
    ReadyOutcome,
};
pub use event::{Event, EventEnvelope};
pub use handshake::{HandshakeRequest, HandshakeResponse, NodeFlags, Packet};
pub use publisher::{AsyncPublisher, FlushOutcome, PublishError};
pub use ring_buffer::{PublishOutcome, RingBuffer, RingBufferError, Subscriber};
pub use sequence::{Sequence, SequenceGroup};
pub use sequencer::{Claim, Sequencer, SequencerError};
pub use stitch::{StitchMessage, StreamDecoder};
pub use wait_strategy::WaitStrategy;

verus! {

} // verus!
