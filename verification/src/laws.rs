//! What holds of the event bus across its operations.
use vstd::prelude::*;
use crate::event::Event;
use crate::ring_buffer::{lemma_resume_point, recv_outcome, resume_point, tag_of, RingBuffer};
use crate::sequence::max_of;
use crate::sequencer::{claim_is_safe, claim_outcome, Sequencer};
use crate::stitch::{
    cuts_are_stable, frames, high_bytes, is_encoding_of, lemma_payload_encoding_len,
    msgpack_array_header, msgpack_frame, msgpack_pair, msgpack_uint,
};
use crate::wait_strategy::WaitStrategy;

verus! {

/// An event just published is in the ring under the newest sequence number, with
/// its type tag and payload: reading that number back gives the payload.
pub proof fn law_read_after_publish<T>(pre: RingBuffer<T>, post: RingBuffer<T>, type_id: u64, message: T)
    requires
        post.wf(),
        post.log() == pre.log().push(Event { type_id, data: message }),
    ensures
        post.in_window(post.cursor() as int),
        tag_of(post.log(), post.cursor() as int) == type_id,
        post.log()[post.cursor() - 1].data == message,
{
    post.lemma_wf();
}

/// Under `AllSubscribers` no event that a subscriber has not read yet is ever
/// overwritten: every event from a subscriber's read position on is still in the
/// ring.
pub proof fn law_no_unread_event_overwritten<T>(ring: RingBuffer<T>, i: int, k: int)
    requires
        ring.wf(),
        ring.strategy() is AllSubscribers,
        0 <= i < ring.subscribers().len(),
        ring.subscribers()[i] <= k <= ring.cursor(),
    ensures
        ring.in_window(k),
{
    ring.lemma_wf();
    assert(claim_is_safe(ring.cursor() as int, ring.capacity() as int, ring.subscribers()));
    assert(ring.cursor() < ring.subscribers()[i] + ring.capacity());
}

/// Under `AllSubscribers` a subscriber never falls behind: it resumes where it
/// stopped, so it receives every event of its type, in order.
pub proof fn law_no_skips_under_all_subscribers<T>(ring: RingBuffer<T>, i: int)
    requires
        ring.wf(),
        ring.strategy() is AllSubscribers,
        0 <= i < ring.subscribers().len(),
    ensures
        resume_point(ring.subscribers()[i] as int, ring.cursor() as int, ring.capacity() as int)
            == ring.subscribers()[i],
{
    ring.lemma_wf();
    assert(ring.cursor() < ring.subscribers()[i] + ring.capacity());
}

/// A subscriber receives only events published at or after its read position,
/// of its own type, and still in the ring when it reads them; its read position
/// only moves forward.
pub proof fn law_recv_reads_forward<T>(
    pre: RingBuffer<T>,
    post: RingBuffer<T>,
    id: int,
    tag: u64,
    r: Option<u64>,
)
    requires
        pre.wf(),
        0 <= id < pre.subscribers().len(),
        recv_outcome(pre, post, id, tag, r),
    ensures
        post.subscribers()[id] >= pre.subscribers()[id],
        r matches Some(k) ==> k >= pre.subscribers()[id] && pre.in_window(k as int) && tag_of(
            pre.log(),
            k as int,
        ) == tag,
{
    pre.lemma_wf();
    let start = pre.subscribers()[id] as int;
    let c = pre.cursor() as int;
    if start <= c {
        lemma_resume_point(start, c, pre.capacity() as int);
    }
}

/// The largest sequence value is at least the start and every value, and is one
/// of them.
pub proof fn law_maximum_sequence(values: Seq<u64>, start: u64)
    ensures
        max_of(values, start) >= start,
        forall|i: int| 0 <= i < values.len() ==> max_of(values, start) >= #[trigger] values[i],
        max_of(values, start) == start || exists|i: int|
            0 <= i < values.len() && max_of(values, start) == #[trigger] values[i],
    decreases values.len(),
{
    if values.len() > 0 {
        law_maximum_sequence(values.drop_last(), start);
        let rest = max_of(values.drop_last(), start);
        assert forall|i: int| 0 <= i < values.len() implies max_of(values, start)
            >= #[trigger] values[i] by {
            if i < values.len() - 1 {
                assert(values[i] == values.drop_last()[i]);
            }
        }
        if values.last() <= rest && rest != start {
            let i = choose|i: int|
                0 <= i < values.drop_last().len() && rest == #[trigger] values.drop_last()[i];
            assert(values[i] == values.drop_last()[i]);
        }
        assert(values[values.len() - 1] == values.last());
    }
}

/// A stream read in two pieces yields the same messages as read at once: the
/// first piece's messages, then those of its leftover bytes followed by the
/// second piece. It needs only that the messages cut from the first piece decode
/// the same whatever follows them, which `StreamDecoder::feed` ensures of the
/// bytes it cuts.
pub proof fn law_chunked_feed(a: Seq<u8>, b: Seq<u8>)
    requires
        cuts_are_stable(a),
    ensures
        frames(a + b) == (frames(a).0 + frames(frames(a).1 + b).0, frames(frames(a).1 + b).1),
    decreases a.len(),
{
    if a.len() == 0 {
        assert(a + b =~= b);
        assert(frames(a).1 =~= a);
        assert(frames(a).0 + frames(b).0 =~= frames(b).0);
    } else {
        match msgpack_frame(a) {
            Some(f) => {
                if 0 < f.2 <= a.len() {
                    assert(msgpack_frame(a + b) == msgpack_frame(a));
                    let c = f.2 as int;
                    law_chunked_feed(a.skip(c), b);
                    assert((a + b).skip(c) =~= a.skip(c) + b);
                    let rest = frames(a.skip(c));
                    assert(seq![(f.0, f.1)] + (rest.0 + frames(rest.1 + b).0) =~= (seq![(f.0, f.1)]
                        + rest.0) + frames(rest.1 + b).0);
                } else {
                    assert(frames(a).0 + frames(a + b).0 =~= frames(a + b).0);
                }
            },
            None => {
                assert(frames(a).0 + frames(a + b).0 =~= frames(a + b).0);
            },
        }
    }
}

/// Messages written to a stream one after another, each in the bytes that
/// `StitchMessage::encode` gives for it, are read back from the stream in the
/// order written, with no bytes left over.
pub proof fn law_encoded_stream_decodes(msgs: Seq<(u64, Seq<u8>)>, encodings: Seq<Seq<u8>>)
    requires
        encodings.len() == msgs.len(),
        forall|i: int| 0 <= i < msgs.len() ==> is_encoding_of(#[trigger] encodings[i], msgs[i]),
    ensures
        frames(encodings.flatten()) == (msgs, Seq::<u8>::empty()),
    decreases msgs.len(),
{
    if msgs.len() == 0 {
        assert(frames(Seq::<u8>::empty()).0 =~= msgs);
    } else {
        let tail_msgs = msgs.drop_first();
        let tail = encodings.drop_first();
        assert forall|i: int| 0 <= i < tail_msgs.len() implies is_encoding_of(
            #[trigger] tail[i],
            tail_msgs[i],
        ) by {
            assert(is_encoding_of(encodings[i + 1], msgs[i + 1]));
        }
        law_encoded_stream_decodes(tail_msgs, tail);
        assert(is_encoding_of(encodings[0], msgs[0]));
        assert(encodings.flatten() == encodings.first() + tail.flatten());
        assert(frames(encodings[0] + tail.flatten()) == (seq![msgs[0]] + frames(tail.flatten()).0,
            frames(tail.flatten()).1));
        assert(seq![msgs[0]] + tail_msgs =~= msgs);
    }
}

/// Under `WaitForDuration` a claim never waits: it moves the cursor on by the
/// count claimed, and the publisher pauses exactly when the claim reaches the
/// ring's capacity, that is when the last number claimed is at least the number
/// of slots.
pub proof fn law_wait_for_duration_pauses_at_capacity(
    pre: Sequencer,
    post: Sequencer,
    n: u64,
    c: crate::sequencer::Claim,
)
    requires
        pre.wf(),
        pre.strategy() is WaitForDuration,
        claim_outcome(pre, post, n, c),
    ensures
        !(c is Wait),
        post.cursor() == pre.cursor() + n,
        c is ClaimedThenWait <==> pre.cursor() + n >= pre.capacity(),
{
    pre.lemma_wf();
}

/// Under `NoWait` every claim goes through at once: the cursor moves on by the
/// count claimed and the publisher never pauses.
pub proof fn law_no_wait_claims_at_once(
    pre: Sequencer,
    post: Sequencer,
    n: u64,
    c: crate::sequencer::Claim,
)
    requires
        pre.wf(),
        pre.strategy() == WaitStrategy::NoWait,
        claim_outcome(pre, post, n, c),
    ensures
        c is Claimed,
        post.cursor() == pre.cursor() + n,
{
    pre.lemma_wf();
}

/// No more bytes of a payload are counted from 128 on than it has.
proof fn lemma_high_bytes_bound(p: Seq<u8>)
    ensures
        high_bytes(p) <= p.len(),
    decreases p.len(),
{
    if p.len() > 0 {
        lemma_high_bytes_bound(p.drop_last());
    }
}

/// The MessagePack encoding of a message is a marker byte, the type id's bytes,
/// the payload's array header, and then one byte for each payload byte and one
/// more for each from 128 on: never fewer bytes than the payload's length plus
/// three, and never more than twice it plus fifteen.
pub proof fn law_encoding_size(type_id: u64, payload: Seq<u8>)
    requires
        payload.len() <= u32::MAX,
    ensures
        msgpack_pair(type_id, payload).len() == 1 + msgpack_uint(type_id).len()
            + msgpack_array_header(payload.len()).len() + payload.len() + high_bytes(payload),
        payload.len() + 3 <= msgpack_pair(type_id, payload).len() <= 2 * payload.len() + 15,
{
    lemma_payload_encoding_len(payload);
    lemma_high_bytes_bound(payload);
}

/// Payload bytes below 128 are written as they are: a message whose payload
/// holds only such bytes is encoded as the marker, the type id, the payload's
/// array header, and the payload itself.
pub proof fn law_small_bytes_written_as_is(type_id: u64, payload: Seq<u8>)
    requires
        forall|i: int| 0 <= i < payload.len() ==> #[trigger] payload[i] < 128,
    ensures
        msgpack_pair(type_id, payload) == seq![0x92u8] + msgpack_uint(type_id) + msgpack_array_header(
            payload.len(),
        ) + payload,
    decreases payload.len(),
{
    lemma_small_bytes_flatten(payload);
}

/// Bytes below 128, each written as an unsigned integer, give the bytes back.
proof fn lemma_small_bytes_flatten(p: Seq<u8>)
    requires
        forall|i: int| 0 <= i < p.len() ==> #[trigger] p[i] < 128,
    ensures
        p.map_values(|b: u8| msgpack_uint(b as u64)).flatten() == p,
    decreases p.len(),
{
    if p.len() == 0 {
        assert(p.map_values(|b: u8| msgpack_uint(b as u64)) =~= Seq::<Seq<u8>>::empty());
        assert(Seq::<Seq<u8>>::empty().flatten() =~= p);
    } else {
        let q = p.drop_last();
        assert forall|i: int| 0 <= i < q.len() implies #[trigger] q[i] < 128 by {
            assert(q[i] == p[i]);
        }
        lemma_small_bytes_flatten(q);
        assert(p.map_values(|b: u8| msgpack_uint(b as u64)) =~= q.map_values(
            |b: u8| msgpack_uint(b as u64),
        ).push(msgpack_uint(p.last() as u64)));
        q.map_values(|b: u8| msgpack_uint(b as u64)).lemma_flatten_push(msgpack_uint(p.last() as u64));
        assert(p.last() == p[p.len() - 1]);
        assert(msgpack_uint(p.last() as u64) =~= seq![p.last()]);
        assert(q.push(p.last()) =~= p);
    }
}

} // verus!
