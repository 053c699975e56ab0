//! Messages of the network channels: a type tag and the MessagePack bytes of a
//! value, and the framing that cuts a byte stream into such messages.
use vstd::prelude::*;
use vstd::slice::slice_subrange;
use vstd::arithmetic::power::pow;
use std::any::TypeId;
use std::collections::hash_map::DefaultHasher;
use std::hash::Hasher;

verus! {

#[verifier::external_type_specification]
#[verifier::external_body]
pub struct ExTypeId(std::any::TypeId);

/// What `rmp_serde` decodes at the front of `bytes` as a pair of an unsigned
/// integer and a byte sequence: the pair and the number of bytes it took up.
pub uninterp spec fn msgpack_frame(bytes: Seq<u8>) -> Option<(u64, Seq<u8>, u64)>;

/// The `k` bytes of `n`, most significant first.
pub open spec fn be_bytes(n: u64, k: nat) -> Seq<u8> {
    Seq::new(k, |i: int| ((n as int / pow(256, (k - 1 - i) as nat)) % 256) as u8)
}

/// The MessagePack encoding of an unsigned integer in the fewest bytes: a
/// positive fixint below 128, else a marker (`uint 8` to `uint 64`) and the
/// integer's bytes, big-endian.
pub open spec fn msgpack_uint(n: u64) -> Seq<u8> {
    if n < 128 {
        seq![n as u8]
    } else if n < 256 {
        seq![0xccu8, n as u8]
    } else if n < 65536 {
        seq![0xcdu8] + be_bytes(n, 2)
    } else if n < 4294967296 {
        seq![0xceu8] + be_bytes(n, 4)
    } else {
        seq![0xcfu8] + be_bytes(n, 8)
    }
}

/// The MessagePack header of an array of `len` elements: a fixarray below 16,
/// else `array 16` or `array 32` and the length's bytes, big-endian.
pub open spec fn msgpack_array_header(len: nat) -> Seq<u8> {
    if len < 16 {
        seq![(0x90 + len) as u8]
    } else if len < 65536 {
        seq![0xdcu8] + be_bytes(len as u64, 2)
    } else {
        seq![0xddu8] + be_bytes(len as u64, 4)
    }
}

/// The MessagePack bytes of the pair (`type_id`, `payload`) with the pair and
/// the payload written as arrays: a two-element array header, the type id, and
/// the payload's array header followed by each byte as an unsigned integer.
pub open spec fn msgpack_pair(type_id: u64, payload: Seq<u8>) -> Seq<u8> {
    seq![0x92u8] + msgpack_uint(type_id) + msgpack_array_header(payload.len()) + payload.map_values(
        |b: u8| msgpack_uint(b as u64),
    ).flatten()
}

/// Decodes, with `rmp_serde`, a pair of a `u64` and a byte vector at the front of
/// `buf`, and reports how many bytes the pair took up: the result is
/// `msgpack_frame` of the bytes.
///
/// Also claimed, as `rmp_serde` reads: the decoder reads the bytes one after
/// another and none past those it takes up, so a pair that decodes takes up no
/// more than `buf` holds and decodes the same whatever bytes follow.
#[verifier::external_body]
fn decode_frame(buf: &[u8]) -> (r: Option<(u64, Vec<u8>, u64)>)
    ensures
        r is None <==> msgpack_frame(buf@) is None,
        r matches Some(f) ==> msgpack_frame(buf@) == Some((f.0, f.1@, f.2)),
        r matches Some(f) ==> f.2 <= buf@.len() && forall|rest: Seq<u8>|
            #[trigger] msgpack_frame(buf@ + rest) == msgpack_frame(buf@),
{
    let mut decoder = rmp_serde::decode::Deserializer::new(std::io::Cursor::new(buf));
    match <(u64, Vec<u8>) as serde::Deserialize>::deserialize(&mut decoder) {
        Ok((type_id, bytes)) => Some((type_id, bytes, decoder.position())),
        Err(_) => None,
    }
}

/// The number of bytes of `p` from 128 on: each takes two bytes in MessagePack.
pub open spec fn high_bytes(p: Seq<u8>) -> nat
    decreases p.len(),
{
    if p.len() == 0 {
        0
    } else {
        high_bytes(p.drop_last()) + (if p.last() >= 128 {
            1nat
        } else {
            0nat
        })
    }
}

/// The payload's bytes, each written as an unsigned integer, take one byte each
/// and one more for each byte from 128 on.
pub proof fn lemma_payload_encoding_len(p: Seq<u8>)
    ensures
        p.map_values(|b: u8| msgpack_uint(b as u64)).flatten().len() == p.len() + high_bytes(p),
    decreases p.len(),
{
    if p.len() == 0 {
        assert(p.map_values(|b: u8| msgpack_uint(b as u64)) =~= Seq::<Seq<u8>>::empty());
    } else {
        lemma_payload_encoding_len(p.drop_last());
        assert(p.map_values(|b: u8| msgpack_uint(b as u64)) =~= p.drop_last().map_values(
            |b: u8| msgpack_uint(b as u64),
        ).push(msgpack_uint(p.last() as u64)));
        p.drop_last().map_values(|b: u8| msgpack_uint(b as u64)).lemma_flatten_push(
            msgpack_uint(p.last() as u64),
        );
    }
}

/// Encodes the pair (`type_id`, `payload`) with `rmp_serde::encode::write` into a
/// vector made with room for `len` bytes, the length of its encoding, so that
/// writing never grows it. `rmp_serde` writes tuples and byte slices as arrays:
/// the bytes are `msgpack_pair` of the pair. Writing to a vector does not fail
/// (std's `Write` for `Vec<u8>` appends), and the encoder refuses nothing in
/// such a pair, so a result always comes back; when memory for the vector
/// cannot be had, std aborts the process and nothing comes back. A payload of
/// more than `u32::MAX` bytes overflows the encoder's element count, and a
/// capacity above `isize::MAX` bytes makes `Vec::with_capacity` panic: `requires`
/// leaves both out.
///
/// Also claimed, as `rmp_serde`'s decoder is written: it decodes those bytes,
/// whatever bytes follow, back into the same pair, taking up exactly those bytes.
#[verifier::external_body]
fn encode_frame(type_id: u64, payload: &[u8], len: usize) -> (r: Option<Vec<u8>>)
    requires
        payload@.len() <= u32::MAX,
        len == msgpack_pair(type_id, payload@).len(),
        len <= isize::MAX,
    ensures
        r is Some,
        r matches Some(v) ==> v@ == msgpack_pair(type_id, payload@),
        r matches Some(v) ==> forall|rest: Seq<u8>|
            #[trigger] msgpack_frame(v@ + rest) == Some((type_id, payload@, v@.len() as u64)),
{
    let mut bytes: Vec<u8> = Vec::with_capacity(len);
    match rmp_serde::encode::write(&mut bytes, &(type_id, payload)) {
        Ok(()) => Some(bytes),
        Err(_) => None,
    }
}

/// The number of bytes of the MessagePack encoding of the pair (`type_id`,
/// `payload`).
pub fn msgpack_pair_len(type_id: u64, payload: &[u8]) -> (n: u64)
    requires
        payload@.len() <= u32::MAX,
    ensures
        n == msgpack_pair(type_id, payload@).len(),
{
    let id_len: u64 = if type_id < 128 {
        1
    } else if type_id < 256 {
        2
    } else if type_id < 65536 {
        3
    } else if type_id < 4294967296 {
        5
    } else {
        9
    };
    let count = payload.len();
    let header_len: u64 = if count < 16 {
        1
    } else if count < 65536 {
        3
    } else {
        5
    };
    let mut high: u64 = 0;
    let mut i: usize = 0;
    while i < count
        invariant
            count == payload@.len(),
            count <= u32::MAX,
            i <= count,
            high == high_bytes(payload@.take(i as int)),
            high <= i,
        decreases count - i,
    {
        assert(payload@.take(i + 1).drop_last() =~= payload@.take(i as int));
        if payload[i] >= 128 {
            high = high + 1;
        }
        i = i + 1;
    }
    proof {
        assert(payload@.take(count as int) =~= payload@);
        lemma_payload_encoding_len(payload@);
    }
    1 + id_len + header_len + count as u64 + high
}

/// The `TypeId` of `T`, from `std::any::TypeId::of`; nothing is stated of it.
#[verifier::external_body]
fn type_id_of<T: ?Sized + 'static>() -> TypeId {
    TypeId::of::<T>()
}

/// Feeds `tid` to `state` through `TypeId`'s `Hash` implementation. Nothing is
/// stated of what it feeds: std documents that what `Hash` feeds a hasher
/// differs between platforms and compiler versions, and a `TypeId` between
/// builds.
#[verifier::external_body]
fn hash_type_id_into(tid: &TypeId, state: &mut DefaultHasher) {
    std::hash::Hash::hash(tid, state)
}

/// A message on a network channel: the type tag of a value and its bytes.
pub struct StitchMessage {
    pub type_id: u64,
    pub bytes: Vec<u8>,
}

impl View for StitchMessage {
    type V = (u64, Seq<u8>);

    open spec fn view(&self) -> (u64, Seq<u8>) {
        (self.type_id, self.bytes@)
    }
}

impl StitchMessage {
    /// The `TypeId` of `T`.
    pub fn type_id<T: ?Sized + 'static>() -> TypeId {
        type_id_of::<T>()
    }

    /// The tag of a `TypeId`: what a fresh `DefaultHasher` gives once fed `tid`.
    /// Nothing is stated of the tag, which depends on the platform, the
    /// compiler and the build.
    pub fn hash_type_id(tid: TypeId) -> u64 {
        let mut hasher = DefaultHasher::new();
        hash_type_id_into(&tid, &mut hasher);
        hasher.finish()
    }

    /// The tag of type `T`.
    pub fn hash_type<T: ?Sized + 'static>() -> u64 {
        Self::hash_type_id(Self::type_id::<T>())
    }

    /// The MessagePack bytes of the message, unless memory for them cannot be
    /// had; a [`StreamDecoder`] reads the message back from them, whatever bytes
    /// follow.
    pub fn encode(&self) -> (r: Option<Vec<u8>>)
        requires
            self.bytes@.len() <= u32::MAX,
        ensures
            r is Some <==> msgpack_pair(self.type_id, self.bytes@).len() <= isize::MAX,
            r matches Some(v) ==> v@ == msgpack_pair(self.type_id, self.bytes@),
            r matches Some(v) ==> is_encoding_of(v@, self@),
    {
        let len = msgpack_pair_len(self.type_id, self.bytes.as_slice());
        if len > isize::MAX as u64 {
            return None;
        }
        let r = encode_frame(self.type_id, self.bytes.as_slice(), len as usize);
        proof {
            if r is Some {
                let v = r->0@;
                assert forall|rest: Seq<u8>| #[trigger] frames(v + rest) == (seq![self@] + frames(
                    rest,
                ).0, frames(rest).1) by {
                    let f = (self.type_id, self.bytes@, v.len() as u64);
                    assert(msgpack_frame(v + rest) == Some(f));
                    assert(v.len() == r->0.len());
                    assert(v.len() > 0);
                    assert(f.2 == v.len());
                    assert(0 < f.2 <= (v + rest).len());
                    assert((v + rest).skip(f.2 as int) =~= rest);
                    assert(frames(v + rest) == (seq![(f.0, f.1)] + frames(rest).0, frames(rest).1));
                }
            }
        }
        r
    }
}

/// The messages at the front of `bytes` and the bytes left after them: messages
/// are cut off one after another as long as one decodes and takes up at least
/// one byte and no more than there are.
pub open spec fn frames(bytes: Seq<u8>) -> (Seq<(u64, Seq<u8>)>, Seq<u8>)
    decreases bytes.len(),
{
    if bytes.len() == 0 {
        (Seq::empty(), bytes)
    } else {
        match msgpack_frame(bytes) {
            Some(f) => {
                if 0 < f.2 <= bytes.len() {
                    let rest = frames(bytes.skip(f.2 as int));
                    (seq![(f.0, f.1)] + rest.0, rest.1)
                } else {
                    (Seq::empty(), bytes)
                }
            },
            None => (Seq::empty(), bytes),
        }
    }
}

/// `bytes` are an encoding of the message `m`: cut into messages, they and
/// whatever follows them give `m`, then the messages of what follows.
pub open spec fn is_encoding_of(bytes: Seq<u8>, m: (u64, Seq<u8>)) -> bool {
    forall|rest: Seq<u8>| #[trigger] frames(bytes + rest) == (seq![m] + frames(rest).0, frames(rest).1)
}

/// Each message cut from the front of `bytes`, as `frames` cuts them, decodes
/// the same whatever bytes follow it.
pub open spec fn cuts_are_stable(bytes: Seq<u8>) -> bool
    decreases bytes.len(),
{
    if bytes.len() == 0 {
        true
    } else {
        match msgpack_frame(bytes) {
            Some(f) => {
                if 0 < f.2 <= bytes.len() {
                    &&& forall|rest: Seq<u8>| #[trigger] msgpack_frame(bytes + rest) == msgpack_frame(bytes)
                    &&& cuts_are_stable(bytes.skip(f.2 as int))
                } else {
                    true
                }
            },
            None => true,
        }
    }
}

/// Cuts the bytes read from a stream into messages, keeping the bytes of an
/// incomplete message until the rest arrives.
pub struct StreamDecoder {
    pending: Vec<u8>,
}

impl StreamDecoder {
    /// The bytes read but not yet cut into messages.
    pub closed spec fn pending(&self) -> Seq<u8> {
        self.pending@
    }

    /// A decoder that has read nothing.
    pub fn new() -> (d: Self)
        ensures
            d.pending() == Seq::<u8>::empty(),
    {
        StreamDecoder { pending: Vec::new() }
    }

    /// Takes the bytes just read and returns the messages they complete.
    pub fn feed(&mut self, data: &[u8]) -> (msgs: Vec<StitchMessage>)
        ensures
            msgs@.map_values(|m: StitchMessage| m@) == frames(old(self).pending() + data@).0,
            final(self).pending() == frames(old(self).pending() + data@).1,
            cuts_are_stable(old(self).pending() + data@),
    {
        let mut buffer: Vec<u8> = Vec::new();
        std::mem::swap(&mut buffer, &mut self.pending);
        append_bytes(&mut buffer, data);
        let ghost all = buffer@;
        let mut msgs: Vec<StitchMessage> = Vec::new();
        let mut pos: usize = 0;
        let mut done = false;
        proof {
            assert(all.skip(0) =~= all);
        }
        while !done && pos < buffer.len()
            invariant
                buffer@ == all,
                pos <= all.len(),
                frames(all).0 == msgs@.map_values(|m: StitchMessage| m@) + frames(
                    all.skip(pos as int),
                ).0,
                frames(all).1 == frames(all.skip(pos as int)).1,
                done ==> frames(all.skip(pos as int)).0 == Seq::<(u64, Seq<u8>)>::empty()
                    && frames(all.skip(pos as int)).1 == all.skip(pos as int),
                cuts_are_stable(all.skip(pos as int)) ==> cuts_are_stable(all),
                done ==> cuts_are_stable(all.skip(pos as int)),
            decreases all.len() - pos, if done { 0int } else { 1int },
        {
            let rest = slice_subrange(buffer.as_slice(), pos, buffer.len());
            assert(rest@ =~= all.skip(pos as int));
            match decode_frame(rest) {
                Some((type_id, bytes, used)) => {
                    if 0 < used && used <= (buffer.len() - pos) as u64 {
                        let ghost old_msgs = msgs@.map_values(|m: StitchMessage| m@);
                        let ghost f = (type_id, bytes@);
                        msgs.push(StitchMessage { type_id, bytes });
                        assert(msgs@.map_values(|m: StitchMessage| m@) =~= old_msgs.push(f));
                        assert(all.skip(pos as int).skip(used as int) =~= all.skip(
                            pos + used as int,
                        ));
                        pos = pos + used as usize;
                        assert(old_msgs.push(f) + frames(all.skip(pos as int)).0 =~= old_msgs + (
                        seq![f] + frames(all.skip(pos as int)).0));
                    } else {
                        done = true;
                    }
                },
                None => {
                    done = true;
                },
            }
        }
        if !done {
            assert(all.skip(pos as int) =~= Seq::<u8>::empty());
        }
        assert(frames(all.skip(pos as int)).0 == Seq::<(u64, Seq<u8>)>::empty());
        assert(msgs@.map_values(|m: StitchMessage| m@) + Seq::<(u64, Seq<u8>)>::empty()
            =~= msgs@.map_values(|m: StitchMessage| m@));
        self.pending = copy_bytes(slice_subrange(buffer.as_slice(), pos, buffer.len()));
        msgs
    }
}

/// Appends `src` to `dst`.
fn append_bytes(dst: &mut Vec<u8>, src: &[u8])
    ensures
        final(dst)@ == old(dst)@ + src@,
{
    let mut i: usize = 0;
    while i < src.len()
        invariant
            i <= src@.len(),
            dst@ == old(dst)@ + src@.take(i as int),
        decreases src@.len() - i,
    {
        dst.push(src[i]);
        i = i + 1;
        assert(dst@ =~= old(dst)@ + src@.take(i as int));
    }
    assert(src@.take(src@.len() as int) =~= src@);
}

/// A vector of the bytes of `src`.
fn copy_bytes(src: &[u8]) -> (v: Vec<u8>)
    ensures
        v@ == src@,
{
    let mut v: Vec<u8> = Vec::new();
    append_bytes(&mut v, src);
    assert(Seq::<u8>::empty() + src@ =~= src@);
    v
}

} // verus!
