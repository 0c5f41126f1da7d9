//! Shard proofs as they travel between processes, and their byte format.
//!
//! The format is a count followed by length-prefixed frames, every number an
//! unsigned 64-bit integer in little-endian order: the format that `bincode`
//! gives a list of byte strings.

use vstd::bytes::lemma_auto_spec_u64_to_from_le_bytes;
use vstd::bytes::spec_u64_from_le_bytes;
use vstd::bytes::spec_u64_to_le_bytes;
use vstd::pervasive::unreached;
use vstd::prelude::*;
use vstd::slice::slice_to_vec;

verus! {

/// The serialized proof of one shard.
#[derive(Debug, PartialEq, Eq)]
pub struct ShardProofData {
    pub proof: Vec<u8>,
}

impl View for ShardProofData {
    type V = Seq<u8>;

    open spec fn view(&self) -> Seq<u8> {
        self.proof@
    }
}

impl Clone for ShardProofData {
    fn clone(&self) -> (copy: ShardProofData)
        ensures
            copy@ == self@,
    {
        ShardProofData { proof: slice_to_vec(self.proof.as_slice()) }
    }
}

/// The proofs of the shards of one unit of work, in shard order.
#[derive(Debug, PartialEq, Eq)]
pub struct ShardProofResult {
    pub shard_proofs: Vec<ShardProofData>,
}

/// The contents of a sequence of shard proofs.
pub open spec fn proofs_view(proofs: Seq<ShardProofData>) -> Seq<Seq<u8>> {
    proofs.map_values(|p: ShardProofData| p@)
}

/// The contents of a sequence of byte strings.
pub open spec fn frames_view(frames: Seq<Vec<u8>>) -> Seq<Seq<u8>> {
    frames.map_values(|f: Vec<u8>| f@)
}

impl View for ShardProofResult {
    type V = Seq<Seq<u8>>;

    open spec fn view(&self) -> Seq<Seq<u8>> {
        proofs_view(self.shard_proofs@)
    }
}

/// The proofs of several units of work, one unit after the other.
pub open spec fn concat_proofs(parts: Seq<Seq<Seq<u8>>>) -> Seq<Seq<u8>>
    decreases parts.len(),
{
    if parts.len() == 0 {
        Seq::empty()
    } else {
        concat_proofs(parts.drop_last()) + parts.last()
    }
}

/// One frame on the wire: its length in eight bytes, then its bytes.
pub open spec fn encode_frame(frame: Seq<u8>) -> Seq<u8> {
    spec_u64_to_le_bytes(frame.len() as u64) + frame
}

/// Frames on the wire, one after the other.
pub open spec fn encode_body(frames: Seq<Seq<u8>>) -> Seq<u8>
    decreases frames.len(),
{
    if frames.len() == 0 {
        Seq::empty()
    } else {
        encode_frame(frames.first()) + encode_body(frames.drop_first())
    }
}

/// A list of frames on the wire: the number of frames in eight bytes, then
/// the frames.
pub open spec fn encode_frames(frames: Seq<Seq<u8>>) -> Seq<u8> {
    spec_u64_to_le_bytes(frames.len() as u64) + encode_body(frames)
}

/// Reads one frame from the front of `bytes`: the frame and what follows it,
/// or nothing where the bytes end too early.
pub open spec fn decode_frame(bytes: Seq<u8>) -> Option<(Seq<u8>, Seq<u8>)> {
    if bytes.len() < 8 {
        None
    } else {
        let len = spec_u64_from_le_bytes(bytes.take(8)) as int;
        if bytes.len() - 8 < len {
            None
        } else {
            Some((bytes.subrange(8, 8 + len), bytes.skip(8 + len)))
        }
    }
}

/// Reads `count` frames from the front of `bytes`.
pub open spec fn decode_body(bytes: Seq<u8>, count: nat) -> Option<Seq<Seq<u8>>>
    decreases count,
{
    if count == 0 {
        Some(Seq::empty())
    } else {
        match decode_frame(bytes) {
            None => None,
            Some((frame, rest)) => match decode_body(rest, (count - 1) as nat) {
                None => None,
                Some(frames) => Some(seq![frame] + frames),
            },
        }
    }
}

/// Reads a list of frames from the front of `bytes`. Bytes after the last
/// frame are not looked at.
pub open spec fn decode_frames(bytes: Seq<u8>) -> Option<Seq<Seq<u8>>> {
    if bytes.len() < 8 {
        None
    } else {
        decode_body(bytes.skip(8), spec_u64_from_le_bytes(bytes.take(8)) as nat)
    }
}

/// The error of `bincode`.
#[verifier::external_type_specification]
#[verifier::external_body]
pub struct ExBincodeErrorKind(bincode::ErrorKind);

/// `bincode::serialize` on a list of byte strings. It writes, in fixed-width
/// little-endian integers, the number of strings and then each string behind
/// its length. Into memory and without a size limit it cannot fail.
#[verifier::external_body]
fn bincode_serialize(frames: &Vec<Vec<u8>>) -> (out: Result<Vec<u8>, Box<bincode::ErrorKind>>)
    ensures
        out is Ok,
        out matches Ok(bytes) ==> bytes@ == encode_frames(frames_view(frames@)),
{
    bincode::serialize(frames)
}

/// `bincode::deserialize` to a list of byte strings. It reads the number of
/// strings and then each string behind its length, fails where the bytes end
/// before that, and ignores what follows the last string.
#[verifier::external_body]
fn bincode_deserialize(bytes: &[u8]) -> (out: Result<Vec<Vec<u8>>, Box<bincode::ErrorKind>>)
    ensures
        out is Ok <==> decode_frames(bytes@) is Some,
        out matches Ok(read) ==> decode_frames(bytes@) == Some(frames_view(read@)),
{
    bincode::deserialize(bytes)
}

/// The proofs as a list of byte strings.
fn to_frames(proofs: &Vec<ShardProofData>) -> (frames: Vec<Vec<u8>>)
    ensures
        frames_view(frames@) == proofs_view(proofs@),
{
    let mut frames: Vec<Vec<u8>> = Vec::new();
    let mut i: usize = 0;
    while i < proofs.len()
        invariant
            i <= proofs@.len(),
            frames@.len() == i,
            forall|j: int| 0 <= j < i ==> (#[trigger] frames@[j])@ == proofs@[j]@,
        decreases proofs@.len() - i,
    {
        frames.push(slice_to_vec(proofs[i].proof.as_slice()));
        i += 1;
    }
    frames
}

/// The list of byte strings as proofs.
fn from_frames(frames: Vec<Vec<u8>>) -> (proofs: Vec<ShardProofData>)
    ensures
        proofs_view(proofs@) == frames_view(frames@),
{
    let mut frames = frames;
    let ghost all = frames_view(frames@);
    let n: usize = frames.len();
    let mut proofs: Vec<ShardProofData> = Vec::new();
    let mut i: usize = 0;
    while i < n
        invariant
            i <= n,
            n == frames@.len(),
            n == all.len(),
            proofs@.len() == i,
            forall|j: int| i <= j < n ==> (#[trigger] frames@[j])@ == all[j],
            forall|j: int| 0 <= j < i ==> (#[trigger] proofs@[j])@ == all[j],
        decreases n - i,
    {
        let mut proof: Vec<u8> = Vec::new();
        core::mem::swap(&mut frames[i], &mut proof);
        proofs.push(ShardProofData { proof });
        i += 1;
    }
    proofs
}

/// The bytes that carry a list of byte strings.
pub fn serialize_frames(frames: &Vec<Vec<u8>>) -> (bytes: Vec<u8>)
    ensures
        bytes@ == encode_frames(frames_view(frames@)),
{
    match bincode_serialize(frames) {
        Ok(bytes) => bytes,
        Err(_) => unreached(),
    }
}

/// The bytes that carry a list of proofs.
pub fn serialize_proofs(proofs: &Vec<ShardProofData>) -> (bytes: Vec<u8>)
    ensures
        bytes@ == encode_frames(proofs_view(proofs@)),
{
    let frames = to_frames(proofs);
    serialize_frames(&frames)
}

/// The list of proofs that the bytes carry; none where the bytes are no
/// list of frames.
pub fn deserialize_proofs(bytes: &[u8]) -> (proofs: Option<Vec<ShardProofData>>)
    ensures
        proofs is Some <==> decode_frames(bytes@) is Some,
        proofs matches Some(read) ==> decode_frames(bytes@) == Some(proofs_view(read@)),
{
    match bincode_deserialize(bytes) {
        Ok(frames) => Some(from_frames(frames)),
        Err(_) => None,
    }
}

impl ShardProofResult {
    /// The bytes that carry these proofs to another process.
    pub fn serialize(&self) -> (bytes: Vec<u8>)
        ensures
            bytes@ == encode_frames(self@),
    {
        serialize_proofs(&self.shard_proofs)
    }

    /// The proofs that the bytes carry; none where the bytes are no list of
    /// frames.
    pub fn deserialize(bytes: &[u8]) -> (result: Option<ShardProofResult>)
        ensures
            result is Some <==> decode_frames(bytes@) is Some,
            result matches Some(read) ==> decode_frames(bytes@) == Some(read@),
    {
        match deserialize_proofs(bytes) {
            Some(shard_proofs) => Some(ShardProofResult { shard_proofs }),
            None => None,
        }
    }
}

/// A frame is read back from the front of its encoding, whatever follows.
pub proof fn lemma_decode_frame_of_encode(frame: Seq<u8>, rest: Seq<u8>)
    requires
        frame.len() <= u64::MAX,
    ensures
        decode_frame(encode_frame(frame) + rest) == Some((frame, rest)),
{
    lemma_auto_spec_u64_to_from_le_bytes();
    let head = spec_u64_to_le_bytes(frame.len() as u64);
    let bytes = encode_frame(frame) + rest;
    assert(bytes.take(8) =~= head);
}

/// Frames are read back from the front of their encoding, whatever follows.
pub proof fn lemma_decode_body_of_encode(frames: Seq<Seq<u8>>, rest: Seq<u8>)
    requires
        forall|i: int| 0 <= i < frames.len() ==> (#[trigger] frames[i]).len() <= u64::MAX,
    ensures
        decode_body(encode_body(frames) + rest, frames.len()) == Some(frames),
    decreases frames.len(),
{
    if frames.len() > 0 {
        let first = frames.first();
        let others = frames.drop_first();
        let tail = encode_body(others) + rest;
        assert(encode_body(frames) + rest =~= encode_frame(first) + tail);
        lemma_decode_frame_of_encode(first, tail);
        assert forall|i: int| 0 <= i < others.len() implies (#[trigger] others[i]).len()
            <= u64::MAX by {
        }
        lemma_decode_body_of_encode(others, rest);
    }
}

/// Round trip: what was serialized is what deserializing gives back, also
/// where more bytes follow.
pub proof fn lemma_decode_of_encode(frames: Seq<Seq<u8>>, rest: Seq<u8>)
    requires
        frames.len() <= u64::MAX,
        forall|i: int| 0 <= i < frames.len() ==> (#[trigger] frames[i]).len() <= u64::MAX,
    ensures
        decode_frames(encode_frames(frames) + rest) == Some(frames),
{
    lemma_auto_spec_u64_to_from_le_bytes();
    let head = spec_u64_to_le_bytes(frames.len() as u64);
    let bytes = encode_frames(frames) + rest;
    assert(bytes.take(8) =~= head);
    assert(bytes.skip(8) =~= encode_body(frames) + rest);
    lemma_decode_body_of_encode(frames, rest);
}

/// Round trip for a list of proofs: deserializing what was serialized gives
/// the same proofs.
pub proof fn lemma_round_trip(proofs: Seq<ShardProofData>)
    requires
        proofs.len() <= usize::MAX,
    ensures
        decode_frames(encode_frames(proofs_view(proofs))) == Some(proofs_view(proofs)),
{
    let frames = proofs_view(proofs);
    assert forall|i: int| 0 <= i < frames.len() implies (#[trigger] frames[i]).len()
        <= u64::MAX by {
        assert(proofs[i].proof@.len() == proofs[i].proof.len());
    }
    lemma_decode_of_encode(frames, Seq::empty());
}

/// Round trip for the result of a unit of work: `deserialize` gives back
/// what `serialize` wrote.
pub proof fn lemma_result_round_trip(result: ShardProofResult)
    ensures
        decode_frames(encode_frames(result@)) == Some(result@),
{
    assert(result.shard_proofs@.len() == result.shard_proofs.len());
    lemma_round_trip(result.shard_proofs@);
}

} // verus!
