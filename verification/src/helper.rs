//! Helpers around bodies and test data.

use crate::buffer::{buffer_bytes, empty_buffer, frozen_bytes};
use bytes::{Bytes, BytesMut};
use rand::distributions::Alphanumeric;
use rand::Rng;
use vstd::prelude::*;

verus! {

/// A letter of the English alphabet or a digit.
pub open spec fn alphanumeric(c: char) -> bool {
    ('0' <= c <= '9') || ('A' <= c <= 'Z') || ('a' <= c <= 'z')
}

/// `rand::thread_rng()` as the source, `Rng::sample_iter` over
/// `Alphanumeric` as the stream of samples, of which the first `size` are
/// collected. Each sample is one of the 62 letters and digits, drawn afresh:
/// only the length and the alphabet are claimed.
#[verifier::external_body]
fn sample_alphanumeric(size: usize) -> (text: String)
    ensures
        text@.len() == size,
        forall|i: int| 0 <= i < text@.len() ==> alphanumeric(#[trigger] text@[i]),
{
    rand::thread_rng().sample_iter(&Alphanumeric).take(size).collect::<String>()
}

/// Generates a random string with given size, made of letters and digits.
pub fn random_string(size: usize) -> (text: String)
    ensures
        text@.len() == size,
        forall|i: int| 0 <= i < text@.len() ==> alphanumeric(#[trigger] text@[i]),
{
    sample_alphanumeric(size)
}

/// Why a body could not be read to its end.
#[derive(Debug, Clone, Copy, PartialEq, Eq, Structural)]
pub enum BodyError {
    /// The transport failed where the chunk at this position was due.
    Transport { chunk: usize },
}

/// The bytes of each chunk; a chunk that the transport failed to deliver
/// counts as no bytes.
pub open spec fn delivered(chunks: Seq<Option<Bytes>>) -> Seq<Seq<u8>> {
    chunks.map_values(
        |chunk: Option<Bytes>|
            match chunk {
                Some(data) => frozen_bytes(data),
                None => Seq::<u8>::empty(),
            },
    )
}

/// Every chunk was delivered.
pub open spec fn intact(chunks: Seq<Option<Bytes>>) -> bool {
    forall|i: int| 0 <= i < chunks.len() ==> (#[trigger] chunks[i]) is Some
}

/// Loads the bytes of a body from the chunks in which it arrived.
///
/// The body is the chunks joined in order. Reading stops at the first chunk
/// that the transport failed to deliver, and the error names its position.
pub fn load_body(chunks: &Vec<Option<Bytes>>) -> (loaded: Result<BytesMut, BodyError>)
    ensures
        match loaded {
            Ok(body) => intact(chunks@) && buffer_bytes(body) == delivered(chunks@).flatten(),
            Err(BodyError::Transport { chunk }) => {
                &&& chunk < chunks@.len()
                &&& chunks@[chunk as int] is None
                &&& intact(chunks@.take(chunk as int))
            },
        },
{
    let mut body = empty_buffer();
    let mut i: usize = 0;
    while i < chunks.len()
        invariant
            i <= chunks@.len(),
            intact(chunks@.take(i as int)),
            buffer_bytes(body) == delivered(chunks@.take(i as int)).flatten(),
        decreases chunks@.len() - i,
    {
        match &chunks[i] {
            Some(data) => {
                body.extend_from_slice(data);
                proof {
                    let before = chunks@.take(i as int);
                    let after = chunks@.take(i + 1);
                    assert(after =~= before.push(chunks@[i as int]));
                    assert(delivered(after) =~= delivered(before).push(frozen_bytes(*data)));
                    delivered(before).lemma_flatten_push(frozen_bytes(*data));
                    assert forall|j: int| 0 <= j < after.len() implies (#[trigger] after[j])
                        is Some by {
                        if j < i {
                            assert(before[j] is Some);
                        }
                    }
                }
            },
            None => {
                return Err(BodyError::Transport { chunk: i });
            },
        }
        i += 1;
    }
    proof {
        assert(chunks@.take(i as int) =~= chunks@);
    }
    Ok(body)
}

/// The bytes of each chunk.
pub open spec fn contents(chunks: Seq<Bytes>) -> Seq<Seq<u8>> {
    chunks.map_values(|chunk: Bytes| frozen_bytes(chunk))
}

/// Reads a body that arrived whole: the chunks joined in order.
pub fn read_body(chunks: &Vec<Bytes>) -> (body: Bytes)
    ensures
        frozen_bytes(body) == contents(chunks@).flatten(),
{
    let mut bytes = empty_buffer();
    let mut i: usize = 0;
    while i < chunks.len()
        invariant
            i <= chunks@.len(),
            buffer_bytes(bytes) == contents(chunks@.take(i as int)).flatten(),
        decreases chunks@.len() - i,
    {
        bytes.extend_from_slice(&chunks[i]);
        proof {
            let before = chunks@.take(i as int);
            let after = chunks@.take(i + 1);
            assert(after =~= before.push(chunks@[i as int]));
            assert(contents(after) =~= contents(before).push(frozen_bytes(chunks@[i as int])));
            contents(before).lemma_flatten_push(frozen_bytes(chunks@[i as int]));
        }
        i += 1;
    }
    proof {
        assert(chunks@.take(i as int) =~= chunks@);
    }
    bytes.freeze()
}

} // verus!
