//! A staging map for captures: pending requests are filed under a short
//! identifier by the server context and collected under it by the consumer.
//!
//! The map itself is plain data. Whoever shares it between the two sides
//! guards it with a lock, and picks the identifiers; two servers that pick the
//! same identifier share one file of pending requests.

use crate::buffer::{buffer_bytes, empty_buffer};
use crate::helper::load_body;
use crate::middleware::{captured_body, extract_headers, header_pairs, path_of, target_path};
use crate::requests::Request;
use crate::text::{assoc, TextMap};
use bytes::{Bytes, BytesMut};
use std::collections::HashMap;
use vstd::prelude::*;
use vstd::slice::slice_to_vec;

verus! {

/// The requests that are pending under `id`, oldest first.
pub open spec fn staged(queue: Map<u8, Vec<Request>>, id: u8) -> Seq<Request> {
    if queue.dom().contains(id) {
        queue[id]@
    } else {
        Seq::empty()
    }
}

/// `after` is `before` with one more request pending under `id`, behind
/// those that were pending there; what is pending under other identifiers is
/// untouched.
pub open spec fn staged_one_more(
    before: Map<u8, Vec<Request>>,
    after: Map<u8, Vec<Request>>,
    id: u8,
) -> bool {
    &&& after == before.insert(id, after[id])
    &&& after[id]@.len() == staged(before, id).len() + 1
    &&& after[id]@.drop_last() == staged(before, id)
}

/// Files one capture under `id`.
///
/// The snapshot is made of the parts given; it carries no query parameters
/// and no sequence number.
pub fn queue_request(
    queue: &mut HashMap<u8, Vec<Request>>,
    id: u8,
    body: &BytesMut,
    headers: TextMap,
    method: String,
    path: String,
)
    ensures
        staged_one_more(old(queue)@, final(queue)@, id),
        final(queue)@[id]@.last().body@ == buffer_bytes(*body),
        final(queue)@[id]@.last().headers == headers,
        final(queue)@[id]@.last().method == method,
        final(queue)@[id]@.last().path == path,
        final(queue)@[id]@.last().query@ == Map::<Seq<char>, Seq<char>>::empty(),
        final(queue)@[id]@.last().sequence == 0,
{
    let mut pending = match queue.remove(&id) {
        Some(pending) => pending,
        None => Vec::new(),
    };
    let ghost before = pending@;
    pending.push(
        Request { body: slice_to_vec(body), headers, method, path, query: TextMap::new(), sequence: 0 },
    );
    proof {
        assert(pending@.drop_last() =~= before);
    }
    queue.insert(id, pending);
    proof {
        assert(final(queue)@ =~= old(queue)@.insert(id, final(queue)@[id]));
    }
}

/// Captures one request into the staging map: reads the body to its end,
/// takes the snapshot and files it under `id`. A body that fails on the way
/// is captured as empty.
pub fn start(
    queue: &mut HashMap<u8, Vec<Request>>,
    id: u8,
    method: &str,
    target: &str,
    fields: &Vec<(String, Vec<u8>)>,
    chunks: &Vec<Option<Bytes>>,
)
    ensures
        staged_one_more(old(queue)@, final(queue)@, id),
        final(queue)@[id]@.last().body@ == captured_body(chunks@),
        final(queue)@[id]@.last().headers@ == assoc(header_pairs(fields@)),
        final(queue)@[id]@.last().method@ == method@,
        final(queue)@[id]@.last().path@ == path_of(target@),
        final(queue)@[id]@.last().query@ == Map::<Seq<char>, Seq<char>>::empty(),
        final(queue)@[id]@.last().sequence == 0,
{
    let headers = extract_headers(fields);
    let path = target_path(target);
    let body = match load_body(chunks) {
        Ok(loaded) => loaded,
        Err(_) => empty_buffer(),
    };
    queue_request(queue, id, &body, headers, method.to_owned(), path);
}

/// Collects what is pending under `id`, oldest first, and clears the file.
pub fn claim_staged(queue: &mut HashMap<u8, Vec<Request>>, id: u8) -> (requests: Vec<Request>)
    ensures
        requests@ == staged(old(queue)@, id),
        final(queue)@ == old(queue)@.remove(id),
{
    match queue.remove(&id) {
        Some(pending) => pending,
        None => Vec::new(),
    }
}

} // verus!
