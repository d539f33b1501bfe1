//! The capture pipeline: from what the HTTP engine hands over for one
//! request to the snapshot that the test thread sees.
//!
//! The engine's own request object never leaves the server context. What
//! crosses over is plain data: the method, the request target, the header
//! fields as raw bytes, and the chunks in which the body arrived.

use crate::buffer::{empty_buffer, frozen_bytes};
use crate::helper::{delivered, intact, load_body};
use crate::requests::Request;
use crate::text::{
    assoc, chars_of, find, first_in, lemma_assoc_push, lemma_first_in, substring, TextMap,
};
use bytes::Bytes;
use crossbeam_channel::Sender;
use http::header::HeaderValue;
use vstd::prelude::*;
use vstd::slice::slice_to_vec;

verus! {

/// A byte that may stand in a header value read as text: a visible ASCII
/// character, a space or a tab.
pub open spec fn visible(byte: u8) -> bool {
    32 <= byte < 127 || byte == 9
}

/// Every byte of the value is `visible`.
pub open spec fn all_visible(value: Seq<u8>) -> bool {
    forall|i: int| 0 <= i < value.len() ==> visible(#[trigger] value[i])
}

/// The bytes read as characters, one character for each byte.
pub open spec fn as_text(value: Seq<u8>) -> Seq<char> {
    value.map_values(|byte: u8| byte as char)
}

/// The text of a header value as it is captured: a value that holds a byte
/// that is no text is captured as the empty string.
pub open spec fn header_text(value: Seq<u8>) -> Seq<char> {
    if all_visible(value) {
        as_text(value)
    } else {
        Seq::empty()
    }
}

/// The name and the captured text of each header field, in order.
pub open spec fn header_pairs(fields: Seq<(String, Vec<u8>)>) -> Seq<(Seq<char>, Seq<char>)> {
    fields.map_values(|field: (String, Vec<u8>)| (field.0@, header_text(field.1@)))
}

/// `http::HeaderValue::from_bytes`, then `HeaderValue::to_str` on the value
/// it made. The first accepts the bytes from 32 on but 127, and the tab; the
/// second gives the text only where every byte is below 127 too. What is
/// claimed: text comes back exactly for the values whose bytes are all
/// `visible`, and it is those bytes, one character each.
#[verifier::external_body]
fn decode_header_value(value: &[u8]) -> (text: Option<String>)
    ensures
        text is Some <==> all_visible(value@),
        text matches Some(decoded) ==> decoded@ == as_text(value@),
{
    match HeaderValue::from_bytes(value) {
        Ok(parsed) => match parsed.to_str() {
            Ok(decoded) => Some(decoded.to_string()),
            Err(_) => None,
        },
        Err(_) => None,
    }
}

/// Collects the header fields of a request. Where a name occurs twice the
/// later field wins; a value that is no text is kept as the empty string.
pub fn extract_headers(fields: &Vec<(String, Vec<u8>)>) -> (headers: TextMap)
    ensures
        headers@ == assoc(header_pairs(fields@)),
{
    let mut headers = TextMap::new();
    let mut i: usize = 0;
    while i < fields.len()
        invariant
            i <= fields@.len(),
            headers@ == assoc(header_pairs(fields@.take(i as int))),
        decreases fields@.len() - i,
    {
        let name = fields[i].0.clone();
        let value = match decode_header_value(fields[i].1.as_slice()) {
            Some(decoded) => decoded,
            None => String::new(),
        };
        proof {
            let before = header_pairs(fields@.take(i as int));
            let pair = (name@, value@);
            assert(header_pairs(fields@.take(i + 1)) =~= before.push(pair));
            lemma_assoc_push(before, pair);
        }
        headers.insert(name, value);
        i += 1;
    }
    proof {
        assert(fields@.take(i as int) =~= fields@);
    }
    headers
}

/// A path with a slash in front, unless it has one.
pub open spec fn normalized(path: Seq<char>) -> Seq<char> {
    if path.len() > 0 && path[0] == '/' {
        path
    } else {
        seq!['/'] + path
    }
}

/// The path of a request target: what stands before the first `?`,
/// normalized.
pub open spec fn path_of(target: Seq<char>) -> Seq<char> {
    normalized(target.take(first_in(target, '?', 0, target.len() as int)))
}

/// The query string of a request target: what stands behind the first `?`,
/// or nothing.
pub open spec fn query_of(target: Seq<char>) -> Seq<char> {
    let cut = first_in(target, '?', 0, target.len() as int);
    if cut < target.len() {
        target.skip(cut + 1)
    } else {
        Seq::empty()
    }
}

/// The parameter that stands in `query` from `from` up to `until`: the key is
/// what stands before the first `=`, the value what stands behind it. Without
/// a `=` the whole is the key and the value is empty.
pub open spec fn parameter(query: Seq<char>, from: int, until: int) -> (Seq<char>, Seq<char>) {
    let eq = first_in(query, '=', from, until);
    if eq < until {
        (query.subrange(from, eq), query.subrange(eq + 1, until))
    } else {
        (query.subrange(from, until), Seq::empty())
    }
}

/// The parameters of `query` from `from` on, in order. They are separated by
/// `&`; where nothing stands between two separators there is no parameter.
pub open spec fn parameters(query: Seq<char>, from: int) -> Seq<(Seq<char>, Seq<char>)>
    decreases query.len() - from,
{
    if from < 0 || from >= query.len() {
        Seq::empty()
    } else {
        let until = first_in(query, '&', from, query.len() as int);
        proof {
            lemma_first_in(query, '&', from, query.len() as int);
        }
        let rest = if until < query.len() {
            parameters(query, until + 1)
        } else {
            Seq::empty()
        };
        if until == from {
            rest
        } else {
            seq![parameter(query, from, until)] + rest
        }
    }
}

/// The mapping that a query string stands for. Where a key occurs twice the
/// later value wins. Keys and values are taken as they are written: nothing
/// is decoded.
pub open spec fn query_map(query: Seq<char>) -> Map<Seq<char>, Seq<char>> {
    assoc(parameters(query, 0))
}

/// A request target without a `?` has no query parameters.
pub proof fn law_no_query_no_parameters(target: Seq<char>)
    requires
        forall|i: int| 0 <= i < target.len() ==> target[i] != '?',
    ensures
        query_map(query_of(target)) == Map::<Seq<char>, Seq<char>>::empty(),
{
    lemma_first_in(target, '?', 0, target.len() as int);
}

/// Parses a query string into its parameters.
pub fn parse_query(query: &str) -> (parsed: TextMap)
    ensures
        parsed@ == query_map(query@),
{
    let chars = chars_of(query);
    let mut parsed = TextMap::new();
    let mut from: usize = 0;
    let ghost mut done: Seq<(Seq<char>, Seq<char>)> = Seq::empty();
    while from < chars.len()
        invariant
            chars@ == query@,
            from <= chars@.len(),
            parsed@ == assoc(done),
            done + parameters(query@, from as int) == parameters(query@, 0),
        decreases chars@.len() - from,
    {
        let until = find(&chars, '&', from, chars.len());
        if until > from {
            let eq = find(&chars, '=', from, until);
            let key = substring(query, from, eq);
            let value = if eq < until {
                substring(query, eq + 1, until)
            } else {
                String::new()
            };
            proof {
                let pair = parameter(query@, from as int, until as int);
                assert(pair == (key@, value@));
                lemma_assoc_push(done, pair);
                assert(done.push(pair) + parameters(query@, until + 1) =~= done + (seq![pair]
                    + parameters(query@, until + 1)));
                done = done.push(pair);
            }
            parsed.insert(key, value);
        }
        if until < chars.len() {
            from = until + 1;
        } else {
            from = until;
        }
    }
    proof {
        assert(done + parameters(query@, from as int) =~= done);
    }
    parsed
}

/// Puts a slash in front of a path that has none.
pub fn normalize(path: &str) -> (normal: String)
    ensures
        normal@ == normalized(path@),
{
    let rooted = path.unicode_len() > 0 && path.get_char(0) == '/';
    if rooted {
        path.to_owned()
    } else {
        proof {
            reveal_strlit("/");
            assert("/"@ =~= seq!['/']);
        }
        let mut normal = String::from_str("/");
        normal.append(path);
        normal
    }
}

/// The path of a request target.
pub fn target_path(target: &str) -> (path: String)
    ensures
        path@ == path_of(target@),
{
    let chars = chars_of(target);
    let cut = find(&chars, '?', 0, chars.len());
    proof {
        assert(target@.take(cut as int) =~= target@.subrange(0, cut as int));
    }
    normalize(substring(target, 0, cut).as_str())
}

/// The query parameters of a request target.
pub fn target_query(target: &str) -> (query: TextMap)
    ensures
        query@ == query_map(query_of(target@)),
{
    let chars = chars_of(target);
    let cut = find(&chars, '?', 0, chars.len());
    if cut < chars.len() {
        proof {
            assert(target@.skip(cut + 1) =~= target@.subrange(cut + 1, chars@.len() as int));
        }
        parse_query(substring(target, cut + 1, chars.len()).as_str())
    } else {
        TextMap::new()
    }
}

/// The snapshot of a request, from the plain parts that the HTTP engine
/// gives. The snapshot has no place in the queue yet: its sequence number is
/// zero until it arrives there.
pub fn snapshot(method: &str, target: &str, fields: &Vec<(String, Vec<u8>)>, body: Vec<u8>) -> (request:
    Request)
    ensures
        request.method@ == method@,
        request.path@ == path_of(target@),
        request.query@ == query_map(query_of(target@)),
        request.headers@ == assoc(header_pairs(fields@)),
        request.body == body,
        request.sequence == 0,
{
    Request {
        body,
        headers: extract_headers(fields),
        method: method.to_owned(),
        path: target_path(target),
        query: target_query(target),
        sequence: 0,
    }
}

/// The bytes of a body as they are captured: the chunks joined in order, or
/// nothing at all where the transport failed before the end.
pub open spec fn captured_body(chunks: Seq<Option<Bytes>>) -> Seq<u8> {
    if intact(chunks) {
        delivered(chunks).flatten()
    } else {
        Seq::empty()
    }
}

/// Captures one request: reads the body to its end and takes the snapshot.
///
/// Gives the snapshot together with the body as one fresh chunk, for the
/// handler that answers the request: the handler reads the same bytes that
/// the snapshot holds. A body that fails on the way is captured as empty, and
/// the request is answered all the same.
pub fn capture(
    method: &str,
    target: &str,
    fields: &Vec<(String, Vec<u8>)>,
    chunks: &Vec<Option<Bytes>>,
) -> (captured: (Request, Bytes))
    ensures
        captured.0.method@ == method@,
        captured.0.path@ == path_of(target@),
        captured.0.query@ == query_map(query_of(target@)),
        captured.0.headers@ == assoc(header_pairs(fields@)),
        captured.0.body@ == captured_body(chunks@),
        captured.0.sequence == 0,
        frozen_bytes(captured.1) == captured_body(chunks@),
{
    let body = match load_body(chunks) {
        Ok(loaded) => loaded.freeze(),
        Err(_) => empty_buffer().freeze(),
    };
    let request = snapshot(method, target, fields, slice_to_vec(&body));
    (request, body)
}

/// The capture stage for one worker of the server context.
pub struct ShareRequestMiddleware {
    pub tx: Sender<Request>,
}

impl ShareRequestMiddleware {
    /// Captures one request, hands the snapshot to the queue, and gives the
    /// body back for the handler that answers the request. A snapshot that
    /// the queue does not take is lost; the request is answered all the
    /// same.
    pub fn call(
        &self,
        method: &str,
        target: &str,
        fields: &Vec<(String, Vec<u8>)>,
        chunks: &Vec<Option<Bytes>>,
    ) -> (payload: Bytes)
        ensures
            frozen_bytes(payload) == captured_body(chunks@),
    {
        let (request, payload) = capture(method, target, fields, chunks);
        let _ = self.tx.try_send(request);
        payload
    }
}

} // verus!
