//! Captured requests and the queue through which they reach the test thread.
//!
//! The server context hands each capture to a channel. The receiving end
//! keeps the captures it has taken out of the channel in arrival order, numbers
//! them, and gives them out oldest first.

use crate::text::TextMap;
use crossbeam_channel::{unbounded, Receiver, Sender};
use std::collections::VecDeque;
use std::rc::Rc;
use vstd::prelude::*;
use vstd::utf8::{decode_utf8, encode_utf8, encode_utf8_decode_utf8, valid_utf8};

verus! {

/// A snapshot of one inbound request.
///
/// Header names are kept as the HTTP engine hands them over. `sequence` is
/// given when the request enters the queue of unclaimed requests.
#[derive(Debug)]
pub struct Request {
    pub body: Vec<u8>,
    pub headers: TextMap,
    pub method: String,
    pub path: String,
    pub query: TextMap,
    pub sequence: u64,
}

/// The text that `String::from_utf8_lossy` makes of these bytes.
pub uninterp spec fn lossy_text(bytes: Seq<u8>) -> Seq<char>;

/// `String::from_utf8_lossy`, with its result made into a `String` of its
/// own. It reads the bytes as UTF-8 and puts U+FFFD wherever they are none:
/// of bytes that are UTF-8 throughout it makes a string of just these bytes.
#[verifier::external_body]
fn utf8_lossy(bytes: &[u8]) -> (text: String)
    ensures
        text@ == lossy_text(bytes@),
        valid_utf8(bytes@) ==> encode_utf8(text@) == bytes@,
{
    String::from_utf8_lossy(bytes).into_owned()
}

impl Request {
    /// The body read as text, for convenience. The bytes of the body are
    /// what was captured; where they are no UTF-8 the text holds U+FFFD in
    /// their place.
    pub fn body_text(&self) -> (text: String)
        ensures
            text@ == lossy_text(self.body@),
            valid_utf8(self.body@) ==> text@ == decode_utf8(self.body@),
    {
        let text = utf8_lossy(self.body.as_slice());
        proof {
            encode_utf8_decode_utf8(text@);
        }
        text
    }
}

/// What a receiver holds: the unclaimed requests, oldest first, and how many
/// sequence numbers have been given out.
pub struct Unclaimed {
    pub requests: Seq<Request>,
    pub issued: u64,
}

/// `request` with the sequence number `sequence`.
pub open spec fn stamped(request: Request, sequence: u64) -> Request {
    Request { sequence, ..request }
}

/// The state before any request: nothing unclaimed, no number given out.
pub open spec fn fresh() -> Unclaimed {
    Unclaimed { requests: Seq::empty(), issued: 0 }
}

/// One arrival: the request goes to the end with the next sequence number.
/// Once the numbers are used up, arrivals are dropped.
pub open spec fn arrive(queue: Unclaimed, request: Request) -> Unclaimed {
    if queue.issued < u64::MAX {
        Unclaimed {
            requests: queue.requests.push(stamped(request, queue.issued)),
            issued: (queue.issued + 1) as u64,
        }
    } else {
        queue
    }
}

/// The arrivals of `arrivals`, one after the other.
pub open spec fn arrive_all(queue: Unclaimed, arrivals: Seq<Request>) -> Unclaimed
    decreases arrivals.len(),
{
    if arrivals.len() == 0 {
        queue
    } else {
        arrive(arrive_all(queue, arrivals.drop_last()), arrivals.last())
    }
}

/// `after` is `before` with some arrivals added.
pub open spec fn fed(before: Unclaimed, after: Unclaimed) -> bool {
    exists|arrivals: Seq<Request>| after == #[trigger] arrive_all(before, arrivals)
}

/// The oldest unclaimed request, if there is one.
pub open spec fn oldest(queue: Unclaimed) -> Option<Request> {
    if queue.requests.len() == 0 {
        None
    } else {
        Some(queue.requests[0])
    }
}

/// The state after the oldest unclaimed request has been claimed; an empty
/// queue stays as it is.
pub open spec fn claimed(queue: Unclaimed) -> Unclaimed {
    if queue.requests.len() == 0 {
        queue
    } else {
        Unclaimed { requests: queue.requests.drop_first(), issued: queue.issued }
    }
}

/// `count` claims in a row.
pub open spec fn claimed_many(queue: Unclaimed, count: nat) -> Unclaimed
    decreases count,
{
    if count == 0 {
        queue
    } else {
        claimed(claimed_many(queue, (count - 1) as nat))
    }
}

/// Sequence numbers grow strictly from the oldest request to the newest, and
/// all of them have been given out.
pub open spec fn ordered(queue: Unclaimed) -> bool {
    &&& forall|i: int, j: int|
        0 <= i < j < queue.requests.len() ==> (#[trigger] queue.requests[i]).sequence < (
        #[trigger] queue.requests[j]).sequence
    &&& forall|i: int|
        0 <= i < queue.requests.len() ==> (#[trigger] queue.requests[i]).sequence < queue.issued
}

/// An arrival keeps the sequence numbers in order.
pub proof fn lemma_arrive_ordered(queue: Unclaimed, request: Request)
    requires
        ordered(queue),
    ensures
        ordered(arrive(queue, request)),
{
    let after = arrive(queue, request);
    if queue.issued < u64::MAX {
        assert forall|i: int, j: int| 0 <= i < j < after.requests.len() implies (
        #[trigger] after.requests[i]).sequence < (#[trigger] after.requests[j]).sequence by {
            assert(after.requests[i] == queue.requests[i]);
            if j < queue.requests.len() {
                assert(after.requests[j] == queue.requests[j]);
            }
        }
        assert forall|i: int| 0 <= i < after.requests.len() implies (
        #[trigger] after.requests[i]).sequence < after.issued by {
            if i < queue.requests.len() {
                assert(after.requests[i] == queue.requests[i]);
            }
        }
    }
}

/// A claim keeps the sequence numbers in order.
pub proof fn lemma_claimed_ordered(queue: Unclaimed)
    requires
        ordered(queue),
    ensures
        ordered(claimed(queue)),
{
    let after = claimed(queue);
    if queue.requests.len() > 0 {
        assert forall|i: int, j: int| 0 <= i < j < after.requests.len() implies (
        #[trigger] after.requests[i]).sequence < (#[trigger] after.requests[j]).sequence by {
            assert(after.requests[i] == queue.requests[i + 1]);
            assert(after.requests[j] == queue.requests[j + 1]);
        }
        assert forall|i: int| 0 <= i < after.requests.len() implies (
        #[trigger] after.requests[i]).sequence < after.issued by {
            assert(after.requests[i] == queue.requests[i + 1]);
        }
    }
}

/// Arrivals keep the sequence numbers in order.
pub proof fn lemma_arrive_all_ordered(queue: Unclaimed, arrivals: Seq<Request>)
    requires
        ordered(queue),
    ensures
        ordered(arrive_all(queue, arrivals)),
    decreases arrivals.len(),
{
    if arrivals.len() > 0 {
        lemma_arrive_all_ordered(queue, arrivals.drop_last());
        lemma_arrive_ordered(arrive_all(queue, arrivals.drop_last()), arrivals.last());
    }
}

/// Arrivals go to the end: what was unclaimed before them is unclaimed after
/// them, in front and unchanged, and no sequence number is taken back.
pub proof fn lemma_arrivals_go_behind(queue: Unclaimed, arrivals: Seq<Request>)
    ensures
        queue.requests.len() <= arrive_all(queue, arrivals).requests.len(),
        arrive_all(queue, arrivals).requests.take(queue.requests.len() as int) == queue.requests,
        queue.issued <= arrive_all(queue, arrivals).issued,
    decreases arrivals.len(),
{
    if arrivals.len() > 0 {
        let before = arrive_all(queue, arrivals.drop_last());
        lemma_arrivals_go_behind(queue, arrivals.drop_last());
        assert(arrive(before, arrivals.last()).requests.take(queue.requests.len() as int)
            =~= before.requests.take(queue.requests.len() as int));
    } else {
        assert(queue.requests.take(queue.requests.len() as int) =~= queue.requests);
    }
}

/// What `fed` says of the requests that were unclaimed before: they are
/// still there, in front.
pub proof fn lemma_fed_keeps_what_waits(before: Unclaimed, after: Unclaimed)
    requires
        fed(before, after),
    ensures
        before.requests.len() <= after.requests.len(),
        after.requests.take(before.requests.len() as int) == before.requests,
        before.issued <= after.issued,
{
    let arrivals = choose|arrivals: Seq<Request>| after == #[trigger] arrive_all(before, arrivals);
    lemma_arrivals_go_behind(before, arrivals);
}

/// What arrivals into a fresh queue leave behind: each request with its
/// position as sequence number.
pub proof fn lemma_arrivals_numbered(arrivals: Seq<Request>)
    requires
        arrivals.len() <= u64::MAX,
    ensures
        arrive_all(fresh(), arrivals).issued == arrivals.len(),
        arrive_all(fresh(), arrivals).requests == Seq::new(
            arrivals.len(),
            |i: int| stamped(arrivals[i], i as u64),
        ),
    decreases arrivals.len(),
{
    if arrivals.len() > 0 {
        lemma_arrivals_numbered(arrivals.drop_last());
    }
    assert(arrive_all(fresh(), arrivals).requests =~= Seq::new(
        arrivals.len(),
        |i: int| stamped(arrivals[i], i as u64),
    ));
}

/// Claims take requests from the front.
pub proof fn lemma_claimed_many(queue: Unclaimed, count: nat)
    requires
        count <= queue.requests.len(),
    ensures
        claimed_many(queue, count).requests == queue.requests.skip(count as int),
        claimed_many(queue, count).issued == queue.issued,
    decreases count,
{
    if count > 0 {
        lemma_claimed_many(queue, (count - 1) as nat);
        assert(queue.requests.skip(count - 1).drop_first() =~= queue.requests.skip(count as int));
    } else {
        assert(queue.requests.skip(0) =~= queue.requests);
    }
}

/// Requests that arrive one after the other come out in the order in which
/// they arrived, numbered from zero upwards: after `position` claims the
/// next claim gives the request that arrived at `position`, and its sequence
/// number is `position`.
pub proof fn law_claims_follow_arrival_order(arrivals: Seq<Request>, position: nat)
    requires
        position < arrivals.len() <= u64::MAX,
    ensures
        oldest(claimed_many(arrive_all(fresh(), arrivals), position)) == Some(
            stamped(arrivals[position as int], position as u64),
        ),
{
    lemma_arrivals_numbered(arrivals);
    lemma_claimed_many(arrive_all(fresh(), arrivals), position);
}

/// A request that is claimed has a smaller sequence number than every
/// request that is claimed after it, whatever arrives in between: all that
/// is left in the queue, and all that arrives later, has a greater number.
pub proof fn law_sequence_numbers_increase(queue: Unclaimed, arrivals: Seq<Request>, later: int)
    requires
        ordered(queue),
        queue.requests.len() > 0,
        0 <= later < arrive_all(claimed(queue), arrivals).requests.len(),
    ensures
        queue.requests[0].sequence < arrive_all(claimed(queue), arrivals).requests[later].sequence,
    decreases arrivals.len(),
{
    lemma_claimed_ordered(queue);
    if arrivals.len() == 0 {
        assert(claimed(queue).requests[later] == queue.requests[later + 1]);
    } else {
        let before = arrive_all(claimed(queue), arrivals.drop_last());
        lemma_arrive_all_ordered(claimed(queue), arrivals.drop_last());
        lemma_arrivals_go_behind(claimed(queue), arrivals.drop_last());
        if later < before.requests.len() {
            law_sequence_numbers_increase(queue, arrivals.drop_last(), later);
            assert(arrive(before, arrivals.last()).requests[later] == before.requests[later]);
        }
    }
}

/// Nothing is unclaimed before the first request. After a number of
/// arrivals as many requests are unclaimed. A claim takes exactly one request
/// away where there is one, and gives none and changes nothing where there is
/// none.
pub proof fn law_queue_accounting(arrivals: Seq<Request>, queue: Unclaimed)
    requires
        arrivals.len() <= u64::MAX,
    ensures
        fresh().requests.len() == 0,
        arrive_all(fresh(), arrivals).requests.len() == arrivals.len(),
        queue.requests.len() > 0 ==> oldest(queue) is Some && claimed(queue).requests.len()
            == queue.requests.len() - 1,
        queue.requests.len() == 0 ==> oldest(queue) is None && claimed(queue) == queue,
{
    lemma_arrivals_numbered(arrivals);
}

/// The receiving end of the capture queue.
#[derive(Debug)]
pub struct RequestReceiver {
    rx: Rc<Receiver<Request>>,
    unclaimed: VecDeque<Request>,
    next_sequence: u64,
}

impl View for RequestReceiver {
    type V = Unclaimed;

    closed spec fn view(&self) -> Unclaimed {
        Unclaimed { requests: self.unclaimed@, issued: self.next_sequence }
    }
}

impl RequestReceiver {
    /// The sequence numbers of the unclaimed requests are in order.
    #[verifier::type_invariant]
    spec fn in_order(&self) -> bool {
        ordered(self@)
    }

    /// The channel that feeds this receiver.
    pub closed spec fn channel(&self) -> Rc<Receiver<Request>> {
        self.rx
    }

    /// A receiver for the channel `rx` that has seen no request yet.
    pub fn new(rx: Rc<Receiver<Request>>) -> (receiver: RequestReceiver)
        ensures
            receiver.channel() == rx,
            receiver@ == fresh(),
    {
        RequestReceiver { rx, unclaimed: VecDeque::new(), next_sequence: 0 }
    }

    /// Takes one arrival into the queue. Says whether it was kept: it is
    /// dropped once the sequence numbers are used up.
    pub fn accept(&mut self, request: Request) -> (kept: bool)
        ensures
            final(self).channel() == old(self).channel(),
            final(self)@ == arrive(old(self)@, request),
            ordered(final(self)@),
            kept == (old(self)@.issued < u64::MAX),
    {
        proof {
            use_type_invariant(&*self);
            lemma_arrive_ordered(self@, request);
        }
        if self.next_sequence < u64::MAX {
            let mut request = request;
            request.sequence = self.next_sequence;
            let mut unclaimed: VecDeque<Request> = VecDeque::new();
            core::mem::swap(&mut self.unclaimed, &mut unclaimed);
            self.next_sequence = self.next_sequence + 1;
            unclaimed.push_back(request);
            self.unclaimed = unclaimed;
            true
        } else {
            false
        }
    }

    /// Moves what the channel holds right now into the queue, without
    /// waiting for more.
    pub fn poll(&mut self)
        ensures
            final(self).channel() == old(self).channel(),
            fed(old(self)@, final(self)@),
            ordered(final(self)@),
    {
        proof {
            use_type_invariant(&*self);
        }
        let waiting: usize = self.rx.len();
        let ghost arrivals: Seq<Request> = Seq::empty();
        let mut taken: usize = 0;
        while taken < waiting
            invariant
                self.channel() == old(self).channel(),
                self@ == arrive_all(old(self)@, arrivals),
                ordered(self@),
            decreases waiting - taken,
        {
            match self.rx.try_recv() {
                Ok(request) => {
                    proof {
                        assert(arrivals.push(request).drop_last() =~= arrivals);
                        arrivals = arrivals.push(request);
                    }
                    self.accept(request);
                },
                Err(_) => {
                    break ;
                },
            }
            taken += 1;
        }
    }

    /// The number of unclaimed requests in the queue, leaving the channel
    /// alone.
    pub fn unclaimed(&self) -> (count: usize)
        ensures
            count == self@.requests.len(),
    {
        self.unclaimed.len()
    }

    /// Claims the oldest request in the queue, leaving the channel alone.
    pub fn claim(&mut self) -> (request: Option<Request>)
        ensures
            final(self).channel() == old(self).channel(),
            request == oldest(old(self)@),
            final(self)@ == claimed(old(self)@),
            ordered(final(self)@),
    {
        proof {
            use_type_invariant(&*self);
            lemma_claimed_ordered(self@);
        }
        let mut unclaimed: VecDeque<Request> = VecDeque::new();
        core::mem::swap(&mut self.unclaimed, &mut unclaimed);
        let request = unclaimed.pop_front();
        proof {
            if old(self)@.requests.len() > 0 {
                assert(unclaimed@ =~= old(self)@.requests.drop_first());
            }
        }
        self.unclaimed = unclaimed;
        request
    }

    /// Whether no captured request is waiting to be claimed, after taking in
    /// what the channel holds.
    pub fn is_empty(&mut self) -> (empty: bool)
        ensures
            final(self).channel() == old(self).channel(),
            fed(old(self)@, final(self)@),
            ordered(final(self)@),
            empty == (final(self)@.requests.len() == 0),
            old(self)@.requests.len() > 0 ==> !empty,
    {
        self.poll();
        proof {
            lemma_fed_keeps_what_waits(old(self)@, self@);
        }
        self.unclaimed() == 0
    }

    /// The number of captured requests waiting to be claimed, after taking in
    /// what the channel holds.
    pub fn len(&mut self) -> (count: usize)
        ensures
            final(self).channel() == old(self).channel(),
            fed(old(self)@, final(self)@),
            ordered(final(self)@),
            count == final(self)@.requests.len(),
            count >= old(self)@.requests.len(),
    {
        self.poll();
        proof {
            lemma_fed_keeps_what_waits(old(self)@, self@);
        }
        self.unclaimed()
    }

    /// Removes and returns the oldest unclaimed request, after taking in what
    /// the channel holds. Returns `None` when there is none; never waits.
    pub fn next(&mut self) -> (request: Option<Request>)
        ensures
            final(self).channel() == old(self).channel(),
            ordered(final(self)@),
            exists|taken: Unclaimed|
                fed(old(self)@, taken) && request == oldest(taken) && final(self)@
                    == #[trigger] claimed(taken),
            old(self)@.requests.len() > 0 ==> request == Some(old(self)@.requests[0]),
            request is None ==> old(self)@.requests.len() == 0 && final(self)@.requests.len() == 0,
    {
        self.poll();
        let ghost taken = self@;
        proof {
            lemma_fed_keeps_what_waits(old(self)@, taken);
            if old(self)@.requests.len() > 0 {
                assert(taken.requests.take(old(self)@.requests.len() as int)[0]
                    == taken.requests[0]);
            }
        }
        let request = self.claim();
        assert(self@ == claimed(taken));
        request
    }
}

/// The sending end of the capture queue, as the server context holds it.
pub struct ShareRequest {
    pub tx: Sender<Request>,
}

impl ShareRequest {
    pub fn new(tx: Sender<Request>) -> (share: Self)
        ensures
            share.tx == tx,
    {
        Self { tx }
    }
}

/// Makes a capture queue: the end that the server context sends into, and
/// the end from which the test thread claims. The queue has seen no request.
pub fn capture_queue() -> (ends: (ShareRequest, RequestReceiver))
    ensures
        ends.1@ == fresh(),
{
    let (tx, rx) = unbounded::<Request>();
    (ShareRequest::new(tx), RequestReceiver::new(Rc::new(rx)))
}

} // verus!
