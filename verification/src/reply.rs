//! Reply scripting: the test thread queues directives, and the handler that
//! builds the next response applies whatever is queued at that moment.
//!
//! Directives belong to no request in particular. With one request at a time
//! they shape the next response; with requests in flight at once, whichever
//! handler drains the script first takes them all.

use crate::text::TextMap;
use crossbeam_channel::{unbounded, Receiver, Sender};
use vstd::prelude::*;
use vstd::slice::slice_to_vec;

verus! {

/// One scripted instruction for an upcoming response.
#[derive(Debug)]
pub enum ReplyDirective {
    /// Sets the status code. Codes outside 100 to 599 are no status codes and
    /// change nothing.
    SetStatus(u16),
    /// Sets the header of this name to this value.
    SetHeader(String, String),
    /// Sets the body.
    SetBody(Vec<u8>),
}

/// A response in the making.
#[derive(Debug)]
pub struct Response {
    pub status: u16,
    pub headers: TextMap,
    pub body: Vec<u8>,
}

/// What a response holds.
pub struct ResponseView {
    pub status: u16,
    pub headers: Map<Seq<char>, Seq<char>>,
    pub body: Seq<u8>,
}

impl View for Response {
    type V = ResponseView;

    open spec fn view(&self) -> ResponseView {
        ResponseView { status: self.status, headers: self.headers@, body: self.body@ }
    }
}

/// Whether `code` is a status code.
pub open spec fn is_status(code: u16) -> bool {
    100 <= code <= 599
}

/// The response after one directive: a status or a body replaces the one
/// before it, a header is added or replaces the header of the same name.
pub open spec fn applied(response: ResponseView, directive: ReplyDirective) -> ResponseView {
    match directive {
        ReplyDirective::SetStatus(code) => if is_status(code) {
            ResponseView { status: code, ..response }
        } else {
            response
        },
        ReplyDirective::SetHeader(name, value) => ResponseView {
            headers: response.headers.insert(name@, value@),
            ..response
        },
        ReplyDirective::SetBody(bytes) => ResponseView { body: bytes@, ..response },
    }
}

/// The response after the directives, applied in the order in which they were
/// submitted.
pub open spec fn applied_all(
    response: ResponseView,
    directives: Seq<ReplyDirective>,
) -> ResponseView
    decreases directives.len(),
{
    if directives.len() == 0 {
        response
    } else {
        applied(applied_all(response, directives.drop_last()), directives.last())
    }
}

/// `response` is `default` after some directives.
pub open spec fn scripted(default: ResponseView, response: ResponseView) -> bool {
    exists|directives: Seq<ReplyDirective>| response == #[trigger] applied_all(default, directives)
}

/// A status code, a header and a body that are queued in this order shape
/// the response: it has that status, that value for the header, and that
/// body. What else the handler's response held, it still holds.
pub proof fn law_scripted_reply(
    default: ResponseView,
    code: u16,
    name: String,
    value: String,
    bytes: Vec<u8>,
)
    requires
        is_status(code),
    ensures
        ({
            let response = applied_all(
                default,
                seq![
                    ReplyDirective::SetStatus(code),
                    ReplyDirective::SetHeader(name, value),
                    ReplyDirective::SetBody(bytes),
                ],
            );
            &&& response.status == code
            &&& response.headers == default.headers.insert(name@, value@)
            &&& response.body == bytes@
        }),
{
    let directives = seq![
        ReplyDirective::SetStatus(code),
        ReplyDirective::SetHeader(name, value),
        ReplyDirective::SetBody(bytes),
    ];
    assert(directives.drop_last() =~= seq![
        ReplyDirective::SetStatus(code),
        ReplyDirective::SetHeader(name, value),
    ]);
    assert(directives.drop_last().drop_last() =~= seq![ReplyDirective::SetStatus(code)]);
    assert(directives.drop_last().drop_last().drop_last() =~= Seq::<ReplyDirective>::empty());
    reveal_with_fuel(applied_all, 4);
}

/// Without directives the response of the handler stands as it is.
pub proof fn law_unscripted_reply(default: ResponseView)
    ensures
        applied_all(default, Seq::<ReplyDirective>::empty()) == default,
{
}

impl Response {
    /// The response of a handler that has nothing to say: status 200, no
    /// header, no body.
    pub fn ok() -> (response: Response)
        ensures
            response@.status == 200,
            response@.headers == Map::<Seq<char>, Seq<char>>::empty(),
            response@.body == Seq::<u8>::empty(),
    {
        Response { status: 200, headers: TextMap::new(), body: Vec::new() }
    }

    /// Applies one directive.
    pub fn apply(&mut self, directive: ReplyDirective)
        ensures
            final(self)@ == applied(old(self)@, directive),
    {
        match directive {
            ReplyDirective::SetStatus(code) => {
                if 100 <= code && code <= 599 {
                    self.status = code;
                }
            },
            ReplyDirective::SetHeader(name, value) => {
                self.headers.insert(name, value);
            },
            ReplyDirective::SetBody(bytes) => {
                self.body = bytes;
            },
        }
    }

    /// Applies the directives in the order in which they stand.
    pub fn apply_all(&mut self, directives: Vec<ReplyDirective>)
        ensures
            final(self)@ == applied_all(old(self)@, directives@),
    {
        let ghost all = directives@;
        for directive in it: directives
            invariant
                it.seq() == all,
                self@ == applied_all(old(self)@, all.take(it.index() as int)),
        {
            proof {
                assert(all.take(it.index() + 1).drop_last() =~= all.take(it.index() as int));
            }
            self.apply(directive);
        }
        proof {
            assert(all.take(all.len() as int) =~= all);
        }
    }
}

/// The script as the server context holds it: the end from which handlers
/// take the queued directives.
pub struct ReplyScript {
    pub rx: Receiver<ReplyDirective>,
}

impl ReplyScript {
    pub fn new(rx: Receiver<ReplyDirective>) -> (script: Self)
        ensures
            script.rx == rx,
    {
        Self { rx }
    }

    /// Takes out everything that is queued right now, in submission order,
    /// without waiting for more.
    fn drain(&self) -> (directives: Vec<ReplyDirective>) {
        let waiting: usize = self.rx.len();
        let mut directives: Vec<ReplyDirective> = Vec::new();
        let mut taken: usize = 0;
        while taken < waiting
            decreases waiting - taken,
        {
            match self.rx.try_recv() {
                Ok(directive) => {
                    directives.push(directive);
                },
                Err(_) => {
                    break ;
                },
            }
            taken += 1;
        }
        directives
    }

    /// Shapes a response: drains the script and applies what was queued to
    /// the handler's own response. With nothing queued, the handler's response
    /// stands as it is.
    pub fn respond(&self, default: Response) -> (response: Response)
        ensures
            scripted(default@, response@),
    {
        let directives = self.drain();
        let mut response = default;
        response.apply_all(directives);
        assert(response@ == applied_all(default@, directives@));
        response
    }
}

/// The directive sets the header `name` to `value`.
pub open spec fn sets_header(directive: ReplyDirective, name: Seq<char>, value: Seq<char>) -> bool {
    directive matches ReplyDirective::SetHeader(n, v) && n@ == name && v@ == value
}

/// The script as the test thread holds it: each call queues one directive
/// and returns at once.
///
/// `submitted` keeps account of the directives that the chain has handed to
/// the channel so far, in order. Whether the channel took them is up to the
/// channel.
#[derive(Clone, Copy)]
pub struct ReplyBuilder<'a> {
    pub tx: &'a Sender<ReplyDirective>,
    pub submitted: Ghost<Seq<ReplyDirective>>,
}

impl<'a> ReplyBuilder<'a> {
    pub fn new(tx: &'a Sender<ReplyDirective>) -> (builder: Self)
        ensures
            builder.tx == tx,
            builder.submitted@ == Seq::<ReplyDirective>::empty(),
    {
        Self { tx, submitted: Ghost(Seq::empty()) }
    }

    /// Queues one directive: hands it to the channel, behind what the chain
    /// has handed over before. A directive that the channel does not take is
    /// lost.
    pub fn push(self, directive: ReplyDirective) -> (builder: Self)
        ensures
            builder.tx == self.tx,
            builder.submitted@ == self.submitted@.push(directive),
    {
        let ghost submitted = self.submitted@.push(directive);
        let _ = self.tx.try_send(directive);
        Self { tx: self.tx, submitted: Ghost(submitted) }
    }

    /// Queues a status code for the next response.
    pub fn status(self, code: u16) -> (builder: Self)
        ensures
            builder.tx == self.tx,
            builder.submitted@ == self.submitted@.push(ReplyDirective::SetStatus(code)),
    {
        self.push(ReplyDirective::SetStatus(code))
    }

    /// Queues a header for the next response.
    pub fn header(self, name: &str, value: &str) -> (builder: Self)
        ensures
            builder.tx == self.tx,
            builder.submitted@.len() == self.submitted@.len() + 1,
            builder.submitted@.drop_last() == self.submitted@,
            sets_header(builder.submitted@.last(), name@, value@),
    {
        let directive = ReplyDirective::SetHeader(name.to_owned(), value.to_owned());
        proof {
            assert(self.submitted@.push(directive).drop_last() =~= self.submitted@);
        }
        self.push(directive)
    }

    /// Queues a body for the next response, and ends the chain.
    pub fn body(self, bytes: &[u8]) {
        let _ = self.push(ReplyDirective::SetBody(slice_to_vec(bytes)));
    }
}

/// Makes a reply script: the channel into which the test thread queues
/// directives, and the end from which the server context takes them.
pub fn reply_script() -> (ends: (Sender<ReplyDirective>, ReplyScript)) {
    let (tx, rx) = unbounded::<ReplyDirective>();
    (tx, ReplyScript::new(rx))
}

} // verus!
