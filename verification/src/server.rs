//! The handle on a started server: how the startup handshake is read, the
//! address the server answers on, and the way from running to stopped.
//!
//! The thread that runs the listener, the socket and the waiting belong to
//! the program around this library. Here stands what is decided: what a
//! handshake message means, what a call of `stop` has to do in each state, and
//! what the end of the background thread means.

use crate::reply::{ReplyBuilder, ReplyDirective};
use crate::requests::RequestReceiver;
use crossbeam_channel::Sender;
use vstd::prelude::*;

verus! {

/// An address on which a listener answers: the host as its text, and the
/// port.
#[derive(Debug)]
pub struct SocketAddress {
    pub host: String,
    pub port: u16,
}

/// The one message of the startup handshake, or its absence.
#[derive(Debug)]
pub enum Handshake {
    /// The listener is bound and accepts connections on these addresses.
    Bound { sockets: Vec<SocketAddress> },
    /// Binding `address` failed for `cause`.
    Failed { address: String, cause: String },
    /// The background context ended, or the wait ran out, before any message
    /// came.
    Lost,
}

/// Why a server did not start.
#[derive(Debug)]
pub enum StartError {
    /// Binding `address` failed for `cause`.
    Bind { address: String, cause: String },
    /// The background context gave no handshake message.
    HandshakeLost,
    /// The listener named no address with a concrete port.
    NoSocket,
}

/// Where a server stands between start and end.
#[derive(Debug, Clone, Copy, PartialEq, Eq, Structural)]
pub enum Lifecycle {
    Starting,
    Running,
    Stopping,
    Stopped,
}

/// What can happen to a server.
#[derive(Debug, Clone, Copy, PartialEq, Eq, Structural)]
pub enum Event {
    /// The handshake said that the listener is bound.
    Bound,
    /// The handshake said that binding failed, or there was no handshake.
    Failed,
    /// The caller asked the server to stop.
    Stop,
    /// The background thread has ended.
    Joined,
}

/// The state after `event`. A starting server runs once it is bound and is
/// stopped if it is not; a running server is stopping once it is asked to
/// stop; a stopping server is stopped once its thread has ended. Whatever
/// else happens changes nothing.
pub open spec fn after(state: Lifecycle, event: Event) -> Lifecycle {
    match (state, event) {
        (Lifecycle::Starting, Event::Bound) => Lifecycle::Running,
        (Lifecycle::Starting, Event::Failed) => Lifecycle::Stopped,
        (Lifecycle::Running, Event::Stop) => Lifecycle::Stopping,
        (Lifecycle::Stopping, Event::Joined) => Lifecycle::Stopped,
        _ => state,
    }
}

/// How far a state is from the start.
pub open spec fn progress(state: Lifecycle) -> nat {
    match state {
        Lifecycle::Starting => 0,
        Lifecycle::Running => 1,
        Lifecycle::Stopping => 2,
        Lifecycle::Stopped => 3,
    }
}

/// Asking twice to stop is asking once. A stopped server stays stopped
/// whatever happens. No server ever goes back: each event leaves the state
/// where it is or moves it towards stopped.
pub proof fn law_lifecycle(state: Lifecycle, event: Event)
    ensures
        after(after(state, Event::Stop), Event::Stop) == after(state, Event::Stop),
        after(Lifecycle::Stopped, event) == Lifecycle::Stopped,
        progress(state) <= progress(after(state, event)),
{
}

impl Lifecycle {
    /// The state after `event`.
    pub fn on(self, event: Event) -> (next: Lifecycle)
        ensures
            next == after(self, event),
    {
        match (self, event) {
            (Lifecycle::Starting, Event::Bound) => Lifecycle::Running,
            (Lifecycle::Starting, Event::Failed) => Lifecycle::Stopped,
            (Lifecycle::Running, Event::Stop) => Lifecycle::Stopping,
            (Lifecycle::Stopping, Event::Joined) => Lifecycle::Stopped,
            _ => self,
        }
    }
}

/// What the caller of `stop` has to do.
#[derive(Debug, Clone, Copy, PartialEq, Eq, Structural)]
pub enum StopAction {
    /// Nothing: the server is stopped, or is being stopped already.
    Nothing,
    /// Tell the background context to stop, then wait for its thread to end
    /// and report with `joined`. With `graceful` the requests in flight are
    /// finished first; without, they are cut off.
    Shutdown { graceful: bool },
}

/// The background thread ended in a panic.
#[derive(Debug, Clone, Copy, PartialEq, Eq, Structural)]
pub struct StopError;

/// The digit character of a number below ten.
pub open spec fn digit(value: nat) -> char {
    ('0' as u8 + value) as char
}

/// A number in decimal digits, without leading zeros.
pub open spec fn decimal(value: nat) -> Seq<char>
    decreases value,
{
    if value < 10 {
        seq![digit(value)]
    } else {
        decimal(value / 10).push(digit(value % 10))
    }
}

/// A number is written with a digit that is not zero in front, unless it is
/// zero itself. So the port in the URL of a started server, which is not
/// zero, is never written as `0`.
pub proof fn law_decimal_has_no_leading_zero(value: nat)
    ensures
        decimal(value).len() >= 1,
        value == 0 ==> decimal(value) == seq!['0'],
        value > 0 ==> decimal(value)[0] != '0',
    decreases value,
{
    if value >= 10 {
        law_decimal_has_no_leading_zero(value / 10);
    }
}

/// The URL of a server that answers on `host` and `port`.
pub open spec fn url_of(host: Seq<char>, port: u16) -> Seq<char> {
    seq!['h', 't', 't', 'p', ':', '/', '/'] + host + seq![':'] + decimal(port as nat)
}

/// The text of one decimal digit.
fn digit_text(value: u16) -> (text: &'static str)
    requires
        value < 10,
    ensures
        text@ == seq![digit(value as nat)],
{
    proof {
        reveal_strlit("0");
        reveal_strlit("1");
        reveal_strlit("2");
        reveal_strlit("3");
        reveal_strlit("4");
        reveal_strlit("5");
        reveal_strlit("6");
        reveal_strlit("7");
        reveal_strlit("8");
        reveal_strlit("9");
    }
    let text = if value == 0 {
        "0"
    } else if value == 1 {
        "1"
    } else if value == 2 {
        "2"
    } else if value == 3 {
        "3"
    } else if value == 4 {
        "4"
    } else if value == 5 {
        "5"
    } else if value == 6 {
        "6"
    } else if value == 7 {
        "7"
    } else if value == 8 {
        "8"
    } else {
        "9"
    };
    assert(text@ =~= seq![digit(value as nat)]);
    text
}

/// Writes a port number in decimal digits.
pub fn port_text(port: u16) -> (text: String)
    ensures
        text@ == decimal(port as nat),
    decreases port,
{
    if port < 10 {
        String::from_str(digit_text(port))
    } else {
        let mut text = port_text(port / 10);
        text.append(digit_text(port % 10));
        text
    }
}

/// The handle on a started server.
#[derive(Debug)]
pub struct TestServer {
    pub requests: RequestReceiver,
    socket: SocketAddress,
    state: Lifecycle,
    replies: Sender<ReplyDirective>,
}

impl TestServer {
    /// The capture queue of this server.
    pub closed spec fn captures(&self) -> RequestReceiver {
        self.requests
    }

    /// The address to which the listener is bound.
    pub closed spec fn address(&self) -> SocketAddress {
        self.socket
    }

    /// Where the server stands.
    pub closed spec fn lifecycle(&self) -> Lifecycle {
        self.state
    }

    /// The channel into the reply script.
    pub closed spec fn script(&self) -> Sender<ReplyDirective> {
        self.replies
    }

    /// The address of the server as a URL: `http://`, the host, a colon and
    /// the port that was really bound.
    pub fn url(&self) -> (url: String)
        ensures
            url@ == url_of(self.address().host@, self.address().port),
    {
        proof {
            reveal_strlit("http://");
            reveal_strlit(":");
        }
        let mut url = String::from_str("http://");
        url.append(self.socket.host.as_str());
        url.append(":");
        url.append(port_text(self.socket.port).as_str());
        proof {
            assert(url@ =~= url_of(self.address().host@, self.address().port));
        }
        url
    }

    /// The state of the server.
    pub fn state(&self) -> (state: Lifecycle)
        ensures
            state == self.lifecycle(),
    {
        self.state
    }

    /// The port to which the listener is bound.
    pub fn port(&self) -> (port: u16)
        ensures
            port == self.address().port,
    {
        self.socket.port
    }

    /// A builder that queues directives for the responses to come.
    pub fn reply(&self) -> (builder: ReplyBuilder<'_>)
        ensures
            *builder.tx == self.script(),
            builder.submitted@ == Seq::<ReplyDirective>::empty(),
    {
        ReplyBuilder::new(&self.replies)
    }

    /// Asks the server to stop, and says what is left to do for that.
    ///
    /// A running server goes over to stopping, and its background context is
    /// to be shut down. In every other state nothing changes and nothing is
    /// to be done: stopping a stopped server is no error.
    pub fn stop(&mut self, graceful: bool) -> (action: StopAction)
        ensures
            final(self).captures() == old(self).captures(),
            final(self).address() == old(self).address(),
            final(self).script() == old(self).script(),
            final(self).lifecycle() == after(old(self).lifecycle(), Event::Stop),
            old(self).lifecycle() == Lifecycle::Running ==> action == (StopAction::Shutdown {
                graceful,
            }),
            old(self).lifecycle() != Lifecycle::Running ==> action == StopAction::Nothing,
    {
        let running = self.state == Lifecycle::Running;
        self.state = self.state.on(Event::Stop);
        if running {
            StopAction::Shutdown { graceful }
        } else {
            StopAction::Nothing
        }
    }

    /// Takes note that the background thread has ended; `clean` says whether
    /// it ended without a panic.
    ///
    /// A stopping server is stopped from now on, and a thread that panicked
    /// is reported as an error. In every other state nothing changes.
    pub fn joined(&mut self, clean: bool) -> (outcome: Result<(), StopError>)
        ensures
            final(self).captures() == old(self).captures(),
            final(self).address() == old(self).address(),
            final(self).script() == old(self).script(),
            final(self).lifecycle() == after(old(self).lifecycle(), Event::Joined),
            outcome is Err <==> old(self).lifecycle() == Lifecycle::Stopping && !clean,
    {
        let stopping = self.state == Lifecycle::Stopping;
        self.state = self.state.on(Event::Joined);
        if stopping && !clean {
            Err(StopError)
        } else {
            Ok(())
        }
    }
}

/// What a handshake leads to: the address of the started server, or the
/// reason why none was started. The address is the first that the listener
/// named, and its port must be a concrete one, not zero.
pub open spec fn started(handshake: Handshake) -> Result<SocketAddress, StartError> {
    match handshake {
        Handshake::Bound { sockets } => if sockets@.len() > 0 && sockets@[0].port != 0 {
            Ok(sockets@[0])
        } else {
            Err(StartError::NoSocket)
        },
        Handshake::Failed { address, cause } => Err(StartError::Bind { address, cause }),
        Handshake::Lost => Err(StartError::HandshakeLost),
    }
}

/// Reads the handshake of a starting server and makes the handle for it.
///
/// `requests` is the receiving end of the capture queue and `replies` the
/// channel into the reply script. The handle is made only for a listener that
/// is bound. It is running and answers on the first address that the listener
/// named.
pub fn new(handshake: Handshake, requests: RequestReceiver, replies: Sender<ReplyDirective>) -> (server:
    Result<TestServer, StartError>)
    ensures
        match server {
            Ok(handle) => {
                &&& started(handshake) == Ok::<SocketAddress, StartError>(handle.address())
                &&& handle.address().port != 0
                &&& handle.lifecycle() == after(Lifecycle::Starting, Event::Bound)
                &&& handle.captures() == requests
                &&& handle.script() == replies
            },
            Err(error) => started(handshake) == Err::<SocketAddress, StartError>(error),
        },
{
    match handshake {
        Handshake::Bound { sockets } => {
            let mut sockets = sockets;
            if sockets.len() > 0 && sockets[0].port != 0 {
                let socket = sockets.swap_remove(0);
                Ok(
                    TestServer {
                        requests,
                        socket,
                        state: Lifecycle::Starting.on(Event::Bound),
                        replies,
                    },
                )
            } else {
                Err(StartError::NoSocket)
            }
        },
        Handshake::Failed { address, cause } => Err(StartError::Bind { address, cause }),
        Handshake::Lost => Err(StartError::HandshakeLost),
    }
}

} // verus!
