use bytes::Bytes;
use crossbeam_channel::Sender;
use test_server::helper::random_string;
use test_server::middleware::ShareRequestMiddleware;
use test_server::reply::{reply_script, ReplyDirective, ReplyScript, Response};
use test_server::requests::capture_queue;
use test_server::server::{
    port_text, Event, Handshake, Lifecycle, SocketAddress, StartError, StopAction, StopError,
};
use test_server::{new, RequestReceiver, TestServer};

/// The server side of a started server, as far as it concerns the library.
struct Backend {
    middleware: ShareRequestMiddleware,
    script: ReplyScript,
}

impl Backend {
    /// One request with a body in one chunk, answered by a handler that says 200.
    fn post(&self, body: &str, fields: &[(&str, &str)]) -> Response {
        self.request("POST", "/", body, fields)
    }

    fn get(&self) -> Response {
        self.request("GET", "/", "", &[])
    }

    fn request(&self, method: &str, target: &str, body: &str, fields: &[(&str, &str)]) -> Response {
        let fields = fields
            .iter()
            .map(|(name, value)| (name.to_string(), value.as_bytes().to_vec()))
            .collect();
        let chunks = vec![Some(Bytes::from(body.to_string()))];
        self.middleware.call(method, target, &fields, &chunks);
        self.script.respond(Response::ok())
    }

    /// One request to a handler that answers with `content`.
    fn serve(&self, content: &str) -> Response {
        self.middleware.call("GET", "/", &Vec::new(), &vec![Some(Bytes::new())]);
        let mut response = Response::ok();
        response.body = content.as_bytes().to_vec();
        self.script.respond(response)
    }

    /// One request to a handler that streams the body back.
    fn echo(&self, body: &str) -> Response {
        let chunks = vec![Some(Bytes::from(body.to_string()))];
        let payload = self.middleware.call("POST", "/", &Vec::new(), &chunks);
        let mut response = Response::ok();
        response.body = payload.to_vec();
        self.script.respond(response)
    }
}

fn start(host: &str, port: u16) -> (TestServer, Backend) {
    let (share, requests) = capture_queue();
    let (replies, script) = reply_script();
    let handshake = Handshake::Bound { sockets: vec![SocketAddress { host: host.to_string(), port }] };
    let server = new(handshake, requests, replies).unwrap();
    (server, Backend { middleware: ShareRequestMiddleware { tx: share.tx }, script })
}

fn channels() -> (RequestReceiver, Sender<ReplyDirective>) {
    (capture_queue().1, reply_script().0)
}

#[test]
fn start_server_at_given_port() {
    let (server, backend) = start("127.0.0.1", 65432);

    assert!(&server.url().ends_with(":65432"));

    let response = backend.get();

    assert_eq!(response.status, 200);
}

#[test]
fn validate_client_request() {
    let (mut server, backend) = start("127.0.0.1", 40123);

    let request_content = random_string(100);
    let _ = backend.post(&request_content, &[("content-length", "100")]);

    assert_eq!(server.requests.len(), 1);

    let req = server.requests.next();
    assert!(req.is_some());

    let req = req.unwrap();
    assert_eq!(request_content.as_bytes(), &req.body[..]);
    assert_eq!("100", req.headers.get("content-length").unwrap());
    assert_eq!("POST", req.method);
    assert_eq!("/", req.path);
    assert!(req.query.is_empty());
}

#[test]
fn validate_client_response() {
    let (_server, backend) = start("127.0.0.1", 40123);

    let request_content = random_string(100);
    let response = backend.echo(&request_content);

    assert_eq!(response.status, 200);
    assert_eq!(String::from_utf8(response.body).unwrap(), request_content);
}

#[test]
fn not_necessary_to_fetch_request_from_server() {
    let (_server, backend) = start("127.0.0.1", 40123);
    let content = "{\"id\": 1, \"name\": \"sample\"}\n";

    let response = backend.serve(content);

    assert_eq!(content, String::from_utf8(response.body).unwrap());
}

#[test]
fn fetch_2nd_request_from_server() {
    let (mut server, backend) = start("127.0.0.1", 40123);

    let _ = backend.get();
    let _ = backend.post("2", &[]);

    assert_eq!(server.requests.len(), 2);

    let _ = server.requests.next();
    let request = server.requests.next();

    assert!(request.is_some());
    assert_eq!(b"2", &request.unwrap().body[..]);
}

#[test]
fn a_scripted_reply_reaches_the_client() {
    let (server, backend) = start("127.0.0.1", 40123);

    server.reply().status(400).header("x-test", "1").body(b"nope");

    let response = backend.get();

    assert_eq!(response.status, 400);
    assert_eq!(response.headers.get("x-test").unwrap(), "1");
    assert_eq!(response.body, b"nope".to_vec());
    assert_eq!(backend.get().status, 200);
}

#[test]
fn the_url_names_the_address_that_was_bound() {
    assert_eq!(start("127.0.0.1", 65432).0.url(), "http://127.0.0.1:65432");
    assert_eq!(start("localhost", 80).0.url(), "http://localhost:80");
    assert_eq!(start("[::1]", 8080).0.url(), "http://[::1]:8080");
    assert_eq!(start("10.0.0.7", 1).0.url(), "http://10.0.0.7:1");
}

#[test]
fn the_port_of_a_started_server_is_not_zero() {
    let (server, _backend) = start("127.0.0.1", 49152);

    assert_eq!(server.port(), 49152);
    assert_ne!(server.port(), 0);
    assert!(!server.url().ends_with(":0"));
}

#[test]
fn a_listener_without_a_port_of_its_own_is_no_server() {
    let (rx, replies) = channels();
    let sockets = vec![
        SocketAddress { host: "127.0.0.1".to_string(), port: 0 },
        SocketAddress { host: "127.0.0.1".to_string(), port: 8080 },
    ];

    let server = new(Handshake::Bound { sockets }, rx, replies);

    assert!(matches!(server, Err(StartError::NoSocket)));
}

#[test]
fn a_listener_without_an_address_is_no_server() {
    let (rx, replies) = channels();

    let server = new(Handshake::Bound { sockets: Vec::new() }, rx, replies);

    assert!(matches!(server, Err(StartError::NoSocket)));
}

#[test]
fn the_first_address_of_the_listener_is_taken() {
    let (rx, replies) = channels();
    let sockets = vec![
        SocketAddress { host: "127.0.0.1".to_string(), port: 8081 },
        SocketAddress { host: "[::1]".to_string(), port: 8082 },
    ];

    let server = new(Handshake::Bound { sockets }, rx, replies).unwrap();

    assert_eq!(server.url(), "http://127.0.0.1:8081");
}

#[test]
fn a_failed_bind_is_reported_with_address_and_cause() {
    let (rx, replies) = channels();
    let handshake = Handshake::Failed {
        address: "127.0.0.1:65432".to_string(),
        cause: "Address already in use".to_string(),
    };

    match new(handshake, rx, replies) {
        Err(StartError::Bind { address, cause }) => {
            assert_eq!(address, "127.0.0.1:65432");
            assert_eq!(cause, "Address already in use");
        }
        other => panic!("unexpected outcome: {:?}", other),
    }
}

#[test]
fn a_lost_handshake_is_reported() {
    let (rx, replies) = channels();

    assert!(matches!(new(Handshake::Lost, rx, replies), Err(StartError::HandshakeLost)));
}

#[test]
fn a_started_server_is_running_and_has_seen_no_request() {
    let (mut server, _backend) = start("127.0.0.1", 40123);

    assert_eq!(server.state(), Lifecycle::Running);
    assert!(server.requests.is_empty());
    assert_eq!(server.requests.len(), 0);
    assert!(server.requests.next().is_none());
}

#[test]
fn stop_shuts_a_running_server_down_once() {
    let (mut server, _backend) = start("127.0.0.1", 40123);

    assert_eq!(server.stop(true), StopAction::Shutdown { graceful: true });
    assert_eq!(server.state(), Lifecycle::Stopping);

    assert_eq!(server.stop(true), StopAction::Nothing);
    assert_eq!(server.state(), Lifecycle::Stopping);

    assert_eq!(server.joined(true), Ok(()));
    assert_eq!(server.state(), Lifecycle::Stopped);

    assert_eq!(server.stop(false), StopAction::Nothing);
    assert_eq!(server.joined(false), Ok(()));
    assert_eq!(server.state(), Lifecycle::Stopped);
}

#[test]
fn stop_hands_on_how_to_stop() {
    let (mut server, _backend) = start("127.0.0.1", 40123);

    assert_eq!(server.stop(false), StopAction::Shutdown { graceful: false });
}

#[test]
fn a_background_thread_that_panicked_is_an_error() {
    let (mut server, _backend) = start("127.0.0.1", 40123);

    let _ = server.stop(true);

    assert_eq!(server.joined(false), Err(StopError));
    assert_eq!(server.state(), Lifecycle::Stopped);
}

#[test]
fn the_end_of_the_thread_means_nothing_to_a_running_server() {
    let (mut server, _backend) = start("127.0.0.1", 40123);

    assert_eq!(server.joined(false), Ok(()));
    assert_eq!(server.state(), Lifecycle::Running);
}

#[test]
fn requests_can_be_read_after_the_server_has_stopped() {
    let (mut server, backend) = start("127.0.0.1", 40123);

    let _ = backend.post("last words", &[]);
    let _ = server.stop(true);
    let _ = server.joined(true);

    assert_eq!(server.requests.len(), 1);
    assert_eq!(server.requests.next().unwrap().body, b"last words".to_vec());
}

#[test]
fn the_lifecycle_moves_from_starting_to_stopped() {
    assert_eq!(Lifecycle::Starting.on(Event::Bound), Lifecycle::Running);
    assert_eq!(Lifecycle::Starting.on(Event::Failed), Lifecycle::Stopped);
    assert_eq!(Lifecycle::Starting.on(Event::Stop), Lifecycle::Starting);
    assert_eq!(Lifecycle::Starting.on(Event::Joined), Lifecycle::Starting);
    assert_eq!(Lifecycle::Running.on(Event::Stop), Lifecycle::Stopping);
    assert_eq!(Lifecycle::Running.on(Event::Bound), Lifecycle::Running);
    assert_eq!(Lifecycle::Running.on(Event::Failed), Lifecycle::Running);
    assert_eq!(Lifecycle::Running.on(Event::Joined), Lifecycle::Running);
    assert_eq!(Lifecycle::Stopping.on(Event::Joined), Lifecycle::Stopped);
    assert_eq!(Lifecycle::Stopping.on(Event::Stop), Lifecycle::Stopping);
    for event in [Event::Bound, Event::Failed, Event::Stop, Event::Joined] {
        assert_eq!(Lifecycle::Stopped.on(event), Lifecycle::Stopped);
    }
}

#[test]
fn a_port_is_written_in_decimal_digits() {
    assert_eq!(port_text(0), "0");
    assert_eq!(port_text(7), "7");
    assert_eq!(port_text(10), "10");
    assert_eq!(port_text(80), "80");
    assert_eq!(port_text(8080), "8080");
    assert_eq!(port_text(10000), "10000");
    assert_eq!(port_text(65432), "65432");
    assert_eq!(port_text(65535), "65535");
    assert_eq!(port_text(12345), "12345");
    assert_eq!(port_text(60789), "60789");
}
