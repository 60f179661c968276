use privileged_ipc::address::AddressIdentifier;
use privileged_ipc::api::{next_recvy, RecvyMessage, SendyMessage};
use privileged_ipc::channel::{IpcMessageIterator, Step};
use privileged_ipc::executor::{DirectExecutor, PkexecExecutor, SocketExecutor};
use privileged_ipc::api::{encode_recvy, encode_sendy, next_sendy};
use privileged_ipc::moss::{
    classify_ping_response, decode_request, encode_request, encode_response, next_request,
    next_response, Request, Response,
};
use privileged_ipc::server::handle_message;
use privileged_ipc::service::{
    bootstrap_plan, child_exit_code, recovery_slot, service_init_plan, FdAction,
};
use privileged_ipc::text::chars_to_string;

#[test]
fn slot_contract_is_bit_exact() {
    let pkexec = PkexecExecutor {};
    let direct = DirectExecutor {};
    assert_eq!(pkexec.child_fd(), 2);
    assert_eq!(pkexec.parent_fd(), 3);
    assert_eq!(direct.child_fd(), 3);
    assert_eq!(direct.parent_fd(), 3);
    assert_eq!(recovery_slot(true), 3);
    assert_eq!(recovery_slot(false), 3);
}

#[test]
fn build_command_is_pure_and_shaped() {
    let pkexec = PkexecExecutor {};
    let direct = DirectExecutor {};
    let first = pkexec.command("/usr/bin/moss", &["ipc", "--x"]);
    let second = pkexec.command("/usr/bin/moss", &["ipc", "--x"]);
    assert_eq!(first.program, "pkexec");
    assert_eq!(first.args, vec!["/usr/bin/moss", "ipc", "--x"]);
    assert_eq!(second.program, first.program);
    assert_eq!(second.args, first.args);

    let plain = direct.command("echo-worker", &["--server"]);
    assert_eq!(plain.program, "echo-worker");
    assert_eq!(plain.args, vec!["--server"]);
    let again = direct.command("echo-worker", &["--server"]);
    assert_eq!(again.program, plain.program);
    assert_eq!(again.args, plain.args);
}

#[test]
fn bootstrap_plan_carries_the_strategy() {
    let plan = bootstrap_plan(&PkexecExecutor {}, "/usr/bin/moss", &["ipc"]);
    assert_eq!(plan.command.program, "pkexec");
    assert_eq!(plan.command.args, vec!["/usr/bin/moss", "ipc"]);
    assert_eq!(plan.child_slot, 2);
    assert!(plan.clear_marker);

    let plan = bootstrap_plan(&DirectExecutor {}, "echo-worker", &[]);
    assert_eq!(plan.command.program, "echo-worker");
    assert!(plan.command.args.is_empty());
    assert_eq!(plan.child_slot, 3);
    assert!(plan.clear_marker);
}

#[test]
fn child_exit_code_falls_back_to_one() {
    assert_eq!(child_exit_code(Some(0)), 0);
    assert_eq!(child_exit_code(Some(42)), 42);
    assert_eq!(child_exit_code(None), 1);
}

#[test]
fn init_plan_routes_stderr_exactly_once() {
    let plan = service_init_plan(true);
    assert_eq!(
        plan,
        vec![
            FdAction::Dup2 { src: 2, dst: 3 },
            FdAction::Close { fd: 2 },
            FdAction::Dup2 { src: 1, dst: 2 },
        ]
    );
    let redirects = plan
        .iter()
        .filter(|a| matches!(a, FdAction::Dup2 { src: 2, dst: 3 }))
        .count();
    assert_eq!(redirects, 1);
    assert!(service_init_plan(false).is_empty());
    // the plan is a pure function of the marker
    assert_eq!(service_init_plan(true), service_init_plan(true));
}

#[test]
fn address_identifiers_are_fresh_128_bit_names() {
    let a = AddressIdentifier::default();
    let b = AddressIdentifier::default();
    assert_eq!(a.bytes().len(), 16);
    assert_eq!(b.bytes().len(), 16);
    assert_ne!(a.bytes(), b.bytes());
}

#[test]
fn connect_to_closed_listener_fails_fast() {
    // a listening endpoint that is closed before the connect completes
    // makes the connect fail with an error, not hang
    let identity = AddressIdentifier::default();
    let mut name = String::new();
    for b in identity.bytes() {
        name.push_str(&format!("{:02x}", b));
    }
    let path = std::path::PathBuf::from(format!("/tmp/ipc-{}.sock", name));
    let addr = socket2::SockAddr::unix(&path).unwrap();
    let listener =
        socket2::Socket::new(socket2::Domain::UNIX, socket2::Type::STREAM, None).unwrap();
    listener.bind(&addr).unwrap();
    listener.listen(1).unwrap();
    drop(listener);
    let client = socket2::Socket::new(socket2::Domain::UNIX, socket2::Type::STREAM, None).unwrap();
    let outcome = client.connect(&addr);
    assert!(outcome.is_err());
    let _ = nix::unistd::unlink(path.as_path());
}

#[test]
fn handle_message_replies() {
    let replies = handle_message(&SendyMessage::DoThings(42), 0);
    assert_eq!(replies.len(), 1);
    match &replies[0] {
        RecvyMessage::GotThings(s) => assert_eq!(s, "I got your message: 42"),
        _ => panic!("expected an acknowledgement"),
    }

    let replies = handle_message(&SendyMessage::DoThings(-7), 0);
    match &replies[0] {
        RecvyMessage::GotThings(s) => assert_eq!(s, "I got your message: -7"),
        _ => panic!("expected an acknowledgement"),
    }

    let replies = handle_message(&SendyMessage::ListThePackages, 0);
    assert_eq!(replies.len(), 3);
    match &replies[0] {
        RecvyMessage::HereIsOnePackage(p) => assert_eq!(p.name, "firefox"),
        _ => panic!("expected a package"),
    }

    let replies = handle_message(&SendyMessage::WhatsYourUID, 1000);
    assert_eq!(replies.len(), 1);
    match &replies[0] {
        RecvyMessage::HereIsYourUID(v) => assert_eq!(*v, 1000),
        _ => panic!("expected the uid"),
    }
}

#[test]
fn direct_strategy_ping_pong_session() {
    // the client bootstraps an echo worker directly and sends two pings
    // followed by a write shutdown; the worker answers each ping with a
    // pong and closes; the client sees exactly two pongs, followed by
    // natural termination
    let plan = bootstrap_plan(&DirectExecutor {}, "echo-worker", &["--server"]);
    assert_eq!(plan.command.program, "echo-worker");

    // client -> worker direction
    let mut outbound = String::new();
    outbound.push_str(&chars_to_string(&encode_request(&Request::Ping)));
    outbound.push_str(&chars_to_string(&encode_request(&Request::Ping)));

    // worker side: decode requests until the stream ends, answer each
    let mut server_in = IpcMessageIterator::new();
    server_in.feed(&outbound);
    server_in.on_stream_end();
    let mut worker_out = String::new();
    let mut answered = 0;
    loop {
        match next_request(&mut server_in) {
            Step::Msg(Request::Ping) => {
                worker_out.push_str(&chars_to_string(&encode_response(&Response::Pong)));
                answered += 1;
            }
            Step::Bad(_) => panic!("no malformed units were sent"),
            Step::NeedMore | Step::End => break,
        }
    }
    assert_eq!(answered, 2);

    // client side: decode responses until natural termination
    let mut client_in = IpcMessageIterator::new();
    client_in.feed(&worker_out);
    client_in.on_stream_end();
    let mut pongs = 0;
    loop {
        match next_response(&mut client_in) {
            Step::Msg(Response::Pong) => pongs += 1,
            Step::Msg(Response::Error { .. }) => panic!("no error was sent"),
            Step::Bad(_) => panic!("no malformed units were sent"),
            Step::NeedMore => panic!("the closed stream must terminate, not stall"),
            Step::End => break,
        }
    }
    assert_eq!(pongs, 2);
    assert_eq!(classify_ping_response(&Some(Response::Pong)), Ok(()));
}

#[test]
fn sendy_session_against_worker_logic() {
    // the demonstration client's exchange: a value, a listing request and
    // a uid query, in order, answered by the worker's handler
    let mut stream = String::new();
    for m in [SendyMessage::DoThings(42), SendyMessage::ListThePackages,
        SendyMessage::WhatsYourUID] {
        stream.push_str(&chars_to_string(&encode_sendy(&m)));
    }
    let mut server_in = IpcMessageIterator::new();
    server_in.feed(&stream);
    server_in.on_stream_end();
    let mut replies: Vec<RecvyMessage> = Vec::new();
    loop {
        match next_sendy(&mut server_in) {
            Step::Msg(m) => replies.extend(handle_message(&m, 1000)),
            Step::Bad(_) => panic!("no malformed units were sent"),
            Step::NeedMore => panic!("the closed stream must terminate"),
            Step::End => break,
        }
    }
    assert_eq!(replies.len(), 5);

    // back over the wire to the client, which sees them in order
    let mut wire = String::new();
    for r in &replies {
        wire.push_str(&chars_to_string(&encode_recvy(r)));
    }
    let mut client_in = IpcMessageIterator::new();
    client_in.feed(&wire);
    client_in.on_stream_end();
    let mut seen: Vec<RecvyMessage> = Vec::new();
    loop {
        match next_recvy(&mut client_in) {
            Step::Msg(m) => seen.push(m),
            Step::Bad(_) => panic!("all replies are well formed"),
            Step::NeedMore => panic!("the closed stream must terminate"),
            Step::End => break,
        }
    }
    assert_eq!(seen.len(), 5);
    match &seen[0] {
        RecvyMessage::GotThings(s) => assert_eq!(s, "I got your message: 42"),
        _ => panic!("first reply is the acknowledgement"),
    }
    match &seen[4] {
        RecvyMessage::HereIsYourUID(v) => assert_eq!(*v, 1000),
        _ => panic!("last reply is the uid"),
    }
}

#[test]
fn request_decode_rejects_other_units() {
    let garbage: Vec<char> = "{\"type\":\"Quit\"}".chars().collect();
    assert_eq!(decode_request(&garbage), None);
}
