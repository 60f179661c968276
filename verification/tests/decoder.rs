use privileged_ipc::api::{encode_sendy, next_recvy, next_sendy, RecvyMessage, SendyMessage};
use privileged_ipc::channel::{
    ConnectionState, IoKind, IpcError, IpcMessageIterator, ShutdownHow, Step, UnitStep,
};
use privileged_ipc::text::chars_to_string;

fn unit_text(m: &SendyMessage) -> String {
    chars_to_string(&encode_sendy(m))
}

#[test]
fn yields_units_in_order_and_needs_more_when_empty() {
    let mut it = IpcMessageIterator::new();
    let a = unit_text(&SendyMessage::DoThings(1));
    let b = unit_text(&SendyMessage::ListThePackages);
    let c = unit_text(&SendyMessage::DoThings(-3));
    let stream = format!("{}{}{}", a, b, c);
    it.feed(&stream);
    for expected in [SendyMessage::DoThings(1), SendyMessage::ListThePackages,
        SendyMessage::DoThings(-3)] {
        match next_sendy(&mut it) {
            Step::Msg(m) => assert_eq!(m, expected),
            _ => panic!("expected a decoded message"),
        }
    }
    match next_sendy(&mut it) {
        Step::NeedMore => {}
        _ => panic!("an exhausted but open stream must ask for more"),
    }
}

#[test]
fn clean_end_after_last_unit_terminates_without_error() {
    let mut it = IpcMessageIterator::new();
    it.feed(&unit_text(&SendyMessage::WhatsYourUID));
    match next_sendy(&mut it) {
        Step::Msg(m) => assert_eq!(m, SendyMessage::WhatsYourUID),
        _ => panic!("expected the message"),
    }
    it.on_stream_end();
    match next_sendy(&mut it) {
        Step::End => {}
        _ => panic!("a closed stream must terminate the sequence"),
    }
    // terminal is sticky: text arriving later is never yielded
    it.feed(&unit_text(&SendyMessage::WhatsYourUID));
    match next_sendy(&mut it) {
        Step::End => {}
        _ => panic!("a terminal decoder must stay terminal"),
    }
}

#[test]
fn end_mid_unit_terminates_cleanly() {
    let mut it = IpcMessageIterator::new();
    it.feed("{\"DoThings\":4");
    match next_sendy(&mut it) {
        Step::NeedMore => {}
        _ => panic!("an incomplete unit must ask for more"),
    }
    it.on_stream_end();
    match next_sendy(&mut it) {
        Step::End => {}
        _ => panic!("a stream ending mid-unit must still terminate cleanly"),
    }
}

#[test]
fn malformed_unit_is_an_error_element_not_termination() {
    let mut it = IpcMessageIterator::new();
    let good = unit_text(&SendyMessage::DoThings(7));
    // a complete but undecodable unit, followed by another good one
    let stream = format!("{}{}{}", good, "{\"Nope\":1}", good);
    it.feed(&stream);
    match next_sendy(&mut it) {
        Step::Msg(m) => assert_eq!(m, SendyMessage::DoThings(7)),
        _ => panic!("expected the first message"),
    }
    match next_sendy(&mut it) {
        Step::Bad(e) => assert_eq!(e, IpcError::Json),
        _ => panic!("a malformed unit must surface as an error element"),
    }
    match next_sendy(&mut it) {
        Step::Msg(m) => assert_eq!(m, SendyMessage::DoThings(7)),
        _ => panic!("the decoder must stay usable after an error element"),
    }
}

#[test]
fn bare_primitive_garbage_is_an_error_element() {
    let mut it = IpcMessageIterator::new();
    it.feed("%%%% ");
    match next_sendy(&mut it) {
        Step::Bad(e) => assert_eq!(e, IpcError::Json),
        _ => panic!("a delimited primitive that decodes to nothing is an error element"),
    }
}

#[test]
fn transport_error_classification() {
    let mut it = IpcMessageIterator::new();
    assert_eq!(it.on_transport_error(IoKind::Other), Some(IpcError::Io(IoKind::Other)));
    match next_sendy(&mut it) {
        Step::NeedMore => {}
        _ => panic!("a non-terminal fault must leave the decoder usable"),
    }
    assert_eq!(it.on_transport_error(IoKind::BrokenPipe), None);
    match next_sendy(&mut it) {
        Step::End => {}
        _ => panic!("a broken pipe folds into termination"),
    }
    let mut it2 = IpcMessageIterator::new();
    assert_eq!(it2.on_transport_error(IoKind::ConnectionReset), None);
    let mut it3 = IpcMessageIterator::new();
    assert_eq!(it3.on_transport_error(IoKind::UnexpectedEof), None);
}

#[test]
fn whitespace_between_units_is_skipped() {
    let mut it = IpcMessageIterator::new();
    it.feed("  \n\t \"WhatsYourUID\" \n \"ListThePackages\"");
    match next_sendy(&mut it) {
        Step::Msg(m) => assert_eq!(m, SendyMessage::WhatsYourUID),
        _ => panic!("expected the first message"),
    }
    match next_sendy(&mut it) {
        Step::Msg(m) => assert_eq!(m, SendyMessage::ListThePackages),
        _ => panic!("expected the second message"),
    }
}

#[test]
fn feeding_in_fragments_reassembles_units() {
    let mut it = IpcMessageIterator::new();
    it.feed("{\"DoTh");
    match next_sendy(&mut it) {
        Step::NeedMore => {}
        _ => panic!("half a unit is not a unit"),
    }
    it.feed("ings\":12}");
    match next_sendy(&mut it) {
        Step::Msg(m) => assert_eq!(m, SendyMessage::DoThings(12)),
        _ => panic!("the reassembled unit must decode"),
    }
}

#[test]
fn raw_unit_steps() {
    let mut it = IpcMessageIterator::new();
    it.feed("\"WhatsYourUID\"");
    match it.next_unit() {
        UnitStep::Item(u) => assert_eq!(chars_to_string(&u), "\"WhatsYourUID\""),
        _ => panic!("expected a unit"),
    }
    match it.next_unit() {
        UnitStep::NeedMore => {}
        _ => panic!("expected no further unit"),
    }
}

#[test]
fn shutdown_write_twice_then_send_errors() {
    let mut state = ConnectionState::new();
    state.apply_shutdown(ShutdownHow::Write);
    state.apply_shutdown(ShutdownHow::Write);
    assert!(state.write_down);
    assert!(!state.read_down);
    assert_eq!(state.classify_send(None), Err(IpcError::ConnectionClosed));
}

#[test]
fn send_classification() {
    let open = ConnectionState::new();
    assert_eq!(open.classify_send(None), Ok(()));
    assert_eq!(open.classify_send(Some(IoKind::BrokenPipe)), Err(IpcError::ConnectionClosed));
    assert_eq!(open.classify_send(Some(IoKind::Other)), Err(IpcError::Io(IoKind::Other)));
    let mut both = ConnectionState::new();
    both.apply_shutdown(ShutdownHow::Both);
    assert!(both.write_down && both.read_down);
}

#[test]
fn recvy_direction_decodes_too() {
    let mut it = IpcMessageIterator::new();
    it.feed("{\"HereIsYourUID\":1000}");
    match next_recvy(&mut it) {
        Step::Msg(RecvyMessage::HereIsYourUID(v)) => assert_eq!(v, 1000),
        _ => panic!("expected the uid reply"),
    }
}
