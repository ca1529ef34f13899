use ws_rendezvous::{Forwarder, LoopStep, ReadOutcome, Side, Teardown};

fn forward<T>(fw: &mut Forwarder<T>, r: ReadOutcome<T>) -> Option<T> {
    match fw.on_read(r) {
        LoopStep::Forward(f) => Some(f),
        LoopStep::Stop => None,
    }
}

#[test]
fn other_side() {
    assert_eq!(Side::A.other(), Side::B);
    assert_eq!(Side::B.other(), Side::A);
}

#[test]
fn frames_keep_their_order() {
    let mut fw = Forwarder::new();
    let mut out = Vec::new();
    for f in ["f1", "f2", "f3"] {
        out.push(forward(&mut fw, ReadOutcome::Frame(f)).unwrap());
    }
    assert_eq!(out, vec!["f1", "f2", "f3"]);
    assert!(fw.running());
}

#[test]
fn end_of_stream_stops_and_later_frames_are_dropped() {
    let mut fw = Forwarder::new();
    assert_eq!(forward(&mut fw, ReadOutcome::Frame(1u8)), Some(1));
    assert_eq!(forward(&mut fw, ReadOutcome::End), None);
    assert!(!fw.running());
    assert_eq!(forward(&mut fw, ReadOutcome::Frame(2u8)), None);
}

#[test]
fn read_fault_stops_loop() {
    let mut fw: Forwarder<u8> = Forwarder::new();
    assert_eq!(forward(&mut fw, ReadOutcome::Fault), None);
    assert!(!fw.running());
}

#[test]
fn write_failure_stops_loop() {
    let mut fw = Forwarder::new();
    assert_eq!(forward(&mut fw, ReadOutcome::Frame(7u8)), Some(7));
    fw.on_write_failed();
    assert!(!fw.running());
    assert_eq!(forward(&mut fw, ReadOutcome::Frame(8u8)), None);
}

#[test]
fn single_close_to_survivor() {
    let mut t = Teardown::new();
    assert_eq!(t.loop_ended(Side::A), Some(Side::B));
    assert_eq!(t.loop_ended(Side::B), None);
    assert_eq!(t.loop_ended(Side::A), None);
}

#[test]
fn hello_and_binary_cross_then_close() {
    #[derive(Debug, PartialEq)]
    enum Msg {
        Text(String),
        Binary(Vec<u8>),
    }
    // client1 is side A, client2 is side B.
    let mut a_to_b = Forwarder::new();
    let mut b_to_a = Forwarder::new();
    assert_eq!(
        forward(&mut a_to_b, ReadOutcome::Frame(Msg::Text("hello".to_string()))),
        Some(Msg::Text("hello".to_string()))
    );
    assert_eq!(
        forward(&mut b_to_a, ReadOutcome::Frame(Msg::Binary(vec![0x01, 0x02]))),
        Some(Msg::Binary(vec![0x01, 0x02]))
    );
    assert_eq!(forward(&mut b_to_a, ReadOutcome::End), None);
    let mut t = Teardown::new();
    assert_eq!(t.loop_ended(Side::B), Some(Side::A));
}
