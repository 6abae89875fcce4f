use stackmat::transmit::{TransmitError, Transmission};

/// Sends `buf` through a sink that takes at most `cap` bytes per call,
/// returning what the sink received and how many calls were made.
fn send_capped(buf: &[u8], cap: usize) -> (Vec<u8>, usize) {
    let mut t = Transmission::new(buf.len());
    let mut received = Vec::new();
    let mut calls = 0;
    loop {
        let offered = &buf[t.offset()..];
        let n = offered.len().min(cap);
        received.extend_from_slice(&offered[..n]);
        calls += 1;
        match t.on_write::<()>(Ok(n)) {
            Ok(true) => break,
            Ok(false) => {}
            Err(_) => panic!("no error was reported"),
        }
    }
    (received, calls)
}

#[test]
fn capped_sink_gets_every_byte_once() {
    let buf = *b"I000000@\r";
    for cap in 1..9 {
        let (received, calls) = send_capped(&buf, cap);
        assert_eq!(received, buf.to_vec());
        assert_eq!(calls, (buf.len() + cap - 1) / cap);
    }
}

#[test]
fn capped_sink_four_per_call() {
    let (received, calls) = send_capped(b"0123456789", 4);
    assert_eq!(received, b"0123456789".to_vec());
    assert_eq!(calls, 3);
}

#[test]
fn zero_count_asks_again() {
    let mut t = Transmission::new(9);
    assert_eq!(t.on_write::<()>(Ok(0)).ok(), Some(false));
    assert_eq!(t.offset(), 0);
    assert_eq!(t.on_write::<()>(Ok(5)).ok(), Some(false));
    assert_eq!(t.offset(), 5);
    assert_eq!(t.on_write::<()>(Ok(4)).ok(), Some(true));
    assert_eq!(t.offset(), 9);
}

#[test]
fn empty_buffer_completes_on_first_write() {
    let mut t = Transmission::new(0);
    assert_eq!(t.on_write::<()>(Ok(0)).ok(), Some(true));
}

#[test]
fn sink_error_stops_transmission() {
    let mut t = Transmission::new(9);
    assert_eq!(t.on_write::<&str>(Ok(3)).ok(), Some(false));
    match t.on_write(Err("line fault")) {
        Err(TransmitError { cause }) => assert_eq!(cause, "line fault"),
        Ok(_) => panic!("the error was lost"),
    }
    assert_eq!(t.offset(), 3);
}
