use ctrader_bot::connection::{CTraderConnection, ConnectionClosed, RecvStep};

#[test]
fn a_frame_is_the_length_and_the_body() {
    assert_eq!(CTraderConnection::send(&[7, 8, 9]), vec![0, 0, 0, 3, 7, 8, 9]);
    assert_eq!(CTraderConnection::send(&[]), vec![0, 0, 0, 0]);
    let body: Vec<u8> = vec![5; 0x0102];
    let bytes = CTraderConnection::send(&body);
    assert_eq!(bytes.len(), 0x0102 + 4);
    assert_eq!(bytes[..4], [0, 0, 1, 2]);
}

#[test]
fn what_is_sent_is_read_back() {
    let mut conn = CTraderConnection::new();
    let body: Vec<u8> = (0..=255).collect();
    conn.fill_buf(&CTraderConnection::send(&body)).unwrap();
    conn.fill_buf(&CTraderConnection::send(&[1])).unwrap();
    assert!(matches!(conn.recv_raw(None), RecvStep::Body(b) if b == body));
    assert_eq!(conn.buffered_len(), 5);
    assert!(matches!(conn.recv_raw(None), RecvStep::Body(b) if b == vec![1]));
    assert_eq!(conn.buffered_len(), 0);
    assert!(matches!(conn.recv_raw(None), RecvStep::NeedBytes { pending: None }));
}

#[test]
fn chunks_do_not_matter() {
    let mut conn = CTraderConnection::new();
    let bytes = CTraderConnection::send(&[10, 20, 30]);
    let mut pending: Option<usize> = None;
    let mut got: Option<Vec<u8>> = None;
    for byte in bytes {
        assert!(got.is_none());
        conn.fill_buf(&[byte]).unwrap();
        match conn.recv_raw(pending) {
            RecvStep::NeedBytes { pending: next } => pending = next,
            RecvStep::Body(body) => got = Some(body),
        }
    }
    assert_eq!(got, Some(vec![10, 20, 30]));
}

#[test]
fn the_length_is_taken_off_before_the_body_is_there() {
    let mut conn = CTraderConnection::new();
    conn.fill_buf(&[0, 0, 0, 2, 1]).unwrap();
    assert!(matches!(conn.recv_raw(None), RecvStep::NeedBytes { pending: Some(2) }));
    assert_eq!(conn.buffered_len(), 1);
    conn.fill_buf(&[2, 3]).unwrap();
    assert!(matches!(conn.recv_raw(Some(2)), RecvStep::Body(b) if b == vec![1, 2]));
    assert_eq!(conn.buffered_len(), 1);
}

#[test]
fn a_large_length_waits() {
    let mut conn = CTraderConnection::new();
    conn.fill_buf(&[0xff, 0xfe, 0xfd, 0xfc]).unwrap();
    let want: usize = 0xfffe_fdfc;
    assert!(matches!(conn.recv_raw(None), RecvStep::NeedBytes { pending: Some(n) } if n == want));
}

#[test]
fn reading_nothing_is_the_end() {
    let mut conn = CTraderConnection::new();
    assert_eq!(conn.fill_buf(&[]), Err(ConnectionClosed));
    assert_eq!(conn.fill_buf(&[1]), Ok(()));
}

#[test]
fn a_stream_is_read_back_wherever_it_is_cut() {
    let bodies: Vec<Vec<u8>> = vec![vec![1, 2, 3], vec![], vec![4], vec![0, 0, 0, 9]];
    let mut stream: Vec<u8> = Vec::new();
    for body in &bodies {
        stream.extend(CTraderConnection::send(body));
    }
    for size in 1..=stream.len() {
        let mut conn = CTraderConnection::new();
        let mut pending: Option<usize> = None;
        let mut got: Vec<Vec<u8>> = Vec::new();
        for chunk in stream.chunks(size) {
            conn.fill_buf(chunk).unwrap();
            loop {
                match conn.recv_raw(pending) {
                    RecvStep::Body(body) => {
                        got.push(body);
                        pending = None;
                    }
                    RecvStep::NeedBytes { pending: next } => {
                        pending = next;
                        break;
                    }
                }
            }
        }
        assert_eq!(got, bodies);
        assert_eq!(pending, None);
        assert_eq!(conn.buffered_len(), 0);
        assert_eq!(conn.fill_buf(&[]), Err(ConnectionClosed));
    }
}

#[test]
fn each_call_gives_the_next_message_and_then_fails() {
    let bodies: Vec<Vec<u8>> = vec![vec![9; 300], vec![], vec![1, 2], vec![0, 0, 0, 1]];
    let mut stream: Vec<u8> = Vec::new();
    for body in &bodies {
        stream.extend(CTraderConnection::send(body));
    }
    for size in [1, 2, 3, 4, 5, 7, 64, 304, 310, 1000] {
        let reads: Vec<Vec<u8>> = stream.chunks(size).map(|c| c.to_vec()).collect();
        let mut conn = CTraderConnection::new();
        let mut at: usize = 0;
        for body in &bodies {
            let (result, next) = conn.recv_from(&reads, at);
            assert_eq!(result.as_ref(), Ok(body));
            at = next;
        }
        assert_eq!(at, reads.len());
        assert_eq!(conn.recv_from(&reads, at), (Err(ConnectionClosed), at));
    }
}

#[test]
fn a_read_of_nothing_ends_a_call() {
    let reads: Vec<Vec<u8>> = vec![vec![0, 0, 0, 2, 5], vec![], vec![6]];
    let mut conn = CTraderConnection::new();
    assert_eq!(conn.recv_from(&reads, 0), (Err(ConnectionClosed), 2));
    assert_eq!(conn.buffered_len(), 1);
}
