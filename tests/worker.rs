use tachyon::server::{
    Action, ConfigError, Server, BUFFERS_COUNT, BUFFER_SIZE, ECONNRESET, ENOBUFS, PLACEHOLDER_FD,
    RELEASE_THRESHOLD, TOS_HIGH_PRIORITY,
};
use tachyon::user_data::{UserData, BUFFER_REGISTER_CODE, CODE_ACCEPT, INIT_REQUEST, POLL_EVENT, SEND_EVENT};

const JSON: &[u8] = b"{\"message\":\"Hello, World!\"}";

fn pool() -> Vec<u8> {
    vec![0u8; BUFFERS_COUNT * BUFFER_SIZE]
}

fn worker() -> (Server, Vec<Action>) {
    let mut s = Server::new("127.0.0.1:8080".to_string(), 1_000, 784_111_777);
    s.set_json_body(JSON.to_vec());
    let mut actions = Vec::new();
    s.register_buffers(&mut actions);
    s.sq_poll_tick(1_000, 784_111_777);
    (s, actions)
}

fn accept(s: &mut Server, fd: i32, pool: &[u8]) -> usize {
    let before = s.live_connections();
    let mut actions = Vec::new();
    s.process_entry(CODE_ACCEPT, fd, 0, pool, &mut actions).unwrap();
    assert_eq!(s.live_connections(), before + 1);
    match actions.last() {
        Some(Action::RecvMulti { fd: f, user_data }) => {
            assert_eq!(*f, fd);
            let u = UserData::unpack_user_data(*user_data);
            assert_eq!(u.uniq_id, INIT_REQUEST);
            u.client_id as usize
        }
        other => panic!("unexpected {:?}", other),
    }
}

fn receive(s: &mut Server, pool: &mut [u8], id: usize, buffer: u16, bytes: &[u8]) -> Vec<Action> {
    let start = buffer as usize * BUFFER_SIZE;
    pool[start..start + bytes.len()].copy_from_slice(bytes);
    let cookie = UserData { client_id: id as u32, buffer_id: 0, uniq_id: INIT_REQUEST }.pack_user_data();
    let mut actions = Vec::new();
    s.process_entry(cookie, bytes.len() as i32, (buffer as u32) << 16, pool, &mut actions).unwrap();
    actions
}

fn flush(s: &mut Server) -> Vec<(i32, u32, Vec<u8>)> {
    let mut actions = Vec::new();
    s.wideband_send(&mut actions);
    actions
        .iter()
        .map(|a| match a {
            Action::Send { fd, user_data, slot } => {
                let u = UserData::unpack_user_data(*user_data);
                assert_eq!(u.uniq_id, SEND_EVENT);
                (*fd, u.client_id, s.snapshot(*slot).to_vec())
            }
            other => panic!("unexpected {:?}", other),
        })
        .collect()
}

fn registered(s: &Server) -> usize {
    (0..BUFFERS_COUNT as u16).filter(|id| s.kernel_holds(*id)).count()
}

#[test]
fn fresh_worker_registers_whole_pool() {
    let mut s = Server::new("127.0.0.1:8080".to_string(), 0, 0);
    assert!(s.get_workers() >= 1);
    assert_eq!(s.pending_releases(), BUFFERS_COUNT);
    assert_eq!(registered(&s), 0);
    let mut actions = Vec::new();
    s.register_buffers(&mut actions);
    assert_eq!(actions.len(), 1);
    match &actions[0] {
        Action::ProvideBuffers { ids } => {
            assert_eq!(ids.len(), BUFFERS_COUNT);
            assert_eq!(ids[0], 0);
            assert_eq!(ids[BUFFERS_COUNT - 1], (BUFFERS_COUNT - 1) as u16);
        }
        other => panic!("unexpected {:?}", other),
    }
    assert_eq!(registered(&s), BUFFERS_COUNT);
    assert_eq!(s.pending_releases(), 0);
}

#[test]
fn served_request_reaches_the_socket() {
    let (mut s, _) = worker();
    let mut pool = pool();
    let id = accept(&mut s, 9, &pool);
    let actions = receive(&mut s, &mut pool, id, 5, b"GET /plaintext HTTP/1.1\r\nHost: x\r\n\r\n");
    assert!(actions.is_empty());
    assert!(!s.kernel_holds(5));
    assert_eq!(s.pending_releases(), 1);
    assert!(s.staged_len(id).unwrap() > 0);
    let sends = flush(&mut s);
    assert_eq!(sends.len(), 1);
    assert_eq!(sends[0].0, 9);
    assert_eq!(sends[0].1 as usize, id);
    let text = String::from_utf8(sends[0].2.clone()).unwrap();
    assert!(text.starts_with("HTTP/1.1 200 OK\r\n"));
    assert!(text.contains("Content-Length: 13\r\n"));
    assert!(text.ends_with("\r\n\r\nHello, World!"));
    assert_eq!(s.staged_len(id), Some(0));
    assert!(flush(&mut s).is_empty());
}

#[test]
fn pipelined_batch_is_one_send() {
    let (mut s, _) = worker();
    let mut pool = pool();
    let id = accept(&mut s, 11, &pool);
    let mut req = Vec::new();
    for _ in 0..40 {
        req.extend_from_slice(b"GET /plaintext HTTP/1.1\r\nHost: x\r\n\r\n");
    }
    receive(&mut s, &mut pool, id, 0, &req);
    let sends = flush(&mut s);
    assert_eq!(sends.len(), 1);
    let text = String::from_utf8(sends[0].2.clone()).unwrap();
    assert_eq!(text.matches("HTTP/1.1 200 OK\r\n").count(), 40);
    assert_eq!(text.matches("Hello, World!").count(), 40);
}

#[test]
fn peer_closing_midstream_reclaims_the_id() {
    let (mut s, _) = worker();
    let mut pool = pool();
    let id = accept(&mut s, 12, &pool);
    receive(&mut s, &mut pool, id, 3, b"GET /plain");
    assert_eq!(s.staged_len(id), Some(0));
    let cookie = UserData { client_id: id as u32, buffer_id: 0, uniq_id: INIT_REQUEST }.pack_user_data();
    let mut actions = Vec::new();
    s.process_entry(cookie, 0, 0, &pool, &mut actions).unwrap();
    assert!(matches!(actions.as_slice(), [Action::Close { fd: 12 }]));
    assert_eq!(s.connection_fd(id), None);
    assert!(flush(&mut s).is_empty());
}

#[test]
fn reset_closes_and_send_completion_is_ignored() {
    let (mut s, _) = worker();
    let pool = pool();
    let id = accept(&mut s, 13, &pool);
    let send = UserData { client_id: id as u32, buffer_id: 0, uniq_id: SEND_EVENT }.pack_user_data();
    let mut actions = Vec::new();
    s.process_entry(send, 0, 0, &pool, &mut actions).unwrap();
    assert!(actions.is_empty());
    assert_eq!(s.connection_fd(id), Some(13));
    s.process_entry(send, -ECONNRESET, 0, &pool, &mut actions).unwrap();
    assert!(matches!(actions.as_slice(), [Action::Close { fd: 13 }]));
    assert_eq!(s.connection_fd(id), None);
}

#[test]
fn connection_ids_are_unique() {
    let (mut s, _) = worker();
    let pool = pool();
    s.reserve_writes_buffer(100);
    assert_eq!(s.connection_fd(0), Some(PLACEHOLDER_FD));
    let a = accept(&mut s, 20, &pool);
    let b = accept(&mut s, 21, &pool);
    assert_eq!(a, 100);
    assert_ne!(a, b);
    let mut actions = Vec::new();
    s.close_connection(a, true, &mut actions);
    let c = accept(&mut s, 22, &pool);
    assert_ne!(c, b);
    assert_eq!(s.connection_fd(b), Some(21));
    assert_eq!(s.connection_fd(c), Some(22));
}

#[test]
fn close_refuses_descriptor_zero() {
    let (mut s, _) = worker();
    let pool = pool();
    let id = accept(&mut s, 30, &pool);
    let zero = accept(&mut s, 0x7fff_0000, &pool);
    let mut actions = Vec::new();
    s.close_connection(id, false, &mut actions);
    assert!(matches!(actions.as_slice(), [Action::Close { fd: 30 }]));
    assert_eq!(s.connection_fd(id), Some(30));
    actions.clear();
    s.close_connection(9999, true, &mut actions);
    assert!(actions.is_empty());
    assert!(s.connection_fd(zero).is_some());
}

#[test]
fn failed_accept_is_ignored() {
    let (mut s, _) = worker();
    let pool = pool();
    let mut actions = Vec::new();
    assert!(s.process_entry(CODE_ACCEPT, -11, 0, &pool, &mut actions).is_ok());
    assert!(actions.is_empty());
    assert_eq!(s.live_connections(), 0);
    assert!(s.process_entry(BUFFER_REGISTER_CODE, 0, 0, &pool, &mut actions).is_ok());
    assert!(s.process_entry(12345, 1, 0, &pool, &mut actions).is_ok());
    assert!(actions.is_empty());
}

#[test]
fn release_with_nothing_pending_does_nothing() {
    let (mut s, _) = worker();
    let mut actions = Vec::new();
    s.release_buffers(&mut actions);
    assert!(actions.is_empty());
    s.release_buffers(&mut actions);
    assert!(actions.is_empty());
    assert_eq!(registered(&s), BUFFERS_COUNT);
}

#[test]
fn buffer_accounting_holds_through_traffic() {
    let (mut s, _) = worker();
    let mut pool = pool();
    let id = accept(&mut s, 40, &pool);
    for b in 0..10u16 {
        receive(&mut s, &mut pool, id, b, b"GET /json HTTP/1.1\r\n\r\n");
        assert_eq!(registered(&s) + s.pending_releases(), BUFFERS_COUNT);
    }
    // a second completion naming a buffer the kernel no longer holds is stale
    let before = s.pending_releases();
    receive(&mut s, &mut pool, id, 3, b"GET /json HTTP/1.1\r\n\r\n");
    assert_eq!(s.pending_releases(), before);
    // a byte count above the buffer size or an id outside the pool is dropped
    let cookie = UserData { client_id: id as u32, buffer_id: 0, uniq_id: INIT_REQUEST }.pack_user_data();
    let mut actions = Vec::new();
    s.process_entry(cookie, BUFFER_SIZE as i32 + 1, 20 << 16, &pool, &mut actions).unwrap();
    s.process_entry(cookie, 5, (BUFFERS_COUNT as u32) << 16, &pool, &mut actions).unwrap();
    assert!(actions.is_empty());
    assert_eq!(s.pending_releases(), before);
}

#[test]
fn pool_exhaustion_recovers() {
    let (mut s, _) = worker();
    let mut pool = pool();
    let id = accept(&mut s, 41, &pool);
    let mut provided = 0;
    for b in 0..(RELEASE_THRESHOLD as u16 + 5) {
        let actions = receive(&mut s, &mut pool, id, b, b"GET /x HTTP/1.1\r\n\r\n");
        if b as usize == RELEASE_THRESHOLD - 1 {
            assert!(matches!(actions.as_slice(), [Action::Submit, Action::ProvideBuffers { .. }]));
            provided += 1;
        }
        flush(&mut s);
    }
    assert_eq!(provided, 1);
    assert_eq!(s.pending_releases(), 5);
    let cookie = UserData { client_id: id as u32, buffer_id: 0, uniq_id: INIT_REQUEST }.pack_user_data();
    let mut actions = Vec::new();
    s.process_entry(cookie, -ENOBUFS, 0, &pool, &mut actions).unwrap();
    match actions.as_slice() {
        [Action::Submit, Action::ProvideBuffers { ids }] => assert_eq!(ids.len(), 5),
        other => panic!("unexpected {:?}", other),
    }
    assert_eq!(registered(&s), BUFFERS_COUNT);
    assert_eq!(s.pending_releases(), 0);
}

#[test]
fn idle_worker_hands_buffers_back() {
    let (mut s, _) = worker();
    let mut pool = pool();
    let id = accept(&mut s, 42, &pool);
    receive(&mut s, &mut pool, id, 7, b"GET /plaintext HTTP/1.1\r\n\r\n");
    let mut actions = Vec::new();
    s.idle_release(&mut actions);
    assert_eq!(actions.len(), 2);
    assert_eq!(registered(&s), BUFFERS_COUNT);
}

#[test]
fn throttle_spaces_flushes_under_load() {
    let (mut s, _) = worker();
    let mut pool = pool();
    let id = accept(&mut s, 43, &pool);
    let mut req = Vec::new();
    for _ in 0..50 {
        req.extend_from_slice(b"GET /plaintext HTTP/1.1\r\n\r\n");
    }
    let mut actions = Vec::new();
    for k in 0..10_000usize {
        receive(&mut s, &mut pool, id, (k % RELEASE_THRESHOLD) as u16, &req);
        s.release_buffers(&mut actions);
        s.wideband_send(&mut actions);
        actions.clear();
    }
    // the next second observes 500 000 requests per second: flushes are spaced by 1 000 ns
    assert!(s.sq_poll_tick(1_000_000, 784_111_778));
    assert_eq!(s.status().0, 500_000);
    receive(&mut s, &mut pool, id, 0, &req);
    s.wideband_send(&mut actions);
    assert_eq!(actions.len(), 1);
    let skipped = s.status().3;
    receive(&mut s, &mut pool, id, 1, &req);
    s.sq_poll_tick(1_000_500, 784_111_778);
    actions.clear();
    s.wideband_send(&mut actions);
    assert!(actions.is_empty());
    assert_eq!(s.status().3, skipped + 1);
    s.sq_poll_tick(1_001_000, 784_111_778);
    s.wideband_send(&mut actions);
    assert_eq!(actions.len(), 1);
    assert_eq!(s.status().3, skipped + 1);
}

#[test]
fn speculative_read_answers_from_last_buffer() {
    let mut s = Server::new("127.0.0.1:8080".to_string(), 0, 784_111_777);
    s.set_ub_kernel_dma(true);
    s.set_json_body(JSON.to_vec());
    let mut actions = Vec::new();
    s.register_buffers(&mut actions);
    s.sq_poll_tick(1, 784_111_777);
    let mut pool = pool();
    actions.clear();
    s.process_entry(CODE_ACCEPT, 50, 0, &pool, &mut actions).unwrap();
    assert!(matches!(actions[1], Action::PollAdd { fd: 50, .. }));
    let id = match actions[2] {
        Action::RecvMulti { user_data, .. } => UserData::unpack_user_data(user_data).client_id,
        _ => panic!("no receive posted"),
    };
    let poll = UserData { client_id: id, buffer_id: 0, uniq_id: POLL_EVENT }.pack_user_data();
    // no buffer recorded yet: nothing happens
    actions.clear();
    s.process_entry(poll, 1, 0, &pool, &mut actions).unwrap();
    assert!(actions.is_empty());
    // a real receive records buffer 4 and, its last byte being zero, asks for a shift
    let acts = receive(&mut s, &mut pool, id as usize, 4, b"GET /json HTTP/1.1\r\n\r\n");
    assert!(matches!(acts.as_slice(), [Action::ShiftBuffer { buffer_id: 4, len: 22 }]));
    flush(&mut s);
    // readiness with fresh bytes in the recorded buffer is answered directly
    s.process_entry(poll, 1, 0, &pool, &mut actions).unwrap();
    assert!(actions.is_empty());
    let sends = flush(&mut s);
    assert_eq!(sends.len(), 1);
    assert!(String::from_utf8(sends[0].2.clone()).unwrap().ends_with("{\"message\":\"Hello, World!\"}"));
    // garbage in the buffer raises the type-of-service instead
    let start = 4 * BUFFER_SIZE;
    pool[start..start + BUFFER_SIZE].fill(0);
    pool[start + 10] = b'z';
    s.process_entry(poll, 1, 0, &pool, &mut actions).unwrap();
    assert!(matches!(actions.as_slice(), [Action::RaiseTos { fd: 50, tos: TOS_HIGH_PRIORITY }]));
}

#[test]
fn realtime_and_speculative_reads_conflict() {
    let mut s = Server::new("127.0.0.1:8080".to_string(), 0, 0);
    assert!(s.check_modes().is_ok());
    s.set_realtime(true).set_ub_kernel_dma(true);
    assert_eq!(s.check_modes(), Err(ConfigError::RealtimeWithSpeculativeReads));
    assert!(s.get_realtime() && s.get_ub_kernel_dma());
}

#[test]
fn setters_and_build_keep_configuration() {
    let mut s = Server::new("0.0.0.0:9000".to_string(), 0, 0);
    s.set_workers(3).set_uring_size(128).set_sqpoll_idle(7).set_sqpoll_enabled(true);
    let b = s.build();
    assert_eq!(b.get_workers(), 3);
    assert_eq!(b.get_uring_size(), 128);
    assert_eq!(b.get_sqpoll_idle(), 7);
    assert!(b.get_sqpoll_enabled());
    assert_eq!(b.get_addr(), "0.0.0.0:9000");
    assert_eq!(b.pending_releases(), BUFFERS_COUNT);
}

#[test]
fn workers_are_isolated() {
    let (mut a, _) = worker();
    let (b, _) = worker();
    let mut pool = pool();
    let id = accept(&mut a, 60, &pool);
    receive(&mut a, &mut pool, id, 1, b"GET /plaintext HTTP/1.1\r\n\r\n");
    assert_eq!(a.live_connections(), 1);
    assert_eq!(b.live_connections(), 0);
    assert_eq!(b.pending_releases(), 0);
    assert_eq!(registered(&b), BUFFERS_COUNT);
    assert_eq!(b.in_flight_len(), 0);
}

#[test]
fn clock_tick_rolls_over_each_second() {
    let (mut s, _) = worker();
    assert!(!s.sq_poll_tick(5, 784_111_777));
    assert!(s.sq_poll_tick(6, 784_111_778));
    assert!(s.take_sync());
    assert!(!s.take_sync());
    assert!(s.must_wait(true));
    assert!(!s.must_wait(false));
    s.waited();
    s.count_event();
}

#[test]
fn unknown_path_through_the_worker() {
    let (mut s, _) = worker();
    let mut pool = pool();
    let id = accept(&mut s, 70, &pool);
    receive(&mut s, &mut pool, id, 2, b"GET /nope HTTP/1.1\r\n\r\n");
    let sends = flush(&mut s);
    assert_eq!(sends.len(), 1);
    let text = String::from_utf8(sends[0].2.clone()).unwrap();
    assert!(text.starts_with("HTTP/1.1 404 Not Found\r\n"));
    assert!(text.ends_with("\r\n\r\nNot, found!"));
    assert_eq!(s.connection_fd(id), Some(70));
}

#[test]
fn json_through_the_worker() {
    let (mut s, _) = worker();
    let mut pool = pool();
    let id = accept(&mut s, 71, &pool);
    receive(&mut s, &mut pool, id, 3, b"GET /json HTTP/1.1\r\n\r\n");
    let sends = flush(&mut s);
    assert_eq!(sends.len(), 1);
    let text = String::from_utf8(sends[0].2.clone()).unwrap();
    assert!(text.contains("Content-Type: application/json; charset=utf-8\r\n"));
    assert!(text.ends_with("\r\n\r\n{\"message\":\"Hello, World!\"}"));
}

#[test]
fn truncated_header_gets_no_answer() {
    let (mut s, _) = worker();
    let mut pool = pool();
    let id = accept(&mut s, 72, &pool);
    receive(&mut s, &mut pool, id, 4, b"GET /plaintext HTTP/1.1\r\nHost: x\r\n");
    assert_eq!(s.staged_len(id), Some(0));
    assert!(flush(&mut s).is_empty());
}
