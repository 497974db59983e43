use tachyon::user_data::{
    UserData, BUFFER_REGISTER_CODE, CODE_ACCEPT, INIT_REQUEST, POLL_EVENT, REQ_RESP_OFFSET,
    SEND_EVENT,
};

#[test]
fn cookie_exact_layout() {
    let u = UserData { client_id: 1, buffer_id: 2, uniq_id: 3 };
    let raw: u64 = (3u64 << 48) | (2u64 << 32) | 1;
    assert_eq!(u.pack_user_data(), raw.wrapping_add(1u64 << 63));
    assert_eq!(REQ_RESP_OFFSET, 1u64 << 63);
}

#[test]
fn cookie_round_trip_samples() {
    let samples = [
        (0u32, 0u16, 0u16),
        (1, 2, 3),
        (u32::MAX, u16::MAX, u16::MAX),
        (100, 5, INIT_REQUEST),
        (7, 0, POLL_EVENT),
        (123_456, 1023, SEND_EVENT),
        (0, 0, 0x8000),
    ];
    for (c, b, u) in samples {
        let packed = UserData { client_id: c, buffer_id: b, uniq_id: u }.pack_user_data();
        let back = UserData::unpack_user_data(packed);
        assert_eq!((back.client_id, back.buffer_id, back.uniq_id), (c, b, u));
    }
}

#[test]
fn cookie_request_range_avoids_sentinels() {
    for u in [INIT_REQUEST, POLL_EVENT, SEND_EVENT] {
        let packed = UserData { client_id: 0, buffer_id: 0, uniq_id: u }.pack_user_data();
        assert!(packed >= REQ_RESP_OFFSET);
        assert_ne!(packed, CODE_ACCEPT);
        assert_ne!(packed, BUFFER_REGISTER_CODE);
    }
}
