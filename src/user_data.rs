use vstd::arithmetic::div_mod::lemma_fundamental_div_mod_converse;
use vstd::prelude::*;

verus! {

/// Buffer group under which every receive buffer is registered.
pub const BUF_GROUP: u16 = 42;

/// Additive offset of every request-related cookie (`2^63`).
pub const REQ_RESP_OFFSET: u64 = 0x8000_0000_0000_0000;

/// Cookie of a buffer-registration completion.
pub const BUFFER_REGISTER_CODE: u64 = 0xFAB;

/// Operation class of the multi-shot receive posted on accept.
pub const INIT_REQUEST: u16 = 0xCCA;

/// Operation class of the multi-shot readiness poll.
pub const POLL_EVENT: u16 = 0xAAA;

/// Operation class of an outbound send.
pub const SEND_EVENT: u16 = 0xCCC;

/// Cookie of a multi-shot accept completion.
pub const CODE_ACCEPT: u64 = 0xA;

/// Metadata that travels with one ring operation.
#[derive(Debug, Clone, Copy, PartialEq, Eq, Structural)]
pub struct UserData {
    pub client_id: u32,
    pub buffer_id: u16,
    pub uniq_id: u16,
}

/// Layout of the three fields before the offset: `[uniq:16 | buffer:16 | client:32]`.
pub open spec fn raw_cookie(client_id: u32, buffer_id: u16, uniq_id: u16) -> int {
    uniq_id as int * 0x1_0000_0000_0000 + buffer_id as int * 0x1_0000_0000 + client_id as int
}

/// The cookie: the raw layout plus `2^63`, modulo `2^64`.
pub open spec fn cookie_of(client_id: u32, buffer_id: u16, uniq_id: u16) -> u64 {
    ((raw_cookie(client_id, buffer_id, uniq_id) + REQ_RESP_OFFSET as int) % 0x1_0000_0000_0000_0000)
        as u64
}

/// The fields read back from a cookie.
pub open spec fn fields_of(user_data: u64) -> UserData {
    let raw = (user_data as int - REQ_RESP_OFFSET as int + 0x1_0000_0000_0000_0000)
        % 0x1_0000_0000_0000_0000;
    UserData {
        client_id: (raw % 0x1_0000_0000) as u32,
        buffer_id: ((raw / 0x1_0000_0000) % 0x1_0000) as u16,
        uniq_id: (raw / 0x1_0000_0000_0000) as u16,
    }
}

proof fn lemma_pack_bits(c: u64, b: u64, u: u64)
    requires
        c < 0x1_0000_0000,
        b < 0x1_0000,
        u < 0x1_0000,
    ensures
        (u << 48u64) | (b << 32u64) | c == u * 0x1_0000_0000_0000 + b * 0x1_0000_0000 + c,
{
    assert((u << 48u64) | (b << 32u64) | c == u * 0x1_0000_0000_0000 + b * 0x1_0000_0000 + c)
        by (bit_vector)
        requires
            c < 0x1_0000_0000,
            b < 0x1_0000,
            u < 0x1_0000,
    ;
}

proof fn lemma_unpack_bits(raw: u64)
    ensures
        raw & 0xFFFF_FFFFu64 == raw % 0x1_0000_0000,
        (raw >> 32u64) & 0xFFFFu64 == (raw / 0x1_0000_0000) % 0x1_0000,
        (raw >> 48u64) & 0xFFFFu64 == raw / 0x1_0000_0000_0000,
{
    assert(raw & 0xFFFF_FFFFu64 == raw % 0x1_0000_0000) by (bit_vector);
    assert((raw >> 32u64) & 0xFFFFu64 == (raw / 0x1_0000_0000) % 0x1_0000) by (bit_vector);
    assert((raw >> 48u64) & 0xFFFFu64 == raw / 0x1_0000_0000_0000) by (bit_vector);
}

impl UserData {
    /// Packs the three fields into the 64-bit cookie echoed by the kernel.
    pub fn pack_user_data(&self) -> (r: u64)
        ensures
            r == cookie_of(self.client_id, self.buffer_id, self.uniq_id),
    {
        let c = self.client_id as u64;
        let b = self.buffer_id as u64;
        let u = self.uniq_id as u64;
        proof {
            lemma_pack_bits(c, b, u);
        }
        let raw: u64 = (u << 48u64) | (b << 32u64) | c;
        raw.wrapping_add(REQ_RESP_OFFSET)
    }

    /// Reads the three fields back from a cookie.
    pub fn unpack_user_data(user_data: u64) -> (r: Self)
        ensures
            r == fields_of(user_data),
    {
        let raw: u64 = user_data.wrapping_sub(REQ_RESP_OFFSET);
        proof {
            lemma_unpack_bits(raw);
        }
        UserData {
            client_id: (raw & 0xFFFF_FFFFu64) as u32,
            buffer_id: ((raw >> 32u64) & 0xFFFFu64) as u16,
            uniq_id: ((raw >> 48u64) & 0xFFFFu64) as u16,
        }
    }
}

/// Unpacking a packed cookie gives back the three fields, for every client id,
/// buffer id and operation class.
pub proof fn lemma_cookie_round_trip(client_id: u32, buffer_id: u16, uniq_id: u16)
    ensures
        fields_of(cookie_of(client_id, buffer_id, uniq_id)) == (UserData {
            client_id,
            buffer_id,
            uniq_id,
        }),
{
    let raw = raw_cookie(client_id, buffer_id, uniq_id);
    let (c, b, u) = (client_id as int, buffer_id as int, uniq_id as int);
    let hi = u * 0x1_0000 + b;
    assert(raw == hi * 0x1_0000_0000 + c) by (nonlinear_arith)
        requires
            raw == u * 0x1_0000_0000_0000 + b * 0x1_0000_0000 + c,
            hi == u * 0x1_0000 + b,
    ;
    assert(0 <= raw < 0x1_0000_0000_0000_0000) by (nonlinear_arith)
        requires
            raw == hi * 0x1_0000_0000 + c,
            hi == u * 0x1_0000 + b,
            0 <= u < 0x1_0000,
            0 <= b < 0x1_0000,
            0 <= c < 0x1_0000_0000,
    ;
    lemma_fundamental_div_mod_converse(raw, 0x1_0000_0000, hi, c);
    lemma_fundamental_div_mod_converse(hi, 0x1_0000, u, b);
    assert(raw == u * 0x1_0000_0000_0000 + (b * 0x1_0000_0000 + c));
    assert(0 <= b * 0x1_0000_0000 + c < 0x1_0000_0000_0000) by (nonlinear_arith)
        requires
            0 <= b < 0x1_0000,
            0 <= c < 0x1_0000_0000,
    ;
    lemma_fundamental_div_mod_converse(raw, 0x1_0000_0000_0000, u, b * 0x1_0000_0000 + c);
}

} // verus!
