//! Session id allocation.
//!
//! A session id is opaque, stable for the session's lifetime, and drawn at
//! accept time from a space large enough that a collision is negligible. A
//! raw-socket session draws 64 random bits; a WebSocket session draws a
//! random (version 4) UUID, carried as its 128-bit value. Collisions are
//! not regenerated: the registry rejects a duplicate id explicitly.

use vstd::prelude::*;

use crate::session::Transport;

verus! {

/// Relies on rand::random: a value drawn from the thread-local generator.
/// Nothing can be promised of a random value.
pub assume_specification<T>[ rand::random::<T> ]() -> (r: T)
    where
        rand::distr::StandardUniform: rand::distr::Distribution<T>,
;

/// Relies on uuid::Uuid::new_v4 and uuid::Uuid::as_u128: a random UUID,
/// read back as the 128-bit big-endian value of its bytes. new_v4 masks in
/// the version field, so the nibble at bits 76..80 of that value is always
/// exactly 4; the rest is random and nothing more is promised.
#[verifier::external_body]
fn random_ws_uuid_value() -> (r: u128)
    ensures
        (r >> 76) & 0xf == 4,
{
    uuid::Uuid::new_v4().as_u128()
}

/// Draw a fresh id for a session of the given transport: 64 random bits
/// for a raw socket, widened into the id space, and a random version-4
/// UUID value for a WebSocket. The two transports' ids can never collide:
/// a raw-socket id fits in 64 bits, while a WebSocket id carries a nonzero
/// version nibble far above them.
pub fn allocate_session_id(transport: Transport) -> (id: u128)
    ensures
        transport == Transport::RawSocket ==> id <= u64::MAX,
        transport == Transport::WebSocket ==> (id >> 76) & 0xf == 4 && id > u64::MAX,
{
    match transport {
        Transport::RawSocket => {
            let raw: u64 = rand::random::<u64>();
            raw as u128
        },
        Transport::WebSocket => {
            let id = random_ws_uuid_value();
            proof {
                assert((id >> 76) & 0xf == 4 ==> id > u64::MAX) by (bit_vector);
            }
            id
        },
    }
}

} // verus!
