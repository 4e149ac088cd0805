//! The per-session read loops, as step functions from inbound event to
//! action.
//!
//! The caller's read loop blocks on the transport, turns what it saw into a
//! `RawEvent` or `WsEvent`, and performs the returned `ReadAction`. Within
//! one session, events are handed in in arrival order and an echo is sent
//! only after its frame is fully decoded. On `Terminate` the caller shuts
//! the I/O handle down, removes the session from the registry, and releases
//! it — exactly once, which `Registry::remove` makes idempotent.

use vstd::prelude::*;

verus! {

/// What a raw-socket read loop observed: a chunk of bytes, an orderly end
/// of stream (a zero-length read), or a read error.
pub enum RawEvent {
    Data(Vec<u8>),
    Disconnected,
    ReadFailed,
}

/// What a WebSocket read loop observed: a decoded text frame, a binary
/// frame, or any other frame of the protocol.
pub enum WsEvent {
    Text(Vec<u8>),
    Binary(Vec<u8>),
    Control,
}

/// What the read loop does next. `Reply` writes the payload back to the
/// same session — never to any other — before the next event is read.
pub enum ReadAction {
    /// Echo the payload to this session's own I/O handle.
    Reply(Vec<u8>),
    /// Record an identity/address announcement; no reply.
    NoteAddress,
    /// Record ordinary client chatter; no reply.
    NoteChat,
    /// Observe and drop the event; no reply.
    Discard,
    /// End the read loop: shut the handle, remove the session, release it.
    Terminate,
}

/// The frames an action writes back to the session that produced the event:
/// one for an echo, none otherwise.
pub open spec fn outbound(a: ReadAction) -> Seq<Seq<u8>> {
    match a {
        ReadAction::Reply(p) => seq![p@],
        _ => Seq::empty(),
    }
}

/// The raw-socket announcement prefix: the bytes of `"address"`.
pub open spec fn address_prefix() -> Seq<u8> {
    seq![97u8, 100u8, 100u8, 114u8, 101u8, 115u8, 115u8]
}

/// A raw-socket message that begins with `"address"` announces the client's
/// identity/address.
pub open spec fn spec_is_address_announcement(b: Seq<u8>) -> bool {
    b.len() >= 7 && b.subrange(0, 7) == address_prefix()
}

/// Whether a raw-socket message begins with the literal `"address"`.
#[verifier::loop_isolation(false)]
pub fn is_address_announcement(b: &Vec<u8>) -> (r: bool)
    ensures
        r == spec_is_address_announcement(b@),
{
    if b.len() < 7 {
        return false;
    }
    let prefix: [u8; 7] = [97, 100, 100, 114, 101, 115, 115];
    for i in 0..7usize
        invariant
            forall|k: int| 0 <= k < i ==> b@[k] == address_prefix()[k],
    {
        if b[i] != prefix[i] {
            proof {
                assert(b@[i as int] != address_prefix()[i as int]);
            }
            return false;
        }
    }
    proof {
        assert(b@.subrange(0, 7) =~= address_prefix());
    }
    true
}

/// What the raw-socket read loop decides on an event.
pub open spec fn spec_raw_read_step(e: RawEvent) -> ReadAction {
    match e {
        RawEvent::Data(b) => if spec_is_address_announcement(b@) {
            ReadAction::NoteAddress
        } else {
            ReadAction::NoteChat
        },
        RawEvent::Disconnected => ReadAction::Terminate,
        RawEvent::ReadFailed => ReadAction::Terminate,
    }
}

/// One step of the raw-socket read loop. A message beginning with
/// `"address"` is recorded as an identity announcement, every other message
/// as generic chatter — the two are distinguishable in the record, and
/// neither is answered. End of stream and read errors terminate the loop.
pub fn raw_read_step(e: RawEvent) -> (a: ReadAction)
    ensures
        a == spec_raw_read_step(e),
{
    match e {
        RawEvent::Data(b) => {
            if is_address_announcement(&b) {
                ReadAction::NoteAddress
            } else {
                ReadAction::NoteChat
            }
        },
        RawEvent::Disconnected => ReadAction::Terminate,
        RawEvent::ReadFailed => ReadAction::Terminate,
    }
}

/// A raw-socket session never sends a reply: whatever the event — an
/// address announcement included — the loop writes nothing back.
pub proof fn lemma_raw_never_replies(e: RawEvent)
    ensures
        outbound(spec_raw_read_step(e)) =~= Seq::<Seq<u8>>::empty(),
{
}

/// What the WebSocket read loop decides on a frame.
pub open spec fn spec_ws_read_step(e: WsEvent) -> ReadAction {
    match e {
        WsEvent::Text(t) => ReadAction::Reply(t),
        WsEvent::Binary(_) => ReadAction::Discard,
        WsEvent::Control => ReadAction::Discard,
    }
}

/// One step of the WebSocket read loop: a text frame is echoed back
/// verbatim to the same session; a binary frame is observed and discarded;
/// any other frame is ignored.
pub fn ws_read_step(e: WsEvent) -> (a: ReadAction)
    ensures
        a == spec_ws_read_step(e),
{
    match e {
        WsEvent::Text(t) => ReadAction::Reply(t),
        WsEvent::Binary(_) => ReadAction::Discard,
        WsEvent::Control => ReadAction::Discard,
    }
}

/// The WebSocket echo is exact: a text frame yields exactly one outbound
/// frame, byte for byte the frame received, on the session that sent it —
/// `Reply` addresses no other session — and every non-text frame yields
/// none.
pub proof fn lemma_ws_echo_exact(e: WsEvent)
    ensures
        e matches WsEvent::Text(t) ==> outbound(spec_ws_read_step(e)) =~= seq![t@],
        !(e matches WsEvent::Text(_)) ==> outbound(spec_ws_read_step(e)) =~= Seq::<Seq<u8>>::empty(),
{
}

} // verus!
