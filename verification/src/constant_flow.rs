//! Cover traffic at a constant rate.
//!
//! Every five seconds one packet of 4096 bytes goes out: a queued message with
//! random bytes behind it, or random bytes only. The caller keeps the time and
//! sends the packets.

use vstd::prelude::*;
use crate::crypto;
use crate::encoding::{push_all, slice_part};

verus! {

/// Size of every packet.
pub const PACKET_SIZE: usize = 4096;

/// Seconds between two packets.
pub const INTERVAL_SECS: u64 = 5;

/// The state of the engine. `C` is whatever the caller sends packets with.
pub struct ConstantFlow<C> {
    supported: bool,
    running: bool,
    pending: Option<Vec<u8>>,
    callback: Option<C>,
}

/// The state of the engine, seen as mathematical values.
#[verifier::ext_equal]
#[verifier::reject_recursive_types(C)]
pub ghost struct FlowView<C> {
    /// The build has the engine.
    pub supported: bool,
    /// The timer runs.
    pub running: bool,
    /// The message for the next packet.
    pub pending: Option<Seq<u8>>,
    /// What packets are sent with.
    pub callback: Option<C>,
}

impl<C> View for ConstantFlow<C> {
    type V = FlowView<C>;

    closed spec fn view(&self) -> FlowView<C> {
        FlowView {
            supported: self.supported,
            running: self.running,
            pending: match self.pending {
                Some(payload) => Some(payload@),
                None => None,
            },
            callback: self.callback,
        }
    }
}

impl<C> ConstantFlow<C> {
    /// A stopped engine, in a build that has it or in one that has not.
    pub fn new(supported: bool) -> (flow: Self)
        ensures
            flow@ == (FlowView::<C> { supported, running: false, pending: None, callback: None }),
    {
        ConstantFlow { supported, running: false, pending: None, callback: None }
    }
}

/// What a packet carries of a message: at most 4096 bytes of it.
pub open spec fn carried(payload: Seq<u8>) -> Seq<u8> {
    if payload.len() > PACKET_SIZE {
        payload.subrange(0, PACKET_SIZE as int)
    } else {
        payload
    }
}

/// The packet starts with what it carries of the message; the bytes behind it
/// were drawn for it.
pub open spec fn carries(packet: Seq<u8>, payload: Seq<u8>) -> bool {
    let n = carried(payload).len() as int;
    &&& packet.subrange(0, n) == carried(payload)
    &&& crypto::drawn(packet.subrange(n, PACKET_SIZE as int))
}

/// A packet of 4096 random bytes.
pub fn build_noise_packet() -> (packet: Vec<u8>)
    ensures
        packet@.len() == PACKET_SIZE,
        crypto::drawn(packet@),
{
    let mut packet: Vec<u8> = vec![0u8; PACKET_SIZE];
    crypto::fill_random(packet.as_mut_slice());
    packet
}

/// A packet with a message and the given noise behind it.
pub fn build_message_packet(payload: &[u8], noise: &[u8]) -> (packet: Vec<u8>)
    requires
        carried(payload@).len() + noise@.len() == PACKET_SIZE,
    ensures
        packet@ == carried(payload@) + noise@,
        packet@.len() == PACKET_SIZE,
{
    let mut packet: Vec<u8> = Vec::new();
    if payload.len() > PACKET_SIZE {
        push_all(&mut packet, slice_part(payload, 0, PACKET_SIZE));
    } else {
        push_all(&mut packet, payload);
    }
    push_all(&mut packet, noise);
    assert(packet@ =~= carried(payload@) + noise@);
    packet
}

/// Queues a message for the next packet, in place of one that is queued.
pub fn queue_real_message<C>(flow: &mut ConstantFlow<C>, payload: &[u8])
    ensures
        final(flow)@ == (FlowView { pending: Some(payload@), ..old(flow)@ }),
{
    flow.pending = Some(vstd::slice::slice_to_vec(payload));
}

/// Starts the timer. The code is 0; or 1 where the timer runs already or the
/// build has no engine, with nothing changed.
pub fn start_constant_flow<C>(flow: &mut ConstantFlow<C>, cb: C) -> (code: u32)
    ensures
        if !old(flow)@.supported || old(flow)@.running {
            code == 1 && final(flow)@ == old(flow)@
        } else {
            code == 0 && final(flow)@ == (FlowView { running: true, callback: Some(cb), ..old(flow)@ })
        },
{
    if !flow.supported || flow.running {
        return 1;
    }
    flow.callback = Some(cb);
    flow.running = true;
    0
}

/// Stops the timer and forgets the queued message. The code is 0; or 1 where
/// the build has no engine.
pub fn stop_constant_flow<C>(flow: &mut ConstantFlow<C>) -> (code: u32)
    ensures
        if old(flow)@.supported {
            code == 0 && final(flow)@ == (FlowView::<C> {
                supported: true,
                running: false,
                pending: None,
                callback: None,
            })
        } else {
            code == 1 && final(flow)@ == old(flow)@
        },
{
    if !flow.supported {
        return 1;
    }
    flow.running = false;
    flow.callback = None;
    flow.pending = None;
    0
}

/// Stops the timer after sending has failed; a queued message stays queued.
pub fn fail_constant_flow<C>(flow: &mut ConstantFlow<C>)
    ensures
        final(flow)@ == (FlowView { running: false, callback: None, ..old(flow)@ }),
{
    flow.running = false;
    flow.callback = None;
}

/// What the timer sends when it fires: a packet with the queued message where
/// there is one, and otherwise noise. `None` comes once the timer is stopped.
pub fn next_packet<C>(flow: &mut ConstantFlow<C>) -> (packet: Option<Vec<u8>>)
    ensures
        packet is Some <==> old(flow)@.running,
        packet matches Some(p) ==> {
            &&& p@.len() == PACKET_SIZE
            &&& match old(flow)@.pending {
                Some(payload) => carries(p@, payload),
                None => crypto::drawn(p@),
            }
            &&& final(flow)@ == (FlowView { pending: None, ..old(flow)@ })
        },
        packet is None ==> final(flow)@ == old(flow)@,
{
    if !flow.running {
        return None;
    }
    match flow.pending.take() {
        Some(payload) => {
            let free: usize = if payload.len() > PACKET_SIZE {
                0
            } else {
                PACKET_SIZE - payload.len()
            };
            let mut noise: Vec<u8> = vec![0u8; free];
            crypto::fill_random(noise.as_mut_slice());
            let packet: Vec<u8> = build_message_packet(payload.as_slice(), noise.as_slice());
            assert(packet@.subrange(0, carried(payload@).len() as int) =~= carried(payload@));
            assert(packet@.subrange(carried(payload@).len() as int, PACKET_SIZE as int) =~= noise@);
            Some(packet)
        },
        None => Some(build_noise_packet()),
    }
}

/// What packets are sent with.
pub fn transmitter<C: Copy>(flow: &ConstantFlow<C>) -> (cb: Option<C>)
    ensures
        cb == flow@.callback,
{
    flow.callback
}

// ---------------------------------------------------------------------------
// Laws
// ---------------------------------------------------------------------------

/// A packet carries the whole of a message of up to 4096 bytes, and the first
/// 4096 bytes of a longer one.
pub proof fn law_carried_is_the_front(payload: Seq<u8>, i: int)
    ensures
        payload.len() <= 4096 ==> carried(payload) == payload,
        payload.len() > 4096 ==> carried(payload).len() == 4096,
        0 <= i < payload.len() && i < 4096 ==> carried(payload)[i] == payload[i],
{
}

/// A packet with a message is the front of the message and, up to 4096 bytes,
/// bytes that the random generator gave for it.
pub proof fn law_packet_hides_message_in_noise(packet: Seq<u8>, payload: Seq<u8>, i: int)
    requires
        packet.len() == 4096,
        carries(packet, payload),
    ensures
        0 <= i < payload.len() && i < 4096 ==> packet[i] == payload[i],
        payload.len() <= 4096 ==> crypto::drawn(packet.subrange(payload.len() as int, 4096)),
{
    if 0 <= i < payload.len() && i < 4096 {
        assert(packet.subrange(0, carried(payload).len() as int)[i] == carried(payload)[i]);
    }
}

} // verus!
