//! The hardware backend: the state and the decisions of a backend that
//! sends and receives through a kernel-bypass network port.
//!
//! The port, its descriptor pool and the descriptors themselves belong to
//! a foreign driver. Whoever embeds this backend makes the driver calls
//! and tells the backend what came back, in plain values; the backend
//! says what to do next. Nothing here holds a foreign pointer.
//!
//! Sending one frame takes three steps with the driver in between: ask
//! the pool for a descriptor, then [`LibOSRuntime::transmit`]; fill the
//! descriptor with [`Submission::write_frame`] and submit it to the port,
//! then [`LibOSRuntime::complete_transmit`]. Receiving takes two: poll the
//! port as [`LibOSRuntime::poll_request`] says, then
//! [`LibOSRuntime::receive`]. Clock, futures, addresses, options and
//! randomness work as on every backend.

use crate::addr::{Ipv4Addr, MacAddress};
use crate::error::RuntimeError;
use crate::options::{ArpOptions, TcpOptions};
use crate::runtime::Identity;
use crate::time::{Duration, Timestamp};
use crate::timer::{
    advance_clock_outcome, poll_outcome, wait_outcome, wait_until_outcome, Timer, TimerEntry,
    TimerRc, TimerView, WaitFuture, WaitState,
};
use vstd::prelude::*;
use vstd::slice::slice_subrange;

verus! {

/// The most descriptors that one poll of the port takes.
pub const MAX_QUEUE_DEPTH: u16 = 64;

/// The bytes at the front of a descriptor's buffer that stay free for
/// headers that lower layers prepend.
pub const PKTMBUF_HEADROOM: u16 = 128;

/// What the backend reads of one descriptor that the driver handed over.
#[derive(Clone, Copy, Debug, PartialEq, Eq, Structural)]
pub struct Descriptor {
    /// The size of the descriptor's buffer.
    pub buf_len: u16,
    /// Where in the buffer the frame starts.
    pub data_off: u16,
    /// How long the frame is. Of a descriptor fresh from the pool this
    /// says nothing.
    pub data_len: u16,
}

impl Descriptor {
    /// How long a frame this descriptor can take: the buffer without its
    /// headroom.
    pub open spec fn usable_capacity(self) -> nat {
        if self.buf_len >= PKTMBUF_HEADROOM {
            (self.buf_len - PKTMBUF_HEADROOM) as nat
        } else {
            0
        }
    }

    /// Whether the buffer has its full headroom and the data starts
    /// within it. The pool hands out descriptors of which this holds.
    pub open spec fn data_starts_in_headroom(self) -> bool {
        self.data_off <= PKTMBUF_HEADROOM <= self.buf_len
    }
}

/// One poll of the port: which queue of which port to ask, and for how
/// many descriptors at most.
#[derive(Clone, Copy, Debug, PartialEq, Eq, Structural)]
pub struct PollRequest {
    pub port_id: u16,
    pub queue_id: u16,
    pub nb_pkts: u16,
}

/// Where the bytes of one received frame lie in its descriptor's buffer.
#[derive(Clone, Copy, Debug, PartialEq, Eq, Structural)]
pub struct Payload {
    pub offset: usize,
    pub len: usize,
}

/// What to do with a descriptor to send a frame in it: copy the frame's
/// `data_len` bytes into the buffer from `data_off` on, set the
/// descriptor's length fields as given, leave it without a successor, and
/// submit `nb_pkts` descriptors, this one, to queue `queue_id` of port
/// `port_id`.
#[derive(Clone, Copy, Debug, PartialEq, Eq, Structural)]
pub struct Submission {
    pub port_id: u16,
    pub queue_id: u16,
    pub nb_pkts: u16,
    pub data_off: u16,
    pub data_len: u16,
    pub pkt_len: u32,
    pub nb_segs: u16,
}

impl Payload {
    /// The bytes of the frame, taken from the descriptor's whole buffer;
    /// `None` where the frame would reach past the buffer's end.
    pub fn bytes<'a>(&self, buffer: &'a [u8]) -> (r: Option<&'a [u8]>)
        ensures
            r.is_some() <==> self.offset + self.len <= buffer@.len(),
            r matches Some(frame) ==> frame@ == buffer@.subrange(
                self.offset as int,
                self.offset + self.len,
            ),
    {
        if self.offset <= buffer.len() && self.len <= buffer.len() - self.offset {
            Some(slice_subrange(buffer, self.offset, self.offset + self.len))
        } else {
            None
        }
    }
}

/// The buffer `buffer` with `frame` written into it from `offset` on.
pub open spec fn with_frame(buffer: Seq<u8>, offset: int, frame: Seq<u8>) -> Seq<u8> {
    buffer.subrange(0, offset) + frame + buffer.subrange(offset + frame.len(), buffer.len() as int)
}

impl Submission {
    /// Whether `frame` is the frame this submission was decided for, and
    /// its place lies inside a buffer of `buffer_len` bytes.
    pub open spec fn fits(self, frame: Seq<u8>, buffer_len: nat) -> bool {
        frame.len() == self.data_len && self.data_off + self.data_len <= buffer_len
    }

    /// Copies the frame into the descriptor's buffer, at the place this
    /// submission names. No byte outside that place changes. Where the
    /// frame would not lie inside the buffer, nothing is written.
    pub fn write_frame(&self, frame: &[u8], buffer: &mut [u8]) -> (r: Result<(), RuntimeError>)
        ensures
            r.is_ok() <==> self.fits(frame@, old(buffer)@.len()),
            r matches Err(e) ==> e == RuntimeError::FrameTooLarge && final(buffer)@ == old(buffer)@,
            r matches Ok(_) ==> final(buffer)@ == with_frame(
                old(buffer)@,
                self.data_off as int,
                frame@,
            ),
    {
        let offset: usize = self.data_off as usize;
        let len: usize = self.data_len as usize;
        if frame.len() != len || offset > buffer.len() || len > buffer.len() - offset {
            return Err(RuntimeError::FrameTooLarge);
        }
        let mut i: usize = 0;
        while i < len
            invariant
                i <= len,
                len == frame@.len(),
                offset + len <= buffer@.len(),
                offset + len <= usize::MAX,
                buffer@.len() == old(buffer)@.len(),
                buffer@ == with_frame(old(buffer)@, offset as int, frame@.take(i as int)),
            decreases len - i,
        {
            let byte: u8 = frame[i];
            buffer[offset + i] = byte;
            assert(buffer@ =~= with_frame(old(buffer)@, offset as int, frame@.take(i + 1)));
            i += 1;
        }
        assert(frame@.take(len as int) =~= frame@);
        Ok(())
    }
}

/// The payloads of a burst of received descriptors, in the order of the
/// burst.
pub open spec fn payloads(burst: Seq<Descriptor>) -> Seq<Payload> {
    burst.map_values(
        |d: Descriptor| Payload { offset: d.data_off as usize, len: d.data_len as usize },
    )
}

/// The decision on sending a frame of `frame_len` bytes through port
/// `port_id`, given what the pool answered when asked for a descriptor.
pub open spec fn transmit_decision(
    port_id: u16,
    frame_len: nat,
    descriptor: Option<Descriptor>,
) -> Result<Submission, RuntimeError> {
    match descriptor {
        None => Err(RuntimeError::PoolExhausted),
        Some(d) => if frame_len > d.usable_capacity() {
            Err(RuntimeError::FrameTooLarge)
        } else {
            Ok(
                Submission {
                    port_id,
                    queue_id: 0,
                    nb_pkts: 1,
                    data_off: d.data_off,
                    data_len: frame_len as u16,
                    pkt_len: frame_len as u32,
                    nb_segs: 1,
                },
            )
        },
    }
}

/// A frame is sent exactly where it is no longer than the descriptor's
/// usable capacity. Where the buffer has its headroom and the data starts
/// within it, as in a descriptor fresh from the pool, an accepted frame
/// lies inside the buffer: writing it changes no byte before the frame's
/// place or behind it, and the buffer keeps its length.
pub proof fn lemma_accepted_frame_stays_in_buffer(
    port_id: u16,
    frame: Seq<u8>,
    d: Descriptor,
    buffer: Seq<u8>,
)
    requires
        d.data_starts_in_headroom(),
        buffer.len() == d.buf_len,
    ensures
        transmit_decision(port_id, frame.len(), Some(d)).is_ok() <==> frame.len()
            <= d.usable_capacity(),
        transmit_decision(port_id, frame.len(), Some(d)) matches Err(e) ==> e
            == RuntimeError::FrameTooLarge,
        transmit_decision(port_id, frame.len(), Some(d)) matches Ok(sub) ==> {
            let written = with_frame(buffer, sub.data_off as int, frame);
            &&& sub.fits(frame, buffer.len())
            &&& written.len() == buffer.len()
            &&& forall|i: int| 0 <= i < sub.data_off ==> written[i] == buffer[i]
            &&& forall|i: int| 0 <= i < frame.len() ==> written[sub.data_off + i] == frame[i]
            &&& forall|i: int|
                sub.data_off + frame.len() <= i < buffer.len() ==> written[i] == buffer[i]
        },
{
    if frame.len() <= d.usable_capacity() {
        let sub = transmit_decision(port_id, frame.len(), Some(d)).unwrap();
        assert(sub.data_len == frame.len());
        assert(sub.data_off + sub.data_len <= buffer.len());
        let written = with_frame(buffer, sub.data_off as int, frame);
        assert(written.len() == buffer.len());
    }
}

/// A hardware backend.
pub struct LibOSRuntime {
    timer: TimerRc,
    link_addr: MacAddress,
    ipv4_addr: Ipv4Addr,
    rng: u32,
    arp_options: ArpOptions,
    tcp_options: TcpOptions,
    dpdk_port_id: u16,
}

/// A hardware backend as contracts see it.
pub struct LibOSRuntimeView {
    pub timer: TimerView,
    /// The value that the next draw of randomness gives.
    pub rng: u32,
    pub identity: Identity,
    pub dpdk_port_id: u16,
}

impl View for LibOSRuntime {
    type V = LibOSRuntimeView;

    closed spec fn view(&self) -> LibOSRuntimeView {
        LibOSRuntimeView {
            timer: self.timer@,
            rng: self.rng,
            identity: Identity {
                link_addr: self.link_addr,
                ipv4_addr: self.ipv4_addr,
                arp_options: self.arp_options@,
                tcp_options: self.tcp_options,
            },
            dpdk_port_id: self.dpdk_port_id,
        }
    }
}

impl LibOSRuntime {
    pub open spec fn wf(&self) -> bool {
        self@.timer.wf()
    }

    /// A backend for port `dpdk_port_id` whose clock reads `now`, with the
    /// given addresses, default options and nothing registered.
    pub fn new(
        link_addr: MacAddress,
        ipv4_addr: Ipv4Addr,
        dpdk_port_id: u16,
        now: Timestamp,
    ) -> (rt: LibOSRuntime)
        ensures
            rt.wf(),
            rt@ == (LibOSRuntimeView {
                timer: TimerView { now, next_id: 0, pending: Seq::empty() },
                rng: 1,
                identity: Identity {
                    link_addr,
                    ipv4_addr,
                    arp_options: ArpOptions::default_view(),
                    tcp_options: TcpOptions::default_value(),
                },
                dpdk_port_id,
            }),
    {
        LibOSRuntime {
            timer: TimerRc(Timer::new(now)),
            link_addr,
            ipv4_addr,
            rng: 1,
            arp_options: ArpOptions::default(),
            tcp_options: TcpOptions::default(),
            dpdk_port_id,
        }
    }

    /// The poll with which to ask the port for received frames: at most
    /// [`MAX_QUEUE_DEPTH`] descriptors from queue 0. The port answers at
    /// once, with no descriptor where nothing has arrived.
    pub fn poll_request(&self) -> (request: PollRequest)
        ensures
            request == (PollRequest {
                port_id: self@.dpdk_port_id,
                queue_id: 0,
                nb_pkts: MAX_QUEUE_DEPTH,
            }),
    {
        PollRequest { port_id: self.dpdk_port_id, queue_id: 0, nb_pkts: MAX_QUEUE_DEPTH }
    }

    /// Takes the descriptors that one poll of the port brought and says,
    /// for each in turn, where its frame lies. The caller hands each
    /// frame to the protocol stack and then gives the descriptor back to
    /// the pool; the number of frames processed is the length of the
    /// result.
    pub fn receive(&self, burst: &[Descriptor]) -> (frames: Vec<Payload>)
        ensures
            frames@ == payloads(burst@),
    {
        let mut frames: Vec<Payload> = Vec::new();
        let mut i: usize = 0;
        while i < burst.len()
            invariant
                i <= burst.len(),
                frames@ == payloads(burst@.take(i as int)),
            decreases burst.len() - i,
        {
            let d = burst[i];
            frames.push(Payload { offset: d.data_off as usize, len: d.data_len as usize });
            assert(burst@.take(i + 1) =~= burst@.take(i as int).push(d));
            assert(payloads(burst@.take(i + 1)) =~= payloads(burst@.take(i as int)).push(
                Payload { offset: d.data_off as usize, len: d.data_len as usize },
            ));
            i += 1;
        }
        assert(burst@.take(i as int) =~= burst@);
        frames
    }

    /// Decides on sending `buf`, given what the pool answered when asked
    /// for one descriptor. Without a descriptor there is nothing to send
    /// in; a frame longer than the descriptor's usable capacity is
    /// refused; otherwise the answer says how to fill and submit the
    /// descriptor. After a refusal the descriptor, if there is one, goes
    /// back to the pool untouched.
    pub fn transmit(&self, buf: &[u8], descriptor: Option<Descriptor>) -> (r: Result<
        Submission,
        RuntimeError,
    >)
        ensures
            r == transmit_decision(self@.dpdk_port_id, buf@.len(), descriptor),
    {
        match descriptor {
            None => Err(RuntimeError::PoolExhausted),
            Some(d) => {
                let capacity: u16 = if d.buf_len >= PKTMBUF_HEADROOM {
                    d.buf_len - PKTMBUF_HEADROOM
                } else {
                    0
                };
                if buf.len() > capacity as usize {
                    Err(RuntimeError::FrameTooLarge)
                } else {
                    Ok(
                        Submission {
                            port_id: self.dpdk_port_id,
                            queue_id: 0,
                            nb_pkts: 1,
                            data_off: d.data_off,
                            data_len: buf.len() as u16,
                            pkt_len: buf.len() as u32,
                            nb_segs: 1,
                        },
                    )
                }
            },
        }
    }

    /// Judges what the port answered to a submission: it must have
    /// accepted exactly the one descriptor.
    pub fn complete_transmit(&self, accepted: u16) -> (r: Result<(), RuntimeError>)
        ensures
            r.is_ok() <==> accepted == 1,
            r matches Err(e) ==> e == RuntimeError::PartialSend,
    {
        if accepted == 1 {
            Ok(())
        } else {
            Err(RuntimeError::PartialSend)
        }
    }

    pub fn local_link_addr(&self) -> (addr: MacAddress)
        ensures
            addr == self@.identity.link_addr,
    {
        self.link_addr
    }

    pub fn local_ipv4_addr(&self) -> (addr: Ipv4Addr)
        ensures
            addr == self@.identity.ipv4_addr,
    {
        self.ipv4_addr
    }

    /// A snapshot of the transport options.
    pub fn tcp_options(&self) -> (options: TcpOptions)
        ensures
            options == self@.identity.tcp_options,
    {
        self.tcp_options
    }

    /// A snapshot of the address-resolution options.
    pub fn arp_options(&self) -> (options: ArpOptions)
        ensures
            options@ == self@.identity.arp_options,
    {
        self.arp_options.clone()
    }

    /// Moves the clock to `now` and resolves the deadlines this reaches.
    pub fn advance_clock(&mut self, now: Timestamp) -> (r: Result<Vec<TimerEntry>, RuntimeError>)
        requires
            old(self).wf(),
        ensures
            final(self).wf(),
            advance_clock_outcome(old(self)@.timer, now, r, final(self)@.timer),
            final(self)@ == (LibOSRuntimeView { timer: final(self)@.timer, ..old(self)@ }),
    {
        self.timer.0.advance_clock(now)
    }

    /// A future that resolves `duration` from now.
    pub fn wait(&mut self, duration: Duration) -> (r: Result<WaitFuture, RuntimeError>)
        requires
            old(self).wf(),
        ensures
            final(self).wf(),
            wait_outcome(old(self)@.timer, duration, r, final(self)@.timer),
            final(self)@ == (LibOSRuntimeView { timer: final(self)@.timer, ..old(self)@ }),
    {
        let now = self.timer.timer().now();
        match now.checked_add(duration) {
            Some(when) => self.timer.0.wait_until(when),
            None => Err(RuntimeError::DeadlineOverflow),
        }
    }

    /// A future that resolves at `when`.
    pub fn wait_until(&mut self, when: Timestamp) -> (r: Result<WaitFuture, RuntimeError>)
        requires
            old(self).wf(),
        ensures
            final(self).wf(),
            wait_until_outcome(old(self)@.timer, when, r, final(self)@.timer),
            final(self)@ == (LibOSRuntimeView { timer: final(self)@.timer, ..old(self)@ }),
    {
        self.timer.0.wait_until(when)
    }

    /// Asks a future for its completion.
    pub fn poll(&self, fut: &mut WaitFuture) -> (s: WaitState)
        ensures
            poll_outcome(self@.timer, old(fut)@, s, final(fut)@),
    {
        self.timer.timer().poll(fut)
    }

    /// Discards a future: if it was pending, its entry leaves the queue.
    pub fn cancel(&mut self, fut: WaitFuture)
        requires
            old(self).wf(),
        ensures
            final(self).wf(),
            final(self)@ == (LibOSRuntimeView {
                timer: old(self)@.timer.cancel(fut@.id),
                ..old(self)@
            }),
    {
        self.timer.0.cancel(fut)
    }

    /// What the clock reads.
    pub fn now(&self) -> (t: Timestamp)
        ensures
            t == self@.timer.now,
    {
        self.timer.timer().now()
    }

    /// The next value of a counter that starts at 1 and wraps around. It
    /// is predictable and not fit for any use that needs real entropy.
    pub fn rng_gen_u32(&mut self) -> (word: u32)
        ensures
            word == old(self)@.rng,
            final(self)@ == (LibOSRuntimeView {
                rng: if old(self)@.rng == u32::MAX {
                    0
                } else {
                    (old(self)@.rng + 1) as u32
                },
                ..old(self)@
            }),
    {
        let r: u32 = self.rng;
        self.rng = r.wrapping_add(1);
        r
    }
}

} // verus!
