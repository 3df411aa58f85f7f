//! Sending a frame straight through the network driver's transmit queue, without the driver or
//! the network service taking part.
//!
//! Sending runs in steps, each of which ends with one access to the queue or the device, or
//! with the result.

use crate::config::PAGE_SIZE;
use vstd::prelude::*;

verus! {

/// Length of the frame in bytes.
pub const NET_BYPASS_FRAME_LEN: usize = 64;

/// How often the device is asked whether it is done before it is given up.
pub const MAX_POLL_ITERS: u32 = 20_000_000;

/// Where the parts of a transmit queue stand in its page, and what its device expects.
#[derive(Debug, Clone, Copy, PartialEq, Eq, Structural)]
pub struct TxLayout {
    /// Offset of the descriptors.
    pub desc: usize,
    /// Offset of the available ring.
    pub avail: usize,
    /// Offset of the used ring.
    pub used: usize,
    /// Offset of the buffer.
    pub buffer: usize,
    /// Length of the header in front of a frame.
    pub header_len: usize,
    /// Entries of a ring.
    pub queue_size: u16,
    /// The number of the transmit queue.
    pub queue: u32,
    /// Offset of the doorbell in a device window that is not on the PCI bus.
    pub queue_notify: usize,
    /// Offset, in the receive queue's page, of the transmit queue's doorbell number.
    pub notify_off: usize,
}

/// The queue's page is addressable and holds all its parts.
pub open spec fn layout_fits(layout: TxLayout, tx: usize) -> bool {
    &&& tx + PAGE_SIZE <= usize::MAX
    &&& layout.queue_size > 0
    &&& layout.desc + 16 <= PAGE_SIZE
    &&& layout.avail + 4 + 2 * layout.queue_size <= PAGE_SIZE
    &&& layout.used + 4 <= PAGE_SIZE
    &&& layout.buffer + layout.header_len + NET_BYPASS_FRAME_LEN <= PAGE_SIZE
}

/// How the doorbell is reached.
#[derive(Debug, Clone, Copy, PartialEq, Eq, Structural)]
pub enum Doorbell {
    /// Through the device's window at this physical address.
    Mmio {
        /// The address.
        phys: usize,
    },
    /// On the PCI bus.
    Pci {
        /// Virtual address of the doorbells.
        notify_va: usize,
        /// Distance between two of them.
        multiplier: u32,
        /// Physical address of the receive queue.
        rx: usize,
    },
    /// Not at all.
    Missing,
}

/// A descriptor of a buffer for the device to read.
#[derive(Debug, Clone, Copy, PartialEq, Eq, Structural)]
pub struct Descriptor {
    /// Physical address of the buffer.
    pub addr: u64,
    /// Its length in bytes.
    pub len: u32,
    /// Its flags.
    pub flags: u16,
    /// The descriptor it is continued in.
    pub next: u16,
}

/// What sending asks for.
#[derive(Debug, Clone, Copy, PartialEq, Eq, Structural)]
pub enum SendRequest {
    /// Read both ring indexes. Reply: `indexes`.
    ReadIndexes {
        /// Physical address of the index of the available ring.
        avail_at: usize,
        /// Physical address of the index of the used ring.
        used_at: usize,
    },
    /// Write a header of zeros, and the frame behind it; then read the clock. Reply: `staged`.
    Stage {
        /// Physical address of the header.
        header_at: usize,
        /// Its length in bytes.
        header_len: usize,
    },
    /// Write the descriptor, then the ring entry, then the index. Reply: `published`.
    Publish {
        /// Physical address of the descriptor.
        desc_at: usize,
        /// The descriptor.
        desc: Descriptor,
        /// Physical address of the ring entry, which gets the descriptor's number, zero.
        ring_at: usize,
        /// Physical address of the index.
        index_at: usize,
        /// The index.
        index: u16,
    },
    /// Write a word to the doorbell. Reply: `rung`.
    RingMmio {
        /// Physical address.
        at: usize,
        /// The word.
        queue: u32,
    },
    /// Read the number of the queue's doorbell. Reply: `located`.
    ReadNotifyOffset {
        /// Physical address.
        at: usize,
    },
    /// Write a half-word to the doorbell. Reply: `rung`.
    RingPci {
        /// Virtual address.
        at: usize,
        /// The half-word.
        half: u16,
    },
    /// Read the index of the used ring. Reply: `polled`.
    Poll {
        /// Physical address.
        used_at: usize,
    },
    /// Read the clock, then acknowledge the device's interrupt. Reply: `stopped`.
    Stop,
}

/// Why nothing was sent.
#[derive(Debug, Clone, Copy, PartialEq, Eq, Structural)]
pub enum SendFailure {
    /// There is no transmit queue.
    NeverProbed,
    /// The driver's own last frame is still under way.
    StillPending,
    /// The doorbell cannot be reached.
    NoDoorbell,
    /// The device did not answer.
    TimedOut,
}

/// How a step ended.
#[derive(Debug, Clone, Copy, PartialEq, Eq, Structural)]
pub enum SendStep {
    /// With a request.
    Ask(SendRequest),
    /// The frame was sent in so many nanoseconds.
    Sent(u64),
    /// It was not sent.
    Failed(SendFailure),
}

/// What sending waits for.
#[derive(Debug, Clone, Copy, PartialEq, Eq, Structural)]
pub enum SendStage {
    /// The ring indexes.
    Indexes,
    /// The frame.
    Staging,
    /// The descriptor.
    Publishing,
    /// The number of the doorbell.
    Locating,
    /// The doorbell.
    Ringing,
    /// The device.
    Polling,
    /// The clock.
    Stopping,
    /// Nothing.
    Over,
}

/// A frame that is being sent.
#[derive(Debug, Clone, Copy, PartialEq, Eq, Structural)]
pub struct BypassSend {
    /// The layout of the queue.
    pub layout: TxLayout,
    /// Physical address of the queue.
    pub tx: usize,
    /// The doorbell.
    pub doorbell: Doorbell,
    /// The index of the available ring, with the frame in it once it is published.
    pub index: u16,
    /// When sending began.
    pub start_ns: u64,
    /// How often the device was asked.
    pub polls: u32,
    /// What it waits for.
    pub stage: SendStage,
}

/// The frame: to everyone, from a made-up address, of a type that nobody uses.
pub open spec fn frame_byte(i: int) -> u8 {
    if i < 6 {
        0xff
    } else if i < 12 {
        0xb9
    } else if i < 14 {
        0xff
    } else {
        0xb5
    }
}

/// The frame.
pub fn bypass_frame() -> (frame: [u8; NET_BYPASS_FRAME_LEN])
    ensures
        forall|i: int| 0 <= i < NET_BYPASS_FRAME_LEN ==> frame@[i] == frame_byte(i),
{
    let mut frame: [u8; NET_BYPASS_FRAME_LEN] = [0xb5;NET_BYPASS_FRAME_LEN];
    let mut i: usize = 0;
    while i < 14
        invariant
            i <= 14,
            forall|j: int| 0 <= j < i ==> frame@[j] == frame_byte(j),
            forall|j: int| 14 <= j < NET_BYPASS_FRAME_LEN ==> frame@[j] == 0xb5,
        decreases 14 - i,
    {
        frame[i] = if i < 6 || i >= 12 {
            0xff
        } else {
            0xb9
        };
        i = i + 1;
    }
    frame
}

impl BypassSend {
    /// What holds between two steps.
    pub open spec fn wf(self) -> bool {
        &&& layout_fits(self.layout, self.tx)
        &&& self.polls < MAX_POLL_ITERS
    }

    /// Bytes that are sent: the header and the frame.
    pub open spec fn total_len(self) -> int {
        self.layout.header_len + NET_BYPASS_FRAME_LEN
    }

    /// Where the index of the used ring stands.
    pub open spec fn used_at(self) -> int {
        self.tx + self.layout.used + 2
    }
}

/// The next request, and the stage that waits for its reply.
pub open spec fn send_asked(s: BypassSend, stage: SendStage, request: SendRequest) -> (
    BypassSend,
    SendStep,
) {
    (BypassSend { stage, ..s }, SendStep::Ask(request))
}

/// Nothing is sent.
pub open spec fn send_failed(s: BypassSend, why: SendFailure) -> (BypassSend, SendStep) {
    (BypassSend { stage: SendStage::Over, ..s }, SendStep::Failed(why))
}

/// What follows the ring indexes: the queue has to be idle.
pub open spec fn indexes_read(s: BypassSend, next: u16, used: u16) -> (BypassSend, SendStep) {
    if used != next {
        send_failed(s, SendFailure::StillPending)
    } else {
        send_asked(
            BypassSend { index: next, ..s },
            SendStage::Staging,
            SendRequest::Stage {
                header_at: (s.tx + s.layout.buffer) as usize,
                header_len: s.layout.header_len,
            },
        )
    }
}

/// The index behind `index`.
pub open spec fn next_index(index: u16) -> u16 {
    ((index + 1) % 0x1_0000) as u16
}

/// What follows the staging of the frame: it is published in the ring.
pub open spec fn frame_staged(s: BypassSend, start_ns: u64) -> (BypassSend, SendStep) {
    send_asked(
        BypassSend { start_ns, index: next_index(s.index), ..s },
        SendStage::Publishing,
        SendRequest::Publish {
            desc_at: (s.tx + s.layout.desc) as usize,
            desc: Descriptor {
                addr: (s.tx + s.layout.buffer) as u64,
                len: s.total_len() as u32,
                flags: 0,
                next: 0,
            },
            ring_at: (s.tx + s.layout.avail + 4 + (s.index as int % s.layout.queue_size as int)
                * 2) as usize,
            index_at: (s.tx + s.layout.avail + 2) as usize,
            index: next_index(s.index),
        },
    )
}

/// What follows the publication of the frame: the doorbell is rung.
pub open spec fn frame_published(s: BypassSend) -> (BypassSend, SendStep) {
    match s.doorbell {
        Doorbell::Mmio { phys } => send_asked(
            s,
            SendStage::Ringing,
            SendRequest::RingMmio {
                at: (phys + s.layout.queue_notify) as usize,
                queue: s.layout.queue,
            },
        ),
        Doorbell::Pci { rx, .. } => send_asked(
            s,
            SendStage::Locating,
            SendRequest::ReadNotifyOffset { at: (rx + s.layout.notify_off) as usize },
        ),
        Doorbell::Missing => send_failed(s, SendFailure::NoDoorbell),
    }
}

/// Where a doorbell on the PCI bus stands.
pub open spec fn pci_doorbell_at(s: BypassSend, number: u16) -> int {
    s.doorbell->notify_va + number * s.doorbell->multiplier
}

/// What follows the number of the queue's doorbell: it is rung.
pub open spec fn doorbell_located(s: BypassSend, number: u16) -> (BypassSend, SendStep) {
    send_asked(
        s,
        SendStage::Ringing,
        SendRequest::RingPci {
            at: pci_doorbell_at(s, number) as usize,
            half: s.layout.queue as u16,
        },
    )
}

/// The frame was sent, in the time from its staging until now.
pub open spec fn send_stopped(s: BypassSend, end_ns: u64) -> (BypassSend, SendStep) {
    (
        BypassSend { stage: SendStage::Over, ..s },
        SendStep::Sent(
            if end_ns >= s.start_ns {
                (end_ns - s.start_ns) as u64
            } else {
                0
            },
        ),
    )
}

/// The device is asked whether it is done.
pub open spec fn poll_asked(s: BypassSend) -> (BypassSend, SendStep) {
    send_asked(s, SendStage::Polling, SendRequest::Poll { used_at: s.used_at() as usize })
}

/// What follows the index of the used ring.
pub open spec fn used_polled(s: BypassSend, used: u16) -> (BypassSend, SendStep) {
    if used == s.index {
        send_asked(s, SendStage::Stopping, SendRequest::Stop)
    } else if s.polls + 1 >= MAX_POLL_ITERS {
        send_failed(s, SendFailure::TimedOut)
    } else {
        poll_asked(BypassSend { polls: (s.polls + 1) as u32, ..s })
    }
}

/// The doorbell's addresses can be computed.
pub open spec fn doorbell_fits(layout: TxLayout, doorbell: Doorbell) -> bool {
    match doorbell {
        Doorbell::Mmio { phys } => phys + layout.queue_notify <= usize::MAX,
        Doorbell::Pci { rx, .. } => rx + layout.notify_off <= usize::MAX,
        Doorbell::Missing => true,
    }
}

/// How sending begins. Without a transmit queue there is nothing to send through.
pub open spec fn send_begun(layout: TxLayout, tx: Option<usize>, doorbell: Doorbell) -> (
    Option<BypassSend>,
    SendStep,
) {
    match tx {
        Some(tx) => (
            Some(
                BypassSend {
                    layout,
                    tx,
                    doorbell,
                    index: 0,
                    start_ns: 0,
                    polls: 0,
                    stage: SendStage::Indexes,
                },
            ),
            SendStep::Ask(
                SendRequest::ReadIndexes {
                    avail_at: (tx + layout.avail + 2) as usize,
                    used_at: (tx + layout.used + 2) as usize,
                },
            ),
        ),
        None => (None, SendStep::Failed(SendFailure::NeverProbed)),
    }
}

impl BypassSend {
    /// Begins to send a frame through the transmit queue at `tx`.
    pub fn net_bypass_direct_send(layout: TxLayout, tx: Option<usize>, doorbell: Doorbell) -> (r: (
        Option<Self>,
        SendStep,
    ))
        requires
            tx matches Some(t) ==> layout_fits(layout, t),
        ensures
            r == send_begun(layout, tx, doorbell),
            r.0 matches Some(s) ==> s.wf(),
    {
        match tx {
            Some(tx) => (
                Some(
                    BypassSend {
                        layout,
                        tx,
                        doorbell,
                        index: 0,
                        start_ns: 0,
                        polls: 0,
                        stage: SendStage::Indexes,
                    },
                ),
                SendStep::Ask(
                    SendRequest::ReadIndexes {
                        avail_at: tx + layout.avail + 2,
                        used_at: tx + layout.used + 2,
                    },
                ),
            ),
            None => (None, SendStep::Failed(SendFailure::NeverProbed)),
        }
    }

    fn ask(&mut self, stage: SendStage, request: SendRequest) -> (step: SendStep)
        requires
            old(self).wf(),
        ensures
            final(self).wf(),
            (*final(self), step) == send_asked(*old(self), stage, request),
    {
        self.stage = stage;
        SendStep::Ask(request)
    }

    fn fail(&mut self, why: SendFailure) -> (step: SendStep)
        requires
            old(self).wf(),
        ensures
            final(self).wf(),
            (*final(self), step) == send_failed(*old(self), why),
    {
        self.stage = SendStage::Over;
        SendStep::Failed(why)
    }

    fn poll(&mut self) -> (step: SendStep)
        requires
            old(self).wf(),
        ensures
            final(self).wf(),
            (*final(self), step) == poll_asked(*old(self)),
    {
        let used_at: usize = self.tx + self.layout.used + 2;
        self.ask(SendStage::Polling, SendRequest::Poll { used_at })
    }

    /// Goes on with the ring indexes. A frame of the driver's own that is still under way is
    /// not interfered with.
    pub fn indexes(&mut self, next: u16, used: u16) -> (step: SendStep)
        requires
            old(self).wf(),
            old(self).stage is Indexes,
        ensures
            final(self).wf(),
            (*final(self), step) == indexes_read(*old(self), next, used),
    {
        if used != next {
            return self.fail(SendFailure::StillPending);
        }
        self.index = next;
        let request = SendRequest::Stage {
            header_at: self.tx + self.layout.buffer,
            header_len: self.layout.header_len,
        };
        self.ask(SendStage::Staging, request)
    }

    /// Goes on once the frame is in the buffer.
    pub fn staged(&mut self, start_ns: u64) -> (step: SendStep)
        requires
            old(self).wf(),
            old(self).stage is Staging,
        ensures
            final(self).wf(),
            (*final(self), step) == frame_staged(*old(self), start_ns),
    {
        let entry: usize = self.index as usize % self.layout.queue_size as usize;
        let index: u16 = if self.index == u16::MAX {
            0
        } else {
            self.index + 1
        };
        self.start_ns = start_ns;
        self.index = index;
        let request = SendRequest::Publish {
            desc_at: self.tx + self.layout.desc,
            desc: Descriptor {
                addr: (self.tx + self.layout.buffer) as u64,
                len: (self.layout.header_len + NET_BYPASS_FRAME_LEN) as u32,
                flags: 0,
                next: 0,
            },
            ring_at: self.tx + self.layout.avail + 4 + entry * 2,
            index_at: self.tx + self.layout.avail + 2,
            index,
        };
        self.ask(SendStage::Publishing, request)
    }

    /// Goes on once the frame is in the ring.
    pub fn published(&mut self) -> (step: SendStep)
        requires
            old(self).wf(),
            old(self).stage is Publishing,
            doorbell_fits(old(self).layout, old(self).doorbell),
        ensures
            final(self).wf(),
            (*final(self), step) == frame_published(*old(self)),
    {
        match self.doorbell {
            Doorbell::Mmio { phys } => {
                let request = SendRequest::RingMmio {
                    at: phys + self.layout.queue_notify,
                    queue: self.layout.queue,
                };
                self.ask(SendStage::Ringing, request)
            },
            Doorbell::Pci { rx, .. } => {
                let request = SendRequest::ReadNotifyOffset { at: rx + self.layout.notify_off };
                self.ask(SendStage::Locating, request)
            },
            Doorbell::Missing => self.fail(SendFailure::NoDoorbell),
        }
    }

    /// Goes on with the number of the queue's doorbell.
    pub fn located(&mut self, number: u16) -> (step: SendStep)
        requires
            old(self).wf(),
            old(self).stage is Locating,
            old(self).doorbell is Pci,
            pci_doorbell_at(*old(self), number) <= usize::MAX,
        ensures
            final(self).wf(),
            (*final(self), step) == doorbell_located(*old(self), number),
    {
        match self.doorbell {
            Doorbell::Pci { notify_va, multiplier, .. } => {
                proof {
                    assert(0 <= number * multiplier) by (nonlinear_arith)
                        requires
                            0 <= number,
                            0 <= multiplier,
                    ;
                }
                let request = SendRequest::RingPci {
                    at: notify_va + number as usize * multiplier as usize,
                    half: self.layout.queue as u16,
                };
                self.ask(SendStage::Ringing, request)
            },
            _ => self.fail(SendFailure::NoDoorbell),
        }
    }

    /// Goes on once the doorbell was rung.
    pub fn rung(&mut self) -> (step: SendStep)
        requires
            old(self).wf(),
            old(self).stage is Ringing,
        ensures
            final(self).wf(),
            (*final(self), step) == poll_asked(*old(self)),
    {
        self.poll()
    }

    /// Goes on with the index of the used ring, which reaches ours once the device is done.
    pub fn polled(&mut self, used: u16) -> (step: SendStep)
        requires
            old(self).wf(),
            old(self).stage is Polling,
        ensures
            final(self).wf(),
            (*final(self), step) == used_polled(*old(self), used),
    {
        if used == self.index {
            return self.ask(SendStage::Stopping, SendRequest::Stop);
        }
        if self.polls + 1 >= MAX_POLL_ITERS {
            return self.fail(SendFailure::TimedOut);
        }
        self.polls = self.polls + 1;
        self.poll()
    }

    /// Ends with the time that sending took. A clock that went backwards counts as no time.
    pub fn stopped(&mut self, end_ns: u64) -> (step: SendStep)
        requires
            old(self).wf(),
            old(self).stage is Stopping,
        ensures
            final(self).wf(),
            (*final(self), step) == send_stopped(*old(self), end_ns),
    {
        self.stage = SendStage::Over;
        SendStep::Sent(end_ns.saturating_sub(self.start_ns))
    }
}

/// The frame is published within the ring, the device is handed the header and the frame and
/// nothing beyond them, and the index that is waited for is the one that was published.
pub proof fn frames_are_published_in_the_ring(s: BypassSend, start_ns: u64)
    requires
        s.wf(),
    ensures
        ({
            let (after, step) = frame_staged(s, start_ns);
            let layout = s.layout;
            &&& step matches SendStep::Ask(SendRequest::Publish { desc, ring_at, index, .. })
            &&& s.tx + layout.avail + 4 <= ring_at
            &&& ring_at + 2 <= s.tx + layout.avail + 4 + 2 * layout.queue_size
            &&& desc.addr == s.tx + layout.buffer && desc.len == s.total_len()
            &&& desc.addr + desc.len <= s.tx + PAGE_SIZE
            &&& index != s.index && index == after.index
        }),
{
    let entry = s.index as int % s.layout.queue_size as int;
    assert(0 <= entry && entry < s.layout.queue_size) by (nonlinear_arith)
        requires
            entry == s.index as int % s.layout.queue_size as int,
            s.layout.queue_size > 0,
    ;
}

/// A device that never answers is given up: every question it does not answer brings the limit
/// nearer.
pub proof fn silence_ends_in_a_timeout(s: BypassSend, used: u16)
    requires
        s.wf(),
        used != s.index,
    ensures
        ({
            let (after, step) = used_polled(s, used);
            ||| step == SendStep::Failed(SendFailure::TimedOut)
            ||| after.polls == s.polls + 1 && after.index == s.index && after.stage is Polling
        }),
        s.polls == MAX_POLL_ITERS - 1 ==> used_polled(s, used).1 == SendStep::Failed(
            SendFailure::TimedOut,
        ),
{
}

/// A frame goes out through an idle queue: the header and the frame are put in its buffer, a
/// descriptor of just these is published as the next entry of the available ring, the doorbell is
/// rung, and once the used ring has caught up with what was published the time since the frame was
/// put there is reported.
pub proof fn a_frame_goes_out_through_an_idle_queue(
    layout: TxLayout,
    tx: usize,
    doorbell: Doorbell,
    index: u16,
    start_ns: u64,
    end_ns: u64,
)
    requires
        layout_fits(layout, tx),
        doorbell_fits(layout, doorbell),
    ensures
        ({
            let (s0, begun) = send_begun(layout, Some(tx), doorbell);
            let (s1, staging) = indexes_read(s0->0, index, index);
            let (s2, publishing) = frame_staged(s1, start_ns);
            let (s3, ringing) = frame_published(s2);
            let (s4, polling) = poll_asked(s2);
            let published = publishing->Ask_0->Publish_index;
            let (s5, stopping) = used_polled(s4, published);
            let (s6, over) = send_stopped(s5, end_ns);
            &&& s0 is Some
            &&& begun matches SendStep::Ask(SendRequest::ReadIndexes { avail_at, used_at })
            &&& avail_at == tx + layout.avail + 2
            &&& used_at == tx + layout.used + 2
            &&& staging matches SendStep::Ask(SendRequest::Stage { header_at, header_len })
            &&& header_at == tx + layout.buffer
            &&& header_len == layout.header_len
            &&& publishing matches SendStep::Ask(
                SendRequest::Publish { desc_at, desc, ring_at, index_at, index: new_index },
            )
            &&& desc_at == tx + layout.desc
            &&& desc.addr == header_at
            &&& desc.len == header_len + NET_BYPASS_FRAME_LEN
            &&& desc.flags == 0 && desc.next == 0
            &&& ring_at == tx + layout.avail + 4 + 2 * (index as int % layout.queue_size as int)
            &&& index_at == avail_at
            &&& index < u16::MAX ==> new_index == index + 1
            &&& index == u16::MAX ==> new_index == 0
            &&& doorbell matches Doorbell::Mmio { phys } ==> {
                &&& ringing matches SendStep::Ask(SendRequest::RingMmio { at, queue })
                &&& at == phys + layout.queue_notify
                &&& queue == layout.queue
            }
            &&& doorbell is Missing ==> ringing == SendStep::Failed(SendFailure::NoDoorbell)
            &&& polling matches SendStep::Ask(SendRequest::Poll { used_at: again })
            &&& again == used_at
            &&& stopping == SendStep::Ask(SendRequest::Stop)
            &&& end_ns >= start_ns ==> over == SendStep::Sent((end_ns - start_ns) as u64)
            &&& end_ns < start_ns ==> over == SendStep::Sent(0)
        }),
{
    let entry = index as int % layout.queue_size as int;
    assert(0 <= entry && entry < layout.queue_size) by (nonlinear_arith)
        requires
            entry == index as int % layout.queue_size as int,
            layout.queue_size > 0,
    ;
}

/// On the PCI bus the doorbell's number is read where the driver left it, and the doorbell with
/// that number is rung with the number of the queue.
pub proof fn the_doorbell_of_the_queue_is_rung(
    s: BypassSend,
    notify_va: usize,
    multiplier: u32,
    rx: usize,
    number: u16,
)
    requires
        s.doorbell == (Doorbell::Pci { notify_va, multiplier, rx }),
        rx + s.layout.notify_off <= usize::MAX,
        notify_va + number * multiplier <= usize::MAX,
        s.layout.queue <= u16::MAX,
    ensures
        ({
            let (now, locating) = frame_published(s);
            let (_, ringing) = doorbell_located(now, number);
            &&& locating matches SendStep::Ask(SendRequest::ReadNotifyOffset { at })
            &&& at == rx + s.layout.notify_off
            &&& now.stage is Locating && now.doorbell == s.doorbell
            &&& ringing matches SendStep::Ask(SendRequest::RingPci { at: bell, half })
            &&& bell == notify_va + number * multiplier
            &&& half == s.layout.queue
        }),
{
    assert(0 <= number * multiplier) by (nonlinear_arith)
        requires
            0 <= number,
            0 <= multiplier,
    ;
}

/// A queue that is not idle is left alone, and without a queue nothing is sent.
pub proof fn a_busy_queue_is_left_alone(
    s: BypassSend,
    next: u16,
    used: u16,
    layout: TxLayout,
    doorbell: Doorbell,
)
    requires
        next != used,
    ensures
        indexes_read(s, next, used).1 == SendStep::Failed(SendFailure::StillPending),
        send_begun(layout, None, doorbell) == (
            None::<BypassSend>,
            SendStep::Failed(SendFailure::NeverProbed),
        ),
{
}

/// The frame is one to everyone, from one made-up address, of one made-up type, filled with one
/// byte.
pub proof fn the_frame_is_a_broadcast(i: int)
    ensures
        0 <= i < 6 ==> frame_byte(i) == 0xff,
        6 <= i < 12 ==> frame_byte(i) == 0xb9,
        12 <= i < 14 ==> frame_byte(i) == 0xff,
        14 <= i < NET_BYPASS_FRAME_LEN ==> frame_byte(i) == 0xb5,
{
}

} // verus!
