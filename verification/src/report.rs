//! The figures and verdicts that the boot log reports.

use vstd::prelude::*;

verus! {

/// Bytes per nanosecond to kilobytes per second.
pub const KB_PER_SEC_SCALE: u64 = 1_000_000;

/// How much faster, in percent, the direct path is meant to be at least.
pub const LATENCY_TARGET_PERCENT: usize = 30;

/// What the first process of the shared-frame demonstration writes.
pub const P2_A_SENTINEL: usize = 0xC0DE;

/// What the second process writes back.
pub const P2_B_SENTINEL: usize = 0xB00B;

/// What is written in the first of two address spaces.
pub const SPACE_A_MARK: u32 = 0xA1A1;

/// What is written back in the second of two address spaces.
pub const SPACE_B_MARK: u32 = 0xB2B2;

/// Round trips that the in-kernel IPC measurement takes.
pub const IPC_BENCH_ITERATIONS: u32 = 200;

/// Whole kilobytes per second, computed without overflow: a transfer too large to scale counts
/// as the largest that can be.
pub open spec fn kb_per_sec(total_bytes: int, total_ns: int) -> int {
    let scaled = total_bytes * KB_PER_SEC_SCALE;
    (if scaled > u64::MAX {
        u64::MAX as int
    } else {
        scaled
    }) / total_ns
}

/// The second process and the kernel see what the first one wrote.
pub open spec fn seen_by_second(value: usize, kernel_view: usize) -> bool {
    value == P2_A_SENTINEL && kernel_view == P2_A_SENTINEL
}

/// The second process saw the first one's value, and the first one and the kernel see the second
/// one's.
pub open spec fn seen_by_both(value: usize, b_saw: usize, kernel_view: usize) -> bool {
    b_saw == P2_A_SENTINEL && value == P2_B_SENTINEL && kernel_view == P2_B_SENTINEL
}

/// Each of two address spaces saw what was written in the other.
pub open spec fn crossed_both_ways(seen_in_b: u32, seen_in_a: u32) -> bool {
    seen_in_b == SPACE_A_MARK && seen_in_a == SPACE_B_MARK
}

/// Two virtual addresses translate, and to the same physical one.
pub open spec fn same_place(first: Option<usize>, second: Option<usize>) -> bool {
    first is Some && first == second
}

fn throughput(total_bytes: usize, total_ns: usize) -> (r: Option<u64>)
    ensures
        match r {
            Some(kb) => total_ns > 0 && kb == kb_per_sec(total_bytes as int, total_ns as int),
            None => total_ns == 0,
        },
{
    if total_ns == 0 {
        return None;
    }
    let scaled: u64 = match (total_bytes as u64).checked_mul(KB_PER_SEC_SCALE) {
        Some(product) => product,
        None => u64::MAX,
    };
    Some(scaled / total_ns as u64)
}

/// The write throughput of a file system measurement in whole kilobytes per second, or `None`
/// if no time elapsed.
pub fn fs_write_throughput_summary(total_bytes: usize, total_ns: usize) -> (r: Option<u64>)
    ensures
        match r {
            Some(kb) => total_ns > 0 && kb == kb_per_sec(total_bytes as int, total_ns as int),
            None => total_ns == 0,
        },
{
    throughput(total_bytes, total_ns)
}

/// The read throughput of a file system measurement in whole kilobytes per second, or `None` if
/// no time elapsed.
pub fn fs_read_throughput_summary(total_bytes: usize, total_ns: usize) -> (r: Option<u64>)
    ensures
        match r {
            Some(kb) => total_ns > 0 && kb == kb_per_sec(total_bytes as int, total_ns as int),
            None => total_ns == 0,
        },
{
    throughput(total_bytes, total_ns)
}

/// How the direct path compares to the standard path.
#[derive(Debug, Clone, Copy, PartialEq, Eq, Structural)]
pub enum LatencyVerdict {
    /// One of the paths has no samples.
    NoSamples,
    /// The direct path is faster.
    Faster {
        /// By how many percent of the standard path.
        percent: usize,
        /// Whether that is as much as it is meant to be.
        meets_target: bool,
    },
    /// The direct path is not faster.
    Slower {
        /// By how many percent of the direct path.
        percent: usize,
    },
}

/// How the average latencies of the direct and the standard path compare.
pub open spec fn latency_judged(bypass_avg_ns: usize, standard_avg_ns: usize) -> LatencyVerdict {
    if bypass_avg_ns == 0 || standard_avg_ns == 0 {
        LatencyVerdict::NoSamples
    } else if bypass_avg_ns < standard_avg_ns {
        let percent = ((standard_avg_ns - bypass_avg_ns) * 100) / standard_avg_ns as int;
        LatencyVerdict::Faster {
            percent: percent as usize,
            meets_target: percent >= LATENCY_TARGET_PERCENT,
        }
    } else {
        LatencyVerdict::Slower {
            percent: (((bypass_avg_ns - standard_avg_ns) * 100) / bypass_avg_ns as int) as usize,
        }
    }
}

/// Compares the average latencies of the direct and the standard path.
pub fn net_latency_summary(bypass_avg_ns: usize, standard_avg_ns: usize) -> (r: LatencyVerdict)
    requires
        bypass_avg_ns != 0 && standard_avg_ns != 0 ==> {
            &&& (standard_avg_ns - bypass_avg_ns) * 100 <= usize::MAX
            &&& (bypass_avg_ns - standard_avg_ns) * 100 <= usize::MAX
        },
    ensures
        r == latency_judged(bypass_avg_ns, standard_avg_ns),
{
    if bypass_avg_ns == 0 || standard_avg_ns == 0 {
        return LatencyVerdict::NoSamples;
    }
    if bypass_avg_ns < standard_avg_ns {
        let percent: usize = ((standard_avg_ns - bypass_avg_ns) * 100) / standard_avg_ns;
        LatencyVerdict::Faster { percent, meets_target: percent >= LATENCY_TARGET_PERCENT }
    } else {
        let percent: usize = ((bypass_avg_ns - standard_avg_ns) * 100) / bypass_avg_ns;
        LatencyVerdict::Slower { percent }
    }
}

/// Whether the second process and the kernel both see what the first process wrote into the
/// shared frame.
pub fn p2_report_b(value: usize, kernel_view: usize) -> (ok: bool)
    ensures
        ok == seen_by_second(value, kernel_view),
{
    value == P2_A_SENTINEL && kernel_view == P2_A_SENTINEL
}

/// Whether the round trip through the shared frame is complete: the second process saw the
/// first one's value, and the first one and the kernel see the second one's.
pub fn p2_report_a(value: usize, b_saw: usize, kernel_view: usize) -> (ok: bool)
    ensures
        ok == seen_by_both(value, b_saw, kernel_view),
{
    b_saw == P2_A_SENTINEL && value == P2_B_SENTINEL && kernel_view == P2_B_SENTINEL
}

/// Whether a frame that two address spaces map carried a value across in both directions.
pub fn spaces_share_frame(seen_in_b: u32, seen_in_a: u32) -> (ok: bool)
    ensures
        ok == crossed_both_ways(seen_in_b, seen_in_a),
{
    seen_in_b == SPACE_A_MARK && seen_in_a == SPACE_B_MARK
}

/// Whether two virtual addresses translate to the same physical one.
pub fn aliased(first: Option<usize>, second: Option<usize>) -> (ok: bool)
    ensures
        ok == same_place(first, second),
{
    match (first, second) {
        (Some(a), Some(b)) => a == b,
        _ => false,
    }
}

/// Who ran under preemption.
#[derive(Debug, Clone, Copy, PartialEq, Eq, Structural)]
pub enum PreemptionVerdict {
    /// All three processes.
    Three,
    /// Both processes; there was no third.
    Two,
    /// Someone did not run.
    Mismatch,
}

/// What the counters of the processes say of preemption.
pub open spec fn preemption_judged(a: u32, b: u32, c: Option<u32>) -> PreemptionVerdict {
    if a > 0 && b > 0 && (c matches Some(n) ==> n > 0) {
        if c is Some {
            PreemptionVerdict::Three
        } else {
            PreemptionVerdict::Two
        }
    } else {
        PreemptionVerdict::Mismatch
    }
}

/// Judges preemption by the counters of the processes: all must have moved.
pub fn preemption_verdict(a: u32, b: u32, c: Option<u32>) -> (r: PreemptionVerdict)
    ensures
        r == preemption_judged(a, b, c),
{
    let c_ran = match c {
        Some(n) => n > 0,
        None => true,
    };
    if a > 0 && b > 0 && c_ran {
        if c.is_some() {
            PreemptionVerdict::Three
        } else {
            PreemptionVerdict::Two
        }
    } else {
        PreemptionVerdict::Mismatch
    }
}

/// Running figures over the round trips of a measurement, in nanoseconds.
#[derive(Debug, Clone, Copy, PartialEq, Eq, Structural)]
pub struct RoundTrips {
    /// The shortest.
    pub min_ns: u64,
    /// The longest.
    pub max_ns: u64,
    /// All together.
    pub sum_ns: u64,
}

/// The figures over a sequence of round trips.
pub open spec fn figures(times: Seq<u64>) -> (int, int, int)
    decreases times.len(),
{
    if times.len() == 0 {
        (u64::MAX as int, 0, 0)
    } else {
        let (min, max, sum) = figures(times.drop_last());
        let t = times.last() as int;
        (
            if t < min {
                t
            } else {
                min
            },
            if t > max {
                t
            } else {
                max
            },
            sum + t,
        )
    }
}

/// The average over all the round trips of a measurement that took `sum_ns` together.
pub open spec fn average_of(sum_ns: int) -> int {
    sum_ns / IPC_BENCH_ITERATIONS as int
}

impl RoundTrips {
    /// These are the figures over `times`.
    pub open spec fn over(self, times: Seq<u64>) -> bool {
        (self.min_ns as int, self.max_ns as int, self.sum_ns as int) == figures(times)
    }

    /// No round trip yet.
    pub fn new() -> (r: Self)
        ensures
            r.over(seq![]),
            r == (RoundTrips { min_ns: u64::MAX, max_ns: 0, sum_ns: 0 }),
    {
        RoundTrips { min_ns: u64::MAX, max_ns: 0, sum_ns: 0 }
    }

    /// Adds the round trip from `start_ns` to `end_ns`; a clock that went backwards counts as
    /// none at all.
    pub fn record(&mut self, start_ns: u64, end_ns: u64)
        requires
            end_ns >= start_ns ==> old(self).sum_ns + (end_ns - start_ns) <= u64::MAX,
        ensures
            ({
                let t = if end_ns >= start_ns {
                    (end_ns - start_ns) as u64
                } else {
                    0
                };
                forall|times: Seq<u64>| #[trigger]
                    old(self).over(times) ==> final(self).over(times.push(t))
            }),
    {
        let t: u64 = end_ns.saturating_sub(start_ns);
        if t < self.min_ns {
            self.min_ns = t;
        }
        if t > self.max_ns {
            self.max_ns = t;
        }
        self.sum_ns = self.sum_ns + t;
        proof {
            assert forall|times: Seq<u64>| #[trigger] old(self).over(times) implies self.over(
                times.push(t),
            ) by {
                assert(times.push(t).drop_last() =~= times);
            }
        }
    }

    /// The average over all the round trips that were to be taken.
    pub fn average_ns(&self) -> (avg: u64)
        ensures
            avg == average_of(self.sum_ns as int),
    {
        self.sum_ns / IPC_BENCH_ITERATIONS as u64
    }
}

/// The byte at index `i` of the file system demonstration's payload.
pub open spec fn demo_byte(i: int) -> u8 {
    (i % 251) as u8
}

/// Length of the file system demonstration's payload.
pub const FS_DEMO_LEN: usize = 4096;

/// The payload that the file system demonstration writes.
pub fn fs_demo_write_data() -> (data: [u8; FS_DEMO_LEN])
    ensures
        forall|i: int| 0 <= i < FS_DEMO_LEN ==> data@[i] == demo_byte(i),
{
    let mut data: [u8; FS_DEMO_LEN] = [0;FS_DEMO_LEN];
    let mut i: usize = 0;
    while i < FS_DEMO_LEN
        invariant
            i <= FS_DEMO_LEN,
            forall|j: int| 0 <= j < i ==> data@[j] == demo_byte(j),
        decreases FS_DEMO_LEN - i,
    {
        data[i] = (i % 251) as u8;
        i = i + 1;
    }
    data
}

/// Whether `read_back` is the payload that the file system demonstration wrote, all of it.
pub fn fs_read_matches(bytes: usize, read_back: &[u8]) -> (ok: bool)
    ensures
        ok <==> bytes == FS_DEMO_LEN && read_back@.len() == FS_DEMO_LEN && (forall|i: int|
            0 <= i < FS_DEMO_LEN ==> read_back@[i] == demo_byte(i)),
{
    if bytes != FS_DEMO_LEN || read_back.len() != FS_DEMO_LEN {
        return false;
    }
    let mut i: usize = 0;
    while i < FS_DEMO_LEN
        invariant
            i <= FS_DEMO_LEN,
            read_back@.len() == FS_DEMO_LEN,
            forall|j: int| 0 <= j < i ==> read_back@[j] == demo_byte(j),
        decreases FS_DEMO_LEN - i,
    {
        if read_back[i] != (i % 251) as u8 {
            assert(read_back@[i as int] != demo_byte(i as int));
            return false;
        }
        i = i + 1;
    }
    true
}

/// Whether two byte strings are the same.
pub fn same_bytes(a: &[u8], b: &[u8]) -> (same: bool)
    ensures
        same <==> a@ == b@,
{
    if a.len() != b.len() {
        return false;
    }
    let mut i: usize = 0;
    while i < a.len()
        invariant
            i <= a@.len() == b@.len(),
            forall|j: int| 0 <= j < i ==> a@[j] == b@[j],
        decreases a@.len() - i,
    {
        if a[i] != b[i] {
            assert(a@[i as int] != b@[i as int]);
            return false;
        }
        i = i + 1;
    }
    assert(a@ =~= b@);
    true
}

/// Length of the frame that the compositor demonstration commits.
pub const COMPOSITOR_FRAME_LEN: usize = 16;

/// Width of the frame in pixels.
pub const COMPOSITOR_DEMO_WIDTH: u32 = 2;

/// Height of the frame in pixels.
pub const COMPOSITOR_DEMO_HEIGHT: u32 = 2;

/// The frame that the compositor demonstration commits.
pub open spec fn demo_frame() -> Seq<u8> {
    seq![
        0xde, 0xad, 0xbe, 0xef, 0xca, 0xfe, 0xba, 0xbe, 0x12, 0x34, 0x56, 0x78, 0x9a, 0xbc, 0xde,
        0xf0,
    ]
}

/// The frame that the compositor demonstration commits.
pub fn compositor_demo_frame() -> (frame: [u8; COMPOSITOR_FRAME_LEN])
    ensures
        frame@ == demo_frame(),
{
    let frame: [u8; COMPOSITOR_FRAME_LEN] = [
        0xde, 0xad, 0xbe, 0xef, 0xca, 0xfe, 0xba, 0xbe, 0x12, 0x34, 0x56, 0x78, 0x9a, 0xbc, 0xde,
        0xf0,
    ];
    assert(frame@ =~= demo_frame());
    frame
}

/// Length of what the block driver demonstration writes.
pub const DRV_DEMO_LEN: usize = 33;

/// What the block driver demonstration writes: a greeting.
pub open spec fn demo_greeting() -> Seq<u8> {
    seq![
        0x68, 0x65, 0x6c, 0x6c, 0x6f, 0x20, 0x66, 0x72, 0x6f, 0x6d, 0x20, 0x72, 0x6f, 0x6f, 0x74,
        0x2c, 0x20, 0x76, 0x69, 0x72, 0x74, 0x69, 0x6f, 0x2d, 0x62, 0x6c, 0x6b, 0x20, 0x64, 0x65,
        0x6d, 0x6f, 0x21,
    ]
}

/// What the block driver demonstration writes.
pub fn drv_demo_write_data() -> (data: [u8; DRV_DEMO_LEN])
    ensures
        data@ == demo_greeting(),
{
    let data: [u8; DRV_DEMO_LEN] = [
        0x68, 0x65, 0x6c, 0x6c, 0x6f, 0x20, 0x66, 0x72, 0x6f, 0x6d, 0x20, 0x72, 0x6f, 0x6f, 0x74,
        0x2c, 0x20, 0x76, 0x69, 0x72, 0x74, 0x69, 0x6f, 0x2d, 0x62, 0x6c, 0x6b, 0x20, 0x64, 0x65,
        0x6d, 0x6f, 0x21,
    ];
    assert(data@ =~= demo_greeting());
    data
}

/// Whether one sector was read back and begins with what was written.
pub fn drv_blk_read_matches(sectors: usize, read_back: &[u8]) -> (ok: bool)
    ensures
        ok == (sectors == 1 && read_back@ == demo_greeting()),
{
    let data = drv_demo_write_data();
    sectors == 1 && same_bytes(read_back, data.as_slice())
}

/// A process that the memory manager demonstration registers.
#[derive(Debug, Clone, Copy, PartialEq, Eq, Structural)]
pub struct DemoProcess {
    /// Its thread.
    pub thread: u32,
    /// Its resident memory in bytes.
    pub resident_bytes: u64,
    /// Whether it is the first to go when memory runs out.
    pub sacrificial: bool,
}

/// The thread that has to go first: the one that may, though the other is larger.
pub const MM_DEMO_EXPECTED_VICTIM: u32 = 200;

/// The resident memory of both processes.
pub const MM_DEMO_EXPECTED_TOTAL: u64 = 109_051_904;

/// The processes that the memory manager demonstration registers: 0 and 1. Any other number
/// stands for 0.
pub open spec fn demo_process(which: u32) -> DemoProcess {
    if which == 1 {
        DemoProcess { thread: 200, resident_bytes: 4_194_304, sacrificial: true }
    } else {
        DemoProcess { thread: 100, resident_bytes: 104_857_600, sacrificial: false }
    }
}

/// The processes that the memory manager demonstration registers.
pub fn mm_demo_process(which: u32) -> (p: DemoProcess)
    ensures
        p == demo_process(which),
{
    if which == 1 {
        DemoProcess { thread: 200, resident_bytes: 4_194_304, sacrificial: true }
    } else {
        DemoProcess { thread: 100, resident_bytes: 104_857_600, sacrificial: false }
    }
}

/// Whether the memory manager chose the right process.
pub fn mm_victim_matches(thread: u32) -> (ok: bool)
    ensures
        ok == (thread == MM_DEMO_EXPECTED_VICTIM),
{
    thread == MM_DEMO_EXPECTED_VICTIM
}

/// Whether the memory manager counts the memory of both processes.
pub fn mm_total_matches(bytes: u64) -> (ok: bool)
    ensures
        ok == (bytes == MM_DEMO_EXPECTED_TOTAL),
{
    bytes == MM_DEMO_EXPECTED_TOTAL
}

/// How far the network demonstration has come.
#[derive(Debug, Clone, Copy, PartialEq, Eq)]
pub enum NetstackStatus {
    /// Still running.
    Running,
    /// The gateway's address could not be resolved.
    ArpFailed,
    /// The gateway answered but the echo did not come back right.
    Mismatch {
        /// The gateway's hardware address.
        gateway: [u8; 6],
    },
    /// The echo came back.
    Match {
        /// The gateway's hardware address.
        gateway: [u8; 6],
    },
    /// A verdict that means nothing here.
    Unknown {
        /// The verdict.
        verdict: u8,
        /// The gateway's hardware address.
        gateway: [u8; 6],
    },
}

/// Bytes of the network service's status page that are looked at: a verdict, then, from byte 8
/// on, the gateway's hardware address.
pub const STATUS_BYTES: usize = 14;

/// What the status page says: the verdict, and what it means.
pub open spec fn status_read(page: Option<Seq<u8>>, code: usize, status: NetstackStatus) -> bool {
    match page {
        None => code == 0 && status is Running,
        Some(page) => code == page[0] && match status {
            NetstackStatus::Running => code == 0,
            NetstackStatus::ArpFailed => code == 1,
            NetstackStatus::Mismatch { gateway } => code == 2 && gateway@ == page.subrange(8, 14),
            NetstackStatus::Match { gateway } => code == 3 && gateway@ == page.subrange(8, 14),
            NetstackStatus::Unknown { verdict, gateway } => code == verdict && verdict > 3
                && gateway@ == page.subrange(8, 14),
        },
    }
}

/// Reads the network service's status page: the verdict, which is 0 while there is none or no
/// service, and what it means.
pub fn netstack_status(page: Option<&[u8; STATUS_BYTES]>) -> (r: (usize, NetstackStatus))
    ensures
        status_read(
            match page {
                Some(p) => Some(p@),
                None => None,
            },
            r.0,
            r.1,
        ),
{
    let page = match page {
        Some(p) => p,
        None => {
            return (0, NetstackStatus::Running);
        },
    };
    let verdict: u8 = page[0];
    let gateway: [u8; 6] = [page[8], page[9], page[10], page[11], page[12], page[13]];
    assert(gateway@ =~= page@.subrange(8, 14));
    let status = match verdict {
        0 => NetstackStatus::Running,
        1 => NetstackStatus::ArpFailed,
        2 => NetstackStatus::Mismatch { gateway },
        3 => NetstackStatus::Match { gateway },
        _ => NetstackStatus::Unknown { verdict, gateway },
    };
    (verdict as usize, status)
}

} // verus!
