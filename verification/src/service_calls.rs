//! What is asked of the services, and what their answers come to.
//!
//! The wire formats are the services' own: a request is handed out, and an answer taken, as the
//! values that it carries. An answer is `None` where there is none, where it cannot be decoded,
//! or where it reports an error.

use crate::launch::FS_DATA_SHARED_CAP_SLOT;
use crate::report::{
    compositor_demo_frame, demo_byte, demo_frame, demo_greeting, demo_process,
    drv_blk_read_matches, fs_read_matches, mm_demo_process, mm_total_matches, mm_victim_matches,
    same_bytes, COMPOSITOR_DEMO_HEIGHT, COMPOSITOR_DEMO_WIDTH, FS_DEMO_LEN,
    MM_DEMO_EXPECTED_TOTAL, MM_DEMO_EXPECTED_VICTIM,
};
use vstd::prelude::*;

verus! {

/// A request to the file system.
#[derive(Debug, Clone, Copy, PartialEq, Eq, Structural)]
pub enum FsRequest {
    /// Open a file.
    Open {
        /// Number of the path.
        path: u32,
        /// How to open it.
        flags: u32,
    },
    /// Report on a file.
    Stat {
        /// Number of the path.
        path: u32,
    },
    /// Close a file.
    Close {
        /// The open file.
        handle: u32,
    },
    /// Write to a file.
    Write {
        /// The open file.
        handle: u32,
        /// Where in the file.
        offset: u64,
        /// How many bytes.
        len: u32,
        /// The slot of the region with the bytes, in the file system's capability space.
        shared_cap: u32,
    },
    /// Read from a file.
    Read {
        /// The open file.
        handle: u32,
        /// Where in the file.
        offset: u64,
        /// How many bytes.
        len: u32,
        /// The slot of the region for the bytes, in the file system's capability space.
        shared_cap: u32,
    },
}

/// An answer of the file system.
#[derive(Debug, Clone, Copy, PartialEq, Eq, Structural)]
pub enum FsResponse {
    /// The file is open.
    Opened {
        /// The open file.
        handle: u32,
    },
    /// The report.
    Stat {
        /// Size of the file in bytes.
        size: u64,
    },
    /// The file is closed.
    Closed,
    /// It is written.
    Written {
        /// How many bytes.
        bytes: u32,
    },
    /// It is read.
    Read {
        /// How many bytes.
        bytes: u32,
    },
}

/// A request to the compositor.
#[derive(Debug, Clone, Copy, PartialEq, Eq, Structural)]
pub enum DisplayRequest {
    /// Create a surface.
    CreateSurface,
    /// Show the frame buffer on a surface.
    CommitBuffer {
        /// The surface.
        surface: u32,
        /// The slot of the frame buffer.
        buffer_cap: u32,
        /// Its width in pixels.
        width: u32,
        /// Its height in pixels.
        height: u32,
    },
    /// Destroy a surface.
    DestroySurface {
        /// The surface.
        surface: u32,
    },
}

/// An answer of the compositor.
#[derive(Debug, Clone, Copy, PartialEq, Eq, Structural)]
pub enum DisplayResponse {
    /// The surface exists.
    SurfaceCreated {
        /// The surface.
        surface: u32,
    },
    /// The frame is shown.
    Committed,
    /// The surface is gone.
    Destroyed,
}

/// A request to the memory manager.
#[derive(Debug, Clone, Copy, PartialEq, Eq, Structural)]
pub enum MmRequest {
    /// Keep account of a process.
    Register {
        /// Its thread.
        thread: u32,
        /// Its resident memory in bytes.
        resident_bytes: u64,
        /// Whether it is the first to go when memory runs out.
        sacrificial: bool,
    },
    /// Forget a process.
    Unregister {
        /// Its thread.
        thread: u32,
    },
    /// Name the process to end when memory runs out.
    QueryVictim,
    /// Count the resident memory of all processes.
    QueryTotalResident,
}

/// An answer of the memory manager.
#[derive(Debug, Clone, Copy, PartialEq, Eq, Structural)]
pub enum MmResponse {
    /// The process is registered.
    Registered,
    /// The process is forgotten.
    Unregistered,
    /// The process to end.
    Victim {
        /// Its thread, `u32::MAX` for none.
        thread: u32,
    },
    /// The resident memory.
    TotalResident {
        /// In bytes.
        bytes: u64,
    },
}

/// A request to the block driver.
#[derive(Debug, Clone, Copy, PartialEq, Eq, Structural)]
pub enum DriverRequest {
    /// Report on the device.
    Probe,
    /// Write sectors.
    WriteBlocks {
        /// The first sector.
        lba: u64,
        /// How many.
        count: u32,
        /// The slot of the region with the bytes.
        shared_cap: u32,
    },
    /// Read sectors.
    ReadBlocks {
        /// The first sector.
        lba: u64,
        /// How many.
        count: u32,
        /// The slot of the region for the bytes.
        shared_cap: u32,
    },
}

/// An answer of the block driver.
#[derive(Debug, Clone, Copy, PartialEq, Eq, Structural)]
pub enum DriverResponse {
    /// The report.
    Ready {
        /// Bytes in a sector.
        sector_size: u32,
        /// Sectors of the device.
        sector_count: u64,
    },
    /// The sectors are written or read.
    Completed {
        /// How many.
        sectors: u32,
    },
}

/// A request to the network service.
#[derive(Debug, Clone, Copy, PartialEq, Eq, Structural)]
pub enum NetBypassRequest {
    /// Allow direct access to a network device.
    RequestDirectNic {
        /// The device.
        nic_id: u32,
    },
    /// Send a frame the standard way.
    RelayFrame,
}

/// An answer of the network service.
#[derive(Debug, Clone, Copy, PartialEq, Eq, Structural)]
pub enum NetBypassResponse {
    /// Direct access is allowed.
    Granted,
    /// Direct access is denied.
    Denied,
    /// The frame is sent.
    Relayed,
}

/// What an answer comes to, with a verdict on the data that came with it.
#[derive(Debug, Clone, Copy, PartialEq, Eq, Structural)]
pub struct Checked {
    /// The number that is reported.
    pub value: usize,
    /// Whether the data is as expected, if there was an answer to judge.
    pub matches: Option<bool>,
}

/// Opens a file. `flags` is `None` where the number that was asked for means no flags; the file
/// is then opened without any.
pub open spec fn fs_open_request(path_id: u32, flags: Option<u32>) -> FsRequest {
    FsRequest::Open {
        path: path_id,
        flags: match flags {
            Some(f) => f,
            None => 0,
        },
    }
}

/// Opens a file. `flags` is `None` where the number that was asked for means no flags; the file
/// is then opened without any.
pub fn fs_open_call(path_id: u32, flags: Option<u32>) -> (r: FsRequest)
    ensures
        r == fs_open_request(path_id, flags),
{
    FsRequest::Open {
        path: path_id,
        flags: match flags {
            Some(f) => f,
            None => 0,
        },
    }
}

/// The open file, or `usize::MAX`.
pub open spec fn fs_open_outcome(response: Option<FsResponse>) -> usize {
    match response {
        Some(FsResponse::Opened { handle }) => handle as usize,
        _ => usize::MAX,
    }
}

/// The open file, or `usize::MAX`.
pub fn fs_open_result(response: Option<FsResponse>) -> (r: usize)
    ensures
        r == fs_open_outcome(response),
{
    match response {
        Some(FsResponse::Opened { handle }) => handle as usize,
        _ => usize::MAX,
    }
}

/// Asks for a report on a file.
pub open spec fn fs_stat_request(path_id: u32) -> FsRequest {
    FsRequest::Stat { path: path_id }
}

/// Asks for a report on a file.
pub fn fs_stat_call(path_id: u32) -> (r: FsRequest)
    ensures
        r == fs_stat_request(path_id),
{
    FsRequest::Stat { path: path_id }
}

/// The size of the file, or `usize::MAX`.
pub open spec fn fs_stat_outcome(response: Option<FsResponse>) -> usize {
    match response {
        Some(FsResponse::Stat { size }) => size as usize,
        _ => usize::MAX,
    }
}

/// The size of the file, or `usize::MAX`.
pub fn fs_stat_result(response: Option<FsResponse>) -> (r: usize)
    ensures
        r == fs_stat_outcome(response),
{
    match response {
        Some(FsResponse::Stat { size }) => size as usize,
        _ => usize::MAX,
    }
}

/// Closes a file.
pub open spec fn fs_close_request(handle: u32) -> FsRequest {
    FsRequest::Close { handle }
}

/// Closes a file.
pub fn fs_close_call(handle: u32) -> (r: FsRequest)
    ensures
        r == fs_close_request(handle),
{
    FsRequest::Close { handle }
}

/// `1` if the file is closed, `0` otherwise.
pub open spec fn fs_close_outcome(response: Option<FsResponse>) -> usize {
    match response {
        Some(FsResponse::Closed) => 1usize,
        _ => 0,
    }
}

/// `1` if the file is closed, `0` otherwise.
pub fn fs_close_result(response: Option<FsResponse>) -> (r: usize)
    ensures
        r == fs_close_outcome(response),
{
    match response {
        Some(FsResponse::Closed) => 1usize,
        _ => 0,
    }
}

/// Writes the demonstration's payload, which is in the data page, to the start of a file.
pub open spec fn fs_write_request(handle: u32) -> FsRequest {
    FsRequest::Write {
        handle,
        offset: 0,
        len: FS_DEMO_LEN as u32,
        shared_cap: FS_DATA_SHARED_CAP_SLOT,
    }
}

/// Writes the demonstration's payload, which is in the data page, to the start of a file.
pub fn fs_write_call(handle: u32) -> (r: FsRequest)
    ensures
        r == fs_write_request(handle),
{
    FsRequest::Write {
        handle,
        offset: 0,
        len: FS_DEMO_LEN as u32,
        shared_cap: FS_DATA_SHARED_CAP_SLOT,
    }
}

/// The bytes that were written, or `usize::MAX`.
pub open spec fn fs_write_outcome(response: Option<FsResponse>) -> usize {
    match response {
        Some(FsResponse::Written { bytes }) => bytes as usize,
        _ => usize::MAX,
    }
}

/// The bytes that were written, or `usize::MAX`.
pub fn fs_write_result(response: Option<FsResponse>) -> (r: usize)
    ensures
        r == fs_write_outcome(response),
{
    match response {
        Some(FsResponse::Written { bytes }) => bytes as usize,
        _ => usize::MAX,
    }
}

/// Reads `len` bytes from the start of a file into the data page.
pub open spec fn fs_read_request(handle: u32, len: u32) -> FsRequest {
    FsRequest::Read { handle, offset: 0, len, shared_cap: FS_DATA_SHARED_CAP_SLOT }
}

/// Reads `len` bytes from the start of a file into the data page.
pub fn fs_read_call(handle: u32, len: u32) -> (r: FsRequest)
    ensures
        r == fs_read_request(handle, len),
{
    FsRequest::Read { handle, offset: 0, len, shared_cap: FS_DATA_SHARED_CAP_SLOT }
}

/// The bytes that were read, or `usize::MAX`.
pub open spec fn fs_read_outcome_quiet(response: Option<FsResponse>) -> usize {
    match response {
        Some(FsResponse::Read { bytes }) => bytes as usize,
        _ => usize::MAX,
    }
}

/// The bytes that were read, or `usize::MAX`.
pub fn fs_read_result_quiet(response: Option<FsResponse>) -> (r: usize)
    ensures
        r == fs_read_outcome_quiet(response),
{
    match response {
        Some(FsResponse::Read { bytes }) => bytes as usize,
        _ => usize::MAX,
    }
}

/// The demonstration's payload.
pub open spec fn is_payload(data: Seq<u8>) -> bool {
    data.len() == FS_DEMO_LEN && forall|i: int| 0 <= i < FS_DEMO_LEN ==> data[i] == demo_byte(i)
}

/// The bytes that were read, or `usize::MAX`, and whether all of the payload came back: `data` is
/// what the data page starts with.
pub open spec fn fs_read_outcome(response: Option<FsResponse>, data: Seq<u8>) -> Checked {
    match response {
        Some(FsResponse::Read { bytes }) => Checked {
            value: bytes as usize,
            matches: Some(bytes == FS_DEMO_LEN && is_payload(data)),
        },
        _ => Checked { value: usize::MAX, matches: None },
    }
}

/// The bytes that were read, or `usize::MAX`, and whether all of the payload came back: `data` is
/// what the data page starts with.
pub fn fs_read_result(response: Option<FsResponse>, data: &[u8]) -> (r: Checked)
    ensures
        r == fs_read_outcome(response, data@),
{
    match response {
        Some(FsResponse::Read { bytes }) => {
            let value: usize = bytes as usize;
            Checked { value, matches: Some(fs_read_matches(value, data)) }
        },
        _ => Checked { value: usize::MAX, matches: None },
    }
}

/// Creates a surface.
pub open spec fn compositor_create_surface_request() -> DisplayRequest {
    DisplayRequest::CreateSurface
}

/// Creates a surface.
pub fn compositor_create_surface_call() -> (r: DisplayRequest)
    ensures
        r == compositor_create_surface_request(),
{
    DisplayRequest::CreateSurface
}

/// The surface, or `usize::MAX`.
pub open spec fn compositor_create_surface_outcome(response: Option<DisplayResponse>) -> usize {
    match response {
        Some(DisplayResponse::SurfaceCreated { surface }) => surface as usize,
        _ => usize::MAX,
    }
}

/// The surface, or `usize::MAX`.
pub fn compositor_create_surface_result(response: Option<DisplayResponse>) -> (r: usize)
    ensures
        r == compositor_create_surface_outcome(response),
{
    match response {
        Some(DisplayResponse::SurfaceCreated { surface }) => surface as usize,
        _ => usize::MAX,
    }
}

/// Shows the demonstration's frame, which is in the frame buffer, on a surface.
pub open spec fn compositor_commit_request(surface: u32) -> DisplayRequest {
    DisplayRequest::CommitBuffer {
        surface,
        buffer_cap: 0,
        width: COMPOSITOR_DEMO_WIDTH,
        height: COMPOSITOR_DEMO_HEIGHT,
    }
}

/// Shows the demonstration's frame, which is in the frame buffer, on a surface.
pub fn compositor_commit_call(surface: u32) -> (r: DisplayRequest)
    ensures
        r == compositor_commit_request(surface),
{
    DisplayRequest::CommitBuffer {
        surface,
        buffer_cap: 0,
        width: COMPOSITOR_DEMO_WIDTH,
        height: COMPOSITOR_DEMO_HEIGHT,
    }
}

/// Whether the compositor reported the frame committed and confirmed its very bytes: `1` or
/// `0`. `confirmed` is what its page for confirmations starts with.
pub open spec fn compositor_commit_outcome(response: Option<DisplayResponse>, confirmed: Seq<u8>) -> usize {
    if response == Some(DisplayResponse::Committed) && confirmed == demo_frame() {
        1usize
    } else {
        0
    }
}

/// Whether the compositor reported the frame committed and confirmed its very bytes: `1` or
/// `0`. `confirmed` is what its page for confirmations starts with.
pub fn compositor_commit_verify(response: Option<DisplayResponse>, confirmed: &[u8]) -> (r: usize)
    ensures
        r == compositor_commit_outcome(response, confirmed@),
{
    let frame = compositor_demo_frame();
    let committed = matches!(response, Some(DisplayResponse::Committed));
    if committed && same_bytes(confirmed, frame.as_slice()) {
        1
    } else {
        0
    }
}

/// Destroys a surface.
pub open spec fn compositor_destroy_request(surface: u32) -> DisplayRequest {
    DisplayRequest::DestroySurface { surface }
}

/// Destroys a surface.
pub fn compositor_destroy_call(surface: u32) -> (r: DisplayRequest)
    ensures
        r == compositor_destroy_request(surface),
{
    DisplayRequest::DestroySurface { surface }
}

/// `1` if the surface is gone, `0` otherwise.
pub open spec fn compositor_destroy_outcome(response: Option<DisplayResponse>) -> usize {
    match response {
        Some(DisplayResponse::Destroyed) => 1usize,
        _ => 0,
    }
}

/// `1` if the surface is gone, `0` otherwise.
pub fn compositor_destroy_result(response: Option<DisplayResponse>) -> (r: usize)
    ensures
        r == compositor_destroy_outcome(response),
{
    match response {
        Some(DisplayResponse::Destroyed) => 1usize,
        _ => 0,
    }
}

/// Registers a process of the demonstration.
pub open spec fn mm_register_request(which: u32) -> MmRequest {
    MmRequest::Register {
        thread: demo_process(which).thread,
        resident_bytes: demo_process(which).resident_bytes,
        sacrificial: demo_process(which).sacrificial,
    }
}

/// Registers a process of the demonstration.
pub fn mm_register_call(which: u32) -> (r: MmRequest)
    ensures
        r == mm_register_request(which),
{
    let p = mm_demo_process(which);
    MmRequest::Register {
        thread: p.thread,
        resident_bytes: p.resident_bytes,
        sacrificial: p.sacrificial,
    }
}

/// `1` if the process is registered, `0` otherwise.
pub open spec fn mm_register_outcome(response: Option<MmResponse>) -> usize {
    match response {
        Some(MmResponse::Registered) => 1usize,
        _ => 0,
    }
}

/// `1` if the process is registered, `0` otherwise.
pub fn mm_register_result(response: Option<MmResponse>) -> (r: usize)
    ensures
        r == mm_register_outcome(response),
{
    match response {
        Some(MmResponse::Registered) => 1usize,
        _ => 0,
    }
}

/// Forgets a process.
pub open spec fn mm_unregister_request(thread: u32) -> MmRequest {
    MmRequest::Unregister { thread }
}

/// Forgets a process.
pub fn mm_unregister_call(thread: u32) -> (r: MmRequest)
    ensures
        r == mm_unregister_request(thread),
{
    MmRequest::Unregister { thread }
}

/// `1` if the process is forgotten, `0` otherwise.
pub open spec fn mm_unregister_outcome(response: Option<MmResponse>) -> usize {
    match response {
        Some(MmResponse::Unregistered) => 1usize,
        _ => 0,
    }
}

/// `1` if the process is forgotten, `0` otherwise.
pub fn mm_unregister_result(response: Option<MmResponse>) -> (r: usize)
    ensures
        r == mm_unregister_outcome(response),
{
    match response {
        Some(MmResponse::Unregistered) => 1usize,
        _ => 0,
    }
}

/// Asks for the process to end when memory runs out.
pub open spec fn mm_query_victim_request() -> MmRequest {
    MmRequest::QueryVictim
}

/// Asks for the process to end when memory runs out.
pub fn mm_query_victim_call() -> (r: MmRequest)
    ensures
        r == mm_query_victim_request(),
{
    MmRequest::QueryVictim
}

/// The process to end when memory runs out, or `usize::MAX`, and whether it is the one that has
/// to go first.
pub open spec fn mm_query_victim_outcome(response: Option<MmResponse>) -> Checked {
    match response {
        Some(MmResponse::Victim { thread }) => Checked {
            value: thread as usize,
            matches: Some(thread == MM_DEMO_EXPECTED_VICTIM),
        },
        _ => Checked { value: usize::MAX, matches: None },
    }
}

/// The process to end when memory runs out, or `usize::MAX`, and whether it is the one that has
/// to go first.
pub fn mm_query_victim_result(response: Option<MmResponse>) -> (r: Checked)
    ensures
        r == mm_query_victim_outcome(response),
{
    match response {
        Some(MmResponse::Victim { thread }) => Checked {
            value: thread as usize,
            matches: Some(mm_victim_matches(thread)),
        },
        _ => Checked { value: usize::MAX, matches: None },
    }
}

/// Asks for the resident memory of all processes.
pub open spec fn mm_query_total_resident_request() -> MmRequest {
    MmRequest::QueryTotalResident
}

/// Asks for the resident memory of all processes.
pub fn mm_query_total_resident_call() -> (r: MmRequest)
    ensures
        r == mm_query_total_resident_request(),
{
    MmRequest::QueryTotalResident
}

/// The resident memory of all processes, or `usize::MAX`, and whether it is that of the
/// demonstration's processes.
pub open spec fn mm_query_total_resident_outcome(response: Option<MmResponse>) -> Checked {
    match response {
        Some(MmResponse::TotalResident { bytes }) => Checked {
            value: bytes as usize,
            matches: Some(bytes == MM_DEMO_EXPECTED_TOTAL),
        },
        _ => Checked { value: usize::MAX, matches: None },
    }
}

/// The resident memory of all processes, or `usize::MAX`, and whether it is that of the
/// demonstration's processes.
pub fn mm_query_total_resident_result(response: Option<MmResponse>) -> (r: Checked)
    ensures
        r == mm_query_total_resident_outcome(response),
{
    match response {
        Some(MmResponse::TotalResident { bytes }) => Checked {
            value: bytes as usize,
            matches: Some(mm_total_matches(bytes)),
        },
        _ => Checked { value: usize::MAX, matches: None },
    }
}

/// The resident memory of all processes, or `usize::MAX`.
pub open spec fn mm_query_total_resident_outcome_quiet(response: Option<MmResponse>) -> usize {
    match response {
        Some(MmResponse::TotalResident { bytes }) => bytes as usize,
        _ => usize::MAX,
    }
}

/// The resident memory of all processes, or `usize::MAX`.
pub fn mm_query_total_resident_result_quiet(response: Option<MmResponse>) -> (r: usize)
    ensures
        r == mm_query_total_resident_outcome_quiet(response),
{
    match response {
        Some(MmResponse::TotalResident { bytes }) => bytes as usize,
        _ => usize::MAX,
    }
}

/// Asks for a report on the block device.
pub open spec fn drv_blk_probe_request() -> DriverRequest {
    DriverRequest::Probe
}

/// Asks for a report on the block device.
pub fn drv_blk_probe_call() -> (r: DriverRequest)
    ensures
        r == drv_blk_probe_request(),
{
    DriverRequest::Probe
}

/// The sector size and the number of sectors, or the largest numbers.
pub open spec fn drv_blk_probe_outcome(response: Option<DriverResponse>) -> (u32, u64) {
    match response {
        Some(DriverResponse::Ready { sector_size, sector_count }) => (
            sector_size,
            sector_count,
        ),
        _ => (u32::MAX, u64::MAX),
    }
}

/// The sector size and the number of sectors, or the largest numbers.
pub fn drv_blk_probe_result(response: Option<DriverResponse>) -> (r: (u32, u64))
    ensures
        r == drv_blk_probe_outcome(response),
{
    match response {
        Some(DriverResponse::Ready { sector_size, sector_count }) => (sector_size, sector_count),
        _ => (u32::MAX, u64::MAX),
    }
}

/// Writes one sector, which starts with the demonstration's greeting.
pub open spec fn drv_blk_write_request(lba: u64) -> DriverRequest {
    DriverRequest::WriteBlocks { lba, count: 1, shared_cap: 0 }
}

/// Writes one sector, which starts with the demonstration's greeting.
pub fn drv_blk_write_call(lba: u64) -> (r: DriverRequest)
    ensures
        r == drv_blk_write_request(lba),
{
    DriverRequest::WriteBlocks { lba, count: 1, shared_cap: 0 }
}

/// The sectors that were written, or `usize::MAX`.
pub open spec fn drv_blk_write_outcome(response: Option<DriverResponse>) -> usize {
    match response {
        Some(DriverResponse::Completed { sectors }) => sectors as usize,
        _ => usize::MAX,
    }
}

/// The sectors that were written, or `usize::MAX`.
pub fn drv_blk_write_result(response: Option<DriverResponse>) -> (r: usize)
    ensures
        r == drv_blk_write_outcome(response),
{
    match response {
        Some(DriverResponse::Completed { sectors }) => sectors as usize,
        _ => usize::MAX,
    }
}

/// Reads one sector.
pub open spec fn drv_blk_read_request(lba: u64) -> DriverRequest {
    DriverRequest::ReadBlocks { lba, count: 1, shared_cap: 0 }
}

/// Reads one sector.
pub fn drv_blk_read_call(lba: u64) -> (r: DriverRequest)
    ensures
        r == drv_blk_read_request(lba),
{
    DriverRequest::ReadBlocks { lba, count: 1, shared_cap: 0 }
}

/// The sectors that were read, or `usize::MAX`, and whether one sector came back that starts with
/// the greeting: `data` is what the data buffer starts with.
pub open spec fn drv_blk_read_outcome(response: Option<DriverResponse>, data: Seq<u8>) -> Checked {
    match response {
        Some(DriverResponse::Completed { sectors }) => Checked {
            value: sectors as usize,
            matches: Some(sectors == 1 && data == demo_greeting()),
        },
        _ => Checked { value: usize::MAX, matches: None },
    }
}

/// The sectors that were read, or `usize::MAX`, and whether one sector came back that starts with
/// the greeting: `data` is what the data buffer starts with.
pub fn drv_blk_read_result(response: Option<DriverResponse>, data: &[u8]) -> (r: Checked)
    ensures
        r == drv_blk_read_outcome(response, data@),
{
    match response {
        Some(DriverResponse::Completed { sectors }) => {
            let value: usize = sectors as usize;
            Checked { value, matches: Some(drv_blk_read_matches(value, data)) }
        },
        _ => Checked { value: usize::MAX, matches: None },
    }
}

/// Asks the network service at `endpoint` for direct access to the one network device. Nothing is
/// asked if the service was never launched.
pub open spec fn net_bypass_request(endpoint: Option<u32>) -> Option<(u32, NetBypassRequest)> {
    match endpoint {
        Some(e) => Some((e, NetBypassRequest::RequestDirectNic { nic_id: 0 })),
        None => None,
    }
}

/// Asks the network service at `endpoint` for direct access to the one network device. Nothing is
/// asked if the service was never launched.
pub fn net_bypass_request_call(endpoint: Option<u32>) -> (r: Option<(u32, NetBypassRequest)>)
    ensures
        r == net_bypass_request(endpoint),
{
    match endpoint {
        Some(e) => Some((e, NetBypassRequest::RequestDirectNic { nic_id: 0 })),
        None => None,
    }
}

/// `1` if direct access is allowed, `0` otherwise.
pub open spec fn net_bypass_outcome(response: Option<NetBypassResponse>) -> usize {
    match response {
        Some(NetBypassResponse::Granted) => 1usize,
        _ => 0,
    }
}

/// `1` if direct access is allowed, `0` otherwise.
pub fn net_bypass_request_result(response: Option<NetBypassResponse>) -> (r: usize)
    ensures
        r == net_bypass_outcome(response),
{
    match response {
        Some(NetBypassResponse::Granted) => 1usize,
        _ => 0,
    }
}

/// Has the network service at `endpoint` send a frame the standard way. Nothing is asked if the
/// service was never launched.
pub open spec fn net_standard_send_request(endpoint: Option<u32>) -> Option<(u32, NetBypassRequest)> {
    match endpoint {
        Some(e) => Some((e, NetBypassRequest::RelayFrame)),
        None => None,
    }
}

/// Has the network service at `endpoint` send a frame the standard way. Nothing is asked if the
/// service was never launched.
pub fn net_standard_send_call(endpoint: Option<u32>) -> (r: Option<(u32, NetBypassRequest)>)
    ensures
        r == net_standard_send_request(endpoint),
{
    match endpoint {
        Some(e) => Some((e, NetBypassRequest::RelayFrame)),
        None => None,
    }
}

/// `1` if the frame is sent, `0` otherwise.
pub open spec fn net_standard_send_outcome(response: Option<NetBypassResponse>) -> usize {
    match response {
        Some(NetBypassResponse::Relayed) => 1usize,
        _ => 0,
    }
}

/// `1` if the frame is sent, `0` otherwise.
pub fn net_standard_send_result(response: Option<NetBypassResponse>) -> (r: usize)
    ensures
        r == net_standard_send_outcome(response),
{
    match response {
        Some(NetBypassResponse::Relayed) => 1usize,
        _ => 0,
    }
}

/// What the memory manager is expected to answer follows from the processes that are registered:
/// the victim is the one process that may go, and the total is the memory of both.
pub proof fn expected_answers_follow_from_the_processes(which: u32)
    ensures
        demo_process(which).sacrificial <==> demo_process(which).thread == MM_DEMO_EXPECTED_VICTIM,
        demo_process(which).thread == demo_process(0).thread || demo_process(which).thread
            == demo_process(1).thread,
        demo_process(0).resident_bytes + demo_process(1).resident_bytes == MM_DEMO_EXPECTED_TOTAL,
{
}

} // verus!
