//! What is asked of the services says what was wanted, and what is reported of their answers is
//! what they said: an answer of another kind, or none, counts as a failure.

use crate::report::{
    demo_byte, demo_frame, demo_greeting, demo_process, FS_DEMO_LEN, MM_DEMO_EXPECTED_TOTAL,
    MM_DEMO_EXPECTED_VICTIM,
};
use crate::service_calls::{
    compositor_commit_outcome, compositor_commit_request, compositor_create_surface_outcome,
    compositor_create_surface_request, compositor_destroy_outcome, compositor_destroy_request,
    drv_blk_probe_outcome, drv_blk_probe_request, drv_blk_read_outcome, drv_blk_read_request,
    drv_blk_write_outcome, drv_blk_write_request, fs_close_outcome, fs_close_request,
    fs_open_outcome, fs_open_request, fs_read_outcome, fs_read_outcome_quiet, fs_read_request,
    fs_stat_outcome, fs_stat_request, fs_write_outcome, fs_write_request,
    mm_query_total_resident_outcome, mm_query_total_resident_outcome_quiet,
    mm_query_total_resident_request,
    mm_query_victim_outcome, mm_query_victim_request, mm_register_outcome, mm_register_request,
    mm_unregister_outcome, mm_unregister_request, net_bypass_outcome, net_bypass_request,
    net_standard_send_outcome, net_standard_send_request, DisplayRequest, DisplayResponse,
    DriverRequest, DriverResponse, FsRequest, FsResponse, MmRequest, MmResponse, NetBypassRequest,
    NetBypassResponse,
};
use vstd::prelude::*;

verus! {

/// A request to the file system names the file and the flags asked for. What is written and read
/// starts at the beginning of the file and goes through the data page; a write is of the whole
/// payload, a read of as much as asked for.
pub proof fn requests_to_the_file_system_say_what_is_wanted(
    path: u32,
    some_flags: u32,
    file: u32,
    n: u32,
)
    ensures
        fs_open_request(path, Some(some_flags)) matches FsRequest::Open { path: p, flags } && p
            == path && flags == some_flags,
        fs_open_request(path, None) matches FsRequest::Open { path: p, flags } && p == path && flags
            == 0,
        fs_stat_request(path) matches FsRequest::Stat { path: p } && p == path,
        fs_close_request(file) matches FsRequest::Close { handle } && handle == file,
        fs_write_request(file) matches FsRequest::Write { handle, offset, len, shared_cap } && handle
            == file && offset == 0 && len == FS_DEMO_LEN && shared_cap == 1,
        fs_read_request(file, n) matches FsRequest::Read { handle, offset, len, shared_cap } && handle
            == file && offset == 0 && len == n && shared_cap == 1,
{
}

/// What the file system is reported to have answered is the handle, the size or the number of
/// bytes that it answered with. Whatever is no answer to the request counts as none.
pub proof fn answers_of_the_file_system_are_reported(response: Option<FsResponse>)
    ensures
        ({
            let r = response->0;
            let opened = response is Some && r is Opened;
            let stat = response is Some && r is Stat;
            let written = response is Some && r is Written;
            let read = response is Some && r is Read;
            &&& opened ==> fs_open_outcome(response) == r->handle
            &&& !opened ==> fs_open_outcome(response) == usize::MAX
            &&& stat && r->size <= usize::MAX ==> fs_stat_outcome(response) == r->size
            &&& !stat ==> fs_stat_outcome(response) == usize::MAX
            &&& fs_close_outcome(response) == if response is Some && r is Closed {
                1int
            } else {
                0
            }
            &&& written ==> fs_write_outcome(response) == r->Written_bytes
            &&& !written ==> fs_write_outcome(response) == usize::MAX
            &&& read ==> fs_read_outcome_quiet(response) == r->Read_bytes
            &&& !read ==> fs_read_outcome_quiet(response) == usize::MAX
        }),
{
}

/// What was read back counts as the payload just if as many bytes were read as were written and
/// every one of them is the one that was written.
pub proof fn what_is_read_back_is_compared(response: Option<FsResponse>, data: Seq<u8>, i: int)
    ensures
        ({
            let r = fs_read_outcome(response, data);
            let read = response is Some && response->0 is Read;
            let whole = read && response->0->Read_bytes == FS_DEMO_LEN && data.len() == FS_DEMO_LEN;
            &&& r.value == fs_read_outcome_quiet(response)
            &&& r.matches is Some <==> read
            &&& r.matches == Some(true) ==> whole && (0 <= i < FS_DEMO_LEN ==> data[i] == demo_byte(
                i,
            ))
            &&& whole && (forall|j: int| 0 <= j < FS_DEMO_LEN ==> #[trigger] data[j] == demo_byte(j))
                ==> r.matches == Some(true)
        }),
{
}

/// A request to the compositor names the surface, and what is shown is the demonstration's frame of
/// two by two pixels. A surface is reported as it was answered; a frame counts as shown just if it
/// was committed and confirmed byte for byte.
pub proof fn the_compositor_is_asked_and_answers(
    on: u32,
    response: Option<DisplayResponse>,
    confirmed: Seq<u8>,
)
    ensures
        compositor_create_surface_request() is CreateSurface,
        compositor_commit_request(on) matches DisplayRequest::CommitBuffer {
            surface,
            buffer_cap,
            width,
            height,
        } && surface == on && buffer_cap == 0 && width * height * 4 == demo_frame().len(),
        compositor_destroy_request(on) matches DisplayRequest::DestroySurface { surface } && surface
            == on,
        ({
            let r = response->0;
            let made = response is Some && r is SurfaceCreated;
            &&& made ==> compositor_create_surface_outcome(response) == r->surface
            &&& !made ==> compositor_create_surface_outcome(response) == usize::MAX
            &&& compositor_destroy_outcome(response) == if response is Some && r is Destroyed {
                1int
            } else {
                0
            }
            &&& compositor_commit_outcome(response, confirmed) == if response is Some
                && r is Committed && confirmed =~= demo_frame() {
                1int
            } else {
                0
            }
        }),
{
}

/// The memory manager is told of the processes of the demonstration as they are, and is asked for
/// the process that was named.
pub proof fn the_memory_manager_is_asked(which: u32, thread_of: u32)
    ensures
        mm_register_request(which) matches MmRequest::Register {
            thread,
            resident_bytes,
            sacrificial,
        } && thread == demo_process(which).thread && resident_bytes == demo_process(
            which,
        ).resident_bytes && sacrificial == demo_process(which).sacrificial,
        mm_unregister_request(thread_of) matches MmRequest::Unregister { thread } && thread
            == thread_of,
        mm_query_victim_request() is QueryVictim,
        mm_query_total_resident_request() is QueryTotalResident,
{
}

/// What the memory manager answered is reported, and compared with what follows from the processes
/// that were registered.
pub proof fn answers_of_the_memory_manager_are_reported(response: Option<MmResponse>)
    ensures
        ({
            let r = response->0;
            let victim = response is Some && r is Victim;
            let total = response is Some && r is TotalResident;
            let v = mm_query_victim_outcome(response);
            let t = mm_query_total_resident_outcome(response);
            &&& mm_register_outcome(response) == if response is Some && r is Registered {
                1int
            } else {
                0
            }
            &&& mm_unregister_outcome(response) == if response is Some && r is Unregistered {
                1int
            } else {
                0
            }
            &&& victim ==> v.value == r->Victim_thread && v.matches == Some(
                r->Victim_thread == MM_DEMO_EXPECTED_VICTIM,
            )
            &&& !victim ==> v.value == usize::MAX && v.matches is None
            &&& total ==> t.matches == Some(r->bytes == MM_DEMO_EXPECTED_TOTAL)
            &&& total && r->bytes <= usize::MAX ==> t.value == r->bytes
            &&& !total ==> t.value == usize::MAX && t.matches is None
            &&& t.value == mm_query_total_resident_outcome_quiet(response)
        }),
{
}

/// One sector is written and read at a time, at the address given, through the driver's own page.
pub proof fn the_block_driver_is_asked(at: u64)
    ensures
        drv_blk_probe_request() is Probe,
        drv_blk_write_request(at) matches DriverRequest::WriteBlocks { lba, count, shared_cap } && lba
            == at && count == 1 && shared_cap == 0,
        drv_blk_read_request(at) matches DriverRequest::ReadBlocks { lba, count, shared_cap } && lba
            == at && count == 1 && shared_cap == 0,
{
}

/// What the block driver answered is reported: the geometry of the device, the sectors done, and
/// whether the one sector that was read starts with the greeting.
pub proof fn answers_of_the_block_driver_are_reported(
    response: Option<DriverResponse>,
    data: Seq<u8>,
)
    ensures
        ({
            let r = response->0;
            let ready = response is Some && r is Ready;
            let completed = response is Some && r is Completed;
            let (size, count) = drv_blk_probe_outcome(response);
            let read = drv_blk_read_outcome(response, data);
            &&& ready ==> size == r->sector_size && count == r->sector_count
            &&& !ready ==> size == u32::MAX && count == u64::MAX
            &&& completed ==> drv_blk_write_outcome(response) == r->sectors
            &&& !completed ==> drv_blk_write_outcome(response) == usize::MAX
            &&& completed ==> read.value == r->sectors && read.matches == Some(
                r->sectors == 1 && data =~= demo_greeting(),
            )
            &&& !completed ==> read.value == usize::MAX && read.matches is None
        }),
{
}

/// The network service is asked at its endpoint, and not at all if there is none. It is asked for
/// the one network device, or to send a frame; only the answer to what was asked counts.
pub proof fn the_network_service_is_asked_and_answers(
    endpoint: u32,
    response: Option<NetBypassResponse>,
)
    ensures
        net_bypass_request(None) is None,
        net_standard_send_request(None) is None,
        net_bypass_request(Some(endpoint)) matches Some((e, request)) && e == endpoint && (
        request matches NetBypassRequest::RequestDirectNic { nic_id } && nic_id == 0),
        net_standard_send_request(Some(endpoint)) matches Some((e, request)) && e == endpoint
            && request is RelayFrame,
        net_bypass_outcome(response) == if response is Some && response->0 is Granted {
            1int
        } else {
            0
        },
        net_standard_send_outcome(response) == if response is Some && response->0 is Relayed {
            1int
        } else {
            0
        },
{
}

} // verus!
