//! What is asked of the services, and what their answers come to.

use simurgh_kernel::report::{compositor_demo_frame, drv_demo_write_data, fs_demo_write_data};
use simurgh_kernel::service_calls::{
    compositor_commit_call, compositor_commit_verify, compositor_create_surface_call,
    compositor_create_surface_result, compositor_destroy_call, compositor_destroy_result,
    drv_blk_probe_call, drv_blk_probe_result, drv_blk_read_call, drv_blk_read_result,
    drv_blk_write_call, drv_blk_write_result, fs_close_call, fs_close_result, fs_open_call,
    fs_open_result, fs_read_call, fs_read_result, fs_read_result_quiet, fs_stat_call,
    fs_stat_result, fs_write_call, fs_write_result, mm_query_total_resident_call,
    mm_query_total_resident_result, mm_query_total_resident_result_quiet, mm_query_victim_call,
    mm_query_victim_result, mm_register_call, mm_register_result, mm_unregister_call,
    mm_unregister_result, net_bypass_request_call, net_bypass_request_result,
    net_standard_send_call, net_standard_send_result, Checked, DisplayRequest, DisplayResponse,
    DriverRequest, DriverResponse, FsRequest, FsResponse, MmRequest, MmResponse,
    NetBypassRequest, NetBypassResponse,
};

#[test]
fn file_requests_name_their_file() {
    assert_eq!(fs_open_call(3, Some(5)), FsRequest::Open { path: 3, flags: 5 });
    assert_eq!(fs_open_call(3, None), FsRequest::Open { path: 3, flags: 0 });
    assert_eq!(fs_stat_call(4), FsRequest::Stat { path: 4 });
    assert_eq!(fs_close_call(9), FsRequest::Close { handle: 9 });
    assert_eq!(
        fs_write_call(9),
        FsRequest::Write { handle: 9, offset: 0, len: 4096, shared_cap: 1 }
    );
    assert_eq!(
        fs_read_call(9, 100),
        FsRequest::Read { handle: 9, offset: 0, len: 100, shared_cap: 1 }
    );
}

#[test]
fn file_answers_are_reported() {
    assert_eq!(fs_open_result(Some(FsResponse::Opened { handle: 7 })), 7);
    assert_eq!(fs_open_result(Some(FsResponse::Closed)), usize::MAX);
    assert_eq!(fs_open_result(None), usize::MAX);
    assert_eq!(fs_stat_result(Some(FsResponse::Stat { size: 12 })), 12);
    assert_eq!(fs_stat_result(None), usize::MAX);
    assert_eq!(fs_close_result(Some(FsResponse::Closed)), 1);
    assert_eq!(fs_close_result(None), 0);
    assert_eq!(fs_write_result(Some(FsResponse::Written { bytes: 4096 })), 4096);
    assert_eq!(fs_write_result(Some(FsResponse::Read { bytes: 4096 })), usize::MAX);
    assert_eq!(fs_read_result_quiet(Some(FsResponse::Read { bytes: 5 })), 5);
    assert_eq!(fs_read_result_quiet(None), usize::MAX);
}

#[test]
fn what_was_written_is_recognised_when_it_is_read() {
    let data = fs_demo_write_data();
    let whole = Some(FsResponse::Read { bytes: 4096 });
    assert_eq!(fs_read_result(whole, &data), Checked { value: 4096, matches: Some(true) });
    let mut wrong = data;
    wrong[17] ^= 1;
    assert_eq!(fs_read_result(whole, &wrong), Checked { value: 4096, matches: Some(false) });
    let part = Some(FsResponse::Read { bytes: 10 });
    assert_eq!(fs_read_result(part, &data), Checked { value: 10, matches: Some(false) });
    assert_eq!(fs_read_result(None, &data), Checked { value: usize::MAX, matches: None });
}

#[test]
fn surfaces_are_created_shown_and_destroyed() {
    assert_eq!(compositor_create_surface_call(), DisplayRequest::CreateSurface);
    assert_eq!(
        compositor_create_surface_result(Some(DisplayResponse::SurfaceCreated { surface: 6 })),
        6
    );
    assert_eq!(compositor_create_surface_result(None), usize::MAX);
    assert_eq!(
        compositor_commit_call(6),
        DisplayRequest::CommitBuffer { surface: 6, buffer_cap: 0, width: 2, height: 2 }
    );
    let frame = compositor_demo_frame();
    assert_eq!(compositor_commit_verify(Some(DisplayResponse::Committed), &frame), 1);
    assert_eq!(compositor_commit_verify(Some(DisplayResponse::Destroyed), &frame), 0);
    assert_eq!(compositor_commit_verify(None, &frame), 0);
    assert_eq!(compositor_commit_verify(Some(DisplayResponse::Committed), &[0; 16]), 0);
    assert_eq!(compositor_destroy_call(6), DisplayRequest::DestroySurface { surface: 6 });
    assert_eq!(compositor_destroy_result(Some(DisplayResponse::Destroyed)), 1);
    assert_eq!(compositor_destroy_result(Some(DisplayResponse::Committed)), 0);
}

#[test]
fn memory_is_accounted_for() {
    assert_eq!(
        mm_register_call(0),
        MmRequest::Register { thread: 100, resident_bytes: 100 << 20, sacrificial: false }
    );
    assert_eq!(
        mm_register_call(1),
        MmRequest::Register { thread: 200, resident_bytes: 4 << 20, sacrificial: true }
    );
    assert_eq!(mm_register_call(2), mm_register_call(0));
    assert_eq!(mm_register_result(Some(MmResponse::Registered)), 1);
    assert_eq!(mm_register_result(Some(MmResponse::Unregistered)), 0);
    assert_eq!(mm_unregister_call(100), MmRequest::Unregister { thread: 100 });
    assert_eq!(mm_unregister_result(Some(MmResponse::Unregistered)), 1);
    assert_eq!(mm_unregister_result(None), 0);
    assert_eq!(mm_query_victim_call(), MmRequest::QueryVictim);
    assert_eq!(
        mm_query_victim_result(Some(MmResponse::Victim { thread: 200 })),
        Checked { value: 200, matches: Some(true) }
    );
    assert_eq!(
        mm_query_victim_result(Some(MmResponse::Victim { thread: u32::MAX })),
        Checked { value: u32::MAX as usize, matches: Some(false) }
    );
    assert_eq!(mm_query_victim_result(None), Checked { value: usize::MAX, matches: None });
    assert_eq!(mm_query_total_resident_call(), MmRequest::QueryTotalResident);
    let total = Some(MmResponse::TotalResident { bytes: 104 << 20 });
    assert_eq!(
        mm_query_total_resident_result(total),
        Checked { value: 104 << 20, matches: Some(true) }
    );
    assert_eq!(
        mm_query_total_resident_result(Some(MmResponse::TotalResident { bytes: 1 })),
        Checked { value: 1, matches: Some(false) }
    );
    assert_eq!(mm_query_total_resident_result_quiet(total), 104 << 20);
    assert_eq!(mm_query_total_resident_result_quiet(None), usize::MAX);
}

#[test]
fn sectors_are_written_and_read() {
    assert_eq!(drv_blk_probe_call(), DriverRequest::Probe);
    let ready = DriverResponse::Ready { sector_size: 512, sector_count: 2048 };
    assert_eq!(drv_blk_probe_result(Some(ready)), (512, 2048));
    assert_eq!(drv_blk_probe_result(None), (u32::MAX, u64::MAX));
    assert_eq!(
        drv_blk_write_call(8),
        DriverRequest::WriteBlocks { lba: 8, count: 1, shared_cap: 0 }
    );
    let one = Some(DriverResponse::Completed { sectors: 1 });
    assert_eq!(drv_blk_write_result(one), 1);
    assert_eq!(drv_blk_write_result(Some(ready)), usize::MAX);
    assert_eq!(
        drv_blk_read_call(8),
        DriverRequest::ReadBlocks { lba: 8, count: 1, shared_cap: 0 }
    );
    let data = drv_demo_write_data();
    assert_eq!(drv_blk_read_result(one, &data), Checked { value: 1, matches: Some(true) });
    assert_eq!(
        drv_blk_read_result(Some(DriverResponse::Completed { sectors: 2 }), &data),
        Checked { value: 2, matches: Some(false) }
    );
    assert_eq!(
        drv_blk_read_result(None, &data),
        Checked { value: usize::MAX, matches: None }
    );
}

#[test]
fn the_network_service_is_asked_only_if_it_runs() {
    assert_eq!(
        net_bypass_request_call(Some(4)),
        Some((4, NetBypassRequest::RequestDirectNic { nic_id: 0 }))
    );
    assert_eq!(net_bypass_request_call(None), None);
    assert_eq!(net_bypass_request_result(Some(NetBypassResponse::Granted)), 1);
    assert_eq!(net_bypass_request_result(Some(NetBypassResponse::Denied)), 0);
    assert_eq!(net_bypass_request_result(None), 0);
    assert_eq!(net_standard_send_call(Some(4)), Some((4, NetBypassRequest::RelayFrame)));
    assert_eq!(net_standard_send_call(None), None);
    assert_eq!(net_standard_send_result(Some(NetBypassResponse::Relayed)), 1);
    assert_eq!(net_standard_send_result(Some(NetBypassResponse::Granted)), 0);
}
