use vr_renderer::device::{select_device, select_queue_families, find_device, QueueFamilyCaps};
use vr_renderer::error::RendererCreationError;

#[test]
fn reported_device_wins_over_preferred() {
    let handles = vec![10u64, 20, 30, 40];
    assert_eq!(select_device(&handles, Some(30), Some(1)), Ok(2));
    assert_eq!(select_device(&handles, Some(30), None), Ok(2));
}

#[test]
fn unmatched_report_falls_back_to_preferred() {
    let handles = vec![10u64, 20, 30, 40];
    assert_eq!(select_device(&handles, Some(99), Some(3)), Ok(3));
    assert_eq!(select_device(&handles, None, Some(1)), Ok(1));
}

#[test]
fn fallback_defaults_to_first_device() {
    let handles = vec![10u64, 20, 30];
    assert_eq!(select_device(&handles, Some(99), None), Ok(0));
    assert_eq!(select_device(&handles, None, None), Ok(0));
}

#[test]
fn no_devices_is_an_error() {
    let handles: Vec<u64> = vec![];
    assert_eq!(select_device(&handles, Some(5), None), Err(RendererCreationError::NoDevices));
    let handles = vec![10u64, 20];
    assert_eq!(select_device(&handles, None, Some(2)), Err(RendererCreationError::NoDevices));
}

#[test]
fn first_matching_handle_is_found() {
    let handles = vec![7u64, 8, 8, 9];
    assert_eq!(find_device(&handles, 8), Some(1));
    assert_eq!(find_device(&handles, 5), None);
}

fn caps(graphics: bool, transfers: bool) -> QueueFamilyCaps {
    QueueFamilyCaps { supports_graphics: graphics, explicitly_supports_transfers: transfers }
}

#[test]
fn dedicated_transfer_family_is_used_for_loading() {
    let fams = vec![caps(false, false), caps(true, false), caps(false, true), caps(true, true)];
    assert_eq!(select_queue_families(&fams), Ok((1, 2)));
}

#[test]
fn load_queue_falls_back_to_graphics_family() {
    let fams = vec![caps(false, false), caps(true, false), caps(true, false)];
    assert_eq!(select_queue_families(&fams), Ok((1, 1)));
}

#[test]
fn no_graphics_family_is_an_error() {
    let fams = vec![caps(false, true), caps(false, false)];
    assert_eq!(select_queue_families(&fams), Err(RendererCreationError::NoQueue));
    let empty: Vec<QueueFamilyCaps> = vec![];
    assert_eq!(select_queue_families(&empty), Err(RendererCreationError::NoQueue));
}
