use render_core::frame::{
    handle_possible_resize, AcquireStep, Extent, FenceSlot, FrameSync, PresentStep, SurfaceError,
};
use vulkano::VulkanError;

#[test]
fn new_sync_has_idle_slots() {
    let s = FrameSync::new(3);
    assert_eq!(s.fences, vec![FenceSlot::Idle; 3]);
    assert!(!s.window_resized && !s.recreate_swapchain);
    assert_eq!(s.previous_dependency(), None);
}

#[test]
fn fence_is_waited_before_slot_is_reused() {
    let mut s = FrameSync::new(2);
    // First use of image 1: nothing to wait for.
    assert_eq!(s.acquire(Ok((1, false))), AcquireStep::Proceed { image: 1, wait_fence: false });
    s.fence_waited();
    assert_eq!(s.submitted(Ok(())), PresentStep::Presented);
    assert_eq!(s.fences, vec![FenceSlot::Idle, FenceSlot::Submitted]);
    assert_eq!(s.previous_dependency(), Some(1));

    // Image 1 again: its fence must be waited for before recording.
    assert_eq!(s.acquire(Ok((1, false))), AcquireStep::Proceed { image: 1, wait_fence: true });
    assert_eq!(s.fences[1], FenceSlot::Submitted);
    s.fence_waited();
    assert_eq!(s.fences[1], FenceSlot::Idle);
    assert_eq!(s.submitted(Ok(())), PresentStep::Presented);

    // Image 0 still has nothing outstanding.
    assert_eq!(s.acquire(Ok((0, false))), AcquireStep::Proceed { image: 0, wait_fence: false });
    assert_eq!(s.previous_dependency(), Some(1));
}

#[test]
fn out_of_date_acquire_skips_frame() {
    let mut s = FrameSync::new(2);
    assert_eq!(s.acquire(Err(SurfaceError::OutOfDate)), AcquireStep::Skip);
    assert!(s.recreate_swapchain);
    assert_eq!(s.acquired, None);
    assert_eq!(s.fences, vec![FenceSlot::Idle; 2]);
}

#[test]
fn suboptimal_acquire_still_renders() {
    let mut s = FrameSync::new(2);
    assert_eq!(s.acquire(Ok((0, true))), AcquireStep::Proceed { image: 0, wait_fence: false });
    assert!(s.recreate_swapchain);
    s.fence_waited();
    assert_eq!(s.submitted(Ok(())), PresentStep::Presented);
}

#[test]
fn other_acquire_errors_are_fatal() {
    let mut s = FrameSync::new(2);
    assert_eq!(s.acquire(Err(SurfaceError::Other)), AcquireStep::Fatal);
    assert!(!s.recreate_swapchain);
    assert_eq!(s.acquire(Ok((2, false))), AcquireStep::Fatal);
    assert_eq!(s.acquired, None);
}

#[test]
fn out_of_date_present_leaves_slot_empty() {
    let mut s = FrameSync::new(2);
    s.acquire(Ok((0, false)));
    s.fence_waited();
    assert_eq!(s.submitted(Err(SurfaceError::OutOfDate)), PresentStep::Dropped);
    assert_eq!(s.fences[0], FenceSlot::Idle);
    assert!(s.recreate_swapchain);
    assert_eq!(s.previous_fence, 0);
    assert_eq!(s.previous_dependency(), None);
}

#[test]
fn other_present_errors_are_fatal() {
    let mut s = FrameSync::new(2);
    s.acquire(Ok((1, false)));
    s.fence_waited();
    assert_eq!(s.submitted(Err(SurfaceError::Other)), PresentStep::Fatal);
}

#[test]
fn vulkan_errors_are_told_apart() {
    let mut s = FrameSync::new(2);
    assert_eq!(s.acquire_result(Err(VulkanError::OutOfDate)), AcquireStep::Skip);
    assert!(s.recreate_swapchain);
    let mut s = FrameSync::new(2);
    assert_eq!(s.acquire_result(Err(VulkanError::DeviceLost)), AcquireStep::Fatal);
    assert!(!s.recreate_swapchain);
    assert_eq!(s.acquire_result(Ok((1, true))), AcquireStep::Proceed { image: 1, wait_fence: false });
    s.fence_waited();
    let flushed: Result<u8, VulkanError> = Err(VulkanError::OutOfDate);
    assert_eq!(s.submitted_result(&flushed), PresentStep::Dropped);
    s.acquire_result(Ok((1, false)));
    s.fence_waited();
    let flushed: Result<u8, VulkanError> = Err(VulkanError::OutOfDeviceMemory);
    assert_eq!(s.submitted_result(&flushed), PresentStep::Fatal);
    s.acquire_result(Ok((1, false)));
    s.fence_waited();
    let flushed: Result<u8, VulkanError> = Ok(7);
    assert_eq!(s.submitted_result(&flushed), PresentStep::Presented);
    assert_eq!(s.fences[1], FenceSlot::Submitted);
}

#[test]
fn resize_requests_collapse_into_one_rebuild() {
    let mut s = FrameSync::new(2);
    let mut viewport = Extent { width: 800, height: 600 };
    s.request_resize();
    s.request_resize();
    let new_size = Extent { width: 1920, height: 1080 };
    assert!(handle_possible_resize(&mut s, &mut viewport, new_size));
    assert_eq!(viewport, new_size);
    // The aspect ratio of the projection is taken from the new viewport.
    assert_eq!(viewport.width as f64 / viewport.height as f64, 1920.0 / 1080.0);
    assert!(!handle_possible_resize(&mut s, &mut viewport, Extent { width: 10, height: 10 }));
    assert_eq!(viewport, new_size);
}

#[test]
fn out_of_date_surface_triggers_rebuild() {
    let mut s = FrameSync::new(1);
    let mut viewport = Extent { width: 800, height: 600 };
    s.acquire(Err(SurfaceError::OutOfDate));
    assert!(handle_possible_resize(&mut s, &mut viewport, Extent { width: 800, height: 600 }));
    assert!(!s.recreate_swapchain && !s.window_resized);
}
