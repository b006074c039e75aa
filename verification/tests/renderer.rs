use vfio_pci::renderer::{
    get_server_fd, ret_to_res, write_fence, FenceState, RutabagaError, RutabagaFence, VirglBox,
    VirglCookie,
};

#[test]
fn zero_is_success() {
    assert_eq!(ret_to_res(0), Ok(()));
    assert_eq!(ret_to_res(-22), Err(RutabagaError::ComponentError(-22)));
    assert_eq!(ret_to_res(1), Err(RutabagaError::ComponentError(1)));
}

#[test]
fn handler_sees_only_newer_fences() {
    let mut state = FenceState { latest_fence: 5, handler: Some(()) };
    assert_eq!(state.write(5), None);
    assert_eq!(
        state.write(7),
        Some(RutabagaFence { flags: 1, fence_id: 7, ctx_id: 0, ring_idx: 0 })
    );
    assert_eq!(state.write(6), None);
    assert_eq!(state.latest_fence, 7);
    let mut quiet: FenceState<()> = FenceState { latest_fence: 0, handler: None };
    assert_eq!(quiet.write(3), None);
    assert_eq!(quiet.latest_fence, 3);
}

#[test]
fn server_descriptor_is_handed_over_once() {
    let mut cookie = VirglCookie {
        fence_state: FenceState { latest_fence: 0, handler: Some(()) },
        render_server_fd: Some(42),
    };
    assert_eq!(get_server_fd(&mut cookie, 1), -1);
    assert_eq!(cookie.render_server_fd, Some(42));
    assert_eq!(get_server_fd(&mut cookie, 0), 42);
    assert_eq!(get_server_fd(&mut cookie, 0), -1);
    assert_eq!(write_fence(&mut cookie, 9).map(|f| f.fence_id), Some(9));
    assert_eq!(write_fence(&mut cookie, 9), None);
}

#[test]
fn boxes_compare_by_their_fields() {
    let b = VirglBox { x: 1, y: 2, z: 3, w: 4, h: 5, d: 6 };
    assert_eq!(b, VirglBox { x: 1, ..b });
    assert_ne!(b, VirglBox { d: 7, ..b });
}
