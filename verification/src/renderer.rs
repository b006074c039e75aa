//! What the renderers of a virtual GPU share.
use vstd::prelude::*;

use crate::msi::RawDescriptor;

verus! {

/// Flag of a command: a fence is to be signalled.
pub const RUTABAGA_FLAG_FENCE: u32 = 1;

/// Why an operation of a renderer failed.
#[derive(Clone, Copy, PartialEq, Eq, Structural, Debug)]
pub enum RutabagaError {
    /// The underlying component returned this.
    ComponentError(i32),
}

/// The result of an operation of a renderer.
pub type RutabagaResult<T> = Result<T, RutabagaError>;

/// A box in a texture.
#[derive(Clone, Copy, PartialEq, Eq, Structural, Debug)]
pub struct VirglBox {
    pub x: u32,
    pub y: u32,
    pub z: u32,
    pub w: u32,
    pub h: u32,
    pub d: u32,
}

/// The result that the return value of a component stands for: zero is success.
pub fn ret_to_res(ret: i32) -> (res: RutabagaResult<()>)
    ensures
        res == (if ret == 0 {
            Ok(())
        } else {
            Err(RutabagaError::ComponentError(ret))
        }),
{
    match ret {
        0 => Ok(()),
        _ => Err(RutabagaError::ComponentError(ret)),
    }
}

/// A fence that was signalled.
#[derive(Clone, Copy, PartialEq, Eq, Structural, Debug)]
pub struct RutabagaFence {
    pub flags: u32,
    pub fence_id: u64,
    pub ctx_id: u32,
    pub ring_idx: u8,
}

/// The most recent fence, and who is told about fences.
pub struct FenceState<H> {
    pub latest_fence: u32,
    pub handler: Option<H>,
}

/// What the handler is told about fence `id`.
pub open spec fn signalled(id: u32) -> RutabagaFence {
    RutabagaFence { flags: RUTABAGA_FLAG_FENCE, fence_id: id as u64, ctx_id: 0, ring_idx: 0 }
}

/// What the handler, if there is one, is told when fence `id` is written after `latest`: nothing
/// unless it is more recent.
pub open spec fn told(latest: u32, id: u32, handled: bool) -> Option<RutabagaFence> {
    if id > latest && handled {
        Some(signalled(id))
    } else {
        None
    }
}

/// The most recent of two fences.
pub open spec fn more_recent(latest: u32, id: u32) -> u32 {
    if id > latest {
        id
    } else {
        latest
    }
}

impl<H> FenceState<H> {
    /// Takes that `latest_fence` was reached, and gives what the handler is to be called with.
    pub fn write(&mut self, latest_fence: u32) -> (fence: Option<RutabagaFence>)
        ensures
            final(self).latest_fence == more_recent(old(self).latest_fence, latest_fence),
            final(self).handler == old(self).handler,
            fence == told(old(self).latest_fence, latest_fence, old(self).handler is Some),
    {
        if latest_fence > self.latest_fence {
            self.latest_fence = latest_fence;
            if self.handler.is_some() {
                return Some(
                    RutabagaFence {
                        flags: RUTABAGA_FLAG_FENCE,
                        fence_id: latest_fence as u64,
                        ctx_id: 0,
                        ring_idx: 0,
                    },
                );
            }
        }
        None
    }
}

/// What a renderer is given to find its state in callbacks.
pub struct VirglCookie<H> {
    pub fence_state: FenceState<H>,
    /// The descriptor of the render server, until it is taken.
    pub render_server_fd: Option<RawDescriptor>,
}

/// Takes that `fence` was reached, and gives what the handler is to be called with.
pub fn write_fence<H>(cookie: &mut VirglCookie<H>, fence: u32) -> (r: Option<RutabagaFence>)
    ensures
        final(cookie).fence_state.latest_fence == more_recent(
            old(cookie).fence_state.latest_fence,
            fence,
        ),
        final(cookie).fence_state.handler == old(cookie).fence_state.handler,
        final(cookie).render_server_fd == old(cookie).render_server_fd,
        r == told(
            old(cookie).fence_state.latest_fence,
            fence,
            old(cookie).fence_state.handler is Some,
        ),
{
    cookie.fence_state.write(fence)
}

/// Hands over the descriptor of the render server, or -1 if it was handed over before, there is
/// none, or `version` is not known.
pub fn get_server_fd<H>(cookie: &mut VirglCookie<H>, version: u32) -> (fd: i32)
    ensures
        final(cookie).fence_state == old(cookie).fence_state,
        version != 0 ==> fd == -1 && final(cookie).render_server_fd
            == old(cookie).render_server_fd,
        version == 0 ==> final(cookie).render_server_fd is None && fd == (match old(
            cookie,
        ).render_server_fd {
            Some(descriptor) => descriptor,
            None => -1i32,
        }),
{
    if version != 0 {
        return -1;
    }
    match cookie.render_server_fd.take() {
        Some(descriptor) => descriptor,
        None => -1,
    }
}

/// The fence after `ids` were written one after the other.
pub open spec fn fence_after(latest: u32, ids: Seq<u32>) -> u32
    decreases ids.len(),
{
    if ids.len() == 0 {
        latest
    } else {
        more_recent(fence_after(latest, ids.drop_last()), ids.last())
    }
}

/// The most recent fence is the greatest of all fences written, whatever their order.
pub proof fn law_latest_fence_is_the_greatest(latest: u32, ids: Seq<u32>)
    ensures
        fence_after(latest, ids) >= latest,
        forall|i: int| 0 <= i < ids.len() ==> fence_after(latest, ids) >= #[trigger] ids[i],
        fence_after(latest, ids) == latest || ids.contains(fence_after(latest, ids)),
    decreases ids.len(),
{
    if ids.len() > 0 {
        let init = ids.drop_last();
        law_latest_fence_is_the_greatest(latest, init);
        let before = fence_after(latest, init);
        assert forall|i: int| 0 <= i < ids.len() implies fence_after(latest, ids)
            >= #[trigger] ids[i] by {
            if i < init.len() {
                assert(init[i] == ids[i]);
            }
        }
        if init.contains(before) {
            let k = choose|k: int| 0 <= k < init.len() && init[k] == before;
            assert(ids[k] == before);
        }
        assert(ids[ids.len() - 1] == ids.last());
    }
}

/// The handler is told about every fence at most once, and in ascending order: a fence that it is
/// told about is greater than every fence written before.
pub proof fn law_handler_sees_ascending_fences(latest: u32, ids: Seq<u32>, id: u32)
    requires
        told(fence_after(latest, ids), id, true) is Some,
    ensures
        forall|i: int| 0 <= i < ids.len() ==> id > #[trigger] ids[i],
        id > latest,
        told(fence_after(latest, ids.push(id)), id, true) is None,
{
    law_latest_fence_is_the_greatest(latest, ids);
    assert(ids.push(id).drop_last() =~= ids);
}

/// A handler is told about a fence exactly if the fence is more recent than all before; it is told its
/// number, and that a fence was signalled, in the first ring of no context.
pub proof fn law_handler_is_told_the_fence(latest: u32, id: u32, handled: bool)
    ensures
        match told(latest, id, handled) {
            Some(fence) => latest < id && handled && fence == (RutabagaFence {
                flags: 1,
                fence_id: id as u64,
                ctx_id: 0,
                ring_idx: 0,
            }),
            None => id <= latest || !handled,
        },
        more_recent(latest, id) >= latest,
        more_recent(latest, id) >= id,
        more_recent(latest, id) == latest || more_recent(latest, id) == id,
{
}

} // verus!
