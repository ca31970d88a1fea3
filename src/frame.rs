//! The frame lifecycle: acquire an image, wait for the fence of its slot,
//! record, submit and present, and rebuild the surface when it is out of
//! date or was resized.
//!
//! The caller holds the swapchain and the fences; this state machine tells it
//! what to do next and keeps, per swapchain image, whether GPU work submitted
//! for that image may still be outstanding.
use vstd::prelude::*;
use vulkano::VulkanError;

verus! {

/// vulkano's `VulkanError`, carried through as an opaque value.
#[verifier::external_type_specification]
#[verifier::external_body]
pub struct ExVulkanError(VulkanError);

/// The fence slot of one swapchain image.
#[derive(Clone, Copy, Debug, PartialEq, Eq, Structural)]
pub enum FenceSlot {
    /// No GPU work is outstanding for the image.
    Idle,
    /// Work for the image was submitted and its fence may not have signalled.
    Submitted,
}

/// What a failed acquisition or presentation reported.
#[derive(Clone, Copy, Debug, PartialEq, Eq, Structural)]
pub enum SurfaceError {
    /// The surface changed; the swapchain must be rebuilt.
    OutOfDate,
    /// Anything else, which ends rendering.
    Other,
}

/// What to do after an image was asked for.
#[derive(Clone, Copy, Debug, PartialEq, Eq, Structural)]
pub enum AcquireStep {
    /// Drop this frame; the swapchain is rebuilt at the start of the next.
    Skip,
    /// Stop rendering.
    Fatal,
    /// Render into `image`; first wait for its fence when `wait_fence` holds.
    Proceed { image: usize, wait_fence: bool },
}

/// What came of a submission and presentation.
#[derive(Clone, Copy, Debug, PartialEq, Eq, Structural)]
pub enum PresentStep {
    /// Submitted; the image's fence now guards its slot.
    Presented,
    /// The surface was out of date: nothing guards the slot, and the
    /// swapchain is rebuilt at the start of the next frame.
    Dropped,
    /// Stop rendering.
    Fatal,
}

/// The size of a surface or viewport in pixels.
#[derive(Clone, Copy, Debug, PartialEq, Eq, Structural)]
pub struct Extent {
    pub width: u32,
    pub height: u32,
}

/// Per-frame synchronisation state.
#[derive(Debug)]
pub struct FrameSync {
    /// The window reported a new size since the last rebuild.
    pub window_resized: bool,
    /// Acquisition or presentation asked for a rebuild.
    pub recreate_swapchain: bool,
    /// One slot per swapchain image.
    pub fences: Vec<FenceSlot>,
    /// The image of the last submission.
    pub previous_fence: usize,
    /// The image of the frame in progress, between acquisition and submission.
    pub acquired: Option<usize>,
}

/// Relies on vulkano's `VulkanError` enum: tells its `OutOfDate` variant
/// apart from all others.
#[verifier::external_body]
fn surface_error(e: &VulkanError) -> (r: SurfaceError) {
    match e {
        VulkanError::OutOfDate => SurfaceError::OutOfDate,
        _ => SurfaceError::Other,
    }
}

impl FrameSync {
    pub open spec fn wf(&self) -> bool {
        &&& self.fences@.len() > 0
        &&& self.previous_fence < self.fences@.len()
        &&& match self.acquired {
            Some(i) => i < self.fences@.len(),
            None => true,
        }
    }

    /// Work for `image` may be recorded now: it is the image of the frame in
    /// progress and no submission for it is outstanding.
    pub open spec fn can_record(&self, image: usize) -> bool {
        &&& self.acquired == Some(image)
        &&& image < self.fences@.len()
        &&& self.fences@[image as int] == FenceSlot::Idle
    }

    /// `self` is `before` once `image` was acquired: the slots are as they
    /// were and `image` is the frame in progress.
    pub open spec fn acquired_from(self, before: FrameSync, image: usize) -> bool {
        &&& self.fences@ == before.fences@
        &&& self.previous_fence == before.previous_fence
        &&& self.acquired == Some(image)
    }

    /// `self` is `before` once the fence of the acquired image was waited
    /// for: that image's slot is idle, the rest is as it was.
    pub open spec fn waited_from(self, before: FrameSync) -> bool {
        &&& before.acquired is Some
        &&& self.fences@ == before.fences@.update(before.acquired->0 as int, FenceSlot::Idle)
        &&& self.previous_fence == before.previous_fence
        &&& self.acquired == before.acquired
    }

    /// Synchronisation for `frames_in_flight` swapchain images, none of them
    /// with outstanding work.
    pub fn new(frames_in_flight: usize) -> (r: FrameSync)
        requires
            frames_in_flight > 0,
        ensures
            r.wf(),
            r.fences@ == Seq::new(frames_in_flight as nat, |i: int| FenceSlot::Idle),
            !r.window_resized,
            !r.recreate_swapchain,
            r.previous_fence == 0,
            r.acquired is None,
    {
        let mut fences: Vec<FenceSlot> = Vec::new();
        let mut i: usize = 0;
        while i < frames_in_flight
            invariant
                i <= frames_in_flight,
                fences@ == Seq::new(i as nat, |k: int| FenceSlot::Idle),
            decreases frames_in_flight - i,
        {
            fences.push(FenceSlot::Idle);
            i = i + 1;
            assert(fences@ =~= Seq::new(i as nat, |k: int| FenceSlot::Idle));
        }
        FrameSync {
            window_resized: false,
            recreate_swapchain: false,
            fences,
            previous_fence: 0,
            acquired: None,
        }
    }

    /// Notes a resize of the window; several before the next frame count as
    /// one.
    pub fn request_resize(&mut self)
        ensures
            final(self).window_resized,
            final(self).recreate_swapchain == old(self).recreate_swapchain,
            final(self).fences == old(self).fences,
            final(self).previous_fence == old(self).previous_fence,
            final(self).acquired == old(self).acquired,
    {
        self.window_resized = true;
    }

    /// Whether the swapchain must be rebuilt before this frame; consumes the
    /// request.
    pub fn take_recreate(&mut self) -> (r: bool)
        ensures
            r == (old(self).window_resized || old(self).recreate_swapchain),
            !final(self).window_resized,
            !final(self).recreate_swapchain,
            final(self).fences == old(self).fences,
            final(self).previous_fence == old(self).previous_fence,
            final(self).acquired == old(self).acquired,
    {
        let r = self.window_resized || self.recreate_swapchain;
        self.window_resized = false;
        self.recreate_swapchain = false;
        r
    }

    /// Decides on the outcome of an image acquisition: the image index and
    /// whether the swapchain is suboptimal, or the error.
    ///
    /// An out-of-date surface drops the frame and asks for a rebuild; a
    /// suboptimal one asks for a rebuild and renders the frame all the same.
    /// Any other error, or an image the slots do not cover, ends rendering.
    pub fn acquire(&mut self, result: Result<(u32, bool), SurfaceError>) -> (r: AcquireStep)
        requires
            old(self).wf(),
            old(self).acquired is None,
        ensures
            final(self).wf(),
            final(self).window_resized == old(self).window_resized,
            final(self).fences == old(self).fences,
            final(self).previous_fence == old(self).previous_fence,
            match result {
                Ok((image, suboptimal)) => if (image as int) < old(self).fences@.len() {
                    &&& r == (AcquireStep::Proceed {
                        image: image as usize,
                        wait_fence: old(self).fences@[image as int] == FenceSlot::Submitted,
                    })
                    &&& final(self).acquired == Some(image as usize)
                    &&& final(self).recreate_swapchain == (old(self).recreate_swapchain || suboptimal)
                    &&& final(self).acquired_from(*old(self), image as usize)
                    &&& final(self).can_record(image as usize) == (old(self).fences@[image as int]
                        == FenceSlot::Idle)
                } else {
                    &&& r == AcquireStep::Fatal
                    &&& final(self).acquired is None
                    &&& final(self).recreate_swapchain == old(self).recreate_swapchain
                },
                Err(SurfaceError::OutOfDate) => {
                    &&& r == AcquireStep::Skip
                    &&& final(self).acquired is None
                    &&& final(self).recreate_swapchain
                },
                Err(SurfaceError::Other) => {
                    &&& r == AcquireStep::Fatal
                    &&& final(self).acquired is None
                    &&& final(self).recreate_swapchain == old(self).recreate_swapchain
                },
            },
    {
        match result {
            Ok((image, suboptimal)) => {
                if (image as usize) < self.fences.len() {
                    if suboptimal {
                        self.recreate_swapchain = true;
                    }
                    let i = image as usize;
                    self.acquired = Some(i);
                    AcquireStep::Proceed { image: i, wait_fence: self.fences[i] == FenceSlot::Submitted }
                } else {
                    AcquireStep::Fatal
                }
            },
            Err(SurfaceError::OutOfDate) => {
                self.recreate_swapchain = true;
                AcquireStep::Skip
            },
            Err(SurfaceError::Other) => AcquireStep::Fatal,
        }
    }

    /// [`FrameSync::acquire`] on what vulkano's image acquisition returned.
    pub fn acquire_result(&mut self, result: Result<(u32, bool), VulkanError>) -> (r: AcquireStep)
        requires
            old(self).wf(),
            old(self).acquired is None,
        ensures
            final(self).wf(),
            final(self).window_resized == old(self).window_resized,
            final(self).fences == old(self).fences,
            final(self).previous_fence == old(self).previous_fence,
            match result {
                Ok((image, suboptimal)) => if (image as int) < old(self).fences@.len() {
                    &&& r == (AcquireStep::Proceed {
                        image: image as usize,
                        wait_fence: old(self).fences@[image as int] == FenceSlot::Submitted,
                    })
                    &&& final(self).acquired == Some(image as usize)
                    &&& final(self).recreate_swapchain == (old(self).recreate_swapchain || suboptimal)
                } else {
                    &&& r == AcquireStep::Fatal
                    &&& final(self).acquired is None
                },
                Err(_) => {
                    &&& final(self).acquired is None
                    &&& (r == AcquireStep::Skip && final(self).recreate_swapchain || r
                        == AcquireStep::Fatal && final(self).recreate_swapchain
                        == old(self).recreate_swapchain)
                },
            },
    {
        match result {
            Ok(v) => self.acquire(Ok(v)),
            Err(e) => {
                let kind = surface_error(&e);
                self.acquire(Err(kind))
            },
        }
    }

    /// Notes that the caller waited for the fence of the acquired image, or
    /// that there was none to wait for: its slot is idle.
    pub fn fence_waited(&mut self)
        requires
            old(self).wf(),
            old(self).acquired is Some,
        ensures
            final(self).wf(),
            final(self).waited_from(*old(self)),
            final(self).fences@ == old(self).fences@.update(old(self).acquired->0 as int, FenceSlot::Idle),
            final(self).can_record(old(self).acquired->0),
            final(self).window_resized == old(self).window_resized,
            final(self).recreate_swapchain == old(self).recreate_swapchain,
            final(self).previous_fence == old(self).previous_fence,
            final(self).acquired == old(self).acquired,
    {
        let i = self.acquired.unwrap();
        self.fences.set(i, FenceSlot::Idle);
    }

    /// The image whose submission the next one must follow: the last image
    /// submitted while its work may be outstanding, or none (start from now).
    pub fn previous_dependency(&self) -> (r: Option<usize>)
        requires
            self.wf(),
        ensures
            r == (if self.fences@[self.previous_fence as int] == FenceSlot::Submitted {
                Some(self.previous_fence)
            } else {
                None
            }),
    {
        if self.fences[self.previous_fence] == FenceSlot::Submitted {
            Some(self.previous_fence)
        } else {
            None
        }
    }

    /// Decides on the outcome of submitting and presenting the recorded work
    /// of the acquired image, which may only be recorded when nothing is
    /// outstanding for it. A successful submission's fence takes the slot;
    /// an out-of-date surface leaves it empty and asks for a rebuild; any
    /// other error ends rendering.
    pub fn submitted(&mut self, result: Result<(), SurfaceError>) -> (r: PresentStep)
        requires
            old(self).wf(),
            old(self).acquired is Some,
            old(self).can_record(old(self).acquired->0),
        ensures
            final(self).wf(),
            final(self).acquired is None,
            final(self).previous_fence == old(self).acquired->0,
            final(self).window_resized == old(self).window_resized,
            match result {
                Ok(()) => {
                    &&& r == PresentStep::Presented
                    &&& final(self).fences@ == old(self).fences@.update(
                        old(self).acquired->0 as int,
                        FenceSlot::Submitted,
                    )
                    &&& final(self).recreate_swapchain == old(self).recreate_swapchain
                },
                Err(SurfaceError::OutOfDate) => {
                    &&& r == PresentStep::Dropped
                    &&& final(self).fences == old(self).fences
                    &&& final(self).recreate_swapchain
                },
                Err(SurfaceError::Other) => {
                    &&& r == PresentStep::Fatal
                    &&& final(self).fences == old(self).fences
                    &&& final(self).recreate_swapchain == old(self).recreate_swapchain
                },
            },
    {
        let i = self.acquired.unwrap();
        self.acquired = None;
        self.previous_fence = i;
        match result {
            Ok(()) => {
                self.fences.set(i, FenceSlot::Submitted);
                PresentStep::Presented
            },
            Err(SurfaceError::OutOfDate) => {
                self.recreate_swapchain = true;
                PresentStep::Dropped
            },
            Err(SurfaceError::Other) => PresentStep::Fatal,
        }
    }

    /// [`FrameSync::submitted`] on what vulkano's flush returned.
    pub fn submitted_result<T>(&mut self, result: &Result<T, VulkanError>) -> (r: PresentStep)
        requires
            old(self).wf(),
            old(self).acquired is Some,
            old(self).can_record(old(self).acquired->0),
        ensures
            final(self).wf(),
            final(self).acquired is None,
            final(self).previous_fence == old(self).acquired->0,
            final(self).window_resized == old(self).window_resized,
            match result {
                Ok(_) => {
                    &&& r == PresentStep::Presented
                    &&& final(self).fences@ == old(self).fences@.update(
                        old(self).acquired->0 as int,
                        FenceSlot::Submitted,
                    )
                    &&& final(self).recreate_swapchain == old(self).recreate_swapchain
                },
                Err(_) => {
                    &&& final(self).fences == old(self).fences
                    &&& (r == PresentStep::Dropped && final(self).recreate_swapchain || r
                        == PresentStep::Fatal && final(self).recreate_swapchain
                        == old(self).recreate_swapchain)
                },
            },
    {
        match result {
            Ok(_) => self.submitted(Ok(())),
            Err(e) => {
                let kind = surface_error(e);
                self.submitted(Err(kind))
            },
        }
    }
}


/// No work is recorded for an image while its slot's last submission may be
/// outstanding: once such an image is acquired, recording (which
/// [`FrameSync::submitted`] requires) is refused, and it is permitted after
/// the wait for that slot's fence.
pub proof fn lemma_fence_discipline(before: FrameSync, acquired: FrameSync, waited: FrameSync, image: usize)
    requires
        before.wf(),
        image < before.fences@.len(),
        before.fences@[image as int] == FenceSlot::Submitted,
        acquired.acquired_from(before, image),
        waited.waited_from(acquired),
    ensures
        !acquired.can_record(image),
        waited.can_record(image),
{
}

/// The single point at which the surface is rebuilt: at the start of a
/// frame, if the window was resized or the swapchain reported itself out of
/// date or suboptimal since the last rebuild. Then the requests are consumed,
/// the viewport takes the drawable size, from which the projection's aspect
/// ratio is taken, and the caller rebuilds the swapchain, framebuffers and
/// pipelines.
pub fn handle_possible_resize(sync: &mut FrameSync, viewport: &mut Extent, drawable: Extent) -> (r: bool)
    ensures
        r == (old(sync).window_resized || old(sync).recreate_swapchain),
        !final(sync).window_resized,
        !final(sync).recreate_swapchain,
        final(sync).fences == old(sync).fences,
        final(sync).previous_fence == old(sync).previous_fence,
        final(sync).acquired == old(sync).acquired,
        *final(viewport) == if r { drawable } else { *old(viewport) },
{
    if sync.take_recreate() {
        *viewport = drawable;
        true
    } else {
        false
    }
}

} // verus!
