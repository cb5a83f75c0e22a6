use vstd::prelude::*;

verus! {

/// Why the next frame could not be acquired from the surface.
#[derive(Clone, Copy, Debug, PartialEq, Eq, Structural)]
pub enum FrameError {
    Timeout,
    Outdated,
    Lost,
    OutOfMemory,
}

/// What the renderer does about a frame it could not acquire.
#[derive(Clone, Copy, Debug, PartialEq, Eq, Structural)]
pub enum FrameAction {
    /// Drop this frame and try again with the next one.
    Skip,
    /// Configure the surface again for the current device, then go on with the next frame.
    Reconfigure,
    /// Nothing can be drawn any more: stop the process.
    Abort,
}

/// The frame-acquisition policy: a timeout or an outdated swapchain skips
/// the frame, a lost swapchain is reconfigured, running out of memory is fatal.
pub fn on_frame_error(e: FrameError) -> (r: FrameAction)
    ensures
        (e == FrameError::Timeout || e == FrameError::Outdated) ==> r == FrameAction::Skip,
        e == FrameError::Lost ==> r == FrameAction::Reconfigure,
        e == FrameError::OutOfMemory ==> r == FrameAction::Abort,
{
    match e {
        FrameError::Timeout => FrameAction::Skip,
        FrameError::Outdated => FrameAction::Skip,
        FrameError::Lost => FrameAction::Reconfigure,
        FrameError::OutOfMemory => FrameAction::Abort,
    }
}

/// The surface size a resize request leads to: a request with a zero side
/// (sent when a window is minimised) leaves the surface as it is.
pub fn resized_surface(current: (u32, u32), width: u32, height: u32) -> (r: (u32, u32))
    ensures
        width == 0 || height == 0 ==> r == current,
        width != 0 && height != 0 ==> r == (width, height),
{
    if width == 0 || height == 0 {
        current
    } else {
        (width, height)
    }
}

} // verus!
