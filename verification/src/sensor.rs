//! Sensors that deliver stereo frames.

use vstd::prelude::*;

verus! {

/// A sensor that delivers the two images of a stereo frame at a time.
pub trait HasStereoCamera {
    type FrameItem;

    /// The next left and right image, if there are any.
    fn get_stereo_frame(self) -> Option<(Self::FrameItem, Self::FrameItem)>;
}

} // verus!
