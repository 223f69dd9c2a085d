//! Configuration types shared with the (external) device layer:
//! resolutions, range modes and color formats.

use vstd::prelude::*;

verus! {

/// Choose RGB or BGR ordering for color frames.
#[derive(Clone, Copy, Debug, PartialEq, Eq, Structural)]
pub enum ColorFormat {
    Rgb,
    Bgr,
}

/// The color resolutions a device offers.
#[derive(Clone, Copy, Debug, PartialEq, Eq, Structural)]
pub enum ColorResolution {
    Res640x480,
    Res800x600,
    Res1600x1200,
}

/// The RGB resolutions a device offers.
#[derive(Clone, Copy, Debug, PartialEq, Eq, Structural)]
pub enum RGBResolution {
    RGBRes640x480,
    RGBRes800x600,
    RGBRes1600x1200,
}

/// The selectable depth range modes of the camera.
#[derive(Clone, Copy, Debug, PartialEq, Eq, Structural)]
pub enum DepthRange {
    Near,
    Mid,
    Far,
}

/// The selectable depth measuring ranges of the camera.
#[derive(Clone, Copy, Debug, PartialEq, Eq, Structural)]
pub enum DepthMeasuringRange {
    Near,
    Mid,
    Far,
}

/// A frame resolution in pixels.
#[derive(Clone, Copy, Debug, PartialEq, Eq, Structural)]
pub struct Resolution {
    pub width: u32,
    pub height: u32,
}

impl Resolution {
    /// A resolution of `w` by `h` pixels.
    pub fn new(w: u32, h: u32) -> (r: Resolution)
        ensures
            r.width == w,
            r.height == h,
    {
        Resolution { width: w, height: h }
    }

    /// Width and height as an array.
    pub fn to_array(&self) -> (r: [u32; 2])
        ensures
            r[0] == self.width,
            r[1] == self.height,
    {
        [self.width, self.height]
    }

    /// Width and height as a tuple.
    pub fn to_tuple(&self) -> (r: (u32, u32))
        ensures
            r.0 == self.width,
            r.1 == self.height,
    {
        (self.width, self.height)
    }

    /// The total number of pixels, `width * height`.
    pub fn to_pixel_count(&self) -> (r: usize)
        requires
            self.width * self.height <= usize::MAX,
        ensures
            r == self.width * self.height,
    {
        self.width as usize * self.height as usize
    }

    /// The resolution with both sides doubled.
    pub fn double(&self) -> (r: Resolution)
        requires
            2 * self.width <= u32::MAX,
            2 * self.height <= u32::MAX,
        ensures
            r.width == 2 * self.width,
            r.height == 2 * self.height,
    {
        Resolution { width: 2 * self.width, height: 2 * self.height }
    }
}

/// The default depth and IR resolution of the supported cameras,
/// 640 by 480 pixels.
pub fn default_resolution() -> (r: Resolution)
    ensures
        r.width == 640,
        r.height == 480,
{
    Resolution { width: 640, height: 480 }
}

} // verus!
