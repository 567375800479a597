//! The configuration a vision task is run with, taken from the function's
//! typed parameters and its camera.
use vstd::prelude::*;
use vstd::string::*;

use crate::config::params::{ColorDetectParams, ColorRangeConfig, QrDetectParams};
use crate::device::CameraDevice;

verus! {

/// A named HSV range: hue, saturation and value bounds, each low then high.
#[derive(Debug, Clone)]
pub struct ColorRange {
    pub name: String,
    pub hsv: [i32; 6],
}

/// The QR task's configuration: the camera to read and whether to show the frames.
#[derive(Debug, Clone)]
pub struct QrDetectConfig {
    pub path: String,
    pub debug_model: bool,
}

impl QrDetectConfig {
    /// The configuration for `camera` with the function's parameters.
    pub fn from_params(params: &QrDetectParams, camera: &CameraDevice) -> (r: Self)
        ensures
            r.path@ == camera.path@,
            r.debug_model == params.debug_model,
    {
        QrDetectConfig { path: camera.path.clone(), debug_model: params.debug_model }
    }
}

/// The colour ranges of the colour task, one per configured range, in order.
pub fn color_ranges(params: &ColorDetectParams) -> (r: Vec<ColorRange>)
    ensures
        r@.len() == params.color_ranges@.len(),
        forall|i: int| 0 <= i < r@.len() ==> #[trigger] r@[i].name@ == params.color_ranges@[i].name@
            && r@[i].hsv@ == params.color_ranges@[i].hsv@,
{
    let mut out: Vec<ColorRange> = Vec::new();
    let mut i: usize = 0;
    while i < params.color_ranges.len()
        invariant
            i <= params.color_ranges.len(),
            out@.len() == i,
            forall|k: int| 0 <= k < i ==> #[trigger] out@[k].name@ == params.color_ranges@[k].name@
                && out@[k].hsv@ == params.color_ranges@[k].hsv@,
        decreases params.color_ranges.len() - i,
    {
        let range: &ColorRangeConfig = &params.color_ranges[i];
        out.push(ColorRange { name: range.name.clone(), hsv: range.hsv });
        i += 1;
    }
    out
}

} // verus!
