//! Facts about an input stream, discovered by an external inspection
//! tool and consumed read-only.

use vstd::prelude::*;

use crate::fps::Fps;

verus! {

/// What probing an input reported. A `None` stands for a fact the probe
/// could not establish.
#[derive(Debug, Clone, PartialEq)]
pub struct Probe {
    /// Stream duration in milliseconds.
    pub duration_ms: Option<u64>,
    /// Frame rate.
    pub fps: Option<Fps>,
    /// Width and height.
    pub resolution: Option<(u32, u32)>,
    /// Audio channel count; `None` when the input carries no audio.
    pub audio_channels: Option<u32>,
    /// The input is a still image.
    pub is_image: bool,
}

impl Probe {
    /// A probe that established nothing.
    pub fn empty() -> (r: Probe)
        ensures
            r.duration_ms is None,
            r.fps is None,
            r.resolution is None,
            r.audio_channels is None,
            !r.is_image,
    {
        Probe {
            duration_ms: None,
            fps: None,
            resolution: None,
            audio_channels: None,
            is_image: false,
        }
    }
}

} // verus!
