//! Resolution of video-encode command-line arguments and construction of the
//! filter graph used for perceptual quality comparison.
//!
//! The crate decides *which* arguments are handed to an external transcoding
//! tool: codec-specific defaults, keyframe-interval and scene-change
//! heuristics, pixel-format negotiation, hardware-decoder pipelines and a
//! reserved-flag deny list. It also builds the two-input filter-graph
//! expression for a quality measurement, with automatic model selection and
//! minimal upscaling. All decision logic is pure: external facts (probe
//! results, decoder capability listings, available parallelism) enter as
//! plain values.

pub mod auto_hw_decoder;
pub mod cuda_scaling_method;
pub mod encode;
pub mod encoder;
pub mod error;
pub mod fps;
pub mod probe;
pub mod vmaf_cuda_path_detection;
pub mod keyint;
pub mod laws;
pub mod pixel_format;
pub mod strutil;
pub mod vmaf;
