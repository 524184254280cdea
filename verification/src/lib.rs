//! Frame transport and decoding core for a networked thermal camera viewer.
//!
//! A producer sends fixed-size binary blocks over a byte stream: an opaque
//! telemetry header followed by a thermal payload of 16-bit big-endian
//! samples. This crate holds the verified core of the pipeline: a double
//! buffer that lets the receiver overwrite a back slot while a consumer reads
//! a stable front slot, the block-ingestion step that strips the telemetry
//! header, and the decoder that normalizes samples and maps them through a
//! perceptual color gradient into packed pixels.

use vstd::prelude::*;

pub mod buffer;
pub mod decode;
pub mod receiver;

verus! {

/// Width of the thermal image, in samples.
pub const WIDTH: usize = 160;

/// Height of the thermal image, in samples.
pub const HEIGHT: usize = 120;

/// Number of thermal samples in one frame.
pub const SAMPLE_COUNT: usize = 160 * 120;

/// Size in bytes of one frame store: every sample is two bytes.
pub const FRAME_BYTES: usize = 160 * 120 * 2;

/// Size in bytes of the opaque telemetry header that precedes the thermal
/// payload in every received block.
pub const TELEMETRY_LENGTH: usize = 640;

/// Size in bytes of one complete block on the wire: telemetry header plus
/// thermal payload.
pub const TOTAL_BLOCK_BYTES: usize = TELEMETRY_LENGTH + FRAME_BYTES;

} // verus!
