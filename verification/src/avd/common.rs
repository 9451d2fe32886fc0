//! Types shared by the codec frontends.

use vstd::prelude::*;

verus! {

/// Device-visible buffer range.
#[derive(Clone, Copy, Debug, PartialEq, Eq, Structural)]
pub struct AvdDmaRange {
    /// Device-visible DMA address.
    pub dma_addr: u64,
    /// Byte length of the range.
    pub len: usize,
}

/// Pixel format of a decoded frame.
#[derive(Clone, Copy, Debug, PartialEq, Eq, Structural)]
pub enum PixelFormat {
    /// Luma plane followed by one interleaved chroma plane.
    Nv12,
}

} // verus!
