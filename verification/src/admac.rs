//! Audio DMA controller: its channels and who holds them.

use vstd::prelude::*;

verus! {

pub const APPLE_ADMAC_DMA_CELLS: usize = 1;

/// Why a DMA request failed.
#[derive(Clone, Copy, Debug, PartialEq, Eq, Structural)]
pub enum DmaError {
    InvalidSpec,
    ChannelNotFound,
    ChannelBusy,
    NotPrepared,
    InvalidConfig,
    Unsupported,
}

/// Apple ADMAC DMA controller.
pub struct AppleAdmac {
    pub base: usize,
    pub size: usize,
    pub channel_count: usize,
    pub channel_in_use: Vec<bool>,
}

/// A channel that was requested. `C` is a cyclic transfer.
pub struct AppleAdmacChannel<C> {
    pub index: usize,
    pub prepared: Option<C>,
    pub running: bool,
}

/// How a request for a channel goes.
pub open spec fn channel_request(cells: Seq<u32>, in_use: Seq<bool>) -> Result<int, DmaError> {
    if cells.len() != 1 {
        Err(DmaError::InvalidSpec)
    } else if cells[0] >= in_use.len() {
        Err(DmaError::ChannelNotFound)
    } else if in_use[cells[0] as int] {
        Err(DmaError::ChannelBusy)
    } else {
        Ok(cells[0] as int)
    }
}

impl AppleAdmac {
    /// There is one entry for each channel.
    pub open spec fn wf(&self) -> bool {
        self.channel_in_use@.len() == self.channel_count
    }

    /// Where the registers lie.
    pub open spec fn same_place(&self, other: AppleAdmac) -> bool {
        &&& self.base == other.base
        &&& self.size == other.size
        &&& self.channel_count == other.channel_count
    }

    /// Create a controller with all channels free.
    pub fn new(base: usize, size: usize, channel_count: usize) -> (r: Self)
        ensures
            r.base == base,
            r.size == size,
            r.channel_count == channel_count,
            r.channel_in_use@ == Seq::new(channel_count as nat, |i: int| false),
            r.wf(),
    {
        let mut channel_in_use: Vec<bool> = Vec::new();
        let mut i: usize = 0;
        while i < channel_count
            invariant
                i <= channel_count,
                channel_in_use@ == Seq::new(i as nat, |i: int| false),
            decreases channel_count - i,
        {
            channel_in_use.push(false);
            assert(channel_in_use@ =~= Seq::new((i + 1) as nat, |i: int| false));
            i = i + 1;
        }
        AppleAdmac { base, size, channel_count, channel_in_use }
    }

    pub fn name(&self) -> (r: &'static str)
        ensures
            r@ == "apple-admac"@,
    {
        "apple-admac"
    }

    pub fn dma_cells(&self) -> (r: usize)
        ensures
            r == 1,
    {
        APPLE_ADMAC_DMA_CELLS
    }

    /// Hands out a free channel.
    pub fn request_channel<C>(&mut self, cells: &[u32]) -> (r: Result<
        AppleAdmacChannel<C>,
        DmaError,
    >)
        requires
            old(self).wf(),
        ensures
            final(self).wf(),
            final(self).same_place(*old(self)),
            match channel_request(cells@, old(self).channel_in_use@) {
                Err(e) => r is Err && r->Err_0 == e && final(self).channel_in_use@ == old(
                    self,
                ).channel_in_use@,
                Ok(i) => {
                    &&& r is Ok
                    &&& r->Ok_0.index == i
                    &&& r->Ok_0.prepared is None
                    &&& !r->Ok_0.running
                    &&& final(self).channel_in_use@ == old(self).channel_in_use@.update(i, true)
                },
            },
    {
        if cells.len() != APPLE_ADMAC_DMA_CELLS {
            return Err(DmaError::InvalidSpec);
        }
        let index: usize = cells[0] as usize;
        if index >= self.channel_count {
            return Err(DmaError::ChannelNotFound);
        }
        if self.channel_in_use[index] {
            return Err(DmaError::ChannelBusy);
        }
        self.channel_in_use.set(index, true);
        Ok(AppleAdmacChannel { index, prepared: None, running: false })
    }

    /// Takes a channel back.
    pub fn release_channel<C>(&mut self, channel: AppleAdmacChannel<C>)
        requires
            old(self).wf(),
        ensures
            final(self).wf(),
            final(self).same_place(*old(self)),
            final(self).channel_in_use@ == if channel.index < old(self).channel_in_use@.len() {
                old(self).channel_in_use@.update(channel.index as int, false)
            } else {
                old(self).channel_in_use@
            },
    {
        let index: usize = channel.index;
        if index < self.channel_in_use.len() {
            self.channel_in_use.set(index, false);
        }
    }
}

impl<C> AppleAdmacChannel<C> {
    pub fn name(&self) -> (r: &'static str)
        ensures
            r@ == "apple-admac-channel"@,
    {
        "apple-admac-channel"
    }

    /// Takes a transfer over that was found sound; one that was not is refused
    /// with what was found wrong.
    pub fn prepare_cyclic(&mut self, config: C, validated: Result<(), DmaError>) -> (r: Result<
        (),
        DmaError,
    >)
        ensures
            r == validated,
            final(self).index == old(self).index,
            final(self).running == old(self).running,
            final(self).prepared == if validated is Ok {
                Some(config)
            } else {
                old(self).prepared
            },
    {
        if let Err(error) = validated {
            return Err(error);
        }
        self.prepared = Some(config);
        proof {
            match validated {
                Ok(unit) => assert(validated == Ok::<(), DmaError>(())),
                Err(_) => {},
            }
        }
        Ok(())
    }

    /// Starting is not supported, and refused first for want of a transfer.
    pub fn start(&self) -> (r: Result<(), DmaError>)
        ensures
            r == Err::<(), DmaError>(
                if self.prepared is None {
                    DmaError::NotPrepared
                } else {
                    DmaError::Unsupported
                },
            ),
    {
        if self.prepared.is_none() {
            return Err(DmaError::NotPrepared);
        }
        Err(DmaError::Unsupported)
    }

    pub fn stop(&mut self) -> (r: Result<(), DmaError>)
        ensures
            r == Ok::<(), DmaError>(()),
            !final(self).running,
            final(self).index == old(self).index,
            final(self).prepared == old(self).prepared,
    {
        self.running = false;
        Ok(())
    }

    pub fn is_running(&self) -> (r: bool)
        ensures
            r == self.running,
    {
        self.running
    }
}

/// A channel that was handed out is refused to others until it is taken back.
pub proof fn channels_are_exclusive(cells: Seq<u32>, in_use: Seq<bool>)
    requires
        channel_request(cells, in_use) is Ok,
    ensures
        ({
            let i = channel_request(cells, in_use)->Ok_0;
            &&& channel_request(cells, in_use.update(i, true)) == Err::<int, DmaError>(
                DmaError::ChannelBusy,
            )
            &&& in_use.update(i, true).update(i, false) == in_use
        }),
{
    let i = channel_request(cells, in_use)->Ok_0;
    assert(in_use.update(i, true).update(i, false) =~= in_use);
}

/// Why a controller was not accepted.
#[derive(Clone, Copy, Debug, PartialEq, Eq, Structural)]
pub enum AdmacProbeError {
    MissingPhandle,
    MissingChannels,
    InvalidChannels,
    UnsupportedCells,
}

impl AdmacProbeError {
    pub fn message(self) -> (r: &'static str)
        ensures
            r@ == (match self {
                AdmacProbeError::MissingPhandle => "apple-admac: missing phandle"@,
                AdmacProbeError::MissingChannels => "apple-admac: missing dma-channels"@,
                AdmacProbeError::InvalidChannels => "apple-admac: invalid dma-channels"@,
                AdmacProbeError::UnsupportedCells => "apple-admac: unsupported #dma-cells"@,
            }),
    {
        match self {
            AdmacProbeError::MissingPhandle => "apple-admac: missing phandle",
            AdmacProbeError::MissingChannels => "apple-admac: missing dma-channels",
            AdmacProbeError::InvalidChannels => "apple-admac: invalid dma-channels",
            AdmacProbeError::UnsupportedCells => "apple-admac: unsupported #dma-cells",
        }
    }
}

/// Phandle and channel count of a controller.
pub fn probe_properties(
    phandle: Option<usize>,
    channels: Option<usize>,
    dma_cells: Option<usize>,
) -> (r: Result<(u32, usize), AdmacProbeError>)
    ensures
        r == (match (phandle, channels) {
            (None, _) => Err::<(u32, usize), AdmacProbeError>(AdmacProbeError::MissingPhandle),
            (Some(_), None) => Err(AdmacProbeError::MissingChannels),
            (Some(p), Some(n)) => if n == 0 {
                Err(AdmacProbeError::InvalidChannels)
            } else if dma_cells is Some && dma_cells->0 != 1 {
                Err(AdmacProbeError::UnsupportedCells)
            } else {
                Ok((p as u32, n))
            },
        }),
{
    let p: u32 = match phandle {
        Some(p) => p as u32,
        None => {
            return Err(AdmacProbeError::MissingPhandle);
        },
    };
    let n: usize = match channels {
        Some(n) => n,
        None => {
            return Err(AdmacProbeError::MissingChannels);
        },
    };
    if n == 0 {
        return Err(AdmacProbeError::InvalidChannels);
    }
    let cells: usize = match dma_cells {
        Some(cells) => cells,
        None => APPLE_ADMAC_DMA_CELLS,
    };
    if cells != APPLE_ADMAC_DMA_CELLS {
        return Err(AdmacProbeError::UnsupportedCells);
    }
    Ok((p, n))
}

} // verus!
