//! Numerically controlled oscillators: fixed clocks by index.

use crate::text::{any_is, lists};
use vstd::prelude::*;

verus! {

pub const APPLE_NCO_CLOCK_CELLS: usize = 1;

pub const APPLE_NCO_T8103_CLOCKS: usize = 6;

pub const APPLE_NCO_T6000_CLOCKS: usize = 4;

/// Why a clock request failed.
#[derive(Clone, Copy, Debug, PartialEq, Eq, Structural)]
pub enum ClkError {
    InvalidSpecifier,
    ClockNotFound,
    Unsupported,
}

/// Why a provider was not accepted.
#[derive(Clone, Copy, Debug, PartialEq, Eq, Structural)]
pub enum NcoProbeError {
    MissingPhandle,
    UnsupportedCells,
    ResolveReference,
    EnableReference,
}

impl NcoProbeError {
    pub fn message(self) -> (r: &'static str)
        ensures
            r@ == (match self {
                NcoProbeError::MissingPhandle => "apple-nco: missing phandle"@,
                NcoProbeError::UnsupportedCells => "apple-nco: unsupported #clock-cells"@,
                NcoProbeError::ResolveReference => "apple-nco: failed to resolve reference clock"@,
                NcoProbeError::EnableReference => "apple-nco: failed to enable reference clock"@,
            }),
    {
        match self {
            NcoProbeError::MissingPhandle => "apple-nco: missing phandle",
            NcoProbeError::UnsupportedCells => "apple-nco: unsupported #clock-cells",
            NcoProbeError::ResolveReference => "apple-nco: failed to resolve reference clock",
            NcoProbeError::EnableReference => "apple-nco: failed to enable reference clock",
        }
    }
}

/// One oscillator. It always runs and passes its parent's rate on. `P` is the
/// parent clock.
#[derive(Clone, Copy, Debug)]
pub struct AppleNcoClock<P> {
    pub index: u32,
    pub parent: Option<P>,
}

impl<P: Copy> AppleNcoClock<P> {
    pub fn new(index: u32, parent: Option<P>) -> (r: Self)
        ensures
            r.index == index,
            r.parent == parent,
    {
        AppleNcoClock { index, parent }
    }

    pub fn name(&self) -> (r: &'static str)
        ensures
            r@ == "apple-nco"@,
    {
        "apple-nco"
    }

    pub fn enable(&self) -> (r: Result<(), ClkError>)
        ensures
            r == Ok::<(), ClkError>(()),
    {
        Ok(())
    }

    /// The clock cannot be stopped: nothing happens.
    pub fn disable(&self) {
    }

    pub fn is_enabled(&self) -> (r: bool)
        ensures
            r,
    {
        true
    }

    pub fn recalc_rate(&self, parent_rate: u64) -> (r: u64)
        ensures
            r == parent_rate,
    {
        parent_rate
    }

    pub fn round_rate(&self, rate: u64) -> (r: Result<u64, ClkError>)
        ensures
            r == Ok::<u64, ClkError>(rate),
    {
        Ok(rate)
    }

    pub fn set_rate(&self) -> (r: Result<u64, ClkError>)
        ensures
            r == Err::<u64, ClkError>(ClkError::Unsupported),
    {
        Err(ClkError::Unsupported)
    }

    pub fn parent(&self) -> (r: Option<P>)
        ensures
            r == self.parent,
    {
        self.parent
    }
}

/// A row of oscillators.
pub struct AppleNcoProvider<P> {
    pub base: usize,
    pub size: usize,
    pub clocks: Vec<AppleNcoClock<P>>,
}

impl<P: Copy> AppleNcoProvider<P> {
    pub fn new(base: usize, size: usize, clock_count: usize, parent: Option<P>) -> (r: Self)
        requires
            clock_count <= u32::MAX,
        ensures
            r.base == base,
            r.size == size,
            r.clocks@ == Seq::new(
                clock_count as nat,
                |i: int| AppleNcoClock { index: i as u32, parent },
            ),
    {
        let ghost all = Seq::new(
            clock_count as nat,
            |i: int| AppleNcoClock { index: i as u32, parent },
        );
        let mut clocks: Vec<AppleNcoClock<P>> = Vec::new();
        let mut index: usize = 0;
        while index < clock_count
            invariant
                index <= clock_count,
                clock_count <= u32::MAX,
                all == Seq::new(
                    clock_count as nat,
                    |i: int| AppleNcoClock { index: i as u32, parent },
                ),
                clocks@ == all.take(index as int),
            decreases clock_count - index,
        {
            clocks.push(AppleNcoClock::new(index as u32, parent));
            assert(clocks@ =~= all.take(index + 1));
            index = index + 1;
        }
        assert(all.take(clock_count as int) =~= all);
        AppleNcoProvider { base, size, clocks }
    }

    pub fn name(&self) -> (r: &'static str)
        ensures
            r@ == "apple-nco"@,
    {
        "apple-nco"
    }

    pub fn clock_cells(&self) -> (r: usize)
        ensures
            r == 1,
    {
        APPLE_NCO_CLOCK_CELLS
    }

    /// The clock of a specifier.
    pub fn get_clk(&self, spec: &[u32]) -> (r: Result<AppleNcoClock<P>, ClkError>)
        ensures
            r == (if spec@.len() != 1 {
                Err::<AppleNcoClock<P>, ClkError>(ClkError::InvalidSpecifier)
            } else if spec@[0] >= self.clocks@.len() {
                Err(ClkError::ClockNotFound)
            } else {
                Ok(self.clocks@[spec@[0] as int])
            }),
    {
        if spec.len() != APPLE_NCO_CLOCK_CELLS {
            return Err(ClkError::InvalidSpecifier);
        }
        let index: usize = spec[0] as usize;
        if index >= self.clocks.len() {
            return Err(ClkError::ClockNotFound);
        }
        Ok(self.clocks[index])
    }
}

/// Number of oscillators of a device with the given compatible strings.
pub fn clock_count(compatible: &[&str]) -> (r: usize)
    ensures
        r == if lists(compatible@, "apple,t6000-nco"@) || lists(
            compatible@,
            "apple,t6020-nco"@,
        ) {
            4int
        } else {
            6int
        },
{
    if any_is(compatible, "apple,t6000-nco") || any_is(compatible, "apple,t6020-nco") {
        APPLE_NCO_T6000_CLOCKS
    } else {
        APPLE_NCO_T8103_CLOCKS
    }
}

/// Phandle of a provider, whose specifiers have one cell.
pub fn probe_properties(phandle: Option<usize>, clock_cells: Option<usize>) -> (r: Result<
    u32,
    NcoProbeError,
>)
    ensures
        r == (match phandle {
            None => Err::<u32, NcoProbeError>(NcoProbeError::MissingPhandle),
            Some(p) => if clock_cells is Some && clock_cells->0 != 1 {
                Err(NcoProbeError::UnsupportedCells)
            } else {
                Ok(p as u32)
            },
        }),
{
    let p: u32 = match phandle {
        Some(p) => p as u32,
        None => {
            return Err(NcoProbeError::MissingPhandle);
        },
    };
    let cells: usize = match clock_cells {
        Some(cells) => cells,
        None => APPLE_NCO_CLOCK_CELLS,
    };
    if cells != APPLE_NCO_CLOCK_CELLS {
        return Err(NcoProbeError::UnsupportedCells);
    }
    Ok(p)
}

/// Whether a reference clock is there, from whether one is described, found and
/// enabled.
pub fn resolve_parent_clock(described: bool, found: bool, enabled: bool) -> (r: Result<
    bool,
    NcoProbeError,
>)
    ensures
        r == (if !described {
            Ok::<bool, NcoProbeError>(false)
        } else if !found {
            Err(NcoProbeError::ResolveReference)
        } else if !enabled {
            Err(NcoProbeError::EnableReference)
        } else {
            Ok(true)
        }),
{
    if !described {
        return Ok(false);
    }
    if !found {
        return Err(NcoProbeError::ResolveReference);
    }
    if !enabled {
        return Err(NcoProbeError::EnableReference);
    }
    Ok(true)
}

} // verus!
