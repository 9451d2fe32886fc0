//! What drivers take from the platform's device description.

use crate::bytes::{from_be32, read_be_u32};
use vstd::prelude::*;

verus! {

/// Bytes of a page of the processor.
pub const PAGE_SIZE: usize = 4096;

/// Physical memory in single frames.
pub trait FrameSource {
    /// Allocates one page frame and returns its physical address.
    fn alloc_frame(&mut self) -> Option<u64>;

    /// Where a physical address is mapped.
    fn phys_to_virt(&mut self, paddr: u64) -> usize;
}

/// Kind of a device resource.
#[derive(Clone, Copy, Debug, PartialEq, Eq, Structural)]
pub enum ResourceKind {
    /// A memory range.
    Mem,
    /// An interrupt line.
    Irq,
    /// Anything else.
    Other,
}

/// One resource of a device; `end` is inclusive.
#[derive(Clone, Copy, Debug, PartialEq, Eq, Structural)]
pub struct Resource {
    pub kind: ResourceKind,
    pub start: usize,
    pub end: usize,
}

/// The first resource of a kind from `from` on.
pub open spec fn first_of(resources: Seq<Resource>, kind: ResourceKind, from: int) -> Option<
    Resource,
>
    decreases resources.len() - from,
{
    if from < 0 || from >= resources.len() {
        None
    } else if resources[from].kind == kind {
        Some(resources[from])
    } else {
        first_of(resources, kind, from + 1)
    }
}

pub fn first_resource(resources: &[Resource], kind: ResourceKind) -> (r: Option<Resource>)
    ensures
        r == first_of(resources@, kind, 0),
{
    let mut i: usize = 0;
    while i < resources.len()
        invariant
            i <= resources@.len(),
            first_of(resources@, kind, 0) == first_of(resources@, kind, i as int),
        decreases resources@.len() - i,
    {
        if resources[i].kind == kind {
            return Some(resources[i]);
        }
        i = i + 1;
    }
    None
}

/// Bytes of a resource, where its bounds make sense.
pub open spec fn span(resource: Resource) -> Option<int> {
    if resource.start <= resource.end && resource.end - resource.start < usize::MAX {
        Some(resource.end - resource.start + 1)
    } else {
        None
    }
}

impl Resource {
    /// Byte length of the resource, where its bounds make sense.
    pub fn size(&self) -> (r: Option<usize>)
        ensures
            match span(*self) {
                Some(n) => r is Some && r->0 == n,
                None => r is None,
            },
    {
        match self.end.checked_sub(self.start) {
            Some(value) => value.checked_add(1),
            None => None,
        }
    }
}

/// Start and length of the first memory resource; the length is zero where
/// its bounds make no sense.
pub fn first_mem_resource(resources: &[Resource]) -> (r: Option<(usize, usize)>)
    ensures
        match first_of(resources@, ResourceKind::Mem, 0) {
            Some(m) => r is Some && (r->0).0 == m.start && (r->0).1 == (match span(m) {
                Some(n) => n,
                None => 0,
            }),
            None => r is None,
        },
{
    match first_resource(resources, ResourceKind::Mem) {
        Some(resource) => {
            let size: usize = match resource.size() {
                Some(size) => size,
                None => 0,
            };
            Some((resource.start, size))
        },
        None => None,
    }
}

/// The first interrupt line.
pub fn first_irq(resources: &[Resource]) -> (r: Option<u32>)
    ensures
        match first_of(resources@, ResourceKind::Irq, 0) {
            Some(i) => r == Some(i.start as u32),
            None => r is None,
        },
{
    match first_resource(resources, ResourceKind::Irq) {
        Some(resource) => Some(resource.start as u32),
        None => None,
    }
}

/// The phandle of a node: its `phandle` property, or the older
/// `linux,phandle`, as one big-endian cell.
pub fn node_phandle(phandle: Option<&[u8]>, linux_phandle: Option<&[u8]>) -> (r: Option<u32>)
    ensures
        r == (match cell_of(phandle) {
            Some(v) => Some(v),
            None => cell_of(linux_phandle),
        }),
{
    match first_cell(phandle) {
        Some(value) => Some(value),
        None => first_cell(linux_phandle),
    }
}

/// The first cell of a property, where there is one.
pub open spec fn cell_of(property: Option<&[u8]>) -> Option<u32> {
    match property {
        Some(bytes) => if bytes@.len() >= 4 {
            Some(from_be32(bytes@, 0) as u32)
        } else {
            None
        },
        None => None,
    }
}

pub fn first_cell(property: Option<&[u8]>) -> (r: Option<u32>)
    ensures
        r == cell_of(property),
{
    match property {
        Some(bytes) => read_be_u32(bytes, 0),
        None => None,
    }
}

/// Phandle and stream of the first IOMMU specifier of a node.
pub fn iommu_spec(iommus: Option<&[u8]>) -> (r: Option<(u32, usize)>)
    ensures
        match iommus {
            Some(bytes) => if bytes@.len() >= 8 {
                r is Some && (r->0).0 == from_be32(bytes@, 0) && (r->0).1 == from_be32(bytes@, 4)
            } else {
                r is None
            },
            None => r is None,
        },
{
    match iommus {
        Some(bytes) => {
            match (read_be_u32(bytes, 0), read_be_u32(bytes, 4)) {
                (Some(phandle), Some(stream)) => Some((phandle, stream as usize)),
                _ => None,
            }
        },
        None => None,
    }
}

/// The memory resource with a given number among those of its kind.
pub open spec fn nth_of(resources: Seq<Resource>, kind: ResourceKind, from: int, nth: int) -> Option<
    Resource,
>
    decreases resources.len() - from,
{
    if from < 0 || from >= resources.len() {
        None
    } else if resources[from].kind != kind {
        nth_of(resources, kind, from + 1, nth)
    } else if nth == 0 {
        Some(resources[from])
    } else {
        nth_of(resources, kind, from + 1, nth - 1)
    }
}

pub fn nth_resource(resources: &[Resource], kind: ResourceKind, nth: usize) -> (r: Option<Resource>)
    ensures
        r == nth_of(resources@, kind, 0, nth as int),
{
    let mut i: usize = 0;
    let mut left: usize = nth;
    while i < resources.len()
        invariant
            i <= resources@.len(),
            nth_of(resources@, kind, 0, nth as int) == nth_of(
                resources@,
                kind,
                i as int,
                left as int,
            ),
        decreases resources@.len() - i,
    {
        if resources[i].kind == kind {
            if left == 0 {
                return Some(resources[i]);
            }
            left = left - 1;
        }
        i = i + 1;
    }
    None
}

/// The first resource of a kind is the one with number zero.
pub proof fn first_is_number_zero(resources: Seq<Resource>, kind: ResourceKind, from: int)
    requires
        0 <= from,
    ensures
        nth_of(resources, kind, from, 0) == first_of(resources, kind, from),
    decreases resources.len() - from,
{
    if from < resources.len() && resources[from].kind != kind {
        first_is_number_zero(resources, kind, from + 1);
    }
}

/// Why the registers of a device cannot be placed.
#[derive(Clone, Copy, Debug, PartialEq, Eq, Structural)]
pub enum RegionError {
    /// There is no memory resource.
    Missing,
    /// The bounds of the memory resource make no sense.
    Invalid,
}

/// Start and length of the first memory resource of a device.
pub fn register_region(resources: &[Resource]) -> (r: Result<(usize, usize), RegionError>)
    ensures
        match first_of(resources@, ResourceKind::Mem, 0) {
            None => r == Err::<(usize, usize), RegionError>(RegionError::Missing),
            Some(m) => match span(m) {
                None => r == Err::<(usize, usize), RegionError>(RegionError::Invalid),
                Some(n) => r is Ok && (r->Ok_0).0 == m.start && (r->Ok_0).1 == n,
            },
        },
{
    match first_resource(resources, ResourceKind::Mem) {
        Some(resource) => match resource.size() {
            Some(size) => Ok((resource.start, size)),
            None => Err(RegionError::Invalid),
        },
        None => Err(RegionError::Missing),
    }
}

} // verus!
