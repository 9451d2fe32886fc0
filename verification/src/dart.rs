//! DART: the I/O memory management unit.

use crate::bus::{append_assoc, rd, reg, wr, Bus, Mmio, Op, Until};
use crate::memory::{
    double_word_at, double_word_kept, double_word_stored, faithful, memory_after, memory_append,
    memory_push, sees, stored, Memory,
};
use crate::bytes::le64;
use crate::platform::{FrameSource, PAGE_SIZE};
use crate::registry::{first_with_phandle, Registry};
use vstd::prelude::*;

verus! {

pub const DART_PARAMS1: usize = 0x00;

pub const DART_PARAMS2: usize = 0x04;

pub const DART_TCR: usize = 0x100;

pub const DART_TTBR: usize = 0x200;

pub const DART_ENABLE_STREAMS: usize = 0xfc;

pub const DART_STREAM_COMMAND: usize = 0x20;

pub const DART_ERROR_STATUS: usize = 0x40;

pub const DART_TCR_TRANSLATE_ENABLE: u32 = 0x80;

pub const DART_TCR_BYPASS_DART: u32 = 0x100;

pub const DART_TCR_BYPASS_DAPF: u32 = 0x1000;

pub const DART_TTBR_VALID: u32 = 0x8000_0000;

pub const DART_STREAM_COMMAND_BUSY: u32 = 4;

/// Bytes of a page of the unit.
pub const DART_PAGE_SIZE: u64 = 0x4000;

pub const DART_TABLE_SIZE: usize = 4096;

/// Subpage field that allows all of a page.
pub const DART_PTE_SUBPAGE_ALLOW_ALL: u64 = 0x000f_ff00_0000_0000;

pub const DART_PTE_VALID: u64 = 1;

pub const DART_PTE_SP_DIS: u64 = 2;

pub const DART_PTE_NO_WRITE: u64 = 0x80;

pub const DART_PTE_NO_READ: u64 = 0x100;

/// The address bits of an entry.
pub const DART_PADDR_MASK: u64 = 0x0000_000f_ffff_c000;

/// Why a request of the IOMMU interface was refused.
#[derive(Clone, Copy, Debug, PartialEq, Eq, Structural)]
pub enum IommuError {
    NotSupported,
    InvalidSpec,
    AttachFailed,
    DomainAllocationFailed,
    MapFailed,
}

/// Why a page table could not be built.
#[derive(Clone, Copy, Debug, PartialEq, Eq, Structural)]
pub enum DartError {
    /// No frame for the root table.
    NoRootFrame,
    /// No frame for a table below the root.
    NoTableFrame,
    /// A table is mapped across the end of the address space.
    TableOutOfReach,
}

impl DartError {
    /// The message as contracts speak of it.
    pub open spec fn text(self) -> Seq<char> {
        match self {
            DartError::NoRootFrame => "dart: failed to allocate root page table"@,
            DartError::NoTableFrame => "dart: failed to allocate page table"@,
            DartError::TableOutOfReach => "dart: page table out of reach"@,
        }
    }

    /// The message for the kernel log.
    pub fn message(self) -> (r: &'static str)
        ensures
            r@ == self.text(),
    {
        match self {
            DartError::NoRootFrame => "dart: failed to allocate root page table",
            DartError::NoTableFrame => "dart: failed to allocate page table",
            DartError::TableOutOfReach => "dart: page table out of reach",
        }
    }
}

/// A DMA stream of a device.
#[derive(Clone, Copy, Debug, PartialEq, Eq, Structural)]
pub struct IommuStreamId {
    pub id: u32,
    pub substream_id: Option<u32>,
}

/// What a mapping allows.
#[derive(Clone, Copy, Debug, PartialEq, Eq, Structural)]
pub struct IommuMapFlags {
    pub read: bool,
    pub write: bool,
    pub coherent: bool,
}

/// What a domain is for.
#[derive(Clone, Copy, Debug, PartialEq, Eq, Structural)]
pub enum IommuDomainType {
    /// Addresses pass unchanged.
    Identity,
    /// Addresses are translated.
    Translated,
}

/// What the hardware says of itself.
#[derive(Clone, Copy, Debug, PartialEq, Eq, Structural)]
pub struct DartParams {
    pub page_shift: u32,
    pub supports_bypass: bool,
    pub num_streams: u32,
}

/// The parameters that two registers encode.
pub open spec fn decoded_params(params1: u32, params2: u32) -> DartParams {
    let sid_width = (params1 >> 20) & 0xf;
    DartParams {
        page_shift: (params1 & 0x0f00_0000) >> 24,
        supports_bypass: params2 & 1 != 0,
        num_streams: if 0 < sid_width && sid_width <= 8 {
            1u32 << sid_width
        } else {
            16
        },
    }
}

/// Apple DART IOMMU hardware instance.
#[derive(Clone, Copy, Debug, PartialEq, Eq, Structural)]
pub struct DartInstance {
    pub base_addr: usize,
    pub params: DartParams,
}

/// The translation table base register of a stream.
pub open spec fn ttbr_value(paddr: u64) -> u32 {
    ((paddr >> 12) as u32) | 0x8000_0000
}

/// The root table in a translation table base register.
pub open spec fn root_in(value: u32) -> Option<u64> {
    if value & 0x8000_0000 == 0 {
        None
    } else {
        Some(((value & !0x8000_0000u32) as u64) << 12)
    }
}

/// The register of a stream gives back the root table that was put into it.
pub proof fn root_table_reads_back(paddr: u64)
    requires
        paddr % 0x1000 == 0,
        paddr < 0x800_0000_0000,
    ensures
        root_in(ttbr_value(paddr)) == Some(paddr),
{
    assert((((paddr >> 12) as u32) | 0x8000_0000u32) & 0x8000_0000u32 != 0 && (((((paddr >> 12) as u32)
        | 0x8000_0000u32) & !0x8000_0000u32) as u64) << 12 == paddr) by (bit_vector)
        requires
            paddr % 0x1000 == 0,
            paddr < 0x800_0000_0000,
    ;
}

/// The control register of a translated stream.
pub open spec fn tcr_value(num_levels: u32) -> u32 {
    0x80 | (if num_levels == 4 {
        3u32
    } else {
        2u32
    })
}

/// The writes that turn translation on for a stream.
pub open spec fn translate_ops(base: usize, sid: int, paddr: u64, num_levels: u32) -> Seq<Op> {
    seq![
        wr(base, 0x200 + 4 * sid, ttbr_value(paddr)),
        wr(base, 0x100 + 4 * sid, tcr_value(num_levels)),
    ]
}

/// The writes that let a stream bypass translation, or translate through no
/// table where the hardware cannot bypass.
pub open spec fn bypass_ops(dart: DartInstance, sid: int) -> Seq<Op> {
    if dart.params.supports_bypass {
        seq![wr(dart.base_addr, 0x100 + 4 * sid, 0x1100)]
    } else {
        translate_ops(dart.base_addr, sid, 0, 3)
    }
}

/// Flushing all translations, which waits until the hardware is no longer
/// busy. `hit` tells whether it came to that.
pub open spec fn flush_ops(base: usize, hit: bool) -> Seq<Op> {
    seq![
        wr(base, 0x20, 0),
        Op::Poll {
            addr: reg(base, 0x20),
            mask: 4,
            until: Until::Clear,
            tries: u64::MAX as nat,
            step_us: 0,
            hit,
        },
    ]
}

/// Bringing the hardware into a known state.
pub open spec fn reset_ops(dart: DartInstance, hit: bool) -> Seq<Op> {
    let n = dart.params.num_streams as nat;
    Seq::new(n, |i: int| wr(dart.base_addr, 0x100 + 4 * i, 0)) + Seq::new(
        n,
        |i: int| wr(dart.base_addr, 0xfc, i as u32),
    ) + flush_ops(dart.base_addr, hit) + seq![wr(dart.base_addr, 0x40, 0xffff_ffff)]
}

impl DartInstance {
    /// The register block lies in the address space.
    pub open spec fn wf(self) -> bool {
        self.base_addr + 0x1000 <= usize::MAX && self.params.num_streams <= 256
            && self.params.page_shift <= 15
    }

    /// Create a DART instance from a mapped MMIO base address.
    pub fn new<M: Mmio>(bus: &mut Bus<M>, base_addr: usize) -> (r: Self)
        requires
            base_addr + 0x1000 <= usize::MAX,
        ensures
            r.wf(),
            r.base_addr == base_addr,
            exists|params1: u32, params2: u32|
                r.params == #[trigger] decoded_params(params1, params2) && final(bus).ops() == old(
                    bus,
                ).ops() + seq![rd(base_addr, 0, params1), rd(base_addr, 4, params2)],
    {
        let ghost start = bus.ops();
        let raw_params1: u32 = bus.read32(base_addr + DART_PARAMS1);
        let raw_params2: u32 = bus.read32(base_addr + DART_PARAMS2);
        let page_shift: u32 = (raw_params1 & 0x0f00_0000) >> 24;
        let supports_bypass = raw_params2 & 1 != 0;
        let sid_width: u32 = (raw_params1 >> 20) & 0xf;
        let num_streams: u32 = if sid_width > 0 && sid_width <= 8 {
            1u32 << sid_width
        } else {
            16
        };
        proof {
            assert((raw_params1 & 0x0f00_0000u32) >> 24u32 <= 15 && (sid_width <= 8 ==> 1u32
                << sid_width <= 256)) by (bit_vector);
            assert(bus.ops() =~= start + seq![
                rd(base_addr, 0, raw_params1),
                rd(base_addr, 4, raw_params2),
            ]);
        }
        let params = DartParams { page_shift, supports_bypass, num_streams };
        assert(params == decoded_params(raw_params1, raw_params2));
        DartInstance { base_addr, params }
    }

    fn invalidate_all_tlbs<M: Mmio>(&self, bus: &mut Bus<M>)
        requires
            self.wf(),
        ensures
            exists|hit: bool|
                final(bus).ops() == old(bus).ops() + #[trigger] flush_ops(self.base_addr, hit),
    {
        let ghost start = bus.ops();
        bus.write32(self.base_addr + DART_STREAM_COMMAND, 0);
        let hit = bus.poll32(
            self.base_addr + DART_STREAM_COMMAND,
            DART_STREAM_COMMAND_BUSY,
            Until::Clear,
            u64::MAX,
            0,
        );
        assert(bus.ops() =~= start + flush_ops(self.base_addr, hit));
    }

    fn enable_streams<M: Mmio>(&self, bus: &mut Bus<M>, sid: u32)
        requires
            self.wf(),
        ensures
            final(bus).ops() == old(bus).ops().push(wr(self.base_addr, 0xfc, sid)),
    {
        bus.write32(self.base_addr + DART_ENABLE_STREAMS, sid);
    }

    fn set_tcr<M: Mmio>(&self, bus: &mut Bus<M>, sid: usize, val: u32)
        requires
            self.base_addr + 0x200 + 4 * sid <= usize::MAX,
        ensures
            final(bus).ops() == old(bus).ops().push(wr(self.base_addr, 0x100 + 4 * sid, val)),
    {
        bus.write32(self.base_addr + (DART_TCR + sid * 4), val);
    }

    fn set_ttbr<M: Mmio>(&self, bus: &mut Bus<M>, sid: usize, paddr: u64)
        requires
            self.base_addr + 0x200 + 4 * sid <= usize::MAX,
        ensures
            final(bus).ops() == old(bus).ops().push(
                wr(self.base_addr, 0x200 + 4 * sid, ttbr_value(paddr)),
            ),
    {
        let val: u32 = (paddr >> 12) as u32 | DART_TTBR_VALID;
        bus.write32(self.base_addr + (DART_TTBR + sid * 4), val);
    }

    /// Enable translated DMA for a stream ID.
    pub fn enable_translation<M: Mmio>(
        &self,
        bus: &mut Bus<M>,
        sid: usize,
        ttbr_paddr: u64,
        num_levels: u32,
    )
        requires
            self.base_addr + 0x200 + 4 * sid <= usize::MAX,
        ensures
            final(bus).ops() == old(bus).ops() + translate_ops(
                self.base_addr,
                sid as int,
                ttbr_paddr,
                num_levels,
            ),
    {
        let ghost start = bus.ops();
        self.set_ttbr(bus, sid, ttbr_paddr);
        let level_bits: u32 = match num_levels {
            3 => 2,
            4 => 3,
            _ => 2,
        };
        self.set_tcr(bus, sid, DART_TCR_TRANSLATE_ENABLE | level_bits);
        assert(bus.ops() =~= start + translate_ops(
            self.base_addr,
            sid as int,
            ttbr_paddr,
            num_levels,
        ));
    }

    /// The root table that a stream translates through, where one is set.
    pub fn ttbr_paddr<M: Mmio>(&self, bus: &mut Bus<M>, sid: usize) -> (r: Option<u64>)
        requires
            self.base_addr + 0x200 + 4 * sid <= usize::MAX,
        ensures
            exists|value: u32|
                final(bus).ops() == old(bus).ops().push(
                    #[trigger] rd(self.base_addr, 0x200 + 4 * sid, value),
                ) && r == root_in(value),
    {
        let value: u32 = bus.read32(self.base_addr + (DART_TTBR + sid * 4));
        assert(bus.ops() == old(bus).ops().push(rd(self.base_addr, 0x200 + 4 * sid, value)));
        if value & DART_TTBR_VALID == 0 {
            None
        } else {
            Some(((value & !DART_TTBR_VALID) as u64) << 12)
        }
    }

    /// Disable translated DMA for a stream ID.
    pub fn disable_translation<M: Mmio>(&self, bus: &mut Bus<M>, sid: usize)
        requires
            self.base_addr + 0x200 + 4 * sid <= usize::MAX,
        ensures
            final(bus).ops() == old(bus).ops().push(wr(self.base_addr, 0x100 + 4 * sid, 0)),
    {
        self.set_tcr(bus, sid, 0);
    }

    /// Enable hardware bypass mode for a stream ID when supported.
    pub fn enable_bypass<M: Mmio>(&self, bus: &mut Bus<M>, sid: usize)
        requires
            self.base_addr + 0x200 + 4 * sid <= usize::MAX,
        ensures
            final(bus).ops() == old(bus).ops() + bypass_ops(*self, sid as int),
    {
        if !self.params.supports_bypass {
            self.enable_translation(bus, sid, 0, 3);
            return;
        }
        let ghost start = bus.ops();
        proof {
            crate::arith::flags_combine();
        }
        self.set_tcr(bus, sid, DART_TCR_BYPASS_DART | DART_TCR_BYPASS_DAPF);
        assert(bus.ops() =~= start + bypass_ops(*self, sid as int));
    }

    /// Return the hardware page shift reported by the DART.
    pub fn page_shift(&self) -> (r: u32)
        ensures
            r == self.params.page_shift,
    {
        self.params.page_shift
    }

    /// Whether a page of the unit is larger than one of the processor.
    pub fn page_size_exceeds_cpu_page_size(&self) -> (r: bool)
        requires
            self.params.page_shift <= 15,
        ensures
            r == (self.params.page_shift > 12),
    {
        let shift: u32 = self.params.page_shift;
        assert(shift <= 15 ==> ((1u32 << shift) > 4096 <==> shift > 12)) by (bit_vector);
        (1u32 << shift) > PAGE_SIZE as u32
    }

    /// Disable all streams' translation, admit the streams, drop cached
    /// translations and clear recorded errors.
    pub fn reset<M: Mmio>(&self, bus: &mut Bus<M>)
        requires
            self.wf(),
        ensures
            exists|hit: bool|
                final(bus).ops() == old(bus).ops() + #[trigger] reset_ops(*self, hit),
    {
        let ghost start = bus.ops();
        let n: u32 = self.params.num_streams;
        let ghost off = Seq::new(n as nat, |i: int| wr(self.base_addr, 0x100 + 4 * i, 0));
        let ghost on = Seq::new(n as nat, |i: int| wr(self.base_addr, 0xfc, i as u32));
        let mut sid: u32 = 0;
        while sid < n
            invariant
                self.wf(),
                n == self.params.num_streams,
                sid <= n,
                off == Seq::new(n as nat, |i: int| wr(self.base_addr, 0x100 + 4 * i, 0)),
                bus.ops() == start + off.take(sid as int),
            decreases n - sid,
        {
            self.disable_translation(bus, sid as usize);
            assert(off.take(sid + 1) =~= off.take(sid as int).push(off[sid as int]));
            assert(bus.ops() =~= start + off.take(sid + 1));
            sid = sid + 1;
        }
        assert(off.take(n as int) =~= off);
        let ghost middle = bus.ops();
        sid = 0;
        while sid < n
            invariant
                self.wf(),
                n == self.params.num_streams,
                sid <= n,
                on == Seq::new(n as nat, |i: int| wr(self.base_addr, 0xfc, i as u32)),
                bus.ops() == middle + on.take(sid as int),
            decreases n - sid,
        {
            self.enable_streams(bus, sid);
            assert(on.take(sid + 1) =~= on.take(sid as int).push(on[sid as int]));
            assert(bus.ops() =~= middle + on.take(sid + 1));
            sid = sid + 1;
        }
        assert(on.take(n as int) =~= on);
        self.invalidate_all_tlbs(bus);
        let ghost hit = choose|hit: bool|
            bus.ops() == (middle + on) + #[trigger] flush_ops(self.base_addr, hit);
        bus.write32(self.base_addr + DART_ERROR_STATUS, 0xffff_ffff);
        proof {
            assert(bus.ops() =~= start + reset_ops(*self, hit));
        }
    }

    pub fn name(&self) -> (r: &'static str)
        ensures
            r@ == "apple-dart"@,
    {
        "apple-dart"
    }

    /// The streams of a firmware specifier: its first cell.
    pub fn stream_ids_from_fdt(&self, cells: &[u32]) -> (r: Result<Vec<IommuStreamId>, IommuError>)
        ensures
            cells@.len() == 0 ==> r is Err && r->Err_0 == IommuError::InvalidSpec,
            cells@.len() > 0 ==> r is Ok && (r->Ok_0)@ == seq![
                IommuStreamId { id: cells@[0], substream_id: None },
            ],
    {
        if cells.len() == 0 {
            return Err(IommuError::InvalidSpec);
        }
        let mut streams: Vec<IommuStreamId> = Vec::new();
        streams.push(IommuStreamId { id: cells[0], substream_id: None });
        assert(streams@ =~= seq![IommuStreamId { id: cells@[0], substream_id: None }]);
        Ok(streams)
    }

    /// Check a stream against the hardware.
    pub fn validate_stream(&self, stream: IommuStreamId) -> (r: Result<usize, IommuError>)
        ensures
            r == stream_check(self.params, stream),
    {
        if stream.substream_id.is_some() {
            return Err(IommuError::NotSupported);
        }
        if stream.id >= self.params.num_streams {
            return Err(IommuError::AttachFailed);
        }
        Ok(stream.id as usize)
    }

    /// Create a domain: one that bypasses translation where the hardware can
    /// and either that was asked for or its pages are larger than those of
    /// the processor, and one with a page table of its own otherwise.
    pub fn alloc_domain<M: Mmio, F: FrameSource>(
        &self,
        bus: &mut Bus<M>,
        frames: &mut F,
        domain_type: IommuDomainType,
    ) -> (r: Result<DartAnyDomain, IommuError>)
        requires
            self.wf(),
        ensures
            domain_bypasses(*self, domain_type) ==> r is Ok && (r->Ok_0) is Bypass
                && (r->Ok_0)->Bypass_0.dart == *self && (r->Ok_0)->Bypass_0.attached@.len() == 0
                && final(bus).ops() == old(bus).ops(),
            !domain_bypasses(*self, domain_type) && domain_type is Identity ==> r is Err
                && r->Err_0 == IommuError::NotSupported && final(bus).ops() == old(bus).ops(),
            !domain_bypasses(*self, domain_type) && !(domain_type is Identity) ==> match r {
                Ok(domain) => {
                    &&& domain is Translated
                    &&& domain->Translated_0.dart == *self
                    &&& domain->Translated_0.wf()
                    &&& domain->Translated_0.attached@.len() == 0
                },
                Err(e) => e == IommuError::DomainAllocationFailed,
            },
            !domain_bypasses(*self, domain_type) && !(domain_type is Identity) ==> exists|
                table: Result<DartPageTable, DartError>,
                frame: Option<u64>,
                vaddr: usize,
            |
                #[trigger] root_made(old(bus).ops(), final(bus).ops(), table, frame, vaddr)
                    && same_outcome(any_table(r), table),
    {
        let identity = match domain_type {
            IommuDomainType::Identity => true,
            IommuDomainType::Translated => false,
        };
        if self.params.supports_bypass && (identity || self.page_size_exceeds_cpu_page_size()) {
            return Ok(DartAnyDomain::Bypass(DartBypassDomain::new(*self)));
        }
        if identity {
            return Err(IommuError::NotSupported);
        }
        match DartDomain::new(bus, frames, *self) {
            Ok(domain) => Ok(DartAnyDomain::Translated(domain)),
            Err(e) => Err(e),
        }
    }
}

/// The page table of a new domain.
pub open spec fn own_table(r: Result<DartDomain, IommuError>) -> Option<DartPageTable> {
    match r {
        Ok(domain) => Some(domain.page_table),
        Err(_) => None,
    }
}

/// The page table of a new domain that translates.
pub open spec fn any_table(r: Result<DartAnyDomain, IommuError>) -> Option<DartPageTable> {
    match r {
        Ok(domain) => Some(domain->Translated_0.page_table),
        Err(_) => None,
    }
}

/// A domain has the page table that was made for it; there is none without.
pub open spec fn same_outcome(
    own: Option<DartPageTable>,
    made: Result<DartPageTable, DartError>,
) -> bool {
    match made {
        Ok(table) => own == Some(table),
        Err(_) => own is None,
    }
}

/// Whether a domain of the given type lets addresses pass.
pub open spec fn domain_bypasses(dart: DartInstance, domain_type: IommuDomainType) -> bool {
    dart.params.supports_bypass && (domain_type is Identity || dart.params.page_shift > 12)
}

/// How the check of a stream ends.
pub open spec fn stream_check(params: DartParams, stream: IommuStreamId) -> Result<
    usize,
    IommuError,
> {
    if stream.substream_id is Some {
        Err(IommuError::NotSupported)
    } else if stream.id >= params.num_streams {
        Err(IommuError::AttachFailed)
    } else {
        Ok(stream.id as usize)
    }
}

/// The attached streams with one more.
pub open spec fn with_stream(attached: Seq<u32>, sid: u32) -> Seq<u32> {
    if attached.contains(sid) {
        attached
    } else {
        attached.push(sid)
    }
}

/// The attached streams without one.
pub open spec fn without_stream(attached: Seq<u32>, sid: u32) -> Seq<u32> {
    attached.filter(other_than(sid))
}

/// Tells a stream from the others.
pub open spec fn other_than(sid: u32) -> spec_fn(u32) -> bool {
    |s: u32| s != sid
}

fn add_stream(attached: &mut Vec<u32>, sid: u32)
    ensures
        final(attached)@ == with_stream(old(attached)@, sid),
{
    let mut i: usize = 0;
    while i < attached.len()
        invariant
            i <= attached@.len(),
            attached@ == old(attached)@,
            forall|k: int| 0 <= k < i ==> attached@[k] != sid,
        decreases attached@.len() - i,
    {
        if attached[i] == sid {
            assert(attached@.contains(sid));
            return;
        }
        i = i + 1;
    }
    assert(!attached@.contains(sid));
    attached.push(sid);
}

fn drop_stream(attached: &Vec<u32>, sid: u32) -> (r: Vec<u32>)
    ensures
        r@ == without_stream(attached@, sid),
{
    let mut kept: Vec<u32> = Vec::new();
    let mut i: usize = 0;
    let ghost keep = other_than(sid);
    assert(attached@.take(0).filter(keep) =~= Seq::<u32>::empty()) by {
        reveal(Seq::filter);
    }
    while i < attached.len()
        invariant
            i <= attached@.len(),
            keep == other_than(sid),
            kept@ == attached@.take(i as int).filter(keep),
        decreases attached@.len() - i,
    {
        let stream: u32 = attached[i];
        proof {
            reveal(Seq::filter);
            let next = attached@.take(i + 1);
            assert(next.drop_last() =~= attached@.take(i as int));
            assert(next.last() == stream);
        }
        if stream != sid {
            kept.push(stream);
        }
        i = i + 1;
    }
    assert(attached@.take(i as int) =~= attached@);
    kept
}

/// Detaching removes a stream, and attaching it again brings it back.
pub proof fn detached_streams_are_gone(attached: Seq<u32>, sid: u32)
    ensures
        !without_stream(attached, sid).contains(sid),
        with_stream(without_stream(attached, sid), sid).contains(sid),
        with_stream(attached, sid).contains(sid),
{
    let gone = without_stream(attached, sid);
    let keep = other_than(sid);
    broadcast use vstd::seq_lib::group_filter_ensures;

    assert forall|i: int| 0 <= i < gone.len() implies gone[i] != sid by {
        assert(keep(gone[i]));
    }
    assert(gone.push(sid).last() == sid);
    if !attached.contains(sid) {
        assert(attached.push(sid).last() == sid);
    }
}

/// A domain whose streams bypass translation.
pub struct DartBypassDomain {
    pub dart: DartInstance,
    pub attached: Vec<u32>,
}

impl DartBypassDomain {
    pub fn new(dart: DartInstance) -> (r: Self)
        ensures
            r.dart == dart,
            r.attached@ == Seq::<u32>::empty(),
    {
        DartBypassDomain { dart, attached: Vec::new() }
    }

    pub fn attach_stream<M: Mmio>(&mut self, bus: &mut Bus<M>, stream: IommuStreamId) -> (r: Result<
        (),
        IommuError,
    >)
        requires
            old(self).dart.wf(),
        ensures
            final(self).dart == old(self).dart,
            match stream_check(old(self).dart.params, stream) {
                Ok(sid) => r is Ok && final(bus).ops() == old(bus).ops() + bypass_ops(
                    old(self).dart,
                    sid as int,
                ) && final(self).attached@ == with_stream(old(self).attached@, stream.id),
                Err(e) => r == Err::<(), _>(e) && final(bus).ops() == old(bus).ops() && final(self).attached@ == old(self).attached@,
            },
    {
        match self.dart.validate_stream(stream) {
            Ok(sid) => {
                self.dart.enable_bypass(bus, sid);
                add_stream(&mut self.attached, sid as u32);
                Ok(())
            },
            Err(e) => Err(e),
        }
    }

    pub fn detach_stream<M: Mmio>(&mut self, bus: &mut Bus<M>, stream: IommuStreamId) -> (r: Result<
        (),
        IommuError,
    >)
        requires
            old(self).dart.wf(),
        ensures
            final(self).dart == old(self).dart,
            match stream_check(old(self).dart.params, stream) {
                Ok(sid) => r is Ok && final(bus).ops() == old(bus).ops().push(
                    wr(old(self).dart.base_addr, 0x100 + 4 * sid, 0),
                ) && final(self).attached@ == without_stream(old(self).attached@, stream.id),
                Err(e) => r == Err::<(), _>(e) && final(bus).ops() == old(bus).ops() && final(self).attached@ == old(self).attached@,
            },
    {
        match self.dart.validate_stream(stream) {
            Ok(sid) => {
                self.dart.disable_translation(bus, sid);
                self.attached = drop_stream(&self.attached, sid as u32);
                Ok(())
            },
            Err(e) => Err(e),
        }
    }

    /// Nothing needs to be mapped where addresses pass unchanged.
    pub fn map(&self, _iova: u64, _paddr: u64, _len: u64, _flags: IommuMapFlags) -> (r: Result<
        (),
        IommuError,
    >)
        ensures
            r is Ok,
    {
        Ok(())
    }

    pub fn unmap(&self, _iova: u64, _len: u64) -> (r: Result<(), IommuError>)
        ensures
            r is Ok,
    {
        Ok(())
    }

    pub fn flush(&self) -> (r: Result<(), IommuError>)
        ensures
            r is Ok,
    {
        Ok(())
    }

    /// Every address stands for itself.
    pub fn iova_to_phys(&self, iova: u64) -> (r: Option<u64>)
        ensures
            r == Some(iova),
    {
        Some(iova)
    }
}

/// The flags of an entry for a mapping.
pub open spec fn pte_flags(flags: IommuMapFlags) -> u64 {
    let readable = if flags.read {
        3u64
    } else {
        3u64 | 0x100
    };
    if flags.write {
        readable
    } else {
        readable | 0x80
    }
}

pub fn dart_pte_flags(flags: IommuMapFlags) -> (r: u64)
    ensures
        r == pte_flags(flags),
{
    proof {
        crate::arith::flags_combine();
    }
    let mut pte: u64 = DART_PTE_VALID | DART_PTE_SP_DIS;
    if !flags.read {
        pte = pte | DART_PTE_NO_READ;
    }
    if !flags.write {
        pte = pte | DART_PTE_NO_WRITE;
    }
    pte
}

/// Where an address is looked up at a level; the root is level zero.
pub open spec fn slot_of(iova: u64, level: int) -> int {
    if level == 0 {
        ((iova >> 32) & 511) as int
    } else if level == 1 {
        ((iova >> 23) & 511) as int
    } else {
        ((iova >> 14) & 511) as int
    }
}

/// The entry that refers to a table.
pub open spec fn table_pte(frame: u64) -> u64 {
    (frame & 0x0000_000f_ffff_c000) | 1
}

/// The entry that maps a page.
pub open spec fn leaf_pte(paddr: u64, flags: u64) -> u64 {
    (paddr & 0x0000_000f_ffff_c000) | 0x000f_ff00_0000_0000 | flags
}

/// A table set to all zeroes.
pub open spec fn table_cleared(table: usize) -> Op {
    Op::WriteBytes { addr: table, bytes: Seq::new(4096, |i: int| 0u8) }
}

/// The address of an entry.
pub open spec fn slot_addr(table: usize, slot: int) -> usize {
    reg(table, 8 * slot)
}

/// How a step from a table to the one below goes.
pub enum Step {
    /// The entry refers to a table, which is mapped at `table`.
    Found { pte: u64, table: usize },
    /// The entry is empty and gets a new table in `frame`, mapped at `table`.
    Made { pte: u64, frame: u64, table: usize },
    /// The entry is empty and stays so: there is no frame, or none is wanted.
    Missing { pte: u64, wanted: bool },
    /// The table below, or a new one in `frame`, is mapped at `table`, across
    /// the end of the address space.
    Beyond { pte: u64, frame: Option<u64>, table: usize },
}

/// A step fits the entry it found.
pub open spec fn step_ok(step: Step) -> bool {
    match step {
        Step::Found { pte, table } => pte & 1 != 0 && table + 4096 <= usize::MAX,
        Step::Made { pte, frame, table } => pte & 1 == 0 && table + 4096 <= usize::MAX,
        Step::Missing { pte, wanted } => pte & 1 == 0,
        Step::Beyond { pte, frame, table } => (pte & 1 == 0) == (frame is Some) && table + 4096
            > usize::MAX,
    }
}

/// The table a step leads to.
pub open spec fn step_table(step: Step) -> Option<usize> {
    match step {
        Step::Found { pte, table } => Some(table),
        Step::Made { pte, frame, table } => Some(table),
        _ => None,
    }
}

/// The accesses of a step: the entry, then the table below or the frame for it.
pub open spec fn step_ops(table: usize, slot: int, step: Step) -> Seq<Op> {
    let at = slot_addr(table, slot);
    match step {
        Step::Found { pte, table } => seq![
            Op::Read64 { addr: at, wide: pte },
            Op::Lookup { paddr: pte & 0x0000_000f_ffff_c000, vaddr: table },
        ],
        Step::Made { pte, frame, table } => seq![
            Op::Read64 { addr: at, wide: pte },
            Op::Frame { frame: Some(frame) },
            Op::Lookup { paddr: frame, vaddr: table },
            table_cleared(table),
            Op::Write64 { addr: at, wide: table_pte(frame) },
        ],
        Step::Missing { pte, wanted } => if wanted {
            seq![Op::Read64 { addr: at, wide: pte }, Op::Frame { frame: None }]
        } else {
            seq![Op::Read64 { addr: at, wide: pte }]
        },
        Step::Beyond { pte, frame, table } => match frame {
            Some(paddr) => seq![
                Op::Read64 { addr: at, wide: pte },
                Op::Frame { frame },
                Op::Lookup { paddr, vaddr: table },
            ],
            None => seq![
                Op::Read64 { addr: at, wide: pte },
                Op::Lookup { paddr: pte & 0x0000_000f_ffff_c000, vaddr: table },
            ],
        },
    }
}

/// A step makes a table where one is missing; one that does not leaves an empty
/// entry alone.
pub open spec fn step_makes(step: Step, make: bool) -> bool {
    match step {
        Step::Found { pte, table } => true,
        Step::Made { pte, frame, table } => make,
        Step::Missing { pte, wanted } => wanted == make,
        Step::Beyond { pte, frame, table } => frame is Some ==> make,
    }
}

/// How a walk down the two upper levels goes.
pub struct Descent {
    pub first: Step,
    pub second: Step,
}

/// The leaf table a walk leads to.
pub open spec fn leaf_table(d: Descent) -> Option<usize> {
    match step_table(d.first) {
        Some(table) => step_table(d.second),
        None => None,
    }
}

/// A walk fits the entries it found.
pub open spec fn descent_ok(d: Descent) -> bool {
    &&& step_ok(d.first)
    &&& step_table(d.first) is Some ==> step_ok(d.second)
}

/// A walk makes the tables that are missing, or none.
pub open spec fn descent_makes(d: Descent, make: bool) -> bool {
    &&& step_makes(d.first, make)
    &&& step_table(d.first) is Some ==> step_makes(d.second, make)
}

/// The accesses of a walk.
pub open spec fn descent_ops(root: usize, iova: u64, d: Descent) -> Seq<Op> {
    match step_table(d.first) {
        Some(table) => step_ops(root, slot_of(iova, 0), d.first) + step_ops(
            table,
            slot_of(iova, 1),
            d.second,
        ),
        None => step_ops(root, slot_of(iova, 0), d.first),
    }
}

/// The accesses of mapping a page.
pub open spec fn map_ops(root: usize, iova: u64, paddr: u64, flags: u64, d: Descent) -> Seq<Op> {
    match leaf_table(d) {
        Some(table) => descent_ops(root, iova, d).push(
            Op::Write64 {
                addr: slot_addr(table, slot_of(iova, 2)),
                wide: leaf_pte(paddr, flags),
            },
        ),
        None => descent_ops(root, iova, d),
    }
}

/// Why a step did not lead to a table.
pub open spec fn step_error(step: Step) -> DartError {
    match step {
        Step::Beyond { pte, frame, table } => DartError::TableOutOfReach,
        _ => DartError::NoTableFrame,
    }
}

/// How mapping a page ends.
pub open spec fn map_result(d: Descent) -> Result<(), DartError> {
    match step_table(d.first) {
        Some(table) => match step_table(d.second) {
            Some(leaf) => Ok(()),
            None => Err(step_error(d.second)),
        },
        None => Err(step_error(d.first)),
    }
}

/// A page was mapped, or was not for want of a table.
pub open spec fn mapped_with(
    root: usize,
    before: Seq<Op>,
    after: Seq<Op>,
    iova: u64,
    paddr: u64,
    flags: u64,
    r: Result<(), DartError>,
    d: Descent,
) -> bool {
    &&& descent_ok(d)
    &&& descent_makes(d, true)
    &&& r == map_result(d)
    &&& after == before + map_ops(root, iova, paddr, flags, d)
}

/// The accesses of unmapping a page: its entry is cleared where there is one.
pub open spec fn unmap_ops(root: usize, iova: u64, d: Descent) -> Seq<Op> {
    match leaf_table(d) {
        Some(table) => descent_ops(root, iova, d).push(
            Op::Write64 { addr: slot_addr(table, slot_of(iova, 2)), wide: 0 },
        ),
        None => descent_ops(root, iova, d),
    }
}

/// Unmapping makes no tables.
pub open spec fn unmap_ok(d: Descent) -> bool {
    descent_ok(d) && descent_makes(d, false)
}

/// A page was unmapped, where it was mapped.
pub open spec fn unmapped_with(
    root: usize,
    before: Seq<Op>,
    after: Seq<Op>,
    iova: u64,
    d: Descent,
) -> bool {
    unmap_ok(d) && after == before + unmap_ops(root, iova, d)
}

fn slot(iova: u64, shift: u64) -> (r: usize)
    requires
        shift < 64,
    ensures
        r == ((iova >> shift) & 511),
        r < 512,
{
    assert((iova >> shift) & 511 < 512) by (bit_vector);
    ((iova >> shift) & 511) as usize
}

/// The accesses of making a root table: a frame, its place, zeroes in it.
pub open spec fn root_ops(frame: Option<u64>, vaddr: usize) -> Seq<Op> {
    match frame {
        None => seq![Op::Frame { frame }],
        Some(paddr) => if vaddr + 4096 > usize::MAX {
            seq![Op::Frame { frame }, Op::Lookup { paddr, vaddr }]
        } else {
            seq![Op::Frame { frame }, Op::Lookup { paddr, vaddr }, table_cleared(vaddr)]
        },
    }
}

/// How making a root table ends.
pub open spec fn root_result(frame: Option<u64>, vaddr: usize) -> Result<DartPageTable, DartError> {
    match frame {
        None => Err(DartError::NoRootFrame),
        Some(paddr) => if vaddr + 4096 > usize::MAX {
            Err(DartError::TableOutOfReach)
        } else {
            Ok(DartPageTable { root_paddr: paddr, root_vaddr: vaddr })
        },
    }
}

/// A root table was made, or could not be.
pub open spec fn root_made(
    before: Seq<Op>,
    after: Seq<Op>,
    r: Result<DartPageTable, DartError>,
    frame: Option<u64>,
    vaddr: usize,
) -> bool {
    r == root_result(frame, vaddr) && after == before + root_ops(frame, vaddr)
}

/// Apple DART three-level page table.
pub struct DartPageTable {
    pub root_paddr: u64,
    pub root_vaddr: usize,
}

impl DartPageTable {
    /// The root table lies in the address space.
    pub open spec fn wf(&self) -> bool {
        self.root_vaddr + 4096 <= usize::MAX
    }

    /// Allocate and zero a new root page table.
    pub fn new<M: Mmio, F: FrameSource>(bus: &mut Bus<M>, frames: &mut F) -> (r: Result<
        Self,
        DartError,
    >)
        ensures
            r is Ok ==> (r->Ok_0).wf(),
            exists|frame: Option<u64>, vaddr: usize| #[trigger]
                root_made(old(bus).ops(), final(bus).ops(), r, frame, vaddr),
    {
        let ghost start = bus.ops();
        let frame = bus.alloc_frame(frames);
        let root_paddr: u64 = match frame {
            Some(frame) => frame,
            None => {
                let r = Err(DartError::NoRootFrame);
                assert(bus.ops() =~= start + root_ops(frame, 0));
                assert(root_made(start, bus.ops(), r, frame, 0));
                return r;
            },
        };
        let root_vaddr: usize = bus.phys_to_virt(frames, root_paddr);
        if root_vaddr > usize::MAX - DART_TABLE_SIZE {
            let r = Err(DartError::TableOutOfReach);
            assert(bus.ops() =~= start + root_ops(frame, root_vaddr));
            assert(root_made(start, bus.ops(), r, frame, root_vaddr));
            return r;
        }
        bus.zero_bytes(root_vaddr, DART_TABLE_SIZE);
        let table = DartPageTable { root_paddr, root_vaddr };
        assert(bus.ops() =~= start + root_ops(frame, root_vaddr));
        assert(root_made(start, bus.ops(), Ok(table), frame, root_vaddr));
        Ok(table)
    }

    fn read_pte<M: Mmio>(bus: &mut Bus<M>, table_vaddr: usize, index: usize) -> (r: u64)
        requires
            table_vaddr + 4096 <= usize::MAX,
            index < 512,
        ensures
            final(bus).ops() == old(bus).ops().push(
                Op::Read64 { addr: slot_addr(table_vaddr, index as int), wide: r },
            ),
    {
        bus.read64(table_vaddr + index * 8)
    }

    fn write_pte<M: Mmio>(bus: &mut Bus<M>, table_vaddr: usize, index: usize, pte: u64)
        requires
            table_vaddr + 4096 <= usize::MAX,
            index < 512,
        ensures
            final(bus).ops() == old(bus).ops().push(
                Op::Write64 { addr: slot_addr(table_vaddr, index as int), wide: pte },
            ),
    {
        bus.write64(table_vaddr + index * 8, pte);
    }

    /// One step down; an empty entry gets a table where `make` asks for it.
    fn descend<M: Mmio, F: FrameSource>(
        bus: &mut Bus<M>,
        frames: &mut F,
        table: usize,
        index: usize,
        make: bool,
    ) -> (r: (Result<usize, DartError>, Ghost<Step>))
        requires
            table + 4096 <= usize::MAX,
            index < 512,
        ensures
            step_ok(r.1@),
            step_makes(r.1@, make),
            final(bus).ops() == old(bus).ops() + step_ops(table, index as int, r.1@),
            match step_table(r.1@) {
                Some(next) => r.0 == Ok::<usize, DartError>(next),
                None => r.0 == Err::<usize, DartError>(step_error(r.1@)),
            },
    {
        let ghost start = bus.ops();
        let pte: u64 = Self::read_pte(bus, table, index);
        if pte & DART_PTE_VALID == 0 {
            let ghost missing = Step::Missing { pte, wanted: make };
            if !make {
                assert(bus.ops() =~= start + step_ops(table, index as int, missing));
                return (Err(DartError::NoTableFrame), Ghost(missing));
            }
            let frame: u64 = match bus.alloc_frame(frames) {
                Some(frame) => frame,
                None => {
                    assert(bus.ops() =~= start + step_ops(table, index as int, missing));
                    return (Err(DartError::NoTableFrame), Ghost(missing));
                },
            };
            let next: usize = bus.phys_to_virt(frames, frame);
            if next > usize::MAX - DART_TABLE_SIZE {
                let ghost beyond = Step::Beyond { pte, frame: Some(frame), table: next };
                assert(bus.ops() =~= start + step_ops(table, index as int, beyond));
                return (Err(DartError::TableOutOfReach), Ghost(beyond));
            }
            bus.zero_bytes(next, DART_TABLE_SIZE);
            Self::write_pte(bus, table, index, (frame & DART_PADDR_MASK) | DART_PTE_VALID);
            let ghost made = Step::Made { pte, frame, table: next };
            assert(bus.ops() =~= start + step_ops(table, index as int, made));
            (Ok(next), Ghost(made))
        } else {
            let next: usize = bus.phys_to_virt(frames, pte & DART_PADDR_MASK);
            if next > usize::MAX - DART_TABLE_SIZE {
                let ghost beyond = Step::Beyond { pte, frame: None, table: next };
                assert(bus.ops() =~= start + step_ops(table, index as int, beyond));
                return (Err(DartError::TableOutOfReach), Ghost(beyond));
            }
            let ghost found = Step::Found { pte, table: next };
            assert(bus.ops() =~= start + step_ops(table, index as int, found));
            (Ok(next), Ghost(found))
        }
    }

    /// Walk down the two upper levels to a leaf table.
    fn walk_down<M: Mmio, F: FrameSource>(
        &self,
        bus: &mut Bus<M>,
        frames: &mut F,
        iova: u64,
        make: bool,
    ) -> (r: (Result<usize, DartError>, Ghost<Descent>))
        requires
            self.wf(),
        ensures
            descent_ok(r.1@),
            descent_makes(r.1@, make),
            final(bus).ops() == old(bus).ops() + descent_ops(self.root_vaddr, iova, r.1@),
            match leaf_table(r.1@) {
                Some(table) => r.0 == Ok::<usize, DartError>(table) && table + 4096 <= usize::MAX,
                None => map_result(r.1@) is Err && r.0 == Err::<usize, DartError>(
                    map_result(r.1@)->Err_0,
                ),
            },
    {
        let ghost start = bus.ops();
        let (upper, Ghost(first)) = Self::descend(bus, frames, self.root_vaddr, slot(iova, 32), make);
        match upper {
            Err(e) => {
                let ghost d = Descent { first, second: Step::Missing { pte: 0, wanted: make } };
                (Err(e), Ghost(d))
            },
            Ok(table) => {
                let (lower, Ghost(second)) = Self::descend(bus, frames, table, slot(iova, 23), make);
                let ghost d = Descent { first, second };
                proof {
                    append_assoc(
                        start,
                        step_ops(self.root_vaddr, slot_of(iova, 0), first),
                        step_ops(table, slot_of(iova, 1), second),
                    );
                }
                (lower, Ghost(d))
            },
        }
    }

    /// Map one DART page.
    pub fn map_page<M: Mmio, F: FrameSource>(
        &mut self,
        bus: &mut Bus<M>,
        frames: &mut F,
        iova: u64,
        paddr: u64,
        flags: u64,
    ) -> (r: Result<(), DartError>)
        requires
            old(self).wf(),
        ensures
            *final(self) == *old(self),
            exists|d: Descent| #[trigger]
                mapped_with(
                    old(self).root_vaddr,
                    old(bus).ops(),
                    final(bus).ops(),
                    iova,
                    paddr,
                    flags,
                    r,
                    d,
                ),
    {
        let ghost start = bus.ops();
        let (walked, Ghost(d)) = self.walk_down(bus, frames, iova, true);
        match walked {
            Ok(table) => {
                let leaf: u64 = (paddr & DART_PADDR_MASK) | DART_PTE_SUBPAGE_ALLOW_ALL | flags;
                Self::write_pte(bus, table, slot(iova, 14), leaf);
                proof {
                    assert(bus.ops() =~= start + map_ops(self.root_vaddr, iova, paddr, flags, d));
                    assert(mapped_with(
                        self.root_vaddr,
                        start,
                        bus.ops(),
                        iova,
                        paddr,
                        flags,
                        Ok(()),
                        d,
                    ));
                }
                Ok(())
            },
            Err(e) => {
                assert(mapped_with(
                    self.root_vaddr,
                    start,
                    bus.ops(),
                    iova,
                    paddr,
                    flags,
                    Err(e),
                    d,
                ));
                Err(e)
            },
        }
    }

    /// Unmap one DART page if present.
    pub fn unmap_page<M: Mmio, F: FrameSource>(
        &mut self,
        bus: &mut Bus<M>,
        frames: &mut F,
        iova: u64,
    )
        requires
            old(self).wf(),
        ensures
            *final(self) == *old(self),
            exists|d: Descent| #[trigger]
                unmapped_with(
                    old(self).root_vaddr,
                    old(bus).ops(),
                    final(bus).ops(),
                    iova,
                    d,
                ),
    {
        let ghost start = bus.ops();
        let (walked, Ghost(d)) = self.walk_down(bus, frames, iova, false);
        match walked {
            Ok(table) => {
                Self::write_pte(bus, table, slot(iova, 14), 0);
                assert(bus.ops() =~= start + unmap_ops(self.root_vaddr, iova, d));
            },
            Err(_) => {},
        }
        assert(unmapped_with(self.root_vaddr, start, bus.ops(), iova, d));
    }

    /// Return the physical address of the root page table.
    pub fn root_paddr(&self) -> (r: u64)
        ensures
            r == self.root_paddr,
    {
        self.root_paddr
    }

    /// Map a contiguous IOVA range to contiguous physical pages.
    pub fn map_contiguous<M: Mmio, F: FrameSource>(
        &mut self,
        bus: &mut Bus<M>,
        frames: &mut F,
        iova: u64,
        paddr: u64,
        size: u64,
        flags: u64,
    ) -> (r: Result<(), DartError>)
        requires
            old(self).wf(),
            page_count(size) > 0 ==> iova + (page_count(size) - 1) * 0x4000 <= u64::MAX && paddr + (
            page_count(size) - 1) * 0x4000 <= u64::MAX,
        ensures
            *final(self) == *old(self),
            exists|steps: Seq<Descent>| #[trigger]
                mapped_range(
                    old(self).root_vaddr,
                    old(bus).ops(),
                    final(bus).ops(),
                    iova,
                    paddr,
                    size,
                    flags,
                    r,
                    steps,
                ),
    {
        let pages: u64 = size / DART_PAGE_SIZE + (if size % DART_PAGE_SIZE != 0 {
            1u64
        } else {
            0u64
        });
        let ghost start = bus.ops();
        let root: usize = self.root_vaddr;
        let mut i: u64 = 0;
        let ghost mut steps: Seq<Descent> = Seq::empty();
        assert(start + map_run(root, iova, paddr, flags, steps) =~= start);
        while i < pages
            invariant
                i <= pages,
                pages == page_count(size),
                *self == *old(self),
                self.wf(),
                root == self.root_vaddr,
                pages > 0 ==> iova + (pages - 1) * 0x4000 <= u64::MAX && paddr + (pages - 1)
                    * 0x4000 <= u64::MAX,
                steps.len() == i,
                all_mapped(steps),
                start == old(bus).ops(),
                bus.ops() == start + map_run(root, iova, paddr, flags, steps),
            decreases pages - i,
        {
            let ghost before = bus.ops();
            let outcome = self.map_page(
                bus,
                frames,
                iova + i * DART_PAGE_SIZE,
                paddr + i * DART_PAGE_SIZE,
                flags,
            );
            proof {
                let d = choose|d: Descent| #[trigger]
                    mapped_with(
                        root,
                        before,
                        bus.ops(),
                        (iova + i * 0x4000) as u64,
                        (paddr + i * 0x4000) as u64,
                        flags,
                        outcome,
                        d,
                    );
                let more = map_ops(
                    root,
                    (iova + i * 0x4000) as u64,
                    (paddr + i * 0x4000) as u64,
                    flags,
                    d,
                );
                let next = steps.push(d);
                assert(next.drop_last() =~= steps);
                append_assoc(start, map_run(root, iova, paddr, flags, steps), more);
                steps = next;
                assert(bus.ops() == start + map_run(root, iova, paddr, flags, steps));
            }
            match outcome {
                Ok(()) => {},
                Err(e) => {
                    assert(steps.drop_last() =~= steps.take(i as int));
                    assert(mapped_range(
                        root,
                        start,
                        bus.ops(),
                        iova,
                        paddr,
                        size,
                        flags,
                        Err(e),
                        steps,
                    ));
                    return Err(e);
                },
            }
            i = i + 1;
        }
        assert(mapped_range(root, start, bus.ops(), iova, paddr, size, flags, Ok(()), steps));
        Ok(())
    }
}

/// Pages of the unit that cover a size.
pub open spec fn page_count(size: u64) -> int {
    (size + 0x3fff) / 0x4000
}

/// The accesses of mapping consecutive pages.
pub open spec fn map_run(
    root: usize,
    iova: u64,
    paddr: u64,
    flags: u64,
    steps: Seq<Descent>,
) -> Seq<Op>
    decreases steps.len(),
{
    if steps.len() == 0 {
        Seq::empty()
    } else {
        let i = steps.len() - 1;
        map_run(root, iova, paddr, flags, steps.drop_last()) + map_ops(
            root,
            (iova + i * 0x4000) as u64,
            (paddr + i * 0x4000) as u64,
            flags,
            steps.last(),
        )
    }
}

/// Every page was mapped.
pub open spec fn all_mapped(steps: Seq<Descent>) -> bool {
    forall|i: int|
        0 <= i < steps.len() ==> map_result(#[trigger] steps[i]) is Ok && descent_ok(steps[i])
            && descent_makes(steps[i], true)
}

/// A range was mapped page by page, up to the end or to the first failure.
pub open spec fn mapped_range(
    root: usize,
    before: Seq<Op>,
    after: Seq<Op>,
    iova: u64,
    paddr: u64,
    size: u64,
    flags: u64,
    r: Result<(), DartError>,
    steps: Seq<Descent>,
) -> bool {
    &&& after == before + map_run(root, iova, paddr, flags, steps)
    &&& match r {
        Ok(()) => steps.len() == page_count(size) && all_mapped(steps),
        Err(e) => {
            &&& 0 < steps.len() <= page_count(size)
            &&& all_mapped(steps.drop_last())
            &&& descent_ok(steps.last())
            &&& descent_makes(steps.last(), true)
            &&& map_result(steps.last()) == Err::<(), _>(e)
        },
    }
}

/// The accesses of unmapping consecutive pages.
pub open spec fn unmap_run(root: usize, iova: u64, steps: Seq<Descent>) -> Seq<Op>
    decreases steps.len(),
{
    if steps.len() == 0 {
        Seq::empty()
    } else {
        unmap_run(root, iova, steps.drop_last()) + unmap_ops(
            root,
            (iova + (steps.len() - 1) * 0x4000) as u64,
            steps.last(),
        )
    }
}

/// A range was unmapped and cached translations dropped.
pub open spec fn unmapped_range(
    dart: DartInstance,
    root: usize,
    before: Seq<Op>,
    after: Seq<Op>,
    iova: u64,
    len: u64,
    steps: Seq<Descent>,
    hit: bool,
) -> bool {
    &&& steps.len() == page_count(len)
    &&& forall|i: int| 0 <= i < steps.len() ==> unmap_ok(#[trigger] steps[i])
    &&& after == (before + unmap_run(root, iova, steps)) + flush_ops(dart.base_addr, hit)
}

/// A mapping through a domain, which drops cached translations once it is
/// complete.
pub open spec fn domain_mapped(
    domain: &DartDomain,
    before: Seq<Op>,
    after: Seq<Op>,
    iova: u64,
    paddr: u64,
    len: u64,
    flags: IommuMapFlags,
    r: Result<(), IommuError>,
    middle: Seq<Op>,
    table: Result<(), DartError>,
    steps: Seq<Descent>,
    hit: bool,
) -> bool {
    &&& mapped_range(
        domain.page_table.root_vaddr,
        before,
        middle,
        iova,
        paddr,
        len,
        pte_flags(flags),
        table,
        steps,
    )
    &&& match table {
        Ok(()) => r is Ok && after == middle + flush_ops(domain.dart.base_addr, hit),
        Err(e) => r == Err::<(), _>(IommuError::MapFailed) && after == middle,
    }
}

/// Apple DART translation domain backed by a private page table.
pub struct DartDomain {
    pub dart: DartInstance,
    pub page_table: DartPageTable,
    pub attached: Vec<u32>,
}

/// A domain of either kind.
pub enum DartAnyDomain {
    Bypass(DartBypassDomain),
    Translated(DartDomain),
}

impl DartDomain {
    /// Registers and root table lie in the address space.
    pub open spec fn wf(&self) -> bool {
        self.dart.wf() && self.page_table.wf()
    }

    /// Create a new DART translation domain.
    pub fn new<M: Mmio, F: FrameSource>(bus: &mut Bus<M>, frames: &mut F, dart: DartInstance) -> (r:
        Result<Self, IommuError>)
        ensures
            match r {
                Ok(domain) => {
                    &&& domain.dart == dart
                    &&& domain.page_table.wf()
                    &&& domain.attached@ == Seq::<u32>::empty()
                },
                Err(e) => e == IommuError::DomainAllocationFailed,
            },
            exists|table: Result<DartPageTable, DartError>, frame: Option<u64>, vaddr: usize|
                #[trigger] root_made(old(bus).ops(), final(bus).ops(), table, frame, vaddr)
                    && same_outcome(own_table(r), table),
    {
        match DartPageTable::new(bus, frames) {
            Ok(page_table) => Ok(DartDomain { dart, page_table, attached: Vec::new() }),
            Err(_) => Err(IommuError::DomainAllocationFailed),
        }
    }

    pub fn attach_stream<M: Mmio>(&mut self, bus: &mut Bus<M>, stream: IommuStreamId) -> (r: Result<
        (),
        IommuError,
    >)
        requires
            old(self).wf(),
        ensures
            final(self).dart == old(self).dart,
            final(self).page_table == old(self).page_table,
            match stream_check(old(self).dart.params, stream) {
                Ok(sid) => r is Ok && final(bus).ops() == old(bus).ops() + translate_ops(
                    old(self).dart.base_addr,
                    sid as int,
                    old(self).page_table.root_paddr,
                    3,
                ) && final(self).attached@ == with_stream(old(self).attached@, stream.id),
                Err(e) => r == Err::<(), _>(e) && final(bus).ops() == old(bus).ops() && final(self).attached@ == old(self).attached@,
            },
    {
        match self.dart.validate_stream(stream) {
            Ok(sid) => {
                let root_paddr: u64 = self.page_table.root_paddr();
                self.dart.enable_translation(bus, sid, root_paddr, 3);
                add_stream(&mut self.attached, sid as u32);
                Ok(())
            },
            Err(e) => Err(e),
        }
    }

    pub fn detach_stream<M: Mmio>(&mut self, bus: &mut Bus<M>, stream: IommuStreamId) -> (r: Result<
        (),
        IommuError,
    >)
        requires
            old(self).wf(),
        ensures
            final(self).dart == old(self).dart,
            final(self).page_table == old(self).page_table,
            match stream_check(old(self).dart.params, stream) {
                Ok(sid) => r is Ok && final(bus).ops() == old(bus).ops().push(
                    wr(old(self).dart.base_addr, 0x100 + 4 * sid, 0),
                ) && final(self).attached@ == without_stream(old(self).attached@, stream.id),
                Err(e) => r == Err::<(), _>(e) && final(bus).ops() == old(bus).ops() && final(self).attached@ == old(self).attached@,
            },
    {
        match self.dart.validate_stream(stream) {
            Ok(sid) => {
                self.dart.disable_translation(bus, sid);
                self.attached = drop_stream(&self.attached, sid as u32);
                Ok(())
            },
            Err(e) => Err(e),
        }
    }

    pub fn map<M: Mmio, F: FrameSource>(
        &mut self,
        bus: &mut Bus<M>,
        frames: &mut F,
        iova: u64,
        paddr: u64,
        len: u64,
        flags: IommuMapFlags,
    ) -> (r: Result<(), IommuError>)
        requires
            old(self).wf(),
            page_count(len) > 0 ==> iova + (page_count(len) - 1) * 0x4000 <= u64::MAX && paddr + (
            page_count(len) - 1) * 0x4000 <= u64::MAX,
        ensures
            *final(self) == *old(self),
            exists|middle: Seq<Op>, table: Result<(), DartError>, steps: Seq<Descent>, hit: bool|
                #[trigger] domain_mapped(
                    old(self),
                    old(bus).ops(),
                    final(bus).ops(),
                    iova,
                    paddr,
                    len,
                    flags,
                    r,
                    middle,
                    table,
                    steps,
                    hit,
                ),
    {
        let ghost start = bus.ops();
        let table = self.page_table.map_contiguous(
            bus,
            frames,
            iova,
            paddr,
            len,
            dart_pte_flags(flags),
        );
        let ghost middle = bus.ops();
        let ghost steps = choose|steps: Seq<Descent>| #[trigger]
            mapped_range(
                self.page_table.root_vaddr,
                start,
                middle,
                iova,
                paddr,
                len,
                pte_flags(flags),
                table,
                steps,
            );
        match table {
            Ok(()) => {
                let outcome = self.flush(bus);
                let ghost hit = choose|hit: bool|
                    bus.ops() == middle + #[trigger] flush_ops(self.dart.base_addr, hit);
                assert(domain_mapped(
                    old(self),
                    start,
                    bus.ops(),
                    iova,
                    paddr,
                    len,
                    flags,
                    outcome,
                    middle,
                    table,
                    steps,
                    hit,
                ));
                outcome
            },
            Err(_) => {
                let outcome = Err(IommuError::MapFailed);
                assert(domain_mapped(
                    old(self),
                    start,
                    bus.ops(),
                    iova,
                    paddr,
                    len,
                    flags,
                    outcome,
                    middle,
                    table,
                    steps,
                    false,
                ));
                outcome
            },
        }
    }

    pub fn unmap<M: Mmio, F: FrameSource>(
        &mut self,
        bus: &mut Bus<M>,
        frames: &mut F,
        iova: u64,
        len: u64,
    ) -> (r: Result<(), IommuError>)
        requires
            old(self).wf(),
            page_count(len) > 0 ==> iova + (page_count(len) - 1) * 0x4000 <= u64::MAX,
        ensures
            *final(self) == *old(self),
            r is Ok,
            exists|steps: Seq<Descent>, hit: bool| #[trigger]
                unmapped_range(
                    old(self).dart,
                    old(self).page_table.root_vaddr,
                    old(bus).ops(),
                    final(bus).ops(),
                    iova,
                    len,
                    steps,
                    hit,
                ),
    {
        let ghost start = bus.ops();
        let root: usize = self.page_table.root_vaddr;
        let pages: u64 = len / DART_PAGE_SIZE + (if len % DART_PAGE_SIZE != 0 {
            1u64
        } else {
            0u64
        });
        let mut page: u64 = 0;
        let ghost mut steps: Seq<Descent> = Seq::empty();
        assert(start + unmap_run(root, iova, steps) =~= start);
        while page < pages
            invariant
                page <= pages,
                pages == page_count(len),
                *self == *old(self),
                self.wf(),
                root == self.page_table.root_vaddr,
                pages > 0 ==> iova + (pages - 1) * 0x4000 <= u64::MAX,
                steps.len() == page,
                forall|i: int| 0 <= i < steps.len() ==> unmap_ok(#[trigger] steps[i]),
                bus.ops() == start + unmap_run(root, iova, steps),
            decreases pages - page,
        {
            let ghost before = bus.ops();
            self.page_table.unmap_page(bus, frames, iova + page * DART_PAGE_SIZE);
            proof {
                let d = choose|d: Descent| #[trigger]
                    unmapped_with(root, before, bus.ops(), (iova + page * 0x4000) as u64, d);
                let next = steps.push(d);
                assert(next.drop_last() =~= steps);
                append_assoc(
                    start,
                    unmap_run(root, iova, steps),
                    unmap_ops(root, (iova + page * 0x4000) as u64, d),
                );
                steps = next;
            }
            page = page + 1;
        }
        let ghost middle = bus.ops();
        let outcome = self.flush(bus);
        let ghost hit = choose|hit: bool|
            bus.ops() == middle + #[trigger] flush_ops(self.dart.base_addr, hit);
        assert(unmapped_range(self.dart, root, start, bus.ops(), iova, len, steps, hit));
        outcome
    }

    /// Translations are not looked up in software.
    pub fn iova_to_phys(&self, _iova: u64) -> (r: Option<u64>)
        ensures
            r is None,
    {
        None
    }

    pub fn flush<M: Mmio>(&self, bus: &mut Bus<M>) -> (r: Result<(), IommuError>)
        requires
            self.wf(),
        ensures
            r is Ok,
            exists|hit: bool|
                final(bus).ops() == old(bus).ops() + #[trigger] flush_ops(
                    self.dart.base_addr,
                    hit,
                ),
    {
        self.dart.invalidate_all_tlbs(bus);
        Ok(())
    }
}

/// Register a DART instance; returns its identifier.
pub fn register_dart(registry: &mut Registry<DartInstance>, instance: DartInstance, phandle: u32) -> (
id: u32)
    requires
        old(registry)@.len() <= u32::MAX,
    ensures
        id == old(registry)@.len(),
        final(registry)@ == old(registry)@.push((phandle, instance)),
{
    registry.register(instance, phandle)
}

/// Look up a DART instance by identifier.
pub fn get_dart(registry: &Registry<DartInstance>, id: u32) -> (r: Option<&DartInstance>)
    ensures
        r is Some <==> id < registry@.len(),
        r is Some ==> *r->0 == registry@[id as int].1,
{
    registry.get(id)
}

/// Look up a DART instance by firmware phandle.
pub fn get_dart_by_phandle(registry: &Registry<DartInstance>, phandle: u32) -> (r: Option<
    &DartInstance,
>)
    ensures
        match first_with_phandle(registry@, phandle, 0) {
            Some(i) => r == Some(&registry@[i].1),
            None => r is None,
        },
{
    registry.get_by_phandle(phandle)
}

/// The entry in a slot of a table.
pub open spec fn entry(m: Memory, table: usize, slot: int) -> u64 {
    double_word_at(m, table + 8 * slot)
}

/// The table an entry refers to, where physical memory is mapped by `virt_of`.
pub open spec fn table_of(pte: u64, virt_of: spec_fn(u64) -> usize) -> usize {
    virt_of(pte & 0x0000_000f_ffff_c000)
}

/// The valid entry that the hardware finds for an address.
pub open spec fn walk(m: Memory, root: usize, virt_of: spec_fn(u64) -> usize, iova: u64) -> Option<
    u64,
> {
    let e0 = entry(m, root, slot_of(iova, 0));
    if e0 & 1 == 0 {
        None
    } else {
        let t1 = table_of(e0, virt_of);
        let e1 = entry(m, t1, slot_of(iova, 1));
        if e1 & 1 == 0 {
            None
        } else {
            let leaf = entry(m, table_of(e1, virt_of), slot_of(iova, 2));
            if leaf & 1 == 0 {
                None
            } else {
                Some(leaf)
            }
        }
    }
}

/// Two tables do not overlap.
pub open spec fn apart(a: usize, b: usize) -> bool {
    a + 4096 <= b || b + 4096 <= a
}

/// A step was taken with physical memory mapped by `virt_of`; a new table
/// lies where an entry can refer to it.
pub open spec fn step_maps(step: Step, virt_of: spec_fn(u64) -> usize) -> bool {
    match step {
        Step::Found { pte, table } => table == table_of(pte, virt_of),
        Step::Made { pte, frame, table } => table == virt_of(frame) && frame
            & 0x0000_000f_ffff_c000 == frame,
        _ => true,
    }
}

/// The root and the two tables below it on a walk, none overlapping another.
pub open spec fn path_apart(root: usize, d: Descent) -> bool {
    match (step_table(d.first), step_table(d.second)) {
        (Some(t1), Some(t2)) => apart(root, t1) && apart(root, t2) && apart(t1, t2),
        _ => true,
    }
}

/// A walk that led to a leaf table, in a memory that holds what was read.
pub open spec fn walked(
    m: Memory,
    root: usize,
    virt_of: spec_fn(u64) -> usize,
    iova: u64,
    d: Descent,
) -> bool {
    &&& root + 4096 <= usize::MAX
    &&& descent_ok(d)
    &&& leaf_table(d) is Some
    &&& step_maps(d.first, virt_of)
    &&& step_maps(d.second, virt_of)
    &&& path_apart(root, d)
    &&& faithful(m, descent_ops(root, iova, d))
}

/// Every table has 512 slots.
pub proof fn slots_are_small(iova: u64)
    ensures
        forall|level: int| 0 <= #[trigger] slot_of(iova, level) < 512,
{
    assert((iova >> 32) & 511 < 512 && (iova >> 23) & 511 < 512 && (iova >> 14) & 511 < 512)
        by (bit_vector);
}

/// A step leaves a valid entry for the table it leads to, and changes nothing
/// but that entry and a table that it made.
proof fn step_effect(
    m: Memory,
    table: usize,
    slot: int,
    step: Step,
    virt_of: spec_fn(u64) -> usize,
)
    requires
        table + 4096 <= usize::MAX,
        0 <= slot < 512,
        step_ok(step),
        step_table(step) is Some,
        step_maps(step, virt_of),
        apart(table, step_table(step)->0),
        faithful(m, step_ops(table, slot, step)),
    ensures
        entry(memory_after(m, step_ops(table, slot, step)), table, slot) & 1 != 0,
        table_of(entry(memory_after(m, step_ops(table, slot, step)), table, slot), virt_of)
            == step_table(step)->0,
        step is Found ==> memory_after(m, step_ops(table, slot, step)) == m,
        step is Made ==> entry(m, table, slot) & 1 == 0,
        forall|b: int|
            (b + 8 <= table + 8 * slot || table + 8 * slot + 8 <= b) && (b + 8 <= step_table(
                step,
            )->0 || step_table(step)->0 + 4096 <= b) ==> #[trigger] double_word_at(
                memory_after(m, step_ops(table, slot, step)),
                b,
            ) == double_word_at(m, b),
{
    let at = table + 8 * slot;
    let ops = step_ops(table, slot, step);
    let none = Seq::<Op>::empty();
    match step {
        Step::Found { pte, table: next } => {
            let look = Op::Read64 { addr: slot_addr(table, slot), wide: pte };
            let place = Op::Lookup { paddr: pte & 0x0000_000f_ffff_c000, vaddr: next };
            assert(ops =~= none.push(look).push(place));
            memory_push(m, none, look);
            memory_push(m, none.push(look), place);
            assert(sees(m, look));
        },
        Step::Made { pte, frame, table: next } => {
            let look = Op::Read64 { addr: slot_addr(table, slot), wide: pte };
            let clear = table_cleared(next);
            let link = Op::Write64 { addr: slot_addr(table, slot), wide: table_pte(frame) };
            let get = Op::Frame { frame: Some(frame) };
            let place = Op::Lookup { paddr: frame, vaddr: next };
            let found = none.push(look).push(get).push(place);
            assert(ops =~= found.push(clear).push(link));
            memory_push(m, none, look);
            memory_push(m, none.push(look), get);
            memory_push(m, none.push(look).push(get), place);
            memory_push(m, found, clear);
            memory_push(m, found.push(clear), link);
            assert(sees(m, look));
            let zeros = Seq::new(4096, |i: int| 0u8);
            let m1 = stored(m, next as int, zeros);
            let m2 = memory_after(m, ops);
            assert(m2 == stored(m1, at, le64(table_pte(frame))));
            double_word_stored(m1, at, table_pte(frame));
            assert((frame & 0x0000_000f_ffff_c000) == frame ==> ((frame & 0x0000_000f_ffff_c000)
                | 1) & 1 != 0 && (((frame & 0x0000_000f_ffff_c000) | 1) & 0x0000_000f_ffff_c000)
                == frame) by (bit_vector);
            assert forall|b: int|
                (b + 8 <= at || at + 8 <= b) && (b + 8 <= next || next + 4096
                    <= b) implies #[trigger] double_word_at(m2, b) == double_word_at(m, b) by {
                double_word_kept(m, next as int, zeros, b);
                double_word_kept(m1, at, le64(table_pte(frame)), b);
            }
        },
        _ => {},
    }
}

/// What a walk leaves behind: a path of valid entries from the root to the
/// leaf table, and everything else as it was.
proof fn descent_effect(
    m: Memory,
    root: usize,
    virt_of: spec_fn(u64) -> usize,
    iova: u64,
    d: Descent,
)
    requires
        walked(m, root, virt_of, iova, d),
    ensures
        ({
            let after = memory_after(m, descent_ops(root, iova, d));
            let t1 = step_table(d.first)->0;
            let t2 = leaf_table(d)->0;
            let e0 = entry(after, root, slot_of(iova, 0));
            let e1 = entry(after, t1, slot_of(iova, 1));
            &&& t1 + 4096 <= usize::MAX && t2 + 4096 <= usize::MAX
            &&& e0 & 1 != 0 && table_of(e0, virt_of) == t1
            &&& e1 & 1 != 0 && table_of(e1, virt_of) == t2
            &&& d.first is Made ==> entry(m, root, slot_of(iova, 0)) & 1 == 0
            &&& d.first is Found ==> e0 == entry(m, root, slot_of(iova, 0))
            &&& d.first is Found && d.second is Made ==> entry(m, t1, slot_of(iova, 1)) & 1 == 0
            &&& d.first is Found && d.second is Found ==> e1 == entry(m, t1, slot_of(iova, 1))
            &&& forall|b: int|
                {
                    &&& (b + 8 <= root + 8 * slot_of(iova, 0) || root + 8 * slot_of(iova, 0) + 8
                        <= b)
                    &&& (d.first is Found || b + 8 <= t1 || t1 + 4096 <= b)
                    &&& (b + 8 <= t1 + 8 * slot_of(iova, 1) || t1 + 8 * slot_of(iova, 1) + 8 <= b)
                    &&& (b + 8 <= t2 || t2 + 4096 <= b || (d.first is Found && d.second is Found))
                } ==> #[trigger] double_word_at(after, b) == double_word_at(m, b)
        }),
{
    slots_are_small(iova);
    let s0 = slot_of(iova, 0);
    let s1 = slot_of(iova, 1);
    let t1 = step_table(d.first)->0;
    let t2 = step_table(d.second)->0;
    let upper = step_ops(root, s0, d.first);
    let lower = step_ops(t1, s1, d.second);
    memory_append(m, upper, lower);
    let m1 = memory_after(m, upper);
    let m2 = memory_after(m1, lower);
    step_effect(m, root, s0, d.first, virt_of);
    step_effect(m1, t1, s1, d.second, virt_of);
    assert(entry(m2, root, s0) == entry(m1, root, s0));
    assert forall|b: int|
        {
            &&& (b + 8 <= root + 8 * s0 || root + 8 * s0 + 8 <= b)
            &&& (d.first is Found || b + 8 <= t1 || t1 + 4096 <= b)
            &&& (b + 8 <= t1 + 8 * s1 || t1 + 8 * s1 + 8 <= b)
            &&& (b + 8 <= t2 || t2 + 4096 <= b || (d.first is Found && d.second is Found))
        } implies #[trigger] double_word_at(m2, b) == double_word_at(m, b) by {
        if d.second is Made {
            assert(double_word_at(m2, b) == double_word_at(m1, b));
        }
        if d.first is Made {
            assert(double_word_at(m1, b) == double_word_at(m, b));
        }
    }
}

/// A page that was mapped is what the hardware then finds at its address.
pub proof fn mapped_page_is_found(
    m: Memory,
    root: usize,
    virt_of: spec_fn(u64) -> usize,
    iova: u64,
    paddr: u64,
    flags: u64,
    d: Descent,
)
    requires
        walked(m, root, virt_of, iova, d),
        flags & 1 == 1,
    ensures
        walk(memory_after(m, map_ops(root, iova, paddr, flags, d)), root, virt_of, iova) == Some(
            leaf_pte(paddr, flags),
        ),
{
    slots_are_small(iova);
    descent_effect(m, root, virt_of, iova, d);
    let t1 = step_table(d.first)->0;
    let t2 = leaf_table(d)->0;
    let ops = descent_ops(root, iova, d);
    let leaf = leaf_pte(paddr, flags);
    let put = Op::Write64 { addr: slot_addr(t2, slot_of(iova, 2)), wide: leaf };
    memory_push(m, ops, put);
    let before = memory_after(m, ops);
    let at = t2 + 8 * slot_of(iova, 2);
    double_word_stored(before, at, leaf);
    double_word_kept(before, at, le64(leaf), root + 8 * slot_of(iova, 0));
    double_word_kept(before, at, le64(leaf), t1 + 8 * slot_of(iova, 1));
    assert(flags & 1 == 1 ==> ((paddr & 0x0000_000f_ffff_c000) | 0x000f_ff00_0000_0000 | flags) & 1
        != 0) by (bit_vector);
}

/// A page that was unmapped is no longer found.
pub proof fn unmapped_page_is_gone(
    m: Memory,
    root: usize,
    virt_of: spec_fn(u64) -> usize,
    iova: u64,
    d: Descent,
)
    requires
        walked(m, root, virt_of, iova, d),
    ensures
        walk(memory_after(m, unmap_ops(root, iova, d)), root, virt_of, iova) is None,
{
    slots_are_small(iova);
    descent_effect(m, root, virt_of, iova, d);
    let t1 = step_table(d.first)->0;
    let t2 = leaf_table(d)->0;
    let ops = descent_ops(root, iova, d);
    let put = Op::Write64 { addr: slot_addr(t2, slot_of(iova, 2)), wide: 0 };
    memory_push(m, ops, put);
    let before = memory_after(m, ops);
    let at = t2 + 8 * slot_of(iova, 2);
    double_word_stored(before, at, 0);
    double_word_kept(before, at, le64(0), root + 8 * slot_of(iova, 0));
    double_word_kept(before, at, le64(0), t1 + 8 * slot_of(iova, 1));
    crate::arith::flags_combine();
}

/// The tables on the way to another page: shared exactly where the upper
/// parts of the two addresses agree, and apart otherwise.
pub open spec fn other_path_apart(
    m: Memory,
    root: usize,
    virt_of: spec_fn(u64) -> usize,
    iova: u64,
    d: Descent,
    other: u64,
) -> bool {
    let t1 = step_table(d.first)->0;
    let t2 = leaf_table(d)->0;
    let u1 = table_of(entry(m, root, slot_of(other, 0)), virt_of);
    let u2 = table_of(entry(m, u1, slot_of(other, 1)), virt_of);
    let same_upper = slot_of(other, 0) == slot_of(iova, 0);
    let same_lower = same_upper && slot_of(other, 1) == slot_of(iova, 1);
    &&& apart(root, u1) && apart(root, u2) && apart(u1, u2)
    &&& apart(u1, t2) && apart(u2, t1)
    &&& same_upper || apart(u1, t1)
    &&& same_lower || apart(u2, t2)
}

/// Writing the leaf entry of one page leaves every other mapped page alone.
proof fn other_pages_stay(
    m: Memory,
    root: usize,
    virt_of: spec_fn(u64) -> usize,
    iova: u64,
    d: Descent,
    leaf: u64,
    other: u64,
)
    requires
        walked(m, root, virt_of, iova, d),
        walk(m, root, virt_of, other) is Some,
        other_path_apart(m, root, virt_of, iova, d, other),
        slot_of(other, 0) != slot_of(iova, 0) || slot_of(other, 1) != slot_of(iova, 1) || slot_of(
            other,
            2,
        ) != slot_of(iova, 2),
    ensures
        walk(
            memory_after(
                m,
                descent_ops(root, iova, d).push(
                    Op::Write64 {
                        addr: slot_addr(leaf_table(d)->0, slot_of(iova, 2)),
                        wide: leaf,
                    },
                ),
            ),
            root,
            virt_of,
            other,
        ) == walk(m, root, virt_of, other),
{
    slots_are_small(iova);
    slots_are_small(other);
    descent_effect(m, root, virt_of, iova, d);
    let t1 = step_table(d.first)->0;
    let t2 = leaf_table(d)->0;
    let u1 = table_of(entry(m, root, slot_of(other, 0)), virt_of);
    let u2 = table_of(entry(m, u1, slot_of(other, 1)), virt_of);
    let ops = descent_ops(root, iova, d);
    let put = Op::Write64 { addr: slot_addr(t2, slot_of(iova, 2)), wide: leaf };
    memory_push(m, ops, put);
    let before = memory_after(m, ops);
    let after = memory_after(m, ops.push(put));
    let at = t2 + 8 * slot_of(iova, 2);
    let b0 = root + 8 * slot_of(other, 0);
    let b1 = u1 + 8 * slot_of(other, 1);
    let b2 = u2 + 8 * slot_of(other, 2);
    // The root entry.
    if slot_of(other, 0) == slot_of(iova, 0) {
        assert(d.first is Found);
        assert(u1 == t1);
    }
    assert(double_word_at(before, b0) == double_word_at(m, b0));
    double_word_kept(before, at, le64(leaf), b0);
    // The entry of the middle table.
    if slot_of(other, 0) == slot_of(iova, 0) && slot_of(other, 1) == slot_of(iova, 1) {
        assert(d.second is Found);
        assert(u2 == t2);
    }
    assert(double_word_at(before, b1) == double_word_at(m, b1));
    double_word_kept(before, at, le64(leaf), b1);
    // The leaf.
    assert(double_word_at(before, b2) == double_word_at(m, b2));
    double_word_kept(before, at, le64(leaf), b2);
}

/// Mapping a page leaves every other mapped page alone.
pub proof fn mapping_keeps_other_pages(
    m: Memory,
    root: usize,
    virt_of: spec_fn(u64) -> usize,
    iova: u64,
    paddr: u64,
    flags: u64,
    d: Descent,
    other: u64,
)
    requires
        walked(m, root, virt_of, iova, d),
        walk(m, root, virt_of, other) is Some,
        other_path_apart(m, root, virt_of, iova, d, other),
        slot_of(other, 0) != slot_of(iova, 0) || slot_of(other, 1) != slot_of(iova, 1) || slot_of(
            other,
            2,
        ) != slot_of(iova, 2),
    ensures
        walk(memory_after(m, map_ops(root, iova, paddr, flags, d)), root, virt_of, other) == walk(
            m,
            root,
            virt_of,
            other,
        ),
{
    other_pages_stay(m, root, virt_of, iova, d, leaf_pte(paddr, flags), other);
}

/// Unmapping a page leaves every other mapped page alone.
pub proof fn unmapping_keeps_other_pages(
    m: Memory,
    root: usize,
    virt_of: spec_fn(u64) -> usize,
    iova: u64,
    d: Descent,
    other: u64,
)
    requires
        walked(m, root, virt_of, iova, d),
        walk(m, root, virt_of, other) is Some,
        other_path_apart(m, root, virt_of, iova, d, other),
        slot_of(other, 0) != slot_of(iova, 0) || slot_of(other, 1) != slot_of(iova, 1) || slot_of(
            other,
            2,
        ) != slot_of(iova, 2),
    ensures
        walk(memory_after(m, unmap_ops(root, iova, d)), root, virt_of, other) == walk(
            m,
            root,
            virt_of,
            other,
        ),
{
    other_pages_stay(m, root, virt_of, iova, d, 0, other);
}

/// A leaf entry carries the address bits of the page, is valid, allows the
/// whole page, and forbids exactly what the mapping does not allow.
pub proof fn leaf_entry_encodes_the_mapping(paddr: u64, flags: IommuMapFlags)
    ensures
        leaf_pte(paddr, pte_flags(flags)) & DART_PADDR_MASK == paddr & DART_PADDR_MASK,
        leaf_pte(paddr, pte_flags(flags)) & DART_PTE_VALID == DART_PTE_VALID,
        leaf_pte(paddr, pte_flags(flags)) & DART_PTE_SUBPAGE_ALLOW_ALL
            == DART_PTE_SUBPAGE_ALLOW_ALL,
        flags.read <==> leaf_pte(paddr, pte_flags(flags)) & DART_PTE_NO_READ == 0,
        flags.write <==> leaf_pte(paddr, pte_flags(flags)) & DART_PTE_NO_WRITE == 0,
{
    assert(forall|f: u64|
        (f == 3 || f == 0x103 || f == 0x83 || f == 0x183) ==> {
            let leaf = #[trigger] ((paddr & 0x0000_000f_ffff_c000) | 0x000f_ff00_0000_0000 | f);
            &&& leaf & 0x0000_000f_ffff_c000 == paddr & 0x0000_000f_ffff_c000
            &&& leaf & 1 == 1
            &&& leaf & 0x000f_ff00_0000_0000 == 0x000f_ff00_0000_0000
            &&& (leaf & 0x100 == 0) == (f & 0x100 == 0)
            &&& (leaf & 0x80 == 0) == (f & 0x80 == 0)
        }) by (bit_vector);
    crate::arith::flags_combine();
}

} // verus!
