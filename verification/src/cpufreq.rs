//! CPU frequency diagnostics: what the clusters' DVFS status registers say.

use crate::bus::{rd, Bus, Mmio};
use crate::bytes::{from_be32, from_be64, read_be_u32, read_be_u64};
use crate::devicetree::{
    all_nodes, blob_contents, cell_in, child_named, children, find_phandle, find_top_node,
    first_region, first_region_of, first_value, node_contents, node_with_phandle, open_sound_tree,
    property, sound_tree, tree_contents, u32_property, zero_from, NodeView, TreeView,
};
use fdt::node::FdtNode;
use fdt::Fdt;
use vstd::prelude::*;

verus! {

pub const APPLE_DVFS_STATUS: usize = 0x50;

pub const MIN_MMIO_SIZE: usize = 0x1000;

pub const MAX_CPUFREQ_DOMAINS: usize = 8;

pub const MAX_OPPS_PER_DOMAIN: usize = 32;

/// Where a status register keeps its performance states.
#[derive(Debug, Clone, Copy, PartialEq, Eq, Structural)]
pub enum PstateEncoding {
    S5l8960x,
    T8103,
    T8112,
    Unknown,
}

/// Some zero-separated entry from `from` on is the given run of bytes.
pub open spec fn has_entry(s: Seq<u8>, from: int, needle: Seq<u8>) -> bool
    decreases s.len() - from,
{
    if from < 0 || from > s.len() {
        false
    } else {
        let end = zero_from(s, from);
        s.subrange(from, end) == needle || (from <= end < s.len() && has_entry(
            s,
            end + 1,
            needle,
        ))
    }
}

/// The `compatible` property of a node has the given entry.
pub open spec fn is_compatible(node: NodeView, needle: Seq<u8>) -> bool {
    match first_value(node.properties, "compatible"@, 0) {
        Some(value) => has_entry(value, 0, needle),
        None => false,
    }
}

/// The encoding of a node.
pub open spec fn encoding_of(node: NodeView) -> PstateEncoding {
    if is_compatible(node, s5l8960x_bytes()) {
        PstateEncoding::S5l8960x
    } else if is_compatible(node, t8103_bytes()) {
        PstateEncoding::T8103
    } else if is_compatible(node, t8112_bytes()) {
        PstateEncoding::T8112
    } else {
        PstateEncoding::Unknown
    }
}

/// The bytes of an ASCII text.
pub open spec fn bytes_of_text(text: Seq<char>) -> Seq<u8> {
    vstd::utf8::encode_utf8(text)
}

pub open spec fn generic_bytes() -> Seq<u8> {
    bytes_of_text("apple,cluster-cpufreq"@)
}

pub open spec fn s5l8960x_bytes() -> Seq<u8> {
    bytes_of_text("apple,s5l8960x-cluster-cpufreq"@)
}

pub open spec fn t8103_bytes() -> Seq<u8> {
    bytes_of_text("apple,t8103-cluster-cpufreq"@)
}

pub open spec fn t8112_bytes() -> Seq<u8> {
    bytes_of_text("apple,t8112-cluster-cpufreq"@)
}

/// The performance state in a status register.
pub open spec fn current_of(encoding: PstateEncoding, status: u32) -> Option<u32> {
    match encoding {
        PstateEncoding::S5l8960x => Some((status >> 3) & 0x7),
        PstateEncoding::T8103 => Some((status >> 4) & 0xf),
        PstateEncoding::T8112 => Some((status >> 5) & 0x1f),
        PstateEncoding::Unknown => None,
    }
}

/// The performance state that is being switched to.
pub open spec fn target_of(encoding: PstateEncoding, status: u32) -> Option<u32> {
    match encoding {
        PstateEncoding::S5l8960x => Some(status & 0x7),
        PstateEncoding::T8103 => Some(status & 0xf),
        PstateEncoding::T8112 => Some(status & 0x1f),
        PstateEncoding::Unknown => None,
    }
}

impl PstateEncoding {
    pub fn from_node(node: &FdtNode<'_, '_>) -> (r: Self)
        requires
            node_contents(*node) is Some,
        ensures
            r == encoding_of(node_contents(*node)->0),
    {
        if compatible_contains(node, "apple,s5l8960x-cluster-cpufreq") {
            PstateEncoding::S5l8960x
        } else if compatible_contains(node, "apple,t8103-cluster-cpufreq") {
            PstateEncoding::T8103
        } else if compatible_contains(node, "apple,t8112-cluster-cpufreq") {
            PstateEncoding::T8112
        } else {
            PstateEncoding::Unknown
        }
    }

    pub fn current_pstate(self, status: u32) -> (r: Option<u32>)
        ensures
            r == current_of(self, status),
    {
        match self {
            PstateEncoding::S5l8960x => Some((status >> 3) & 0x7),
            PstateEncoding::T8103 => Some((status >> 4) & 0xf),
            PstateEncoding::T8112 => Some((status >> 5) & 0x1f),
            PstateEncoding::Unknown => None,
        }
    }

    pub fn target_pstate(self, status: u32) -> (r: Option<u32>)
        ensures
            r == target_of(self, status),
    {
        match self {
            PstateEncoding::S5l8960x => Some(status & 0x7),
            PstateEncoding::T8103 => Some(status & 0xf),
            PstateEncoding::T8112 => Some(status & 0x1f),
            PstateEncoding::Unknown => None,
        }
    }
}

/// Whether some zero-separated entry of a list is the given text.
pub fn list_contains(list: &[u8], text: &str) -> (r: bool)
    ensures
        r == has_entry(list@, 0, bytes_of_text(text@)),
{
    let needle = text.as_bytes();
    let mut from: usize = 0;
    while from <= list.len()
        invariant
            needle@ == bytes_of_text(text@),
            from <= list@.len(),
            has_entry(list@, 0, needle@) == has_entry(list@, from as int, needle@),
        decreases list@.len() - from,
    {
        let mut end: usize = from;
        while end < list.len() && list[end] != 0
            invariant
                from <= end <= list@.len(),
                zero_from(list@, from as int) == zero_from(list@, end as int),
            decreases list@.len() - end,
        {
            end = end + 1;
        }
        let entry = vstd::slice::slice_subrange(list, from, end);
        if crate::text::same_bytes(entry, needle) {
            return true;
        }
        if end == list.len() {
            return false;
        }
        from = end + 1;
    }
    false
}

/// Whether the `compatible` property of a node has the given entry.
pub fn compatible_contains(node: &FdtNode<'_, '_>, text: &str) -> (r: bool)
    requires
        node_contents(*node) is Some,
    ensures
        r == is_compatible(node_contents(*node)->0, bytes_of_text(text@)),
{
    match property(node, "compatible") {
        Some(value) => list_contains(value, text),
        None => false,
    }
}

/// An operating point: a performance state and its frequency.
#[derive(Debug, Clone, Copy, PartialEq, Eq, Structural)]
pub struct OppEntry {
    pub pstate: u32,
    pub freq_khz: u64,
}

/// A cluster with its own frequency.
#[derive(Debug)]
pub struct AppleCpuFreqDomain {
    pub phandle: u32,
    pub paddr: usize,
    pub size: usize,
    /// Where the registers are mapped, zero before they are.
    pub vaddr: usize,
    /// Whether mapping was tried in vain.
    pub map_failed: bool,
    pub encoding: PstateEncoding,
    pub opps: Vec<OppEntry>,
}

/// A cluster as the device tree describes it.
pub struct DomainView {
    pub phandle: u32,
    pub paddr: usize,
    pub size: usize,
    pub encoding: PstateEncoding,
    pub opps: Seq<OppEntry>,
}

impl AppleCpuFreqDomain {
    pub open spec fn view(&self) -> DomainView {
        DomainView {
            phandle: self.phandle,
            paddr: self.paddr,
            size: self.size,
            encoding: self.encoding,
            opps: self.opps@,
        }
    }
}

/// The frequency of the first operating point from `from` on with a state.
pub open spec fn freq_of(opps: Seq<OppEntry>, pstate: u32, from: int) -> Option<u64>
    decreases opps.len() - from,
{
    if from < 0 || from >= opps.len() {
        None
    } else if opps[from].pstate == pstate {
        Some(opps[from].freq_khz)
    } else {
        freq_of(opps, pstate, from + 1)
    }
}

/// A frequency that no operating point exceeds and one has.
pub open spec fn is_max_freq(opps: Seq<OppEntry>, freq: u64) -> bool {
    &&& exists|i: int| 0 <= i < opps.len() && (#[trigger] opps[i]).freq_khz == freq
    &&& forall|i: int| 0 <= i < opps.len() ==> (#[trigger] opps[i]).freq_khz <= freq
}

/// What to do about a cluster's registers.
#[derive(Debug, Clone, Copy, PartialEq, Eq, Structural)]
pub enum MapAction {
    /// They are mapped there.
    Mapped(usize),
    /// They cannot be mapped.
    Unavailable,
    /// Map them.
    Remap { paddr: usize, size: usize },
}

/// A frequency report.
#[derive(Debug, Clone, Copy, PartialEq, Eq, Structural)]
pub struct CpuFrequencyInfo {
    pub performance_domain: u32,
    pub raw_status: u32,
    pub current_pstate: Option<u32>,
    pub target_pstate: Option<u32>,
    pub current_freq_khz: Option<u64>,
    pub target_freq_khz: Option<u64>,
    pub max_freq_khz: Option<u64>,
}

/// The frequency of an optional state.
pub open spec fn freq_of_state(opps: Seq<OppEntry>, pstate: Option<u32>) -> Option<u64> {
    match pstate {
        Some(p) => freq_of(opps, p, 0),
        None => None,
    }
}

/// A report on a cluster with the given status.
pub open spec fn reports(info: CpuFrequencyInfo, domain: DomainView, status: u32) -> bool {
    &&& info.performance_domain == domain.phandle
    &&& info.raw_status == status
    &&& info.current_pstate == current_of(domain.encoding, status)
    &&& info.target_pstate == target_of(domain.encoding, status)
    &&& info.current_freq_khz == freq_of_state(domain.opps, info.current_pstate)
    &&& info.target_freq_khz == freq_of_state(domain.opps, info.target_pstate)
    &&& match info.max_freq_khz {
        Some(freq) => is_max_freq(domain.opps, freq),
        None => domain.opps.len() == 0,
    }
}

impl AppleCpuFreqDomain {
    pub fn freq_for_pstate(&self, pstate: Option<u32>) -> (r: Option<u64>)
        ensures
            r == freq_of_state(self.opps@, pstate),
    {
        let wanted: u32 = match pstate {
            Some(p) => p,
            None => {
                return None;
            },
        };
        let mut i: usize = 0;
        while i < self.opps.len()
            invariant
                i <= self.opps@.len(),
                pstate == Some(wanted),
                freq_of(self.opps@, wanted, 0) == freq_of(self.opps@, wanted, i as int),
            decreases self.opps@.len() - i,
        {
            if self.opps[i].pstate == wanted {
                return Some(self.opps[i].freq_khz);
            }
            i = i + 1;
        }
        None
    }

    pub fn max_freq_khz(&self) -> (r: Option<u64>)
        ensures
            match r {
                Some(freq) => is_max_freq(self.opps@, freq),
                None => self.opps@.len() == 0,
            },
    {
        if self.opps.len() == 0 {
            return None;
        }
        let mut best: u64 = self.opps[0].freq_khz;
        let mut i: usize = 1;
        let ghost mut at: int = 0;
        while i < self.opps.len()
            invariant
                1 <= i <= self.opps@.len(),
                0 <= at < self.opps@.len(),
                self.opps@[at].freq_khz == best,
                forall|k: int| 0 <= k < i ==> (#[trigger] self.opps@[k]).freq_khz <= best,
            decreases self.opps@.len() - i,
        {
            if self.opps[i].freq_khz > best {
                best = self.opps[i].freq_khz;
                proof {
                    at = i as int;
                }
            }
            i = i + 1;
        }
        Some(best)
    }

    /// Whether the registers are mapped, or how to map them. A mapping covers
    /// at least one page and is tried once.
    pub fn map_action(&self) -> (r: MapAction)
        ensures
            r == (if self.vaddr != 0 {
                MapAction::Mapped(self.vaddr)
            } else if self.map_failed {
                MapAction::Unavailable
            } else {
                MapAction::Remap {
                    paddr: self.paddr,
                    size: if self.size < 0x1000 {
                        0x1000
                    } else {
                        self.size
                    },
                }
            }),
    {
        if self.vaddr != 0 {
            return MapAction::Mapped(self.vaddr);
        }
        if self.map_failed {
            return MapAction::Unavailable;
        }
        let size: usize = if self.size < MIN_MMIO_SIZE {
            MIN_MMIO_SIZE
        } else {
            self.size
        };
        MapAction::Remap { paddr: self.paddr, size }
    }

    /// Remember how mapping went.
    pub fn record_mapping(&mut self, mapped: Option<usize>) -> (r: Option<usize>)
        ensures
            r == mapped,
            final(self)@ == old(self)@,
            match mapped {
                Some(vaddr) => final(self).vaddr == vaddr && final(self).map_failed == old(
                    self,
                ).map_failed,
                None => final(self).map_failed && final(self).vaddr == old(self).vaddr,
            },
    {
        match mapped {
            Some(vaddr) => {
                self.vaddr = vaddr;
                Some(vaddr)
            },
            None => {
                self.map_failed = true;
                None
            },
        }
    }

    /// Read the status register and report what it says.
    pub fn frequency_info<M: Mmio>(&self, bus: &mut Bus<M>, vaddr: usize) -> (r: CpuFrequencyInfo)
        requires
            vaddr + 0x1000 <= usize::MAX,
        ensures
            reports(r, self@, r.raw_status),
            final(bus).ops() == old(bus).ops().push(rd(vaddr, 0x50, r.raw_status)),
    {
        let raw_status: u32 = bus.read32(vaddr + APPLE_DVFS_STATUS);
        let current_pstate = self.encoding.current_pstate(raw_status);
        let target_pstate = self.encoding.target_pstate(raw_status);
        CpuFrequencyInfo {
            performance_domain: self.phandle,
            raw_status,
            current_pstate,
            target_pstate,
            current_freq_khz: self.freq_for_pstate(current_pstate),
            target_freq_khz: self.freq_for_pstate(target_pstate),
            max_freq_khz: self.max_freq_khz(),
        }
    }
}

/// Position of the first cluster from `from` on with a phandle.
pub open spec fn domain_at(domains: Seq<AppleCpuFreqDomain>, phandle: u32, from: int) -> Option<int>
    decreases domains.len() - from,
{
    if from < 0 || from >= domains.len() {
        None
    } else if domains[from].phandle == phandle {
        Some(from)
    } else {
        domain_at(domains, phandle, from + 1)
    }
}

/// Find the cluster with a phandle.
pub fn find_domain(domains: &Vec<AppleCpuFreqDomain>, phandle: u32) -> (r: Option<usize>)
    ensures
        match domain_at(domains@, phandle, 0) {
            Some(i) => r is Some && r->0 == i && r->0 < domains@.len(),
            None => r is None,
        },
{
    let mut i: usize = 0;
    while i < domains.len()
        invariant
            i <= domains@.len(),
            domain_at(domains@, phandle, 0) == domain_at(domains@, phandle, i as int),
        decreases domains@.len() - i,
    {
        if domains[i].phandle == phandle {
            return Some(i);
        }
        i = i + 1;
    }
    None
}

/// A number of four or eight bytes.
pub open spec fn wide_in(value: Option<Seq<u8>>) -> Option<u64> {
    match value {
        Some(bytes) => if bytes.len() < 4 {
            None
        } else if bytes.len() < 8 {
            Some(from_be32(bytes, 0) as u64)
        } else {
            Some(from_be64(bytes, 0) as u64)
        },
        None => None,
    }
}

/// Read a number of four or eight bytes.
pub fn read_u64_prop(node: &FdtNode<'_, '_>, name: &str) -> (r: Option<u64>)
    requires
        node_contents(*node) is Some,
    ensures
        r == wide_in(first_value(node_contents(*node)->0.properties, name@, 0)),
{
    match property(node, name) {
        Some(bytes) => {
            if bytes.len() < 4 {
                None
            } else if bytes.len() < 8 {
                match read_be_u32(bytes, 0) {
                    Some(value) => Some(value as u64),
                    None => None,
                }
            } else {
                read_be_u64(bytes, 0)
            }
        },
        None => None,
    }
}

/// The operating point that a node describes.
pub open spec fn opp_of(node: NodeView) -> Option<OppEntry> {
    match cell_in(first_value(node.properties, "opp-level"@, 0)) {
        Some(pstate) => match wide_in(first_value(node.properties, "opp-hz"@, 0)) {
            Some(hz) => Some(OppEntry { pstate, freq_khz: ((hz + 999) / 1000) as u64 }),
            None => None,
        },
        None => None,
    }
}

/// The first operating points that a list of nodes describes, as many as
/// there is room for.
pub open spec fn opps_of(nodes: Seq<NodeView>, n: int) -> Seq<OppEntry>
    decreases n,
{
    if n <= 0 || n > nodes.len() {
        Seq::empty()
    } else {
        let earlier = opps_of(nodes, n - 1);
        match opp_of(nodes[n - 1]) {
            Some(opp) => if earlier.len() < 32 {
                earlier.push(opp)
            } else {
                earlier
            },
            None => earlier,
        }
    }
}

/// The operating point table of the first processor from `from` on that
/// belongs to a cluster and names one.
pub open spec fn opp_table_of(cpus: Seq<NodeView>, domain: u32, from: int) -> Option<u32>
    decreases cpus.len() - from,
{
    if from < 0 || from >= cpus.len() {
        None
    } else {
        let table = cell_in(first_value(cpus[from].properties, "operating-points-v2"@, 0));
        if cell_in(first_value(cpus[from].properties, "performance-domains"@, 0)) == Some(domain)
            && table is Some {
            table
        } else {
            opp_table_of(cpus, domain, from + 1)
        }
    }
}

/// The table phandle of a cluster in a tree.
pub open spec fn table_phandle(v: TreeView, domain: u32) -> Option<u32> {
    match child_named(v.top, "/cpus"@.skip(1), 0) {
        Some(cpus) => opp_table_of(cpus.children, domain, 0),
        None => None,
    }
}

/// A node by its phandle, in either spelling of the property.
pub open spec fn node_by_phandle(v: TreeView, phandle: u32) -> Option<NodeView> {
    match node_with_phandle(v.listed, "phandle"@, phandle, 0) {
        Some(node) => Some(node),
        None => node_with_phandle(v.listed, "linux,phandle"@, phandle, 0),
    }
}

/// The operating points of a cluster in a tree.
pub open spec fn domain_opps(v: TreeView, domain: u32) -> Seq<OppEntry> {
    match table_phandle(v, domain) {
        Some(phandle) => match node_by_phandle(v, phandle) {
            Some(table) => opps_of(table.children, table.children.len() as int),
            None => Seq::empty(),
        },
        None => Seq::empty(),
    }
}

/// Find a node by its phandle.
pub fn find_node_by_phandle<'b, 'a>(tree: &'b Fdt<'a>, phandle: u32) -> (r: Option<FdtNode<'b, 'a>>)
    requires
        tree_contents(*tree) is Some,
    ensures
        match node_by_phandle(tree_contents(*tree)->0, phandle) {
            Some(view) => r is Some && node_contents(r->0) == Some(view),
            None => r is None,
        },
{
    match find_phandle(tree, phandle) {
        Some(node) => Some(node),
        None => {
            let mut nodes = all_nodes(tree);
            let ghost views = tree_contents(*tree)->0.listed;
            let mut i: usize = 0;
            while i < nodes.len()
                invariant
                    i <= nodes@.len(),
                    views == tree_contents(*tree)->0.listed,
                    node_with_phandle(views, "phandle"@, phandle, 0) is None,
                    nodes@.len() == views.len(),
                    forall|k: int|
                        0 <= k < nodes@.len() ==> node_contents(#[trigger] nodes@[k]) == Some(
                            views[k],
                        ),
                    node_with_phandle(views, "linux,phandle"@, phandle, 0) == node_with_phandle(
                        views,
                        "linux,phandle"@,
                        phandle,
                        i as int,
                    ),
                decreases nodes@.len() - i,
            {
                assert(node_contents(nodes@[i as int]) == Some(views[i as int]));
                match u32_property(&nodes[i], "linux,phandle") {
                    Some(found) => {
                        if found == phandle {
                            return Some(nodes.swap_remove(i));
                        }
                    },
                    None => {},
                }
                i = i + 1;
            }
            None
        },
    }
}

/// The operating point table of a cluster.
pub fn opp_table_phandle_for_domain(tree: &Fdt<'_>, domain_phandle: u32) -> (r: Option<u32>)
    requires
        tree_contents(*tree) is Some,
    ensures
        r == table_phandle(tree_contents(*tree)->0, domain_phandle),
{
    let cpus = match find_top_node(tree, "/cpus") {
        Some(node) => node,
        None => {
            return None;
        },
    };
    let nodes = children(&cpus);
    let ghost views = node_contents(cpus)->0.children;
    let mut i: usize = 0;
    while i < nodes.len()
        invariant
            i <= nodes@.len(),
            nodes@.len() == views.len(),
            forall|k: int|
                0 <= k < nodes@.len() ==> node_contents(#[trigger] nodes@[k]) == Some(views[k]),
            child_named(tree_contents(*tree)->0.top, "/cpus"@.skip(1), 0) is Some,
            views == (child_named(
                tree_contents(*tree)->0.top,
                "/cpus"@.skip(1),
                0,
            )->0).children,
            opp_table_of(views, domain_phandle, 0) == opp_table_of(
                views,
                domain_phandle,
                i as int,
            ),
        decreases nodes@.len() - i,
    {
        assert(node_contents(nodes@[i as int]) == Some(views[i as int]));
        let ours = match u32_property(&nodes[i], "performance-domains") {
            Some(domain) => domain == domain_phandle,
            None => false,
        };
        if ours {
            match u32_property(&nodes[i], "operating-points-v2") {
                Some(phandle) => {
                    return Some(phandle);
                },
                None => {},
            }
        }
        i = i + 1;
    }
    None
}

/// The operating points of a cluster.
pub fn load_domain_opps(tree: &Fdt<'_>, domain_phandle: u32) -> (r: Vec<OppEntry>)
    requires
        tree_contents(*tree) is Some,
    ensures
        r@ == domain_opps(tree_contents(*tree)->0, domain_phandle),
{
    let mut opps: Vec<OppEntry> = Vec::new();
    let table_phandle = match opp_table_phandle_for_domain(tree, domain_phandle) {
        Some(phandle) => phandle,
        None => {
            return opps;
        },
    };
    let table = match find_node_by_phandle(tree, table_phandle) {
        Some(node) => node,
        None => {
            return opps;
        },
    };
    let nodes = children(&table);
    let ghost views = node_contents(table)->0.children;
    let mut i: usize = 0;
    while i < nodes.len()
        invariant
            i <= nodes@.len(),
            nodes@.len() == views.len(),
            forall|k: int|
                0 <= k < nodes@.len() ==> node_contents(#[trigger] nodes@[k]) == Some(views[k]),
            opps@ == opps_of(views, i as int),
        decreases nodes@.len() - i,
    {
        assert(node_contents(nodes@[i as int]) == Some(views[i as int]));
        match (u32_property(&nodes[i], "opp-level"), read_u64_prop(&nodes[i], "opp-hz")) {
            (Some(pstate), Some(hz)) => {
                if opps.len() < MAX_OPPS_PER_DOMAIN {
                    let freq_khz: u64 = hz / 1000 + (if hz % 1000 != 0 {
                        1u64
                    } else {
                        0u64
                    });
                    opps.push(OppEntry { pstate, freq_khz });
                }
            },
            _ => {},
        }
        i = i + 1;
    }
    opps
}

/// A node describes a cluster.
pub open spec fn is_cluster(node: NodeView) -> bool {
    is_compatible(node, generic_bytes()) || is_compatible(node, s5l8960x_bytes()) || is_compatible(
        node,
        t8103_bytes(),
    ) || is_compatible(node, t8112_bytes())
}

/// The phandle of a node, in either spelling of the property.
pub open spec fn phandle_of(node: NodeView) -> Option<u32> {
    match cell_in(first_value(node.properties, "phandle"@, 0)) {
        Some(phandle) => Some(phandle),
        None => cell_in(first_value(node.properties, "linux,phandle"@, 0)),
    }
}

/// The cluster that a node describes.
pub open spec fn cluster_of(v: TreeView, node: NodeView) -> Option<DomainView> {
    if !is_cluster(node) {
        None
    } else {
        match phandle_of(node) {
            Some(phandle) => match first_region_of(node) {
                Some((address, size)) => Some(
                    DomainView {
                        phandle,
                        paddr: address as usize,
                        size: match size {
                            Some(n) => n as usize,
                            None => 0x1000,
                        },
                        encoding: encoding_of(node),
                        opps: domain_opps(v, phandle),
                    },
                ),
                None => None,
            },
            None => None,
        }
    }
}

/// The clusters that the first `n` nodes describe, as many as there is room
/// for.
pub open spec fn clusters_of(v: TreeView, nodes: Seq<NodeView>, n: int) -> Seq<DomainView>
    decreases n,
{
    if n <= 0 || n > nodes.len() {
        Seq::empty()
    } else {
        let earlier = clusters_of(v, nodes, n - 1);
        match cluster_of(v, nodes[n - 1]) {
            Some(domain) => if earlier.len() < 8 {
                earlier.push(domain)
            } else {
                earlier
            },
            None => earlier,
        }
    }
}

/// The clusters of a tree.
pub open spec fn tree_clusters(v: TreeView) -> Seq<DomainView> {
    clusters_of(v, v.listed, v.listed.len() as int)
}

/// The clusters as the device tree describes them.
pub open spec fn domain_views(domains: Seq<AppleCpuFreqDomain>) -> Seq<DomainView> {
    Seq::new(domains.len(), |i: int| domains[i]@)
}

/// Nothing is mapped and no mapping was tried.
pub open spec fn untouched(domains: Seq<AppleCpuFreqDomain>) -> bool {
    forall|i: int|
        0 <= i < domains.len() ==> (#[trigger] domains[i]).vaddr == 0 && !domains[i].map_failed
}

/// Start and size of the first register region.
pub fn first_reg_region(node: &FdtNode<'_, '_>) -> (r: Option<(usize, usize)>)
    requires
        node_contents(*node) is Some,
    ensures
        r == (match first_region_of(node_contents(*node)->0) {
            Some((address, size)) => Some(
                (
                    address as usize,
                    match size {
                        Some(n) => n as usize,
                        None => 0x1000,
                    },
                ),
            ),
            None => None,
        }),
{
    match first_region(node) {
        Some((address, size)) => {
            let bytes: usize = match size {
                Some(n) => n,
                None => MIN_MMIO_SIZE,
            };
            Some((address, bytes))
        },
        None => None,
    }
}

/// The cluster that a node describes.
fn read_cluster(tree: &Fdt<'_>, node: &FdtNode<'_, '_>) -> (r: Option<AppleCpuFreqDomain>)
    requires
        tree_contents(*tree) is Some,
        node_contents(*node) is Some,
    ensures
        match cluster_of(tree_contents(*tree)->0, node_contents(*node)->0) {
            Some(view) => r is Some && (r->0)@ == view && (r->0).vaddr == 0 && !(r->0).map_failed,
            None => r is None,
        },
{
    if !compatible_contains(node, "apple,cluster-cpufreq") && !compatible_contains(
        node,
        "apple,s5l8960x-cluster-cpufreq",
    ) && !compatible_contains(node, "apple,t8103-cluster-cpufreq") && !compatible_contains(
        node,
        "apple,t8112-cluster-cpufreq",
    ) {
        return None;
    }
    let phandle: u32 = match u32_property(node, "phandle") {
        Some(phandle) => phandle,
        None => match u32_property(node, "linux,phandle") {
            Some(phandle) => phandle,
            None => {
                return None;
            },
        },
    };
    let (paddr, size): (usize, usize) = match first_reg_region(node) {
        Some(region) => region,
        None => {
            return None;
        },
    };
    let opps = load_domain_opps(tree, phandle);
    Some(
        AppleCpuFreqDomain {
            phandle,
            paddr,
            size,
            vaddr: 0,
            map_failed: false,
            encoding: PstateEncoding::from_node(node),
            opps,
        },
    )
}

/// Find the clusters of a tree.
pub fn scan_fdt(tree: &Fdt<'_>) -> (r: Vec<AppleCpuFreqDomain>)
    requires
        tree_contents(*tree) is Some,
    ensures
        domain_views(r@) == tree_clusters(tree_contents(*tree)->0),
        untouched(r@),
{
    let mut domains: Vec<AppleCpuFreqDomain> = Vec::new();
    let nodes = all_nodes(tree);
    let ghost v = tree_contents(*tree)->0;
    let ghost views = v.listed;
    let mut i: usize = 0;
    assert(domain_views(domains@) =~= clusters_of(v, views, 0));
    while i < nodes.len()
        invariant
            i <= nodes@.len(),
            nodes@.len() == views.len(),
            tree_contents(*tree) == Some(v),
            forall|k: int|
                0 <= k < nodes@.len() ==> node_contents(#[trigger] nodes@[k]) == Some(views[k]),
            domain_views(domains@) == clusters_of(v, views, i as int),
            untouched(domains@),
        decreases nodes@.len() - i,
    {
        assert(node_contents(nodes@[i as int]) == Some(views[i as int]));
        let ghost before = domains@;
        match read_cluster(tree, &nodes[i]) {
            Some(domain) => {
                assert(domain_views(before).len() == before.len());
                if domains.len() < MAX_CPUFREQ_DOMAINS {
                    domains.push(domain);
                    assert(domain_views(domains@) =~= domain_views(before).push(domain@));
                }
            },
            None => {},
        }
        i = i + 1;
    }
    domains
}

/// Find the clusters of a device tree in memory; there is no answer for one
/// that cannot be read.
pub fn scan_blob(blob: &[u8]) -> (r: Option<Vec<AppleCpuFreqDomain>>)
    ensures
        r is Some <==> sound_tree(blob@),
        r is Some ==> untouched((r->0)@) && domain_views((r->0)@) == tree_clusters(
            blob_contents(blob@),
        ),
{
    match open_sound_tree(blob) {
        Some(tree) => Some(scan_fdt(&tree)),
        None => None,
    }
}

proof fn small_fields()
    by (bit_vector)
    ensures
        forall|x: u32| #[trigger] (x & 0x7) <= 7,
        forall|x: u32| #[trigger] (x & 0xf) <= 15,
        forall|x: u32| #[trigger] (x & 0x1f) <= 31,
{
}

/// Whatever a status register holds, the states in it are no larger than the
/// fields they are taken from.
pub proof fn states_fit_their_fields(encoding: PstateEncoding, status: u32)
    ensures
        match current_of(encoding, status) {
            Some(p) => p <= 31 && (encoding == PstateEncoding::T8103 ==> p <= 15) && (encoding
                == PstateEncoding::S5l8960x ==> p <= 7),
            None => encoding == PstateEncoding::Unknown,
        },
        match target_of(encoding, status) {
            Some(p) => p <= 31 && (encoding == PstateEncoding::T8103 ==> p <= 15) && (encoding
                == PstateEncoding::S5l8960x ==> p <= 7),
            None => encoding == PstateEncoding::Unknown,
        },
{
    small_fields();
}

} // verus!
