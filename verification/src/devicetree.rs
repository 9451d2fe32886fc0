//! The flattened device tree, read through the `fdt` crate.

use crate::bytes::{from_be32, from_be64, read_be_u32};
use crate::text::{is_utf8, same_text};
use fdt::node::FdtNode;
use fdt::Fdt;
use vstd::prelude::*;

verus! {

/// A device tree of the `fdt` crate.
#[verifier::external_type_specification]
#[verifier::external_body]
pub struct ExFdt<'a>(Fdt<'a>);

/// A node of a device tree of the `fdt` crate.
#[verifier::external_type_specification]
#[verifier::external_body]
pub struct ExFdtNode<'b, 'a: 'b>(FdtNode<'b, 'a>);

/// A property: its name and its bytes.
pub struct PropView {
    pub name: Seq<char>,
    pub value: Seq<u8>,
}

/// A node: its name, its properties in order, the properties of its parent,
/// and its children in order.
pub struct NodeView {
    pub name: Seq<char>,
    pub properties: Seq<PropView>,
    pub parent: Option<Seq<PropView>>,
    pub children: Seq<NodeView>,
}

/// A tree: the nodes that a walk comes to, in order, the root in front, and the
/// children of the root that a lookup comes to. Filler between nodes can keep
/// a walk or a lookup from those behind it.
pub struct TreeView {
    pub listed: Seq<NodeView>,
    pub top: Seq<NodeView>,
}

/// What a node holds, where the bytes behind it are sound: every token is in
/// place, every text ends, cell counts have four bytes, and no alias stands
/// for a path that is looked up.
pub uninterp spec fn node_contents(node: FdtNode<'_, '_>) -> Option<NodeView>;

/// What a tree holds, where the bytes behind it are sound in that sense.
pub uninterp spec fn tree_contents(tree: Fdt<'_>) -> Option<TreeView>;

/// A node and all nodes below it, parents in front of their children.
pub open spec fn all_below(node: NodeView) -> Seq<NodeView>
    decreases node,
{
    seq![node] + all_of(node.children)
}

/// The nodes of a list and all nodes below them.
pub open spec fn all_of(nodes: Seq<NodeView>) -> Seq<NodeView>
    decreases nodes,
{
    if nodes.len() == 0 {
        Seq::empty()
    } else {
        all_of(nodes.drop_last()) + all_below(nodes.last())
    }
}

/// The value of the first property with a name from `from` on.
pub open spec fn first_value(properties: Seq<PropView>, name: Seq<char>, from: int) -> Option<
    Seq<u8>,
>
    decreases properties.len() - from,
{
    if from < 0 || from >= properties.len() {
        None
    } else if properties[from].name == name {
        Some(properties[from].value)
    } else {
        first_value(properties, name, from + 1)
    }
}

/// The value of the last property with a name.
pub open spec fn last_value(properties: Seq<PropView>, name: Seq<char>) -> Option<Seq<u8>>
    decreases properties.len(),
{
    if properties.len() == 0 {
        None
    } else if properties.last().name == name {
        Some(properties.last().value)
    } else {
        last_value(properties.drop_last(), name)
    }
}

/// The bytes of an optional value.
pub open spec fn value_of(bytes: Option<&[u8]>) -> Option<Seq<u8>> {
    match bytes {
        Some(b) => Some(b@),
        None => None,
    }
}

/// `FdtNode::property`: the first property of the given name.
#[verifier::external_body]
pub(crate) fn property<'b, 'a>(node: &FdtNode<'b, 'a>, name: &str) -> (r: Option<&'a [u8]>)
    requires
        node_contents(*node) is Some,
    ensures
        value_of(r) == first_value(node_contents(*node)->0.properties, name@, 0),
{
    node.property(name).map(|p| p.value)
}

/// `FdtNode::children`: the children of a node in order.
#[verifier::external_body]
pub(crate) fn children<'b, 'a>(node: &FdtNode<'b, 'a>) -> (r: Vec<FdtNode<'b, 'a>>)
    requires
        node_contents(*node) is Some,
    ensures
        r@.len() == node_contents(*node)->0.children.len(),
        forall|i: int|
            0 <= i < r@.len() ==> node_contents(#[trigger] r@[i]) == Some(
                node_contents(*node)->0.children[i],
            ),
{
    node.children().collect()
}

/// `Fdt::all_nodes`: the nodes that a walk comes to, parents in front of their
/// children.
#[verifier::external_body]
pub(crate) fn all_nodes<'b, 'a>(tree: &'b Fdt<'a>) -> (r: Vec<FdtNode<'b, 'a>>)
    requires
        tree_contents(*tree) is Some,
    ensures
        r@.len() == tree_contents(*tree)->0.listed.len(),
        forall|i: int|
            0 <= i < r@.len() ==> node_contents(#[trigger] r@[i]) == Some(
                tree_contents(*tree)->0.listed[i],
            ),
{
    tree.all_nodes().collect()
}

/// The part of a node's name in front of its unit address.
pub open spec fn base_name(name: Seq<char>) -> Seq<char>
    decreases name.len(),
{
    if name.len() == 0 || name[0] == '@' {
        Seq::empty()
    } else {
        seq![name[0]] + base_name(name.skip(1))
    }
}

/// The first child from `from` on with the given base name.
pub open spec fn child_named(children: Seq<NodeView>, base: Seq<char>, from: int) -> Option<NodeView>
    decreases children.len() - from,
{
    if from < 0 || from >= children.len() {
        None
    } else if base_name(children[from].name) == base {
        Some(children[from])
    } else {
        child_named(children, base, from + 1)
    }
}

/// The paths that are looked up: children of the root, without a unit address.
pub open spec fn is_lookup(path: Seq<char>) -> bool {
    path == "/cpus"@ || path == "/reserved-memory"@
}

/// `Fdt::find_node` for a path to a child of the root that no alias stands
/// for: the first child that the lookup comes to whose name agrees up to its
/// unit address.
#[verifier::external_body]
pub(crate) fn find_top_node<'b, 'a>(tree: &'b Fdt<'a>, path: &str) -> (r: Option<FdtNode<'b, 'a>>)
    requires
        tree_contents(*tree) is Some,
        is_lookup(path@),
    ensures
        match child_named(tree_contents(*tree)->0.top, path@.skip(1), 0) {
            Some(view) => r is Some && node_contents(r->0) == Some(view),
            None => r is None,
        },
{
    tree.find_node(path)
}

/// The number in the first four bytes of a property, where it has them.
pub open spec fn cell_in(value: Option<Seq<u8>>) -> Option<u32> {
    match value {
        Some(bytes) => if bytes.len() >= 4 {
            Some(from_be32(bytes, 0) as u32)
        } else {
            None
        },
        None => None,
    }
}

/// The first node from `from` on whose property of the given name is the
/// phandle.
pub open spec fn node_with_phandle(nodes: Seq<NodeView>, name: Seq<char>, phandle: u32, from: int) -> Option<
    NodeView,
>
    decreases nodes.len() - from,
{
    if from < 0 || from >= nodes.len() {
        None
    } else if cell_in(first_value(nodes[from].properties, name, 0)) == Some(phandle) {
        Some(nodes[from])
    } else {
        node_with_phandle(nodes, name, phandle, from + 1)
    }
}

/// `Fdt::find_phandle`: the first node of a walk whose `phandle` property is the
/// number.
#[verifier::external_body]
pub(crate) fn find_phandle<'b, 'a>(tree: &'b Fdt<'a>, phandle: u32) -> (r: Option<FdtNode<'b, 'a>>)
    requires
        tree_contents(*tree) is Some,
    ensures
        match node_with_phandle(
            tree_contents(*tree)->0.listed,
            "phandle"@,
            phandle,
            0,
        ) {
            Some(view) => r is Some && node_contents(r->0) == Some(view),
            None => r is None,
        },
{
    tree.find_phandle(phandle)
}

/// How many cells an address and a size take below a node with the given
/// properties.
pub open spec fn cell_counts(properties: Option<Seq<PropView>>) -> (int, int) {
    match properties {
        Some(props) => (
            match cell_in(last_value(props, "#address-cells"@)) {
                Some(n) => n as int,
                None => 2,
            },
            match cell_in(last_value(props, "#size-cells"@)) {
                Some(n) => n as int,
                None => 1,
            },
        ),
        None => (2, 1),
    }
}

/// A number of one or two cells at `at`.
pub open spec fn cells_at(bytes: Seq<u8>, at: int, cells: int) -> Option<int> {
    if cells == 1 && at + 4 <= bytes.len() {
        Some(from_be32(bytes, at))
    } else if cells == 2 && at + 8 <= bytes.len() {
        Some(from_be64(bytes, at))
    } else {
        None
    }
}

/// Address and size of the first region of a node.
pub open spec fn first_region_of(node: NodeView) -> Option<(u64, Option<u64>)> {
    let (address_cells, size_cells) = cell_counts(node.parent);
    match first_value(node.properties, "reg"@, 0) {
        Some(reg) => if address_cells > 2 || size_cells > 2 {
            None
        } else {
            match cells_at(reg, 0, address_cells) {
                Some(address) => if size_cells == 0 {
                    Some((address as u64, None))
                } else {
                    match cells_at(reg, 4 * address_cells, size_cells) {
                        Some(size) => Some((address as u64, Some(size as u64))),
                        None => None,
                    }
                },
                None => None,
            }
        },
        None => None,
    }
}

/// `FdtNode::reg`: the first address and size of the `reg` property, with as
/// many cells as the parent says. Numbers beyond the address space are cut to
/// it.
#[verifier::external_body]
pub(crate) fn first_region(node: &FdtNode<'_, '_>) -> (r: Option<(usize, Option<usize>)>)
    requires
        node_contents(*node) is Some,
    ensures
        r == (match first_region_of(node_contents(*node)->0) {
            Some((address, size)) => Some(
                (
                    address as usize,
                    match size {
                        Some(n) => Some(n as usize),
                        None => None,
                    },
                ),
            ),
            None => None,
        }),
{
    node.reg()?.next().map(|region| (region.starting_address as usize, region.size))
}

/// Position of the first zero byte from `from` on, or the length.
pub open spec fn zero_from(s: Seq<u8>, from: int) -> int
    decreases s.len() - from,
{
    if from < 0 || from >= s.len() || s[from] == 0 {
        from
    } else {
        zero_from(s, from + 1)
    }
}

/// The texts in a list of zero-terminated texts, up to the first that is not
/// UTF-8.
pub open spec fn texts_in(s: Seq<u8>, from: int) -> Seq<Seq<char>>
    decreases s.len() - from,
{
    if from < 0 || from >= s.len() {
        Seq::empty()
    } else {
        let end = zero_from(s, from);
        if !vstd::utf8::valid_utf8(s.subrange(from, end)) {
            Seq::empty()
        } else if end < from || end >= s.len() {
            seq![vstd::utf8::decode_utf8(s.subrange(from, end))]
        } else {
            seq![vstd::utf8::decode_utf8(s.subrange(from, end))] + texts_in(s, end + 1)
        }
    }
}

/// `FdtNode::compatible` and `Compatible::all`: the texts of the last
/// `compatible` property.
#[verifier::external_body]
pub(crate) fn compatible_texts<'b, 'a>(node: &FdtNode<'b, 'a>) -> (r: Option<Vec<&'a str>>)
    requires
        node_contents(*node) is Some,
    ensures
        match last_value(node_contents(*node)->0.properties, "compatible"@) {
            Some(value) => {
                &&& r is Some
                &&& (r->0)@.len() == texts_in(value, 0).len()
                &&& forall|i: int|
                    0 <= i < (r->0)@.len() ==> (#[trigger] (r->0)@[i])@ == texts_in(value, 0)[i]
            },
            None => r is None,
        },
{
    node.compatible().map(|list| list.all().collect())
}

/// Rounded up to a multiple of four.
pub open spec fn aligned4(n: int) -> int {
    (n + 3) / 4 * 4
}

/// A text at `at` that ends inside the bytes and is UTF-8.
pub open spec fn text_at(s: Seq<u8>, at: int) -> bool {
    &&& 0 <= at <= zero_from(s, at) < s.len()
    &&& vstd::utf8::valid_utf8(s.subrange(at, zero_from(s, at)))
}

/// The bytes of the path of the processors.
pub open spec fn cpus_path() -> Seq<u8> {
    seq![47u8, 99, 112, 117, 115]
}

/// The bytes of the path of the reserved memory.
pub open spec fn reserved_path() -> Seq<u8> {
    seq![47u8, 114, 101, 115, 101, 114, 118, 101, 100, 45, 109, 101, 109, 111, 114, 121]
}

/// A property name at an offset in the strings block: UTF-8 that ends, and no
/// path that is looked up.
pub open spec fn name_ok(t: Seq<u8>, at: int) -> bool {
    let name = t.subrange(at, zero_from(t, at));
    text_at(t, at) && name != cpus_path() && name != reserved_path()
}

/// The bytes of `#address-cells`.
pub open spec fn address_cells_name() -> Seq<u8> {
    seq![35u8, 97, 100, 100, 114, 101, 115, 115, 45, 99, 101, 108, 108, 115]
}

/// The bytes of `#size-cells`.
pub open spec fn size_cells_name() -> Seq<u8> {
    seq![35u8, 115, 105, 122, 101, 45, 99, 101, 108, 108, 115]
}

/// A name that counts cells.
pub open spec fn counts_cells(t: Seq<u8>, at: int) -> bool {
    let name = t.subrange(at, zero_from(t, at));
    name == address_cells_name() || name == size_cells_name()
}

/// Where in a node a token stands.
#[derive(Clone, Copy, Debug, PartialEq, Eq, Structural)]
pub enum Within {
    /// Directly behind the name.
    Opened,
    /// Behind a property.
    Properties,
    /// Behind a child.
    Children,
    /// Behind filler, with nothing to follow but the end of the node.
    Closing,
}

/// What follows the root: filler, and then no further node.
pub open spec fn root_closed(s: Seq<u8>, at: int) -> bool
    decreases s.len() - at,
{
    if at < 0 || at + 4 > s.len() {
        true
    } else if from_be32(s, at) == 4 {
        root_closed(s, at + 4)
    } else {
        from_be32(s, at) != 1 && from_be32(s, at) != 2
    }
}

/// The tokens of a structure block from `at` on, inside `depth` nodes. The root
/// comes first, and no second one follows. Directly in the root properties and
/// nodes may stand in any order, up to its end or a token that is none of
/// theirs; in other nodes properties stand in front of nodes. With `filler`,
/// filler may stand anywhere in the root, and at the end of other nodes;
/// without it only in front of the root and directly behind its name.
pub open spec fn tokens_ok(
    s: Seq<u8>,
    t: Seq<u8>,
    at: int,
    depth: int,
    within: Within,
    filler: bool,
) -> bool
    decreases s.len() - at,
{
    if at < 0 || at + 4 > s.len() {
        depth == 1 && within == Within::Children
    } else if from_be32(s, at) == 4 {
        if depth <= 1 {
            &&& filler || depth == 0 || within == Within::Opened
            &&& tokens_ok(s, t, at + 4, depth, within, filler)
        } else {
            filler && tokens_ok(s, t, at + 4, depth, Within::Closing, filler)
        }
    } else if from_be32(s, at) == 3 && (depth == 1 || (depth > 1 && (within == Within::Opened
        || within == Within::Properties))) {
        &&& at + 12 <= s.len()
        &&& at + 12 + aligned4(from_be32(s, at + 4)) <= s.len()
        &&& name_ok(t, from_be32(s, at + 8))
        &&& counts_cells(t, from_be32(s, at + 8)) ==> from_be32(s, at + 4) >= 4
        &&& tokens_ok(
            s,
            t,
            at + 12 + aligned4(from_be32(s, at + 4)),
            depth,
            if within == Within::Children {
                Within::Children
            } else {
                Within::Properties
            },
            filler,
        )
    } else if from_be32(s, at) == 1 && depth < 63 && within != Within::Closing {
        let end = zero_from(s, at + 4);
        &&& text_at(s, at + 4)
        &&& depth == 0 ==> end == at + 4
        &&& at + 4 + aligned4(end - at - 3) <= s.len()
        &&& tokens_ok(
            s,
            t,
            at + 4 + aligned4(end - at - 3),
            depth + 1,
            Within::Opened,
            filler,
        )
    } else if from_be32(s, at) == 2 && depth > 1 {
        tokens_ok(s, t, at + 4, depth - 1, Within::Children, filler)
    } else if from_be32(s, at) == 2 {
        depth == 1 && root_closed(s, at + 4)
    } else {
        depth == 1 && from_be32(s, at) != 1
    }
}

/// A header whose blocks lie inside the buffer.
pub open spec fn header_ok(b: Seq<u8>) -> bool {
    &&& b.len() >= 40
    &&& from_be32(b, 0) == 0xd00d_feed
    &&& from_be32(b, 4) <= b.len()
    &&& from_be32(b, 8) + from_be32(b, 36) <= b.len()
    &&& from_be32(b, 12) + from_be32(b, 32) <= b.len()
}

/// The tokens of a tree are in place.
pub open spec fn blocks_ok(b: Seq<u8>, filler: bool) -> bool {
    &&& header_ok(b)
    &&& tokens_ok(
        b.subrange(from_be32(b, 8), from_be32(b, 8) + from_be32(b, 36)),
        b.subrange(from_be32(b, 12), from_be32(b, 12) + from_be32(b, 32)),
        0,
        0,
        Within::Opened,
        filler,
    )
}

/// A device tree that can be read.
pub open spec fn sound_tree(b: Seq<u8>) -> bool {
    blocks_ok(b, true)
}

/// A device tree with no filler between its nodes and properties.
pub open spec fn plain_tree(b: Seq<u8>) -> bool {
    blocks_ok(b, false)
}

/// A walk comes to the root and all nodes below it, a lookup to all children of
/// the root.
pub open spec fn is_complete(v: TreeView) -> bool {
    &&& v.listed.len() > 0
    &&& v.listed == all_below(v.listed[0])
    &&& v.top == v.listed[0].children
}

/// The tree that sound bytes stand for.
pub uninterp spec fn blob_contents(blob: Seq<u8>) -> TreeView;

/// A buffer that begins with a complete header and is as long as it says.
pub open spec fn opens(b: Seq<u8>) -> bool {
    b.len() >= 40 && from_be32(b, 0) == 0xd00d_feed && from_be32(b, 4) <= b.len()
}

/// `Fdt::new`: opens a tree that begins with a complete header and is as long
/// as it says. What it holds is a function of the bytes where they are sound;
/// without filler a walk or a lookup misses nothing.
#[verifier::external_body]
fn open_tree(blob: &[u8]) -> (r: Option<Fdt<'_>>)
    ensures
        r is Some <==> opens(blob@),
        sound_tree(blob@) ==> r is Some && tree_contents(r->0) == Some(blob_contents(blob@)),
        plain_tree(blob@) && r is Some ==> tree_contents(r->0) is Some && is_complete(
            tree_contents(r->0)->0,
        ),
{
    Fdt::new(blob).ok()
}

fn zero_position(s: &[u8], from: usize) -> (r: usize)
    requires
        from <= s@.len(),
    ensures
        r == zero_from(s@, from as int),
        from <= r <= s@.len(),
{
    let mut i: usize = from;
    while i < s.len() && s[i] != 0
        invariant
            from <= i <= s@.len(),
            zero_from(s@, from as int) == zero_from(s@, i as int),
        decreases s@.len() - i,
    {
        i = i + 1;
    }
    i
}

fn is_text(s: &[u8], from: usize, to: usize) -> (r: bool)
    requires
        from <= to < s@.len(),
        to == zero_from(s@, from as int),
    ensures
        r == text_at(s@, from as int),
{
    is_utf8(vstd::slice::slice_subrange(s, from, to))
}

fn range_is(s: &[u8], from: usize, to: usize, name: &[u8]) -> (r: bool)
    requires
        from <= to <= s@.len(),
    ensures
        r == (s@.subrange(from as int, to as int) == name@),
{
    if to - from != name.len() {
        return false;
    }
    let mut i: usize = 0;
    while i < name.len()
        invariant
            from <= to <= s@.len(),
            to - from == name@.len(),
            i <= name@.len(),
            forall|k: int| 0 <= k < i ==> s@[from + k] == name@[k],
        decreases name@.len() - i,
    {
        if s[from + i] != name[i] {
            assert(s@.subrange(from as int, to as int)[i as int] != name@[i as int]);
            return false;
        }
        i = i + 1;
    }
    assert(s@.subrange(from as int, to as int) =~= name@);
    true
}

fn is_cell_count_name(t: &[u8], at: usize, end: usize) -> (r: bool)
    requires
        at <= end <= t@.len(),
        end == zero_from(t@, at as int),
    ensures
        r == counts_cells(t@, at as int),
{
    let address: [u8; 14] = [35, 97, 100, 100, 114, 101, 115, 115, 45, 99, 101, 108, 108, 115];
    let size: [u8; 11] = [35, 115, 105, 122, 101, 45, 99, 101, 108, 108, 115];
    assert(address@ =~= address_cells_name());
    assert(size@ =~= size_cells_name());
    range_is(t, at, end, address.as_slice()) || range_is(t, at, end, size.as_slice())
}

fn property_name_ok(t: &[u8], at: usize) -> (r: bool)
    ensures
        r == name_ok(t@, at as int),
{
    if at >= t.len() {
        return false;
    }
    let end: usize = zero_position(t, at);
    let cpus: [u8; 5] = [47, 99, 112, 117, 115];
    let reserved: [u8; 16] = [
        47, 114, 101, 115, 101, 114, 118, 101, 100, 45, 109, 101, 109, 111, 114, 121,
    ];
    assert(cpus@ =~= cpus_path());
    assert(reserved@ =~= reserved_path());
    end < t.len() && is_text(t, at, end) && !range_is(t, at, end, cpus.as_slice()) && !range_is(
        t,
        at,
        end,
        reserved.as_slice(),
    )
}

fn be32_at(s: &[u8], at: usize) -> (r: u32)
    requires
        at + 4 <= s@.len(),
    ensures
        r == from_be32(s@, at as int),
{
    let len: usize = s.len();
    assert(at + 4 <= len);
    match read_be_u32(s, at) {
        Some(value) => value,
        None => 0,
    }
}

/// Check what follows the root.
fn check_behind_root(s: &[u8], from: usize) -> (r: bool)
    requires
        from <= s@.len(),
    ensures
        r == root_closed(s@, from as int),
{
    let mut at: usize = from;
    while s.len() - at >= 4
        invariant
            at <= s@.len(),
            root_closed(s@, from as int) == root_closed(s@, at as int),
        decreases s@.len() - at,
    {
        let token: u32 = be32_at(s, at);
        if token != 4 {
            return token != 1 && token != 2;
        }
        at = at + 4;
    }
    true
}

/// Check the tokens of a structure block.
fn check_tokens(s: &[u8], t: &[u8]) -> (r: bool)
    requires
        s@.len() <= u32::MAX,
        t@.len() <= u32::MAX,
    ensures
        r == tokens_ok(s@, t@, 0, 0, Within::Opened, true),
{
    let mut at: usize = 0;
    let mut depth: u32 = 0;
    let mut within = Within::Opened;
    let len: u64 = s.len() as u64;
    while s.len() - at >= 4
        invariant
            at <= s@.len() <= u32::MAX,
            t@.len() <= u32::MAX,
            len == s@.len(),
            depth <= 63,
            depth == 0 ==> within == Within::Opened,
            tokens_ok(s@, t@, 0, 0, Within::Opened, true) == tokens_ok(
                s@,
                t@,
                at as int,
                depth as int,
                within,
                true,
            ),
        decreases s@.len() - at,
    {
        let token: u32 = be32_at(s, at);
        if token == 4 {
            at = at + 4;
            if depth > 1 {
                within = Within::Closing;
            }
        } else if token == 3 && (depth == 1 || (depth > 1 && (within == Within::Opened || within
            == Within::Properties))) {
            if at as u64 + 12 > len {
                return false;
            }
            let value_len: u32 = be32_at(s, at + 4);
            let name: u32 = be32_at(s, at + 8);
            let next: u64 = at as u64 + 12 + (value_len as u64 + 3) / 4 * 4;
            if next > len || name as u64 >= t.len() as u64 {
                return false;
            }
            if !property_name_ok(t, name as usize) {
                return false;
            }
            let end: usize = zero_position(t, name as usize);
            if value_len < 4 && is_cell_count_name(t, name as usize, end) {
                return false;
            }
            at = next as usize;
            if within != Within::Children {
                within = Within::Properties;
            }
        } else if token == 1 && depth < 63 && within != Within::Closing {
            let end: usize = zero_position(s, at + 4);
            if end >= s.len() || !is_text(s, at + 4, end) || (depth == 0 && end != at + 4) {
                return false;
            }
            let next: u64 = at as u64 + 4 + ((end - at - 3) as u64 + 3) / 4 * 4;
            if next > len {
                return false;
            }
            at = next as usize;
            depth = depth + 1;
            within = Within::Opened;
        } else if token == 2 && depth > 1 {
            at = at + 4;
            depth = depth - 1;
            within = Within::Children;
        } else if token == 2 {
            return depth == 1 && check_behind_root(s, at + 4);
        } else {
            return depth == 1 && token != 1;
        }
    }
    depth == 1 && within == Within::Children
}

/// Whether a device tree can be read.
pub fn check_tree(blob: &[u8]) -> (r: bool)
    ensures
        r == sound_tree(blob@),
{
    let len: u64 = blob.len() as u64;
    if len < 40 {
        return false;
    }
    if be32_at(blob, 0) != 0xd00d_feed || be32_at(blob, 4) as u64 > len {
        return false;
    }
    let off_struct: u64 = be32_at(blob, 8) as u64;
    let off_strings: u64 = be32_at(blob, 12) as u64;
    let size_strings: u64 = be32_at(blob, 32) as u64;
    let size_struct: u64 = be32_at(blob, 36) as u64;
    if off_struct + size_struct > len || off_strings + size_strings > len {
        return false;
    }
    let structs = vstd::slice::slice_subrange(
        blob,
        off_struct as usize,
        (off_struct + size_struct) as usize,
    );
    let strings = vstd::slice::slice_subrange(
        blob,
        off_strings as usize,
        (off_strings + size_strings) as usize,
    );
    check_tokens(structs, strings)
}

/// Open a device tree that can be read.
pub fn open_sound_tree(blob: &[u8]) -> (r: Option<Fdt<'_>>)
    ensures
        r is Some <==> sound_tree(blob@),
        r is Some ==> tree_contents(r->0) == Some(blob_contents(blob@)),
        r is Some && plain_tree(blob@) ==> is_complete(blob_contents(blob@)),
{
    if check_tree(blob) {
        open_tree(blob)
    } else {
        None
    }
}

/// The first cell of a property.
pub(crate) fn u32_property(node: &FdtNode<'_, '_>, name: &str) -> (r: Option<u32>)
    requires
        node_contents(*node) is Some,
    ensures
        r == cell_in(first_value(node_contents(*node)->0.properties, name@, 0)),
{
    match property(node, name) {
        Some(bytes) => read_be_u32(bytes, 0),
        None => None,
    }
}

/// Some text of a node's `compatible` property is the given one.
pub(crate) fn compatible_with(node: &FdtNode<'_, '_>, text: &str) -> (r: bool)
    requires
        node_contents(*node) is Some,
    ensures
        r == (match last_value(node_contents(*node)->0.properties, "compatible"@) {
            Some(value) => texts_in(value, 0).contains(text@),
            None => false,
        }),
{
    match compatible_texts(node) {
        Some(texts) => {
            let mut i: usize = 0;
            let ghost all = texts_in(
                last_value(node_contents(*node)->0.properties, "compatible"@)->0,
                0,
            );
            while i < texts.len()
                invariant
                    i <= texts@.len(),
                    last_value(node_contents(*node)->0.properties, "compatible"@) is Some,
                    all == texts_in(
                        last_value(node_contents(*node)->0.properties, "compatible"@)->0,
                        0,
                    ),
                    texts@.len() == all.len(),
                    forall|k: int| 0 <= k < all.len() ==> (#[trigger] texts@[k])@ == all[k],
                    forall|k: int| 0 <= k < i ==> all[k] != text@,
                decreases texts@.len() - i,
            {
                if same_text(texts[i], text) {
                    assert(all[i as int] == text@);
                    assert(all.contains(text@));
                    return true;
                }
                i = i + 1;
            }
            false
        },
        None => false,
    }
}

} // verus!
