//! Translation units: what the hardware finds behind an address.

use crate::bus::{registers_after, Op};
use crate::bytes::le64;
use crate::dart::{
    apart, bypass_ops, decoded_params, descent_ops, domain_mapped, entry, leaf_pte, leaf_table, map_ops, map_run,
    mapped_page_is_found, mapped_range, mapping_keeps_other_pages, other_path_apart, page_count,
    path_apart, pte_flags, slot_addr, slot_of, slots_are_small, step_maps, step_makes, step_ok, step_ops,
    step_table, stream_check, table_of, translate_ops, unmap_ok, unmap_ops, unmap_run, unmapped_page_is_gone,
    unmapped_range, walk, walked, with_stream, DartDomain, DartError, DartInstance, DartParams,
    Descent, IommuError, IommuMapFlags, IommuStreamId, Step,
};
use crate::memory::{
    double_word_at, double_word_kept, double_word_stored, faithful, memory_after, memory_append,
    memory_push, sees, stored, Memory,
};
use vstd::arithmetic::power2::pow2;
use vstd::prelude::*;

verus! {

/// The frame that an entry names: 22 bits above a page of 16 KiB.
pub open spec fn frame_in(pte: u64) -> u64 {
    ((pte / 0x4000) % 0x40_0000 * 0x4000) as u64
}

/// What the hardware finds for an address: nine bits of it choose an entry at
/// each of three levels, odd entries are valid, and each names the table below.
pub open spec fn looked_up(
    m: Memory,
    root: usize,
    virt_of: spec_fn(u64) -> usize,
    iova: u64,
) -> Option<u64> {
    let e0 = double_word_at(m, root + 8 * (iova / 0x1_0000_0000 % 512));
    if e0 % 2 == 0 {
        None
    } else {
        let e1 = double_word_at(m, virt_of(frame_in(e0)) + 8 * (iova / 0x80_0000 % 512));
        if e1 % 2 == 0 {
            None
        } else {
            let e2 = double_word_at(m, virt_of(frame_in(e1)) + 8 * (iova / 0x4000 % 512));
            if e2 % 2 == 0 {
                None
            } else {
                Some(e2)
            }
        }
    }
}

proof fn entries_in_numbers(x: u64, f: u64)
    by (bit_vector)
    ensures
        (x >> 32) & 511 == (x / 0x1_0000_0000) % 512,
        (x >> 23) & 511 == (x / 0x80_0000) % 512,
        (x >> 14) & 511 == (x / 0x4000) % 512,
        x & 0x0000_000f_ffff_c000 == ((x / 0x4000) % 0x40_0000) * 0x4000,
        x & 1 == x % 2,
        (((x & 0x0000_000f_ffff_c000) | 0x000f_ff00_0000_0000 | f) / 0x4000) % 0x40_0000 == (x
            / 0x4000) % 0x40_0000 || f >= 0x4000,
        ((x & 0x0000_000f_ffff_c000) | 0x000f_ff00_0000_0000 | f) % 0x4000 == f || f >= 0x4000,
        ((x & 0x0000_000f_ffff_c000) | 0x000f_ff00_0000_0000 | f) / 0x100_0000_0000 == 0xfff || f
            >= 0x4000,
        (x % 0x4000) / 2 % 2 == x / 2 % 2,
        (x % 0x4000) / 0x100 % 2 == x / 0x100 % 2,
        (x % 0x4000) / 0x80 % 2 == x / 0x80 % 2,
        3u64 | 0x100 == 0x103,
        3u64 | 0x80 == 0x83,
        0x103u64 | 0x80 == 0x183,
{
}

proof fn slots_tell_pages_apart(x: u64, y: u64)
    by (bit_vector)
    requires
        x < 0x200_0000_0000,
        y < 0x200_0000_0000,
        (x >> 32) & 511 == (y >> 32) & 511,
        (x >> 23) & 511 == (y >> 23) & 511,
        (x >> 14) & 511 == (y >> 14) & 511,
    ensures
        x / 0x4000 == y / 0x4000,
{
}

/// The walk is the one of the hardware.
proof fn walk_is_the_lookup(m: Memory, root: usize, virt_of: spec_fn(u64) -> usize, iova: u64)
    ensures
        walk(m, root, virt_of, iova) == looked_up(m, root, virt_of, iova),
{
    entries_in_numbers(iova, 0);
    let e0 = entry(m, root, slot_of(iova, 0));
    entries_in_numbers(e0, 0);
    let e1 = entry(m, table_of(e0, virt_of), slot_of(iova, 1));
    entries_in_numbers(e1, 0);
    entries_in_numbers(entry(m, table_of(e1, virt_of), slot_of(iova, 2)), 0);
}

/// Two pages of one range lie in different slots.
proof fn pages_differ(x: u64, y: u64)
    requires
        x < 0x200_0000_0000,
        y < 0x200_0000_0000,
        x / 0x4000 != y / 0x4000,
    ensures
        slot_of(x, 0) != slot_of(y, 0) || slot_of(x, 1) != slot_of(y, 1) || slot_of(x, 2)
            != slot_of(y, 2),
{
    if slot_of(x, 0) == slot_of(y, 0) && slot_of(x, 1) == slot_of(y, 1) && slot_of(x, 2) == slot_of(
        y,
        2,
    ) {
        slots_tell_pages_apart(x, y);
    }
}

/// A leaf in numbers: the frame of the page, the flags below, and the whole
/// page allowed.
proof fn leaf_in_numbers(target: u64, flags: u64)
    requires
        target < 0x10_0000_0000,
        flags < 0x4000,
    ensures
        frame_in(leaf_pte(target, flags)) == target / 0x4000 * 0x4000,
        leaf_pte(target, flags) % 0x4000 == flags,
        leaf_pte(target, flags) / 0x100_0000_0000 == 0xfff,
{
    entries_in_numbers(target, flags);
    let q = target / 0x4000;
    assert(q < 0x40_0000);
    assert(q % 0x40_0000 == q);
}

/// Addresses of one page are found alike.
proof fn lookup_by_page(
    m: Memory,
    root: usize,
    virt_of: spec_fn(u64) -> usize,
    a: u64,
    b: u64,
)
    requires
        a / 0x4000 == b / 0x4000,
    ensures
        looked_up(m, root, virt_of, a) == looked_up(m, root, virt_of, b),
{
    assert(a / 0x80_0000 == a / 0x4000 / 512);
    assert(b / 0x80_0000 == b / 0x4000 / 512);
    assert(a / 0x1_0000_0000 == a / 0x4000 / 0x4_0000);
    assert(b / 0x1_0000_0000 == b / 0x4000 / 0x4_0000);
}

proof fn pages_of_a_range(iova: u64, paddr: u64, size: u64, o: u64)
    requires
        iova % 0x4000 == 0,
        paddr % 0x4000 == 0,
        iova + size <= 0x200_0000_0000,
        paddr + size <= 0x200_0000_0000,
        o < size,
    ensures
        ({
            let k = (o / 0x4000) as int;
            &&& 0 <= k < page_count(size)
            &&& iova + 0x4000 * page_count(size) <= 0x200_0000_0000
            &&& paddr + 0x4000 * page_count(size) <= 0x200_0000_0000
            &&& page_at(iova, k) / 0x4000 == (iova + o) as u64 / 0x4000
            &&& page_at(paddr, k) < paddr + size
            &&& page_at(paddr, k) / 0x4000 * 0x4000 + o % 0x4000 == paddr + o
        }),
{
    let k = (o / 0x4000) as int;
    assert(page_at(iova, k) == iova + 0x4000 * k);
    assert(page_at(paddr, k) == paddr + 0x4000 * k);
}

/// The address of a page of a range.
pub open spec fn page_at(start: u64, i: int) -> u64 {
    (start + 0x4000 * i) as u64
}

/// Memory once the first `i` pages of a range are mapped.
pub open spec fn partly_mapped(
    m: Memory,
    root: usize,
    iova: u64,
    paddr: u64,
    flags: u64,
    steps: Seq<Descent>,
    i: int,
) -> Memory {
    memory_after(m, map_run(root, iova, paddr, flags, steps.take(i)))
}

/// The tables on the way to each page lie in memory that holds what was read,
/// and tables on different ways do not overlap.
pub open spec fn tables_apart(
    m: Memory,
    root: usize,
    virt_of: spec_fn(u64) -> usize,
    iova: u64,
    paddr: u64,
    flags: u64,
    steps: Seq<Descent>,
) -> bool {
    &&& forall|i: int|
        0 <= i < steps.len() ==> walked(
            partly_mapped(m, root, iova, paddr, flags, steps, i),
            root,
            virt_of,
            page_at(iova, i),
            #[trigger] steps[i],
        )
    &&& forall|i: int, k: int|
        #![trigger steps[i], page_at(iova, k)]
        0 <= k < i < steps.len() ==> other_path_apart(
            partly_mapped(m, root, iova, paddr, flags, steps, i),
            root,
            virt_of,
            page_at(iova, i),
            steps[i],
            page_at(iova, k),
        )
}

proof fn run_is_found(
    m: Memory,
    root: usize,
    virt_of: spec_fn(u64) -> usize,
    iova: u64,
    paddr: u64,
    flags: u64,
    steps: Seq<Descent>,
    k: int,
)
    requires
        tables_apart(m, root, virt_of, iova, paddr, flags, steps),
        flags & 1 == 1,
        iova + 0x4000 * steps.len() <= 0x200_0000_0000,
        paddr + 0x4000 * steps.len() <= u64::MAX,
        0 <= k < steps.len(),
    ensures
        walk(memory_after(m, map_run(root, iova, paddr, flags, steps)), root, virt_of, page_at(
            iova,
            k,
        )) == Some(leaf_pte(page_at(paddr, k), flags)),
    decreases steps.len(),
{
    let n = steps.len() - 1;
    let less = steps.drop_last();
    assert(steps.take(n) =~= less);
    let before = memory_after(m, map_run(root, iova, paddr, flags, less));
    let here = page_at(iova, n);
    let target = page_at(paddr, n);
    assert(here == (iova + n * 0x4000) as u64);
    assert(target == (paddr + n * 0x4000) as u64);
    memory_append(
        m,
        map_run(root, iova, paddr, flags, less),
        map_ops(root, here, target, flags, steps.last()),
    );
    assert(steps[n] == steps.last());
    if k == n {
        mapped_page_is_found(before, root, virt_of, here, target, flags, steps.last());
    } else {
        assert forall|i: int| 0 <= i < less.len() implies walked(
            partly_mapped(m, root, iova, paddr, flags, less, i),
            root,
            virt_of,
            page_at(iova, i),
            #[trigger] less[i],
        ) by {
            assert(less.take(i) =~= steps.take(i));
            assert(less[i] == steps[i]);
        }
        assert forall|i: int, j: int|
            #![trigger less[i], page_at(iova, j)]
            0 <= j < i < less.len() implies other_path_apart(
            partly_mapped(m, root, iova, paddr, flags, less, i),
            root,
            virt_of,
            page_at(iova, i),
            less[i],
            page_at(iova, j),
        ) by {
            assert(less.take(i) =~= steps.take(i));
            assert(less[i] == steps[i]);
        }
        run_is_found(m, root, virt_of, iova, paddr, flags, less, k);
        let other = page_at(iova, k);
        assert(other_path_apart(before, root, virt_of, here, steps[n], other));
        pages_differ(other, here);
        mapping_keeps_other_pages(before, root, virt_of, here, target, flags, steps.last(), other);
    }
}

/// Once a range is mapped, the hardware finds at every address in it the byte
/// of physical memory at the same distance from the start, with the access
/// that was asked for.
pub proof fn mapped_ranges_are_found(
    m: Memory,
    root: usize,
    virt_of: spec_fn(u64) -> usize,
    before: Seq<Op>,
    after: Seq<Op>,
    iova: u64,
    paddr: u64,
    size: u64,
    flags: u64,
    steps: Seq<Descent>,
    o: u64,
)
    requires
        mapped_range(root, before, after, iova, paddr, size, flags, Ok(()), steps),
        tables_apart(m, root, virt_of, iova, paddr, flags, steps),
        iova % 0x4000 == 0,
        paddr % 0x4000 == 0,
        iova + size <= 0x200_0000_0000,
        paddr + size <= 0x10_0000_0000,
        flags % 2 == 1,
        flags < 0x4000,
        o < size,
    ensures
        ({
            let then = memory_after(m, after.skip(before.len() as int));
            let found = looked_up(then, root, virt_of, (iova + o) as u64);
            &&& found is Some
            &&& frame_in(found->0) + o % 0x4000 == paddr + o
            &&& found->0 % 0x4000 == flags
            &&& found->0 / 0x100_0000_0000 == 0xfff
        }),
{
    let k = (o / 0x4000) as int;
    let run = map_run(root, iova, paddr, flags, steps);
    assert(after.skip(before.len() as int) =~= run);
    let then = memory_after(m, run);
    pages_of_a_range(iova, paddr, size, o);
    entries_in_numbers(flags, 0);
    run_is_found(m, root, virt_of, iova, paddr, flags, steps, k);
    walk_is_the_lookup(then, root, virt_of, page_at(iova, k));
    lookup_by_page(then, root, virt_of, page_at(iova, k), (iova + o) as u64);
    leaf_in_numbers(page_at(paddr, k), flags);
}

/// Every page of a range is found, wherever the range starts inside a page:
/// the page at a distance of whole pages from the start names the frame at the
/// same distance.
pub proof fn mapped_pages_are_found(
    m: Memory,
    root: usize,
    virt_of: spec_fn(u64) -> usize,
    before: Seq<Op>,
    after: Seq<Op>,
    iova: u64,
    paddr: u64,
    size: u64,
    flags: u64,
    steps: Seq<Descent>,
    k: int,
)
    requires
        mapped_range(root, before, after, iova, paddr, size, flags, Ok(()), steps),
        tables_apart(m, root, virt_of, iova, paddr, flags, steps),
        iova + size + 0x4000 <= 0x200_0000_0000,
        paddr + size + 0x4000 <= 0x10_0000_0000,
        flags % 2 == 1,
        flags < 0x4000,
        0 <= k,
        0x4000 * k < size,
    ensures
        ({
            let then = memory_after(m, after.skip(before.len() as int));
            let found = looked_up(then, root, virt_of, (iova + 0x4000 * k) as u64);
            &&& found is Some
            &&& frame_in(found->0) == (paddr + 0x4000 * k) / 0x4000 * 0x4000
        }),
{
    let run = map_run(root, iova, paddr, flags, steps);
    assert(after.skip(before.len() as int) =~= run);
    assert(0 <= k < page_count(size) && 0x4000 * page_count(size) < size + 0x4000);
    entries_in_numbers(flags, 0);
    run_is_found(m, root, virt_of, iova, paddr, flags, steps, k);
    walk_is_the_lookup(memory_after(m, run), root, virt_of, page_at(iova, k));
    leaf_in_numbers(page_at(paddr, k), flags);
}

proof fn flags_in_numbers(flags: IommuMapFlags)
    ensures
        pte_flags(flags) < 0x4000,
        pte_flags(flags) % 2 == 1,
        pte_flags(flags) / 2 % 2 == 1,
        flags.read <==> pte_flags(flags) / 0x100 % 2 == 0,
        flags.write <==> pte_flags(flags) / 0x80 % 2 == 0,
{
    entries_in_numbers(0, 0);
}

proof fn low_bits(leaf: u64, f: u64)
    requires
        leaf % 0x4000 == f,
    ensures
        leaf / 2 % 2 == f / 2 % 2,
        leaf / 0x100 % 2 == f / 0x100 % 2,
        leaf / 0x80 % 2 == f / 0x80 % 2,
{
    entries_in_numbers(leaf, 0);
}

/// A mapping through a domain: at every address in it the device finds the byte
/// of physical memory at the same distance from the start, and may read and
/// write exactly where that was allowed.
pub proof fn domain_mappings_are_found(
    m: Memory,
    domain: &DartDomain,
    virt_of: spec_fn(u64) -> usize,
    before: Seq<Op>,
    after: Seq<Op>,
    iova: u64,
    paddr: u64,
    len: u64,
    flags: IommuMapFlags,
    middle: Seq<Op>,
    table: Result<(), DartError>,
    steps: Seq<Descent>,
    hit: bool,
    r: Result<(), IommuError>,
    o: u64,
)
    requires
        domain_mapped(
            domain,
            before,
            after,
            iova,
            paddr,
            len,
            flags,
            r,
            middle,
            table,
            steps,
            hit,
        ),
        r is Ok,
        tables_apart(
            m,
            domain.page_table.root_vaddr,
            virt_of,
            iova,
            paddr,
            pte_flags(flags),
            steps,
        ),
        iova % 0x4000 == 0,
        paddr % 0x4000 == 0,
        iova + len <= 0x200_0000_0000,
        paddr + len <= 0x10_0000_0000,
        o < len,
    ensures
        ({
            let then = memory_after(m, middle.skip(before.len() as int));
            let found = looked_up(
                then,
                domain.page_table.root_vaddr,
                virt_of,
                (iova + o) as u64,
            );
            &&& found is Some
            &&& frame_in(found->0) + o % 0x4000 == paddr + o
            &&& flags.read <==> found->0 / 0x100 % 2 == 0
            &&& flags.write <==> found->0 / 0x80 % 2 == 0
            &&& found->0 / 2 % 2 == 1
        }),
{
    let root = domain.page_table.root_vaddr;
    let f = pte_flags(flags);
    flags_in_numbers(flags);
    mapped_ranges_are_found(
        m,
        root,
        virt_of,
        before,
        middle,
        iova,
        paddr,
        len,
        f,
        steps,
        o,
    );
    let then = memory_after(m, middle.skip(before.len() as int));
    low_bits(looked_up(then, root, virt_of, (iova + o) as u64)->0, f);
}

/// Memory once the first `i` pages of a range are unmapped.
pub open spec fn partly_unmapped(
    m: Memory,
    root: usize,
    iova: u64,
    steps: Seq<Descent>,
    i: int,
) -> Memory {
    memory_after(m, unmap_run(root, iova, steps.take(i)))
}

/// The tables on the way to an address do not overlap a leaf table that is
/// written, unless they are that table.
pub open spec fn way_apart(
    m: Memory,
    root: usize,
    virt_of: spec_fn(u64) -> usize,
    leaves: usize,
    other: u64,
) -> bool {
    let e0 = entry(m, root, slot_of(other, 0));
    let t1 = table_of(e0, virt_of);
    let e1 = entry(m, t1, slot_of(other, 1));
    let t2 = table_of(e1, virt_of);
    &&& e0 & 1 != 0 ==> apart(t1, leaves)
    &&& e0 & 1 != 0 && e1 & 1 != 0 ==> apart(t2, leaves) || t2 == leaves
}

/// One walk in memory that holds what was read, to a table in reach or to an
/// empty entry.
pub open spec fn looked_down(
    m: Memory,
    root: usize,
    virt_of: spec_fn(u64) -> usize,
    iova: u64,
    d: Descent,
) -> bool {
    &&& root + 4096 <= usize::MAX
    &&& unmap_ok(d)
    &&& d.first !is Beyond
    &&& d.second !is Beyond
    &&& step_maps(d.first, virt_of)
    &&& step_maps(d.second, virt_of)
    &&& path_apart(root, d)
    &&& faithful(m, descent_ops(root, iova, d))
}

/// The walks of unmapping a range, each in the memory that those before it
/// left, through tables that do not overlap.
pub open spec fn unmapped_apart(
    m: Memory,
    root: usize,
    virt_of: spec_fn(u64) -> usize,
    iova: u64,
    steps: Seq<Descent>,
) -> bool {
    &&& forall|i: int|
        0 <= i < steps.len() ==> looked_down(
            partly_unmapped(m, root, iova, steps, i),
            root,
            virt_of,
            page_at(iova, i),
            #[trigger] steps[i],
        )
    &&& forall|i: int, k: int|
        #![trigger steps[i], page_at(iova, k)]
        0 <= k < i < steps.len() && leaf_table(steps[i]) is Some ==> way_apart(
            partly_unmapped(m, root, iova, steps, i),
            root,
            virt_of,
            leaf_table(steps[i])->0,
            page_at(iova, k),
        )
}

/// A walk that makes no tables leaves memory alone, and one that comes to no
/// leaf table has seen an empty entry.
proof fn looking_leaves_memory(
    m: Memory,
    root: usize,
    virt_of: spec_fn(u64) -> usize,
    iova: u64,
    d: Descent,
)
    requires
        looked_down(m, root, virt_of, iova, d),
    ensures
        memory_after(m, descent_ops(root, iova, d)) == m,
        leaf_table(d) is None ==> walk(m, root, virt_of, iova) is None,
        leaf_table(d) is Some ==> walked(m, root, virt_of, iova, d),
{
    slots_are_small(iova);
    let upper = step_ops(root, slot_of(iova, 0), d.first);
    if step_table(d.first) is Some {
        memory_append(m, upper, step_ops(step_table(d.first)->0, slot_of(iova, 1), d.second));
    }
    step_leaves_memory(m, root, slot_of(iova, 0), d.first);
    match step_table(d.first) {
        Some(table) => {
            step_leaves_memory(m, table, slot_of(iova, 1), d.second);
        },
        None => {},
    }
}

proof fn step_leaves_memory(m: Memory, table: usize, slot: int, step: Step)
    requires
        step_ok(step),
        step_makes(step, false),
        step !is Beyond,
        faithful(m, step_ops(table, slot, step)),
        0 <= slot < 512,
        table + 4096 <= usize::MAX,
    ensures
        memory_after(m, step_ops(table, slot, step)) == m,
        step is Found ==> entry(m, table, slot) == step->Found_pte,
        step is Missing ==> entry(m, table, slot) & 1 == 0,
{
    let none = Seq::<Op>::empty();
    let ops = step_ops(table, slot, step);
    match step {
        Step::Found { pte, table: next } => {
            let look = Op::Read64 { addr: slot_addr(table, slot), wide: pte };
            let place = Op::Lookup { paddr: pte & 0x0000_000f_ffff_c000, vaddr: next };
            assert(ops =~= none.push(look).push(place));
            memory_push(m, none, look);
            memory_push(m, none.push(look), place);
            assert(sees(m, look));
        },
        Step::Missing { pte, wanted } => {
            let look = Op::Read64 { addr: slot_addr(table, slot), wide: pte };
            assert(ops =~= none.push(look));
            memory_push(m, none, look);
            assert(sees(m, look));
        },
        _ => {},
    }
}

/// Clearing an entry of a leaf table brings no page back.
proof fn clearing_brings_nothing_back(
    m: Memory,
    root: usize,
    virt_of: spec_fn(u64) -> usize,
    leaves: usize,
    slot: int,
    other: u64,
)
    requires
        0 <= slot < 512,
        apart(root, leaves),
        way_apart(m, root, virt_of, leaves, other),
        walk(m, root, virt_of, other) is None,
    ensures
        walk(stored(m, leaves + 8 * slot, le64(0)), root, virt_of, other) is None,
{
    slots_are_small(other);
    entries_in_numbers(0, 0);
    let at = leaves + 8 * slot;
    let after = stored(m, at, le64(0));
    let e0 = entry(m, root, slot_of(other, 0));
    double_word_kept(m, at, le64(0), root + 8 * slot_of(other, 0));
    if e0 & 1 != 0 {
        let t1 = table_of(e0, virt_of);
        double_word_kept(m, at, le64(0), t1 + 8 * slot_of(other, 1));
        let e1 = entry(m, t1, slot_of(other, 1));
        if e1 & 1 != 0 {
            let t2 = table_of(e1, virt_of);
            if t2 == leaves && slot_of(other, 2) == slot {
                double_word_stored(m, at, 0);
            } else {
                double_word_kept(m, at, le64(0), t2 + 8 * slot_of(other, 2));
            }
        }
    }
}

/// Unmapping one page: it is gone, and no page that was gone comes back.
proof fn page_is_gone(
    m: Memory,
    root: usize,
    virt_of: spec_fn(u64) -> usize,
    here: u64,
    d: Descent,
    other: u64,
)
    requires
        looked_down(m, root, virt_of, here, d),
    ensures
        walk(memory_after(m, unmap_ops(root, here, d)), root, virt_of, here) is None,
        walk(m, root, virt_of, other) is None && (leaf_table(d) is Some ==> way_apart(
            m,
            root,
            virt_of,
            leaf_table(d)->0,
            other,
        )) ==> walk(memory_after(m, unmap_ops(root, here, d)), root, virt_of, other) is None,
{
    looking_leaves_memory(m, root, virt_of, here, d);
    if leaf_table(d) is Some {
        let leaves = leaf_table(d)->0;
        let put = Op::Write64 { addr: slot_addr(leaves, slot_of(here, 2)), wide: 0 };
        slots_are_small(here);
        memory_push(m, descent_ops(root, here, d), put);
        unmapped_page_is_gone(m, root, virt_of, here, d);
        if walk(m, root, virt_of, other) is None && way_apart(m, root, virt_of, leaves, other) {
            clearing_brings_nothing_back(m, root, virt_of, leaves, slot_of(here, 2), other);
        }
    }
}

proof fn run_is_gone(
    m: Memory,
    root: usize,
    virt_of: spec_fn(u64) -> usize,
    iova: u64,
    steps: Seq<Descent>,
    k: int,
)
    requires
        unmapped_apart(m, root, virt_of, iova, steps),
        iova + 0x4000 * steps.len() <= u64::MAX,
        0 <= k < steps.len(),
    ensures
        walk(memory_after(m, unmap_run(root, iova, steps)), root, virt_of, page_at(iova, k)) is None,
    decreases steps.len(),
{
    let n = steps.len() - 1;
    let less = steps.drop_last();
    assert(steps.take(n) =~= less);
    let before = memory_after(m, unmap_run(root, iova, less));
    let here = page_at(iova, n);
    let d = steps.last();
    assert(here == (iova + n * 0x4000) as u64);
    memory_append(m, unmap_run(root, iova, less), unmap_ops(root, here, d));
    assert(steps[n] == d);
    let other = page_at(iova, k);
    page_is_gone(before, root, virt_of, here, d, other);
    if k < n {
        assert forall|i: int| 0 <= i < less.len() implies looked_down(
            partly_unmapped(m, root, iova, less, i),
            root,
            virt_of,
            page_at(iova, i),
            #[trigger] less[i],
        ) by {
            assert(less.take(i) =~= steps.take(i));
            assert(less[i] == steps[i]);
        }
        assert forall|i: int, j: int|
            #![trigger less[i], page_at(iova, j)]
            0 <= j < i < less.len() && leaf_table(less[i]) is Some implies way_apart(
            partly_unmapped(m, root, iova, less, i),
            root,
            virt_of,
            leaf_table(less[i])->0,
            page_at(iova, j),
        ) by {
            assert(less.take(i) =~= steps.take(i));
            assert(less[i] == steps[i]);
        }
        run_is_gone(m, root, virt_of, iova, less, k);
        assert(leaf_table(steps[n]) is Some ==> way_apart(
            partly_unmapped(m, root, iova, steps, n),
            root,
            virt_of,
            leaf_table(steps[n])->0,
            page_at(iova, k),
        ));
    }
}

/// Once a range is unmapped, the hardware finds nothing at any address in it.
pub proof fn unmapped_ranges_are_gone(
    m: Memory,
    dart: DartInstance,
    root: usize,
    virt_of: spec_fn(u64) -> usize,
    before: Seq<Op>,
    after: Seq<Op>,
    iova: u64,
    len: u64,
    steps: Seq<Descent>,
    hit: bool,
    o: u64,
)
    requires
        unmapped_range(dart, root, before, after, iova, len, steps, hit),
        unmapped_apart(m, root, virt_of, iova, steps),
        iova % 0x4000 == 0,
        iova + len <= 0x200_0000_0000,
        o < len,
    ensures
        ({
            let cleared = after.subrange(before.len() as int, after.len() - 2);
            looked_up(memory_after(m, cleared), root, virt_of, (iova + o) as u64) is None
        }),
{
    let k = (o / 0x4000) as int;
    let run = unmap_run(root, iova, steps);
    assert(after.subrange(before.len() as int, after.len() - 2) =~= run);
    pages_of_a_range(iova, 0, len, o);
    run_is_gone(m, root, virt_of, iova, steps, k);
    let then = memory_after(m, run);
    walk_is_the_lookup(then, root, virt_of, page_at(iova, k));
    lookup_by_page(then, root, virt_of, page_at(iova, k), (iova + o) as u64);
}

proof fn roots_in_numbers(paddr: u64, a: u32, b: u32)
    by (bit_vector)
    requires
        paddr < 0x800_0000_0000,
    ensures
        ((a & 0x0f00_0000) >> 24 == a / 0x100_0000 % 16) && ((a >> 20) & 0xf == a / 0x10_0000 % 16)
            && ((b & 1 != 0) == (b % 2 == 1)) && ((((paddr >> 12) as u32) | 0x8000_0000u32)
            == 0x8000_0000u32 + paddr / 0x1000) && (0x80u32 | 3 == 0x83) && (0x80u32 | 2 == 0x82),
{
}

/// A stream that is translated names its root table by its number of 4 KiB
/// pages, marked valid, and translates through as many levels as were asked
/// for; both registers are those of the stream.
pub proof fn translated_streams_name_their_table(
    base: usize,
    sid: int,
    paddr: u64,
    levels: u32,
    regs: Map<usize, u32>,
)
    requires
        0 <= sid < 64,
        base + 0x1000 <= usize::MAX,
        paddr < 0x800_0000_0000,
        levels == 3 || levels == 4,
    ensures
        ({
            let then = registers_after(translate_ops(base, sid, paddr, levels), regs);
            &&& then[(base + 0x200 + 4 * sid) as usize] == 0x8000_0000 + paddr / 0x1000
            &&& then[(base + 0x100 + 4 * sid) as usize] == 0x80 + levels - 1
            &&& forall|at: usize|
                at != base + 0x200 + 4 * sid && at != base + 0x100 + 4 * sid
                    ==> #[trigger] then.dom().contains(at) == regs.dom().contains(at) && then[at]
                    == regs[at]
        }),
{
    roots_in_numbers(paddr, 0, 0);
    let ops = translate_ops(base, sid, paddr, levels);
    let first = Seq::<Op>::empty().push(ops[0]);
    assert(ops.drop_last() =~= first);
    assert(first.drop_last() =~= Seq::<Op>::empty());
    reveal_with_fuel(registers_after, 3);
}

/// What two registers say of a translation unit: the size of its pages as a
/// power of two in bits 24 to 27 of the first, how many streams it has as
/// another in bits 20 to 23, with 16 where that is no number from 1 to 8, and
/// whether streams may bypass it in bit 0 of the second.
pub proof fn units_tell_their_size(params1: u32, params2: u32)
    ensures
        ({
            let p = decoded_params(params1, params2);
            let width = params1 as int / 0x10_0000 % 16;
            &&& p.page_shift == params1 as int / 0x100_0000 % 16
            &&& p.supports_bypass == (params2 % 2 == 1)
            &&& 1 <= width <= 8 ==> p.num_streams == pow2(width as nat)
            &&& width == 0 || width > 8 ==> p.num_streams == 16
        }),
{
    roots_in_numbers(0, params1, params2);
    let width = (params1 >> 20) & 0xf;
    if 1 <= width <= 8 {
        vstd::bits::lemma_u32_pow2_no_overflow(width as nat);
        vstd::bits::lemma_u32_shl_is_mul(1u32, width);
    }
}

/// A stream that bypasses its unit has both bypass bits, 8 and 12, in its control
/// register and nothing else; where the unit cannot be bypassed the stream is
/// translated through the table at address zero.
pub proof fn bypassing_streams_are_let_through(
    dart: DartInstance,
    sid: int,
    regs: Map<usize, u32>,
)
    requires
        0 <= sid < 64,
        dart.base_addr + 0x1000 <= usize::MAX,
    ensures
        ({
            let then = registers_after(bypass_ops(dart, sid), regs);
            &&& dart.params.supports_bypass ==> then[(dart.base_addr + 0x100 + 4 * sid) as usize]
                == 0x100 + 0x1000
            &&& !dart.params.supports_bypass ==> then[(dart.base_addr + 0x100 + 4 * sid) as usize]
                == 0x82 && then[(dart.base_addr + 0x200 + 4 * sid) as usize] == 0x8000_0000
        }),
{
    if dart.params.supports_bypass {
        let ops = bypass_ops(dart, sid);
        assert(ops.drop_last() =~= Seq::<Op>::empty());
        reveal_with_fuel(registers_after, 2);
    } else {
        translated_streams_name_their_table(dart.base_addr, sid, 0, 3, regs);
    }
}

/// Streams are attached once, and only those that the unit has.
pub proof fn streams_are_attached_once(attached: Seq<u32>, sid: u32, params: DartParams)
    requires
        attached.no_duplicates(),
    ensures
        with_stream(attached, sid).no_duplicates(),
        with_stream(attached, sid).contains(sid),
        forall|s: u32|
            s != sid ==> #[trigger] with_stream(attached, sid).contains(s) == attached.contains(s),
        stream_check(params, IommuStreamId { id: sid, substream_id: None }) is Ok <==> sid
            < params.num_streams,
{
    let all = with_stream(attached, sid);
    if !attached.contains(sid) {
        assert(all[attached.len() as int] == sid);
        assert forall|s: u32| s != sid implies #[trigger] all.contains(s) == attached.contains(s) by {
            if attached.contains(s) {
                let i = choose|i: int| 0 <= i < attached.len() && attached[i] == s;
                assert(all[i] == s);
            }
        }
    }
}

} // verus!
