//! Which reference pictures an H.264 slice uses, and in which order.

use crate::avd::h264::{
    H264DpbEntry, H264Reference, H264SliceKind, H264SliceParameters, AVD_H264_MAX_REFERENCES,
    H264_MAX_REF_LIST_ENTRIES,
};
use vstd::prelude::*;

verus! {

/// Previously decoded reference picture visible to the AVD command stream.
#[derive(Clone, Copy, Debug, PartialEq, Eq, Structural)]
pub struct AvdH264ReferencePicture {
    /// Stateless reference timestamp identifying this decoded picture.
    pub timestamp: u64,
    /// RVRA scratch base for the reference picture.
    pub reference_dma_addr: u64,
    /// SPS scratch tile base associated with this reference picture.
    pub sps_tile_dma_addr: u64,
    /// H.264 frame number.
    pub frame_num: u16,
    /// H.264 short-term picture number.
    pub pic_num: i32,
    /// Top field order count.
    pub top_field_order_cnt: i32,
    /// Whether this is a long-term reference.
    pub long_term: bool,
}

impl Default for AvdH264ReferencePicture {
    fn default() -> (r: Self)
        ensures
            r == (AvdH264ReferencePicture {
                timestamp: 0,
                reference_dma_addr: 0,
                sps_tile_dma_addr: 0,
                frame_num: 0,
                pic_num: 0,
                top_field_order_cnt: 0,
                long_term: false,
            }),
    {
        AvdH264ReferencePicture {
            timestamp: 0,
            reference_dma_addr: 0,
            sps_tile_dma_addr: 0,
            frame_num: 0,
            pic_num: 0,
            top_field_order_cnt: 0,
            long_term: false,
        }
    }
}

/// The smaller of two counts.
pub open spec fn at_most(n: int, limit: int) -> int {
    if n <= limit {
        n
    } else {
        limit
    }
}

fn min_usize(a: usize, b: usize) -> (r: usize)
    ensures
        r == at_most(a as int, b as int),
{
    if a <= b {
        a
    } else {
        b
    }
}

/// The picture buffer slots named by the first `n` list entries, leaving out
/// slots that do not exist or hold no picture.
pub open spec fn valid_slots(list: Seq<H264Reference>, n: int, dpb: Seq<H264DpbEntry>) -> Seq<usize>
    decreases n,
{
    if n <= 0 {
        Seq::empty()
    } else {
        let head = valid_slots(list, n - 1, dpb);
        let slot = list[n - 1].index as int;
        if slot < dpb.len() && dpb[slot].valid {
            head.push(slot as usize)
        } else {
            head
        }
    }
}

/// Every slot named is one of the buffer.
pub proof fn valid_slots_in_range(list: Seq<H264Reference>, n: int, dpb: Seq<H264DpbEntry>)
    ensures
        forall|k: int|
            0 <= k < valid_slots(list, n, dpb).len() ==> (#[trigger] valid_slots(list, n, dpb)[k])
                < dpb.len(),
        n >= 0 ==> valid_slots(list, n, dpb).len() <= n,
    decreases n,
{
    if n > 0 {
        valid_slots_in_range(list, n - 1, dpb);
    }
}

fn explicit_reference_indices(
    list: &[H264Reference; 32],
    count: usize,
    dpb: &[H264DpbEntry; 16],
) -> (out: Vec<usize>)
    ensures
        out@ == valid_slots(
            list@,
            at_most(count as int, H264_MAX_REF_LIST_ENTRIES as int),
            dpb@,
        ),
{
    let limit: usize = min_usize(count, H264_MAX_REF_LIST_ENTRIES);
    let mut out: Vec<usize> = Vec::new();
    let mut n: usize = 0;
    while n < limit
        invariant
            n <= limit <= 32,
            out@ == valid_slots(list@, n as int, dpb@),
        decreases limit - n,
    {
        let dpb_index: usize = list[n].index as usize;
        if dpb_index < 16 && dpb[dpb_index].valid {
            out.push(dpb_index);
        }
        n = n + 1;
    }
    out
}

/// Whether the picture at `right` belongs in front of the one at `left`.
pub open spec fn out_of_order(
    refs: Seq<AvdH264ReferencePicture>,
    left: usize,
    right: usize,
    ascending: bool,
) -> bool {
    let l = refs[left as int].top_field_order_cnt;
    let r = refs[right as int].top_field_order_cnt;
    if ascending {
        r < l
    } else {
        r > l
    }
}

/// Two elements exchanged.
pub open spec fn swapped(s: Seq<usize>, i: int, j: int) -> Seq<usize> {
    s.update(i, s[j]).update(j, s[i])
}

/// Position `i` compared with every position from `c` on, exchanging where
/// out of order.
pub open spec fn exchange_pass(
    s: Seq<usize>,
    n: int,
    i: int,
    c: int,
    refs: Seq<AvdH264ReferencePicture>,
    ascending: bool,
) -> Seq<usize>
    decreases n - c,
{
    if c >= n {
        s
    } else if out_of_order(refs, s[i], s[c], ascending) {
        exchange_pass(swapped(s, i, c), n, i, c + 1, refs, ascending)
    } else {
        exchange_pass(s, n, i, c + 1, refs, ascending)
    }
}

/// One pass for each position from `i` on.
pub open spec fn exchange_sorted(
    s: Seq<usize>,
    n: int,
    i: int,
    refs: Seq<AvdH264ReferencePicture>,
    ascending: bool,
) -> Seq<usize>
    decreases n - i,
{
    if i >= n {
        s
    } else {
        exchange_sorted(exchange_pass(s, n, i, i + 1, refs, ascending), n, i + 1, refs, ascending)
    }
}

proof fn update_multiset(s: Seq<usize>, i: int, v: usize)
    requires
        0 <= i < s.len(),
    ensures
        s.update(i, v).to_multiset() == s.to_multiset().remove(s[i]).insert(v),
{
    broadcast use vstd::multiset::group_multiset_axioms;
    broadcast use vstd::seq_lib::group_to_multiset_ensures;

    let t = s.update(i, v);
    assert(t.remove(i) =~= s.remove(i));
    vstd::seq_lib::to_multiset_remove(t, i);
    vstd::seq_lib::to_multiset_remove(s, i);
    t.to_multiset_ensures();
    assert(t.contains(v)) by {
        assert(t[i] == v);
    }
    assert(t.to_multiset().count(v) > 0);
    assert(t.to_multiset() =~= t.to_multiset().remove(v).insert(v));
}

proof fn swap_multiset(s: Seq<usize>, i: int, j: int)
    requires
        0 <= i < s.len(),
        0 <= j < s.len(),
        i != j,
    ensures
        swapped(s, i, j).to_multiset() == s.to_multiset(),
{
    broadcast use vstd::multiset::group_multiset_axioms;
    broadcast use vstd::seq_lib::group_to_multiset_ensures;

    update_multiset(s, i, s[j]);
    let t = s.update(i, s[j]);
    update_multiset(t, j, s[i]);
    s.to_multiset_ensures();
    assert(s.contains(s[i]));
    assert(s.to_multiset().count(s[i]) > 0);
    assert(swapped(s, i, j).to_multiset() =~= s.to_multiset());
}

spec fn taken_from(x: usize, s: Seq<usize>, i: int, n: int) -> bool {
    exists|j: int| i <= j < n && #[trigger] s[j] == x
}

proof fn pass_properties(
    s: Seq<usize>,
    n: int,
    i: int,
    c: int,
    refs: Seq<AvdH264ReferencePicture>,
    ascending: bool,
)
    requires
        0 <= i < c <= n,
        n == s.len(),
        forall|k: int| i <= k < c ==> !out_of_order(refs, s[i], #[trigger] s[k], ascending),
    ensures
        ({
            let r = exchange_pass(s, n, i, c, refs, ascending);
            &&& r.len() == n
            &&& r.to_multiset() == s.to_multiset()
            &&& forall|k: int| 0 <= k < i ==> #[trigger] r[k] == s[k]
            &&& forall|k: int| i <= k < n ==> !out_of_order(refs, r[i], #[trigger] r[k], ascending)
            &&& forall|k: int| i <= k < n ==> taken_from(#[trigger] r[k], s, i, n)
        }),
    decreases n - c,
{
    if c < n {
        if out_of_order(refs, s[i], s[c], ascending) {
            let t = swapped(s, i, c);
            swap_multiset(s, i, c);
            assert forall|k: int| i <= k < c + 1 implies !out_of_order(
                refs,
                t[i],
                #[trigger] t[k],
                ascending,
            ) by {
                if k == c {
                    assert(t[k] == s[i]);
                } else if k > i {
                    assert(t[k] == s[k]);
                }
            }
            pass_properties(t, n, i, c + 1, refs, ascending);
            let r = exchange_pass(s, n, i, c, refs, ascending);
            assert forall|k: int| i <= k < n implies taken_from(#[trigger] r[k], s, i, n) by {
                assert(taken_from(r[k], t, i, n));
                let m = choose|m: int| i <= m < n && #[trigger] t[m] == r[k];
                let j = if m == i {
                    c
                } else if m == c {
                    i
                } else {
                    m
                };
                assert(t[m] == s[j]);
            }
        } else {
            pass_properties(s, n, i, c + 1, refs, ascending);
        }
    } else {
        assert forall|k: int| i <= k < n implies taken_from(#[trigger] s[k], s, i, n) by {}
    }
}

/// In order of their picture order counts.
pub open spec fn in_poc_order(
    s: Seq<usize>,
    refs: Seq<AvdH264ReferencePicture>,
    ascending: bool,
) -> bool {
    forall|a: int, b: int|
        0 <= a < b < s.len() ==> !out_of_order(refs, #[trigger] s[a], #[trigger] s[b], ascending)
}

proof fn sorted_from(
    s: Seq<usize>,
    n: int,
    i: int,
    refs: Seq<AvdH264ReferencePicture>,
    ascending: bool,
)
    requires
        0 <= i <= n,
        n == s.len(),
        forall|a: int, b: int|
            0 <= a < i && a < b < n ==> !out_of_order(
                refs,
                #[trigger] s[a],
                #[trigger] s[b],
                ascending,
            ),
    ensures
        exchange_sorted(s, n, i, refs, ascending).len() == n,
        exchange_sorted(s, n, i, refs, ascending).to_multiset() == s.to_multiset(),
        in_poc_order(exchange_sorted(s, n, i, refs, ascending), refs, ascending),
    decreases n - i,
{
    if i < n {
        pass_properties(s, n, i, i + 1, refs, ascending);
        let r = exchange_pass(s, n, i, i + 1, refs, ascending);
        assert forall|a: int, b: int| 0 <= a < i + 1 && a < b < n implies !out_of_order(
            refs,
            #[trigger] r[a],
            #[trigger] r[b],
            ascending,
        ) by {
            if a < i {
                if b < i {
                    assert(r[b] == s[b]);
                } else {
                    assert(taken_from(r[b], s, i, n));
                    let j = choose|j: int| i <= j < n && #[trigger] s[j] == r[b];
                    assert(!out_of_order(refs, s[a], s[j], ascending));
                }
            }
        }
        sorted_from(r, n, i + 1, refs, ascending);
    }
}

/// Sorting by picture order count keeps exactly the indices it was given and
/// puts them in order.
pub proof fn exchange_sort_sorts(
    s: Seq<usize>,
    refs: Seq<AvdH264ReferencePicture>,
    ascending: bool,
)
    ensures
        exchange_sorted(s, s.len() as int, 0, refs, ascending).to_multiset() == s.to_multiset(),
        in_poc_order(exchange_sorted(s, s.len() as int, 0, refs, ascending), refs, ascending),
{
    sorted_from(s, s.len() as int, 0, refs, ascending);
}

fn sort_reference_indices_by_poc(
    indices: &mut Vec<usize>,
    references: &[AvdH264ReferencePicture],
    ascending: bool,
)
    requires
        forall|k: int| 0 <= k < old(indices)@.len() ==> (#[trigger] old(indices)@[k])
            < references.len(),
    ensures
        final(indices)@ == exchange_sorted(
            old(indices)@,
            old(indices)@.len() as int,
            0,
            references@,
            ascending,
        ),
        forall|k: int| 0 <= k < final(indices)@.len() ==> (#[trigger] final(indices)@[k])
            < references.len(),
        final(indices)@.len() == old(indices)@.len(),
{
    let len: usize = indices.len();
    let ghost goal = exchange_sorted(indices@, len as int, 0, references@, ascending);
    let mut index: usize = 0;
    while index < len
        invariant
            index <= len,
            len == indices@.len(),
            goal == exchange_sorted(indices@, len as int, index as int, references@, ascending),
            forall|k: int| 0 <= k < len ==> (#[trigger] indices@[k]) < references.len(),
        decreases len - index,
    {
        let mut candidate: usize = index + 1;
        let ghost pass = exchange_pass(
            indices@,
            len as int,
            index as int,
            candidate as int,
            references@,
            ascending,
        );
        while candidate < len
            invariant
                index < candidate <= len,
                len == indices@.len(),
                pass == exchange_pass(
                    indices@,
                    len as int,
                    index as int,
                    candidate as int,
                    references@,
                    ascending,
                ),
                forall|k: int| 0 <= k < len ==> (#[trigger] indices@[k]) < references.len(),
            decreases len - candidate,
        {
            let left: usize = indices[index];
            let right: usize = indices[candidate];
            let left_poc: i32 = references[left].top_field_order_cnt;
            let right_poc: i32 = references[right].top_field_order_cnt;
            let should_swap = if ascending {
                right_poc < left_poc
            } else {
                right_poc > left_poc
            };
            if should_swap {
                indices.set(index, right);
                indices.set(candidate, left);
            }
            candidate = candidate + 1;
        }
        index = index + 1;
    }
}

/// Indices of the first `n` pictures whose order count lies before (or not
/// before) the current one.
pub open spec fn split_by_poc(
    refs: Seq<AvdH264ReferencePicture>,
    n: int,
    current_poc: i32,
    before: bool,
) -> Seq<usize>
    decreases n,
{
    if n <= 0 {
        Seq::empty()
    } else {
        let head = split_by_poc(refs, n - 1, current_poc, before);
        if (refs[n - 1].top_field_order_cnt < current_poc) == before {
            head.push((n - 1) as usize)
        } else {
            head
        }
    }
}

/// The past pictures, latest first.
pub open spec fn past_pictures(refs: Seq<AvdH264ReferencePicture>, current_poc: i32) -> Seq<usize> {
    let s = split_by_poc(refs, at_most(refs.len() as int, 16), current_poc, true);
    exchange_sorted(s, s.len() as int, 0, refs, false)
}

/// The other pictures, earliest first.
pub open spec fn future_pictures(refs: Seq<AvdH264ReferencePicture>, current_poc: i32) -> Seq<
    usize,
> {
    let s = split_by_poc(refs, at_most(refs.len() as int, 16), current_poc, false);
    exchange_sorted(s, s.len() as int, 0, refs, true)
}

/// Reference list 1 of a B slice before it is cut: future pictures, then past
/// ones; the first two exchanged where that equals list 0.
pub open spec fn bipred_list1(refs: Seq<AvdH264ReferencePicture>, current_poc: i32) -> Seq<usize> {
    let list0 = past_pictures(refs, current_poc) + future_pictures(refs, current_poc);
    let list1 = future_pictures(refs, current_poc) + past_pictures(refs, current_poc);
    if list0 == list1 && list1.len() > 1 {
        swapped(list1, 0, 1)
    } else {
        list1
    }
}

/// The first `minus1 + 1` entries, at most 16.
pub open spec fn cut(list: Seq<usize>, active_minus1: u8) -> Seq<usize> {
    list.take(at_most(list.len() as int, at_most(active_minus1 + 1, 16)))
}

/// The two reference lists of a slice as picture indices.
pub open spec fn reference_lists(
    slice: H264SliceParameters,
    dpb: Seq<H264DpbEntry>,
    current_poc: i32,
    refs: Seq<AvdH264ReferencePicture>,
) -> (Seq<usize>, Seq<usize>) {
    if slice.ref_lists_present {
        (
            valid_slots(
                slice.ref_pic_list0@,
                at_most(slice.num_ref_idx_l0_active_minus1 + 1, 32),
                dpb,
            ),
            if slice.kind == H264SliceKind::B {
                valid_slots(
                    slice.ref_pic_list1@,
                    at_most(slice.num_ref_idx_l1_active_minus1 + 1, 32),
                    dpb,
                )
            } else {
                Seq::empty()
            },
        )
    } else {
        match slice.kind {
            H264SliceKind::I => (Seq::empty(), Seq::empty()),
            H264SliceKind::P => (
                Seq::new(
                    at_most(
                        refs.len() as int,
                        at_most(slice.num_ref_idx_l0_active_minus1 + 1, 16),
                    ) as nat,
                    |i: int| i as usize,
                ),
                Seq::empty(),
            ),
            H264SliceKind::B => (
                cut(
                    past_pictures(refs, current_poc) + future_pictures(refs, current_poc),
                    slice.num_ref_idx_l0_active_minus1,
                ),
                cut(bipred_list1(refs, current_poc), slice.num_ref_idx_l1_active_minus1),
            ),
        }
    }
}

/// Picture indices narrowed to bytes.
pub open spec fn narrowed(list: Seq<usize>) -> Seq<u8> {
    Seq::new(list.len(), |i: int| list[i] as u8)
}

/// The pictures a slice refers to: the table that goes to the decoder and the
/// two lists of indices into it.
pub struct ReferencePlan {
    table: Vec<AvdH264ReferencePicture>,
    list0: Vec<u8>,
    list1: Vec<u8>,
}

fn copy_indices(list: &Vec<usize>) -> (r: Vec<u8>)
    requires
        forall|k: int| 0 <= k < list@.len() ==> (#[trigger] list@[k]) < 16,
    ensures
        r@ == narrowed(list@),
{
    let mut out: Vec<u8> = Vec::new();
    let mut i: usize = 0;
    while i < list.len()
        invariant
            i <= list@.len(),
            out@.len() == i,
            forall|k: int| 0 <= k < i ==> #[trigger] out@[k] == list@[k] as u8,
            forall|k: int| 0 <= k < list@.len() ==> (#[trigger] list@[k]) < 16,
        decreases list@.len() - i,
    {
        let index: usize = list[i];
        if index < AVD_H264_MAX_REFERENCES {
            out.push(index as u8);
        }
        i = i + 1;
    }
    assert(out@ =~= narrowed(list@));
    out
}

fn append_indices(list: &mut Vec<usize>, more: &Vec<usize>)
    ensures
        final(list)@ == old(list)@ + more@,
{
    let ghost start = list@;
    let mut i: usize = 0;
    while i < more.len()
        invariant
            i <= more@.len(),
            list@ == start + more@.subrange(0, i as int),
        decreases more@.len() - i,
    {
        list.push(more[i]);
        i = i + 1;
    }
    assert(more@.subrange(0, more@.len() as int) == more@);
}

fn usize_lists_equal(left: &Vec<usize>, right: &Vec<usize>) -> (r: bool)
    ensures
        r == (left@ == right@),
{
    if left.len() != right.len() {
        return false;
    }
    let mut i: usize = 0;
    while i < left.len()
        invariant
            i <= left@.len(),
            left@.len() == right@.len(),
            forall|k: int| 0 <= k < i ==> left@[k] == right@[k],
        decreases left@.len() - i,
    {
        if left[i] != right[i] {
            return false;
        }
        i = i + 1;
    }
    assert(left@ =~= right@);
    true
}

fn bipred_lists(current_poc: i32, references: &[AvdH264ReferencePicture]) -> (r: (
    Vec<usize>,
    Vec<usize>,
))
    ensures
        r.0@ == past_pictures(references@, current_poc) + future_pictures(references@, current_poc),
        r.1@ == bipred_list1(references@, current_poc),
        forall|k: int| 0 <= k < r.0@.len() ==> (#[trigger] r.0@[k]) < 16,
        forall|k: int| 0 <= k < r.1@.len() ==> (#[trigger] r.1@[k]) < 16,
{
    let mut list0: Vec<usize> = Vec::new();
    let mut list1: Vec<usize> = Vec::new();
    let mut before: Vec<usize> = Vec::new();
    let mut after: Vec<usize> = Vec::new();
    let count: usize = min_usize(references.len(), AVD_H264_MAX_REFERENCES);
    let mut index: usize = 0;
    while index < count
        invariant
            index <= count <= 16,
            count <= references.len(),
            before@ == split_by_poc(references@, index as int, current_poc, true),
            after@ == split_by_poc(references@, index as int, current_poc, false),
            before@.len() + after@.len() == index,
            forall|k: int| 0 <= k < before@.len() ==> (#[trigger] before@[k]) < count,
            forall|k: int| 0 <= k < after@.len() ==> (#[trigger] after@[k]) < count,
        decreases count - index,
    {
        if references[index].top_field_order_cnt < current_poc {
            before.push(index);
        } else {
            after.push(index);
        }
        index = index + 1;
    }
    proof {
        exchange_sort_sorts(before@, references@, false);
        exchange_sort_sorts(after@, references@, true);
        stays_below(before@, references@, false, count as int);
        stays_below(after@, references@, true, count as int);
    }
    sort_reference_indices_by_poc(&mut before, references, false);
    sort_reference_indices_by_poc(&mut after, references, true);
    append_indices(&mut list0, &before);
    append_indices(&mut list0, &after);
    append_indices(&mut list1, &after);
    append_indices(&mut list1, &before);
    assert(list0@ =~= before@ + after@);
    assert(list1@ =~= after@ + before@);
    if usize_lists_equal(&list0, &list1) && list1.len() > 1 {
        let first: usize = list1[0];
        let second: usize = list1[1];
        list1.set(0, second);
        list1.set(1, first);
    }
    assert(list1@ =~= bipred_list1(references@, current_poc));
    (list0, list1)
}

impl ReferencePlan {
    /// The pictures handed to the decoder.
    pub closed spec fn table_view(&self) -> Seq<AvdH264ReferencePicture> {
        self.table@
    }

    /// Reference list 0.
    pub closed spec fn list0_view(&self) -> Seq<u8> {
        self.list0@
    }

    /// Reference list 1.
    pub closed spec fn list1_view(&self) -> Seq<u8> {
        self.list1@
    }

    pub fn table(&self) -> (r: &[AvdH264ReferencePicture])
        ensures
            r@ == self.table_view(),
    {
        self.table.as_slice()
    }

    pub fn list0(&self) -> (r: &[u8])
        ensures
            r@ == self.list0_view(),
    {
        self.list0.as_slice()
    }

    pub fn list1(&self) -> (r: &[u8])
        ensures
            r@ == self.list1_view(),
    {
        self.list1.as_slice()
    }

    /// Plan the references of a slice.
    pub fn build(
        dpb: &[H264DpbEntry; 16],
        current_poc: i32,
        slice: &H264SliceParameters,
        references: &[AvdH264ReferencePicture],
    ) -> (r: Self)
        ensures
            r.table_view() == references@.take(at_most(references@.len() as int, 16)),
            r.list0_view() == narrowed(
                reference_lists(*slice, dpb@, current_poc, references@).0,
            ),
            r.list1_view() == narrowed(
                reference_lists(*slice, dpb@, current_poc, references@).1,
            ),
    {
        if slice.ref_lists_present {
            let list0 = explicit_reference_indices(
                &slice.ref_pic_list0,
                slice.num_ref_idx_l0_active_minus1 as usize + 1,
                dpb,
            );
            let list1 = if matches!(slice.kind, H264SliceKind::B) {
                explicit_reference_indices(
                    &slice.ref_pic_list1,
                    slice.num_ref_idx_l1_active_minus1 as usize + 1,
                    dpb,
                )
            } else {
                Vec::new()
            };
            proof {
                valid_slots_in_range(
                    slice.ref_pic_list0@,
                    at_most(slice.num_ref_idx_l0_active_minus1 + 1, 32),
                    dpb@,
                );
                valid_slots_in_range(
                    slice.ref_pic_list1@,
                    at_most(slice.num_ref_idx_l1_active_minus1 + 1, 32),
                    dpb@,
                );
            }
            return Self::from_original_lists(&list0, &list1, references);
        }
        let mut list0: Vec<usize> = Vec::new();
        let mut list1: Vec<usize> = Vec::new();
        match slice.kind {
            H264SliceKind::I => {},
            H264SliceKind::P => {
                let needed: usize = min_usize(
                    slice.num_ref_idx_l0_active_minus1 as usize + 1,
                    AVD_H264_MAX_REFERENCES,
                );
                let count: usize = min_usize(references.len(), needed);
                let mut index: usize = 0;
                while index < count
                    invariant
                        index <= count <= 16,
                        list0@ == Seq::new(index as nat, |i: int| i as usize),
                    decreases count - index,
                {
                    list0.push(index);
                    index = index + 1;
                }
            },
            H264SliceKind::B => {
                let (l0, l1) = bipred_lists(current_poc, references);
                list0 = l0;
                list1 = l1;
                let l0_needed: usize = min_usize(
                    slice.num_ref_idx_l0_active_minus1 as usize + 1,
                    AVD_H264_MAX_REFERENCES,
                );
                let l1_needed: usize = min_usize(
                    slice.num_ref_idx_l1_active_minus1 as usize + 1,
                    AVD_H264_MAX_REFERENCES,
                );
                list0.truncate(min_usize(list0.len(), l0_needed));
                list1.truncate(min_usize(list1.len(), l1_needed));
            },
        }
        assert(list0@ =~= reference_lists(*slice, dpb@, current_poc, references@).0);
        assert(list1@ =~= reference_lists(*slice, dpb@, current_poc, references@).1);
        Self::from_original_lists(&list0, &list1, references)
    }

    fn from_original_lists(
        list0_original: &Vec<usize>,
        list1_original: &Vec<usize>,
        references: &[AvdH264ReferencePicture],
    ) -> (r: Self)
        requires
            forall|k: int| 0 <= k < list0_original@.len() ==> (#[trigger] list0_original@[k]) < 16,
            forall|k: int| 0 <= k < list1_original@.len() ==> (#[trigger] list1_original@[k]) < 16,
        ensures
            r.table_view() == references@.take(at_most(references@.len() as int, 16)),
            r.list0_view() == narrowed(list0_original@),
            r.list1_view() == narrowed(list1_original@),
    {
        let mut table: Vec<AvdH264ReferencePicture> = Vec::new();
        let count: usize = min_usize(references.len(), AVD_H264_MAX_REFERENCES);
        let mut i: usize = 0;
        while i < count
            invariant
                i <= count <= references.len(),
                table@ == references@.take(i as int),
            decreases count - i,
        {
            table.push(references[i]);
            assert(references@.take(i + 1) =~= references@.take(i as int).push(references@[i as int]));
            i = i + 1;
        }
        ReferencePlan {
            table,
            list0: copy_indices(list0_original),
            list1: copy_indices(list1_original),
        }
    }
}

proof fn stays_below(
    s: Seq<usize>,
    refs: Seq<AvdH264ReferencePicture>,
    ascending: bool,
    bound: int,
)
    requires
        forall|k: int| 0 <= k < s.len() ==> (#[trigger] s[k]) < bound,
    ensures
        ({
            let r = exchange_sorted(s, s.len() as int, 0, refs, ascending);
            &&& r.len() == s.len()
            &&& forall|k: int| 0 <= k < r.len() ==> (#[trigger] r[k]) < bound
        }),
{
    let r = exchange_sorted(s, s.len() as int, 0, refs, ascending);
    sorted_from(s, s.len() as int, 0, refs, ascending);
    s.to_multiset_ensures();
    r.to_multiset_ensures();
    assert forall|k: int| 0 <= k < r.len() implies (#[trigger] r[k]) < bound by {
        assert(r.contains(r[k]));
        assert(r.to_multiset().count(r[k]) > 0);
        assert(s.contains(r[k]));
        let j = choose|j: int| 0 <= j < s.len() && s[j] == r[k];
        assert(s[j] < bound);
    }
}

/// A reference picture stands for a buffer entry.
pub open spec fn same_picture(reference: AvdH264ReferencePicture, entry: H264DpbEntry) -> bool {
    ||| reference.timestamp != 0 && reference.timestamp == entry.reference_ts
    ||| reference.frame_num == entry.frame_num && reference.top_field_order_cnt
        == entry.top_field_order_cnt && reference.long_term == entry.long_term
    ||| reference.top_field_order_cnt == entry.top_field_order_cnt && reference.pic_num
        == entry.pic_num
}

/// The first picture from `from` on that stands for the entry.
pub open spec fn find_picture(
    entry: H264DpbEntry,
    refs: Seq<AvdH264ReferencePicture>,
    from: int,
) -> Option<AvdH264ReferencePicture>
    decreases refs.len() - from,
{
    if from >= refs.len() || from < 0 {
        None
    } else if same_picture(refs[from], entry) {
        Some(refs[from])
    } else {
        find_picture(entry, refs, from + 1)
    }
}

/// The picture of a buffer entry: none for an empty entry.
pub open spec fn picture_of_entry(
    entry: H264DpbEntry,
    refs: Seq<AvdH264ReferencePicture>,
) -> Option<AvdH264ReferencePicture> {
    if entry.valid {
        find_picture(entry, refs, 0)
    } else {
        None
    }
}

pub fn reference_picture_for_dpb_entry(
    entry: &H264DpbEntry,
    references: &[AvdH264ReferencePicture],
) -> (r: Option<AvdH264ReferencePicture>)
    ensures
        r == picture_of_entry(*entry, references@),
{
    if !entry.valid {
        return None;
    }
    let mut i: usize = 0;
    while i < references.len()
        invariant
            i <= references.len(),
            picture_of_entry(*entry, references@) == find_picture(*entry, references@, i as int),
        decreases references.len() - i,
    {
        let reference = references[i];
        if (reference.timestamp != 0 && reference.timestamp == entry.reference_ts) || (
        reference.frame_num == entry.frame_num && reference.top_field_order_cnt
            == entry.top_field_order_cnt && reference.long_term == entry.long_term) || (
        reference.top_field_order_cnt == entry.top_field_order_cnt && reference.pic_num
            == entry.pic_num) {
            return Some(reference);
        }
        i = i + 1;
    }
    None
}

} // verus!
