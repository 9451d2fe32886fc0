//! The firmware of the video decoder: where it is loaded, how it is let go, and
//! which line means what to it.

use crate::avd::cm3::{vector, IrqAction};
use crate::avd::image::{
    load_range, loaded, loaded_len, raw_image, segment,
};
use crate::avd::registers::{hold_ops, run_ops};
use crate::bus::registers_after;
use crate::bytes::{from_le16, from_le32};
use crate::laws::{registers_stepped, stepped};
use vstd::prelude::*;

verus! {

/// Where program header `i` stands in the file: the table begins at the offset
/// in bytes 28 to 31 and each entry has the size in bytes 42 and 43.
pub open spec fn entry_at(elf: Seq<u8>, i: int) -> int {
    from_le32(elf, 28) + i * from_le16(elf, 42)
}

/// A program header asks for bytes to be loaded: type 1, and not empty.
pub open spec fn is_loaded(elf: Seq<u8>, i: int) -> bool {
    from_le32(elf, entry_at(elf, i)) == 1 && from_le32(elf, entry_at(elf, i) + 16) != 0
}

/// The byte at an address is among those that a program header loads.
pub open spec fn covers(elf: Seq<u8>, i: int, addr: int) -> bool {
    is_loaded(elf, i) && from_le32(elf, entry_at(elf, i) + 12) <= addr < from_le32(
        elf,
        entry_at(elf, i) + 12,
    ) + from_le32(elf, entry_at(elf, i) + 16)
}

proof fn segment_fields(elf: Seq<u8>, i: int)
    requires
        segment(elf, i) is Ok,
    ensures
        segment(elf, i)->Ok_0 is Some <==> is_loaded(elf, i),
        is_loaded(elf, i) ==> segment(elf, i)->Ok_0 == Some(
            (
                from_le32(elf, entry_at(elf, i) + 4),
                from_le32(elf, entry_at(elf, i) + 12),
                from_le32(elf, entry_at(elf, i) + 16),
            ),
        ),
{
}

proof fn range_covers(elf: Seq<u8>, n: int, i: int)
    requires
        0 <= i < n,
        load_range(elf, n) is Ok,
    ensures
        segment(elf, i) is Ok,
        is_loaded(elf, i) ==> {
            let (min, max) = load_range(elf, n)->Ok_0;
            &&& min <= from_le32(elf, entry_at(elf, i) + 12)
            &&& from_le32(elf, entry_at(elf, i) + 12) + from_le32(elf, entry_at(elf, i) + 16) <= max
        },
    decreases n,
{
    if i < n - 1 {
        range_covers(elf, n - 1, i);
    } else {
        segment_fields(elf, i);
    }
}

proof fn bytes_stay(elf: Seq<u8>, n: int, min: int, len: nat, i: int, k: int)
    requires
        0 <= i < n,
        loaded(elf, n, min, len) is Ok,
        is_loaded(elf, i),
        segment(elf, i) is Ok,
        ({
            let paddr = from_le32(elf, entry_at(elf, i) + 12);
            let size = from_le32(elf, entry_at(elf, i) + 16);
            &&& min <= paddr
            &&& paddr + size <= min + len
            &&& 0 <= k < size
            &&& forall|j: int| i < j < n ==> !#[trigger] covers(elf, j, paddr + k)
        }),
    ensures
        loaded(elf, n, min, len)->Ok_0[from_le32(elf, entry_at(elf, i) + 12) - min + k]
            == elf[from_le32(elf, entry_at(elf, i) + 4) + k],
    decreases n,
{
    let paddr = from_le32(elf, entry_at(elf, i) + 12);
    let size = from_le32(elf, entry_at(elf, i) + 16);
    let off = from_le32(elf, entry_at(elf, i) + 4);
    loaded_len(elf, n, min, len);
    loaded_len(elf, n - 1, min, len);
    segment_fields(elf, n - 1);
    let before = loaded(elf, n - 1, min, len)->Ok_0;
    if i == n - 1 {
        assert(elf.subrange(off, off + size)[k] == elf[off + k]);
    } else {
        assert(!covers(elf, n - 1, paddr + k));
        bytes_stay(elf, n - 1, min, len, i, k);
    }
}

/// Every byte that a program header loads is in the image at its load address,
/// counted from the lowest one, unless a later header loads another byte there.
pub proof fn loaded_segments_are_in_the_image(elf: Seq<u8>, i: int, k: int)
    requires
        raw_image(elf) is Ok,
        0 <= i < from_le16(elf, 44),
        is_loaded(elf, i),
        0 <= k < from_le32(elf, entry_at(elf, i) + 16),
        forall|j: int|
            i < j < from_le16(elf, 44) ==> !#[trigger] covers(
                elf,
                j,
                from_le32(elf, entry_at(elf, i) + 12) + k,
            ),
    ensures
        ({
            let low = load_range(elf, from_le16(elf, 44))->Ok_0.0;
            let paddr = from_le32(elf, entry_at(elf, i) + 12);
            &&& low <= paddr
            &&& paddr + k - low < raw_image(elf)->Ok_0.len()
            &&& raw_image(elf)->Ok_0[paddr + k - low] == elf[from_le32(elf, entry_at(elf, i) + 4) + k]
        }),
{
    let n = from_le16(elf, 44);
    let (min, max) = load_range(elf, n)->Ok_0;
    range_covers(elf, n, i);
    loaded_len(elf, n, min, (max - min) as nat);
    bytes_stay(elf, n, min, (max - min) as nat, i, k);
}

/// The coprocessor that is held has its control register at 0xe and both
/// interrupt enables at zero; once it is let go its control register holds 1,
/// and lines 1 and 35 are enabled.
pub proof fn coprocessor_is_let_go(base: usize, running: bool, regs: Map<usize, u32>)
    requires
        base + 0x1500000 <= usize::MAX,
    ensures
        ({
            let held = registers_after(hold_ops(base), regs);
            let free = registers_after(run_ops(base, running), regs);
            &&& held[(base + 0x1098008) as usize] == 0xe
            &&& held[(base + 0x1098010) as usize] == 0
            &&& held[(base + 0x1098048) as usize] == 0
            &&& free[(base + 0x1098008) as usize] == 1
            &&& free[(base + 0x1098010) as usize] == 2
            &&& free[(base + 0x1098048) as usize] == 8
        }),
{
    reveal(run_ops);
    reveal_with_fuel(stepped, 16);
    registers_stepped(hold_ops(base), 3, regs);
    let ops = run_ops(base, running);
    let n = ops.len();
    registers_stepped(ops, n, regs);
}

/// The lines of the video pipes: five for each pipe from line 18 on, or from
/// line 78 on in newer hardware, of which the first three mean an unknown
/// state, an error and an end.
pub proof fn lines_mean_their_pipe(pipe: u32)
    ensures
        pipe < 4 ==> {
            &&& vector(18 + 5 * pipe) == IrqAction::PipeUnknown(pipe)
            &&& vector(18 + 5 * pipe + 1) == IrqAction::PipeError(pipe)
            &&& vector(18 + 5 * pipe + 2) == IrqAction::PipeDone(pipe)
        },
        pipe < 12 ==> {
            &&& vector(78 + 5 * pipe) == IrqAction::PipeUnknown(pipe)
            &&& vector(78 + 5 * pipe + 1) == IrqAction::PipeError(pipe)
            &&& vector(78 + 5 * pipe + 2) == IrqAction::PipeDone(pipe)
        },
        vector(1) == IrqAction::H264Status,
        vector(38) == IrqAction::SubmitUnknown,
        vector(62) == IrqAction::SubmitUnknown,
        vector(40) == IrqAction::PostProcessDone,
        vector(64) == IrqAction::PostProcessDone,
{
}

} // verus!
