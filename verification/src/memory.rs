//! A model of memory that only recorded accesses change, for laws that relate
//! what is read to what was written.

use crate::bus::{updated, Op};
use crate::bytes::{from_le32, from_le64, le32, le32_round_trip, le64, le64_round_trip};
use vstd::prelude::*;

verus! {

/// The bytes of a memory by address.
pub type Memory = spec_fn(int) -> u8;

/// A memory with bytes stored at ascending addresses.
pub open spec fn stored(m: Memory, at: int, bytes: Seq<u8>) -> Memory {
    |a: int|
        if at <= a < at + bytes.len() {
            bytes[a - at]
        } else {
            m(a)
        }
}

/// The bytes in a range of memory.
pub open spec fn bytes_at(m: Memory, at: int, len: nat) -> Seq<u8> {
    Seq::new(len, |i: int| m(at + i))
}

/// The little-endian word at an address.
pub open spec fn word_at(m: Memory, at: int) -> u32 {
    from_le32(bytes_at(m, at, 4), 0) as u32
}

/// The little-endian double word at an address.
pub open spec fn double_word_at(m: Memory, at: int) -> u64 {
    from_le64(bytes_at(m, at, 8), 0) as u64
}

/// Memory behind one access.
pub open spec fn memory_step(m: Memory, op: Op) -> Memory {
    match op {
        Op::Write8 { addr, byte } => stored(m, addr as int, seq![byte]),
        Op::Write { addr, value } => stored(m, addr as int, le32(value)),
        Op::Write64 { addr, wide } => stored(m, addr as int, le64(wide)),
        Op::WriteBytes { addr, bytes } => stored(m, addr as int, bytes),
        Op::Update { addr, clear, set } => stored(
            m,
            addr as int,
            le32(updated(word_at(m, addr as int), clear, set)),
        ),
        Op::Tune { addr, mask, value } => stored(
            m,
            addr as int,
            le32(updated(word_at(m, addr as int), mask, value)),
        ),
        _ => m,
    }
}

/// Memory behind a run of accesses.
pub open spec fn memory_after(m: Memory, ops: Seq<Op>) -> Memory
    decreases ops.len(),
{
    if ops.len() == 0 {
        m
    } else {
        memory_step(memory_after(m, ops.drop_last()), ops.last())
    }
}

/// A read returned what the memory holds.
pub open spec fn sees(m: Memory, op: Op) -> bool {
    match op {
        Op::Read8 { addr, byte } => byte == m(addr as int),
        Op::Read { addr, value } => value == word_at(m, addr as int),
        Op::Read64 { addr, wide } => wide == double_word_at(m, addr as int),
        Op::ReadBytes { addr, bytes } => bytes == bytes_at(m, addr as int, bytes.len()),
        _ => true,
    }
}

/// Every read of a run returned what the memory held at that point.
pub open spec fn faithful(m: Memory, ops: Seq<Op>) -> bool
    decreases ops.len(),
{
    ops.len() > 0 ==> faithful(m, ops.drop_last()) && sees(
        memory_after(m, ops.drop_last()),
        ops.last(),
    )
}

/// One access more.
pub proof fn memory_push(m: Memory, ops: Seq<Op>, op: Op)
    ensures
        memory_after(m, ops.push(op)) == memory_step(memory_after(m, ops), op),
        faithful(m, ops.push(op)) <==> faithful(m, ops) && sees(memory_after(m, ops), op),
{
    assert(ops.push(op).drop_last() =~= ops);
}

/// A run behind another goes on with the memory that the first left.
pub proof fn memory_append(m: Memory, first: Seq<Op>, second: Seq<Op>)
    ensures
        memory_after(m, first + second) == memory_after(memory_after(m, first), second),
        faithful(m, first + second) <==> faithful(m, first) && faithful(
            memory_after(m, first),
            second,
        ),
    decreases second.len(),
{
    if second.len() == 0 {
        assert(first + second =~= first);
    } else {
        memory_append(m, first, second.drop_last());
        assert(first + second =~= (first + second.drop_last()).push(second.last()));
        memory_push(m, first + second.drop_last(), second.last());
    }
}

/// A word is found where it was stored, and storing it elsewhere leaves a
/// word alone.
pub proof fn word_stored(m: Memory, at: int, value: u32, b: int)
    ensures
        at == b ==> word_at(stored(m, at, le32(value)), b) == value,
        at + 4 <= b || b + 4 <= at ==> word_at(stored(m, at, le32(value)), b) == word_at(m, b),
{
    le32_round_trip(value);
    let after = stored(m, at, le32(value));
    if at == b {
        assert(bytes_at(after, b, 4) =~= le32(value));
    } else if at + 4 <= b || b + 4 <= at {
        assert(bytes_at(after, b, 4) =~= bytes_at(m, b, 4));
    }
}

/// Storing bytes elsewhere leaves a word alone.
pub proof fn bytes_stored(m: Memory, at: int, bytes: Seq<u8>, b: int)
    requires
        at + bytes.len() <= b || b + 4 <= at,
    ensures
        word_at(stored(m, at, bytes), b) == word_at(m, b),
{
    assert(bytes_at(stored(m, at, bytes), b, 4) =~= bytes_at(m, b, 4));
}

/// A double word is found where it was stored.
pub proof fn double_word_stored(m: Memory, at: int, value: u64)
    ensures
        double_word_at(stored(m, at, le64(value)), at) == value,
{
    le64_round_trip(value);
    assert(bytes_at(stored(m, at, le64(value)), at, 8) =~= le64(value));
}

/// Storing bytes elsewhere leaves a double word alone.
pub proof fn double_word_kept(m: Memory, at: int, bytes: Seq<u8>, b: int)
    requires
        at + bytes.len() <= b || b + 8 <= at,
    ensures
        double_word_at(stored(m, at, bytes), b) == double_word_at(m, b),
{
    assert(bytes_at(stored(m, at, bytes), b, 8) =~= bytes_at(m, b, 8));
}

} // verus!
