//! A bounded buffer of instruction words.

use crate::bytes::{le32_all, le32_all_len};
use vstd::prelude::*;

verus! {

/// The first `limit` of `n`.
pub open spec fn kept(n: int, limit: int) -> int {
    if n <= limit {
        n
    } else {
        limit
    }
}

/// Keeps the first words emitted, up to its capacity, and remembers whether
/// there were more.
pub struct WordBuffer {
    words: Vec<u32>,
    capacity: usize,
    overflowed: bool,
    emitted: Ghost<Seq<u32>>,
}

impl WordBuffer {
    /// Every word emitted so far.
    pub closed spec fn emitted(&self) -> Seq<u32> {
        self.emitted@
    }

    /// Words kept at most.
    pub closed spec fn limit(&self) -> int {
        self.capacity as int
    }

    /// The kept words are the first emitted ones.
    pub closed spec fn wf(&self) -> bool {
        &&& self.words@ == self.emitted@.take(kept(self.emitted@.len() as int, self.limit()))
        &&& self.overflowed == (self.emitted@.len() > self.capacity)
        &&& self.capacity <= 0x10_0000
    }

    pub fn new(capacity: usize) -> (r: Self)
        requires
            capacity <= 0x10_0000,
        ensures
            r.wf(),
            r.limit() == capacity,
            r.emitted() == Seq::<u32>::empty(),
    {
        let words: Vec<u32> = Vec::new();
        assert(words@ =~= Seq::<u32>::empty().take(0));
        WordBuffer { words, capacity, overflowed: false, emitted: Ghost(Seq::empty()) }
    }

    pub fn push(&mut self, value: u32)
        requires
            old(self).wf(),
        ensures
            final(self).wf(),
            final(self).limit() == old(self).limit(),
            final(self).emitted() == old(self).emitted().push(value),
    {
        let ghost before = self.emitted@;
        if self.words.len() < self.capacity {
            self.words.push(value);
        } else {
            self.overflowed = true;
        }
        self.emitted = Ghost(before.push(value));
        assert(self.words@ =~= self.emitted@.take(kept(self.emitted@.len() as int, self.limit())));
    }

    /// The kept words.
    pub fn words(&self) -> (r: &[u32])
        requires
            self.wf(),
        ensures
            r@ == self.emitted().take(kept(self.emitted().len() as int, self.limit())),
    {
        self.words.as_slice()
    }

    /// Writes the words as little-endian bytes and returns how many bytes
    /// those are; writes nothing where a word was dropped or `dst` is short.
    pub fn write_le_bytes(&self, dst: &mut [u8]) -> (r: Option<usize>)
        requires
            self.wf(),
        ensures
            ({
                let all = self.emitted();
                if all.len() <= self.limit() && 4 * all.len() <= old(dst)@.len() {
                    &&& r == Some((4 * all.len()) as usize)
                    &&& final(dst)@ == le32_all(all) + old(dst)@.skip(4 * all.len() as int)
                } else {
                    &&& r is None
                    &&& final(dst)@ == old(dst)@
                }
            }),
    {
        if self.overflowed {
            return None;
        }
        assert(self.words@ =~= self.emitted());
        write_words(self.words.as_slice(), dst)
    }
}

fn write_words(words: &[u32], dst: &mut [u8]) -> (r: Option<usize>)
    requires
        words@.len() <= 0x10_0000,
    ensures
        if 4 * words@.len() <= old(dst)@.len() {
            &&& r == Some((4 * words@.len()) as usize)
            &&& final(dst)@ == le32_all(words@) + old(dst)@.skip(4 * words@.len() as int)
        } else {
            &&& r is None
            &&& final(dst)@ == old(dst)@
        },
{
    let byte_len: usize = words.len() * 4;
    if byte_len > dst.len() {
        return None;
    }
    let ghost start = dst@;
    let mut index: usize = 0;
    proof {
        assert(start =~= le32_all(words@.take(0)) + start.skip(0));
    }
    while index < words.len()
        invariant
            index <= words@.len(),
            words@.len() <= 0x10_0000,
            4 * words@.len() <= start.len(),
            dst@.len() == start.len(),
            dst@ == le32_all(words@.take(index as int)) + start.skip(4 * index as int),
        decreases words@.len() - index,
    {
        let offset: usize = index * 4;
        let word: u32 = words[index];
        dst[offset] = (word % 256) as u8;
        dst[offset + 1] = (word / 256 % 256) as u8;
        dst[offset + 2] = (word / 65536 % 256) as u8;
        dst[offset + 3] = (word / 16777216) as u8;
        proof {
            let head = words@.take(index as int);
            let next = words@.take(index + 1);
            assert(next.drop_last() =~= head);
            assert(next.last() == word);
            le32_all_len(head);
            le32_all_len(next);
            assert(dst@ =~= le32_all(next) + start.skip(4 * (index + 1)));
        }
        index = index + 1;
    }
    assert(words@.take(words@.len() as int) =~= words@);
    Some(byte_len)
}

} // verus!
