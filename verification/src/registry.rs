//! Device instances, found by index or by firmware phandle.

use vstd::prelude::*;

verus! {

/// A list of registered instances. Identifiers are handed out in order and
/// never change.
pub struct Registry<T> {
    entries: Vec<(u32, T)>,
}

/// Position of the first entry from `from` on with the given phandle.
pub open spec fn first_with_phandle<T>(entries: Seq<(u32, T)>, phandle: u32, from: int) -> Option<int>
    decreases entries.len() - from,
{
    if from < 0 || from >= entries.len() {
        None
    } else if entries[from].0 == phandle {
        Some(from)
    } else {
        first_with_phandle(entries, phandle, from + 1)
    }
}

impl<T> Registry<T> {
    /// The entries in order of registration.
    pub closed spec fn view(&self) -> Seq<(u32, T)> {
        self.entries@
    }

    pub fn new() -> (r: Self)
        ensures
            r@ == Seq::<(u32, T)>::empty(),
    {
        Registry { entries: Vec::new() }
    }

    /// Adds an instance and returns its identifier.
    pub fn register(&mut self, instance: T, phandle: u32) -> (id: u32)
        requires
            old(self)@.len() <= u32::MAX,
        ensures
            id == old(self)@.len(),
            final(self)@ == old(self)@.push((phandle, instance)),
    {
        let id: u32 = self.entries.len() as u32;
        self.entries.push((phandle, instance));
        id
    }

    /// Index of the first instance registered under a phandle.
    pub fn index_of(&self, phandle: u32) -> (r: Option<usize>)
        ensures
            match first_with_phandle(self@, phandle, 0) {
                Some(i) => r is Some && r->0 == i,
                None => r is None,
            },
            r is Some ==> r->0 < self@.len(),
    {
        let mut i: usize = 0;
        while i < self.entries.len()
            invariant
                i <= self.entries@.len(),
                first_with_phandle(self@, phandle, 0) == first_with_phandle(
                    self@,
                    phandle,
                    i as int,
                ),
            decreases self.entries@.len() - i,
        {
            if self.entries[i].0 == phandle {
                return Some(i);
            }
            i = i + 1;
        }
        None
    }

    /// The instance with the given identifier.
    pub fn get(&self, id: u32) -> (r: Option<&T>)
        ensures
            r is Some <==> id < self@.len(),
            r is Some ==> *r->0 == self@[id as int].1,
    {
        let at: usize = id as usize;
        if at < self.entries.len() {
            Some(&self.entries[at].1)
        } else {
            None
        }
    }

    /// The instance with the given identifier, to be changed in place.
    pub fn get_mut(&mut self, id: u32) -> (r: Option<&mut T>)
        ensures
            match r {
                Some(instance) => {
                    &&& id < old(self)@.len()
                    &&& *instance == old(self)@[id as int].1
                    &&& final(self)@ == old(self)@.update(
                        id as int,
                        (old(self)@[id as int].0, *final(instance)),
                    )
                },
                None => id >= old(self)@.len() && final(self)@ == old(self)@,
            },
    {
        let at: usize = id as usize;
        if at < self.entries.len() {
            let entry = &mut self.entries[at];
            Some(&mut entry.1)
        } else {
            None
        }
    }

    /// The first instance registered under a phandle.
    pub fn get_by_phandle(&self, phandle: u32) -> (r: Option<&T>)
        ensures
            match first_with_phandle(self@, phandle, 0) {
                Some(i) => r == Some(&self@[i].1),
                None => r is None,
            },
    {
        match self.index_of(phandle) {
            Some(i) => Some(&self.entries[i].1),
            None => None,
        }
    }
}

/// A lookup by phandle finds an entry exactly where one was registered under
/// it, and the earliest such entry.
pub proof fn phandle_lookup_is_first<T>(entries: Seq<(u32, T)>, phandle: u32, from: int)
    requires
        0 <= from,
    ensures
        match first_with_phandle(entries, phandle, from) {
            Some(i) => from <= i < entries.len() && entries[i].0 == phandle && forall|k: int|
                from <= k < i ==> (#[trigger] entries[k]).0 != phandle,
            None => forall|k: int|
                from <= k < entries.len() ==> (#[trigger] entries[k]).0 != phandle,
        },
    decreases entries.len() - from,
{
    if from < entries.len() && entries[from].0 != phandle {
        phandle_lookup_is_first(entries, phandle, from + 1);
    }
}

/// Registering more instances never changes what an identifier or a phandle
/// that was already found stands for.
pub proof fn registration_is_stable<T>(
    entries: Seq<(u32, T)>,
    phandle: u32,
    more: (u32, T),
    from: int,
)
    requires
        0 <= from,
        first_with_phandle(entries, phandle, from) is Some,
    ensures
        first_with_phandle(entries.push(more), phandle, from) == first_with_phandle(
            entries,
            phandle,
            from,
        ),
        entries.push(more)[first_with_phandle(entries, phandle, from)->0]
            == entries[first_with_phandle(entries, phandle, from)->0],
    decreases entries.len() - from,
{
    if from < entries.len() && entries[from].0 != phandle {
        registration_is_stable(entries, phandle, more, from + 1);
    }
}

} // verus!
