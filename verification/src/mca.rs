//! Multi-channel audio: register windows, clocks and DMA channels.

use crate::platform::{nth_of, nth_resource, Resource, ResourceKind};
use crate::text::{any_is, lists};
use crate::ports::clocks::{ClockCall, ClockPort, ClockSource, DmaPort, DmaSource};
use vstd::prelude::*;

verus! {

pub const APPLE_MCA_T8103_CLUSTERS: usize = 6;

pub const APPLE_MCA_T6000_CLUSTERS: usize = 4;

/// Why a device was not accepted.
#[derive(Clone, Copy, Debug)]
pub enum McaError {
    MissingMemory,
    EnableClock,
    MissingDmaNames,
    MalformedDmaNames,
    /// What the lookup of a clock or a channel reported.
    Lookup(&'static str),
}

impl McaError {
    pub fn message(self) -> (r: &'static str)
        ensures
            r@ == (match self {
                McaError::MissingMemory => "apple-mca: missing memory resource"@,
                McaError::EnableClock => "apple-mca: failed to enable clock"@,
                McaError::MissingDmaNames => "apple-mca: missing dma-names"@,
                McaError::MalformedDmaNames => "apple-mca: malformed dma-names"@,
                McaError::Lookup(message) => message@,
            }),
    {
        match self {
            McaError::MissingMemory => "apple-mca: missing memory resource",
            McaError::EnableClock => "apple-mca: failed to enable clock",
            McaError::MissingDmaNames => "apple-mca: missing dma-names",
            McaError::MalformedDmaNames => "apple-mca: malformed dma-names",
            McaError::Lookup(message) => message,
        }
    }
}

/// Number of clusters of a device with the given compatible strings.
pub fn cluster_count(compatible: &[&str]) -> (r: usize)
    ensures
        r == if lists(compatible@, "apple,t6000-mca"@) || lists(
            compatible@,
            "apple,t6020-mca"@,
        ) {
            4int
        } else {
            6int
        },
{
    if any_is(compatible, "apple,t6000-mca") || any_is(compatible, "apple,t6020-mca") {
        APPLE_MCA_T6000_CLUSTERS
    } else {
        APPLE_MCA_T8103_CLUSTERS
    }
}

/// Start and length of the memory resource with a given number.
pub fn memory_window(resources: &[Resource], index: usize) -> (r: Result<(usize, usize), McaError>)
    requires
        nth_of(resources@, ResourceKind::Mem, 0, index as int) matches Some(m) ==> m.start <= m.end
            && m.end - m.start < usize::MAX,
    ensures
        r == (match nth_of(resources@, ResourceKind::Mem, 0, index as int) {
            None => Err::<(usize, usize), McaError>(McaError::MissingMemory),
            Some(m) => Ok((m.start, (m.end - m.start + 1) as usize)),
        }),
{
    match nth_resource(resources, ResourceKind::Mem, index) {
        Some(resource) => Ok((resource.start, resource.end - resource.start + 1)),
        None => Err(McaError::MissingMemory),
    }
}

/// The calls that found clocks by their numbers and switched them on.
pub open spec fn enabled_calls<K>(clocks: Seq<K>) -> Seq<ClockCall<K>>
    decreases clocks.len(),
{
    if clocks.len() == 0 {
        Seq::empty()
    } else {
        enabled_calls(clocks.drop_last()) + seq![
            ClockCall::Resolve { index: (clocks.len() - 1) as nat, found: Ok(clocks.last()) },
            ClockCall::Enable { clock: clocks.last(), done: true },
        ]
    }
}

/// The calls that switched clocks off.
pub open spec fn disabled_calls<K>(clocks: Seq<K>) -> Seq<ClockCall<K>> {
    Seq::new(clocks.len(), |i: int| ClockCall::Disable { clock: clocks[i] })
}

/// The clock behind those that are on could not be found. They stay on.
pub open spec fn resolve_stopped<K>(
    log: (Seq<ClockCall<K>>, Seq<ClockCall<K>>),
    on: Seq<K>,
    message: &'static str,
) -> bool {
    log.1 == (log.0 + enabled_calls(on)).push(
        ClockCall::Resolve { index: on.len(), found: Err(message) },
    )
}

/// The clock behind those that are on could not be switched on. They are
/// switched off again.
pub open spec fn enable_stopped<K>(
    log: (Seq<ClockCall<K>>, Seq<ClockCall<K>>),
    on: Seq<K>,
    clock: K,
) -> bool {
    log.1 == log.0 + enabled_calls(on) + seq![
        ClockCall::Resolve { index: on.len(), found: Ok(clock) },
        ClockCall::Enable { clock, done: false },
    ] + disabled_calls(on)
}

/// How switching the clocks on went.
pub open spec fn clocks_resolved<K>(
    log: (Seq<ClockCall<K>>, Seq<ClockCall<K>>),
    count: int,
    r: Result<Seq<K>, McaError>,
) -> bool {
    match r {
        Ok(clocks) => clocks.len() == count && log.1 == log.0 + enabled_calls(clocks),
        Err(e) => {
            ||| exists|on: Seq<K>, clock: K|
                on.len() < count && #[trigger] enable_stopped(log, on, clock) && e
                    == McaError::EnableClock
            ||| exists|on: Seq<K>, message: &'static str|
                on.len() < count && #[trigger] resolve_stopped(log, on, message) && e
                    == McaError::Lookup(message)
        },
    }
}

/// The clocks that are on.
pub open spec fn clock_list<K>(r: Result<Vec<K>, McaError>) -> Result<Seq<K>, McaError> {
    match r {
        Ok(v) => Ok(v@),
        Err(e) => Err(e),
    }
}

/// Finds the clocks of all clusters and switches them on.
pub fn resolve_clocks<K, S: ClockSource<K>>(port: &mut ClockPort<K, S>, count: usize) -> (r: Result<
    Vec<K>,
    McaError,
>)
    ensures
        clocks_resolved((old(port).log(), final(port).log()), count as int, clock_list(r)),
{
    let ghost start = port.log();
    let mut clocks: Vec<K> = Vec::new();
    let mut index: usize = 0;
    assert(port.log() =~= start + enabled_calls(clocks@));
    while index < count
        invariant
            index <= count,
            start == old(port).log(),
            clocks@.len() == index,
            port.log() == start + enabled_calls(clocks@),
        decreases count - index,
    {
        let found = port.resolve(index);
        let clock = match found {
            Ok(clock) => clock,
            Err(message) => {
                assert(resolve_stopped((start, port.log()), clocks@, message));
                return Err(McaError::Lookup(message));
            },
        };
        if !port.enable(&clock) {
            let ghost failed = port.log();
            let mut i: usize = 0;
            assert(port.log() =~= failed + disabled_calls(clocks@.take(0)));
            while i < clocks.len()
                invariant
                    i <= clocks@.len(),
                    port.log() == failed + disabled_calls(clocks@.take(i as int)),
                decreases clocks@.len() - i,
            {
                port.disable(&clocks[i]);
                assert(port.log() =~= failed + disabled_calls(clocks@.take(i + 1)));
                i = i + 1;
            }
            proof {
                assert(clocks@.take(clocks@.len() as int) =~= clocks@);
                assert(port.log() =~= start + enabled_calls(clocks@) + seq![
                    ClockCall::Resolve { index: clocks@.len(), found: Ok(clock) },
                    ClockCall::Enable { clock, done: false },
                ] + disabled_calls(clocks@));
                assert(enable_stopped((start, port.log()), clocks@, clock));
            }
            return Err(McaError::EnableClock);
        }
        let ghost before = clocks@;
        clocks.push(clock);
        proof {
            assert(clocks@.drop_last() =~= before);
            assert(port.log() =~= start + enabled_calls(clocks@));
        }
        index = index + 1;
    }
    Ok(clocks)
}

/// The channels found for the first `n` names, in order.
pub open spec fn channels_found<C>(
    names: Seq<String>,
    n: int,
    answers: Seq<(Seq<char>, Result<C, &'static str>)>,
) -> bool {
    &&& 0 <= n <= names.len()
    &&& n <= answers.len()
    &&& forall|i: int|
        0 <= i < n ==> (#[trigger] answers[i]).0 == names[i]@ && answers[i].1 is Ok
}

/// A channel could not be found, after all before it were.
pub open spec fn lookup_stopped<C>(
    names: Seq<String>,
    answers: Seq<(Seq<char>, Result<C, &'static str>)>,
    message: &'static str,
) -> bool {
    let n = answers.len() - 1;
    &&& 0 <= n < names.len()
    &&& channels_found(names, n, answers)
    &&& answers[n].0 == names[n]@
    &&& answers[n].1 == Err::<C, &'static str>(message)
}

/// How the lookup of the named channels went, where `answers` is what came
/// back.
pub open spec fn dmas_resolved<C>(
    names: Option<Option<Seq<String>>>,
    answers: Seq<(Seq<char>, Result<C, &'static str>)>,
    r: Result<Seq<(String, C)>, McaError>,
) -> bool {
    match names {
        None => r is Err && r->Err_0 == McaError::MissingDmaNames && answers.len() == 0,
        Some(None) => r is Err && r->Err_0 == McaError::MalformedDmaNames && answers.len() == 0,
        Some(Some(list)) => {
            &&& r is Ok ==> {
                &&& answers.len() == list.len()
                &&& channels_found(list, list.len() as int, answers)
                &&& r->Ok_0.len() == list.len()
                &&& forall|i: int|
                    0 <= i < list.len() ==> (#[trigger] r->Ok_0[i]).0@ == list[i]@
                        && answers[i].1 == Ok::<C, &'static str>(r->Ok_0[i].1)
            }
            &&& r is Err ==> r->Err_0 is Lookup && lookup_stopped(
                list,
                answers,
                r->Err_0->Lookup_0,
            )
        },
    }
}

/// The names of the property `dma-names`.
pub open spec fn name_list(names: Option<Option<&Vec<String>>>) -> Option<Option<Seq<String>>> {
    match names {
        None => None,
        Some(None) => Some(None),
        Some(Some(list)) => Some(Some(list@)),
    }
}

/// The channels as a sequence.
pub open spec fn channel_list<C>(r: Result<Vec<(String, C)>, McaError>) -> Result<
    Seq<(String, C)>,
    McaError,
> {
    match r {
        Ok(v) => Ok(v@),
        Err(e) => Err(e),
    }
}

/// Finds the named DMA channels. Without the property `names` is `None`; where
/// it holds no list of strings it is `Some(None)`.
pub fn resolve_dmas<C, S: DmaSource<C>>(
    port: &mut DmaPort<C, S>,
    names: Option<Option<&Vec<String>>>,
) -> (r: Result<Vec<(String, C)>, McaError>)
    ensures
        old(port).log().len() <= final(port).log().len(),
        final(port).log().take(old(port).log().len() as int) == old(port).log(),
        dmas_resolved(
            name_list(names),
            final(port).log().skip(old(port).log().len() as int),
            channel_list(r),
        ),
{
    let ghost start = port.log();
    assert(start.take(start.len() as int) =~= start);
    let list: &Vec<String> = match names {
        None => return Err(McaError::MissingDmaNames),
        Some(None) => return Err(McaError::MalformedDmaNames),
        Some(Some(list)) => list,
    };
    let mut dmas: Vec<(String, C)> = Vec::new();
    let mut i: usize = 0;
    while i < list.len()
        invariant
            i <= list@.len(),
            names == Some(Some(list)),
            start == old(port).log(),
            dmas@.len() == i,
            port.log().len() == start.len() + i,
            port.log().take(start.len() as int) == start,
            channels_found(list@, i as int, port.log().skip(start.len() as int)),
            forall|k: int|
                0 <= k < i ==> (#[trigger] dmas@[k]).0@ == list@[k]@ && port.log().skip(
                    start.len() as int,
                )[k].1 == Ok::<C, &'static str>(dmas@[k].1),
        decreases list@.len() - i,
    {
        let ghost before = port.log();
        let found = port.resolve(list[i].as_str());
        proof {
            assert(port.log().take(start.len() as int) =~= before.take(start.len() as int));
            assert(port.log().skip(start.len() as int) =~= before.skip(start.len() as int).push(
                (list@[i as int]@, found),
            ));
        }
        match found {
            Ok(channel) => {
                dmas.push((list[i].clone(), channel));
            },
            Err(message) => {
                let r: Result<Vec<(String, C)>, McaError> = Err(McaError::Lookup(message));
                assert(lookup_stopped(list@, port.log().skip(start.len() as int), message));
                return r;
            },
        }
        i = i + 1;
    }
    Ok(dmas)
}

/// The register windows of a device with its clocks and channels. `K` is a
/// clock and `C` a channel.
pub struct AppleMca<K, C> {
    pub base: usize,
    pub switch_base: usize,
    pub size: usize,
    pub switch_size: usize,
    pub clocks: Vec<K>,
    pub dmas: Vec<(String, C)>,
}

impl<K, C> AppleMca<K, C> {
    pub fn new(
        base: usize,
        size: usize,
        switch_base: usize,
        switch_size: usize,
        clocks: Vec<K>,
        dmas: Vec<(String, C)>,
    ) -> (r: Self)
        ensures
            r.base == base,
            r.size == size,
            r.switch_base == switch_base,
            r.switch_size == switch_size,
            r.clocks == clocks,
            r.dmas == dmas,
    {
        AppleMca { base, switch_base, size, switch_size, clocks, dmas }
    }
}

} // verus!
