//! What input devices hang on, with a record of the operations.

use vstd::prelude::*;

verus! {

/// Why the SPI bus failed.
#[derive(Clone, Copy, Debug, PartialEq, Eq, Structural)]
pub enum SpiError {
    BusError,
    InvalidArg,
    Timeout,
    Unsupported,
}

/// The SPI bus with the pins and the timer that belong to the transport.
/// Nothing is assumed of what comes back.
pub trait HidBus {
    fn write(&mut self, cs: u8, data: &[u8]) -> Result<(), SpiError>;

    fn read(&mut self, cs: u8, len: usize) -> Result<Vec<u8>, SpiError>;

    fn udelay(&mut self, us: u64);

    /// Makes a pin an output with a value.
    fn set_direction_output(&mut self, pin: u32, value: bool);

    fn set_value(&mut self, pin: u32, value: bool);

    /// Makes a pin an input.
    fn set_direction_input(&mut self, pin: u32);
}

/// One operation of the transport.
pub enum HidOp {
    Write { cs: u8, data: Seq<u8>, reply: Result<(), SpiError> },
    Read { cs: u8, len: nat, got: Result<Seq<u8>, SpiError> },
    Delay { us: u64 },
    Output { pin: u32, value: bool },
    Value { pin: u32, value: bool },
    Input { pin: u32 },
}

/// The bus, with a record of the operations.
pub struct HidPort<B: HidBus> {
    inner: B,
    log: Ghost<Seq<HidOp>>,
}

/// What was read, as plain bytes.
pub open spec fn got_bytes(r: Result<Vec<u8>, SpiError>) -> Result<Seq<u8>, SpiError> {
    match r {
        Ok(v) => Ok(v@),
        Err(e) => Err(e),
    }
}

impl<B: HidBus> HidPort<B> {
    /// All calls so far.
    pub closed spec fn log(&self) -> Seq<HidOp> {
        self.log@
    }

    /// What is behind the record.
    pub closed spec fn behind(&self) -> B {
        self.inner
    }

    /// Gives back what is behind the record.
    pub fn into_inner(self) -> (r: B)
        ensures
            r == self.behind(),
    {
        self.inner
    }

    pub fn new(inner: B) -> (r: Self)
        ensures
            r.behind() == inner,
            r.log() == Seq::<HidOp>::empty(),
    {
        HidPort { inner, log: Ghost(Seq::empty()) }
    }

    pub fn write(&mut self, cs: u8, data: &[u8]) -> (r: Result<(), SpiError>)
        ensures
            final(self).log() == old(self).log().push(HidOp::Write { cs, data: data@, reply: r }),
    {
        let r = self.inner.write(cs, data);
        self.log = Ghost(self.log@.push(HidOp::Write { cs, data: data@, reply: r }));
        r
    }

    pub fn read(&mut self, cs: u8, len: usize) -> (r: Result<Vec<u8>, SpiError>)
        ensures
            final(self).log() == old(self).log().push(
                HidOp::Read { cs, len: len as nat, got: got_bytes(r) },
            ),
    {
        let r = self.inner.read(cs, len);
        self.log = Ghost(
            self.log@.push(HidOp::Read { cs, len: len as nat, got: got_bytes(r) }),
        );
        r
    }

    pub fn udelay(&mut self, us: u64)
        ensures
            final(self).log() == old(self).log().push(HidOp::Delay { us }),
    {
        self.inner.udelay(us);
        self.log = Ghost(self.log@.push(HidOp::Delay { us }));
    }

    pub fn set_direction_output(&mut self, pin: u32, value: bool)
        ensures
            final(self).log() == old(self).log().push(HidOp::Output { pin, value }),
    {
        self.inner.set_direction_output(pin, value);
        self.log = Ghost(self.log@.push(HidOp::Output { pin, value }));
    }

    pub fn set_value(&mut self, pin: u32, value: bool)
        ensures
            final(self).log() == old(self).log().push(HidOp::Value { pin, value }),
    {
        self.inner.set_value(pin, value);
        self.log = Ghost(self.log@.push(HidOp::Value { pin, value }));
    }

    pub fn set_direction_input(&mut self, pin: u32)
        ensures
            final(self).log() == old(self).log().push(HidOp::Input { pin }),
    {
        self.inner.set_direction_input(pin);
        self.log = Ghost(self.log@.push(HidOp::Input { pin }));
    }
}

/// What the machine offers to an input device that is probed. Nothing is
/// assumed of the answers.
pub trait HidHost {
    /// Whether a bus is registered.
    fn has_bus(&mut self, phandle: u32) -> bool;

    /// Sets the speed of a bus and tells whether that worked.
    fn set_bus_speed(&mut self, phandle: u32, hz: u32) -> bool;

    /// Whether a GPIO controller is registered.
    fn has_gpio(&mut self, phandle: u32) -> bool;

    /// Has the keyboard or the trackpad called on falling edges of a pin, and
    /// tells whether that worked.
    fn request_irq(&mut self, phandle: u32, pin: u32, trackpad: bool) -> bool;
}

/// A question to the machine and its answer.
pub enum HidQuery {
    Bus { phandle: u32, there: bool },
    Speed { phandle: u32, hz: u32, done: bool },
    Gpio { phandle: u32, there: bool },
    Irq { phandle: u32, pin: u32, trackpad: bool, done: bool },
}

/// The machine, with a record of the questions.
pub struct HidHostPort<H: HidHost> {
    inner: H,
    log: Ghost<Seq<HidQuery>>,
}

impl<H: HidHost> HidHostPort<H> {
    /// All calls so far.
    pub closed spec fn log(&self) -> Seq<HidQuery> {
        self.log@
    }

    /// What is behind the record.
    pub closed spec fn behind(&self) -> H {
        self.inner
    }

    /// Gives back what is behind the record.
    pub fn into_inner(self) -> (r: H)
        ensures
            r == self.behind(),
    {
        self.inner
    }

    pub fn new(inner: H) -> (r: Self)
        ensures
            r.behind() == inner,
            r.log() == Seq::<HidQuery>::empty(),
    {
        HidHostPort { inner, log: Ghost(Seq::empty()) }
    }

    pub fn has_bus(&mut self, phandle: u32) -> (there: bool)
        ensures
            final(self).log() == old(self).log().push(HidQuery::Bus { phandle, there }),
    {
        let there = self.inner.has_bus(phandle);
        self.log = Ghost(self.log@.push(HidQuery::Bus { phandle, there }));
        there
    }

    pub fn set_bus_speed(&mut self, phandle: u32, hz: u32) -> (done: bool)
        ensures
            final(self).log() == old(self).log().push(HidQuery::Speed { phandle, hz, done }),
    {
        let done = self.inner.set_bus_speed(phandle, hz);
        self.log = Ghost(self.log@.push(HidQuery::Speed { phandle, hz, done }));
        done
    }

    pub fn has_gpio(&mut self, phandle: u32) -> (there: bool)
        ensures
            final(self).log() == old(self).log().push(HidQuery::Gpio { phandle, there }),
    {
        let there = self.inner.has_gpio(phandle);
        self.log = Ghost(self.log@.push(HidQuery::Gpio { phandle, there }));
        there
    }

    pub fn request_irq(&mut self, phandle: u32, pin: u32, trackpad: bool) -> (done: bool)
        ensures
            final(self).log() == old(self).log().push(HidQuery::Irq { phandle, pin, trackpad, done }),
    {
        let done = self.inner.request_irq(phandle, pin, trackpad);
        self.log = Ghost(self.log@.push(HidQuery::Irq { phandle, pin, trackpad, done }));
        done
    }
}

} // verus!
