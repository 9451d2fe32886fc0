//! Transfers on an I2C bus, with a record of them.

use vstd::prelude::*;

verus! {

/// Largest address of seven bits.
pub const MAX_7BIT_ADDRESS: usize = 0x7f;

/// Why a transfer failed.
#[derive(Clone, Copy, Debug, PartialEq, Eq, Structural)]
pub enum I2cError {
    BusError,
    InvalidArg,
    Timeout,
    NoDevice,
    Unsupported,
}

/// An I2C bus with a timer. Nothing is assumed of what comes back.
pub trait I2cBus {
    /// Writes bytes to a device and ends the transfer.
    fn write(&mut self, address: u8, data: &[u8]) -> Result<(), I2cError>;

    /// Writes bytes to a device and, in the same transfer, reads some back.
    fn write_read(&mut self, address: u8, data: &[u8], len: usize) -> Result<Vec<u8>, I2cError>;

    fn udelay(&mut self, us: u64);
}

/// One operation on the bus.
pub enum I2cOp {
    Write { address: u8, data: Seq<u8>, reply: Result<(), I2cError> },
    WriteRead { address: u8, data: Seq<u8>, len: nat, got: Result<Seq<u8>, I2cError> },
    Delay { us: u64 },
}

/// The bytes of a reply.
pub open spec fn reply_bytes(r: Result<Vec<u8>, I2cError>) -> Result<Seq<u8>, I2cError> {
    match r {
        Ok(v) => Ok(v@),
        Err(e) => Err(e),
    }
}

/// The bus, with a record of the operations.
pub struct I2cPort<B: I2cBus> {
    inner: B,
    log: Ghost<Seq<I2cOp>>,
}

impl<B: I2cBus> I2cPort<B> {
    /// All operations so far.
    pub closed spec fn log(&self) -> Seq<I2cOp> {
        self.log@
    }

    /// What is behind the record.
    pub closed spec fn behind(&self) -> B {
        self.inner
    }

    /// Gives back what is behind the record.
    pub fn into_inner(self) -> (r: B)
        ensures
            r == self.behind(),
    {
        self.inner
    }

    pub fn new(inner: B) -> (r: Self)
        ensures
            r.behind() == inner,
            r.log() == Seq::<I2cOp>::empty(),
    {
        I2cPort { inner, log: Ghost(Seq::empty()) }
    }

    pub fn write(&mut self, address: u8, data: &[u8]) -> (r: Result<(), I2cError>)
        ensures
            final(self).log() == old(self).log().push(
                I2cOp::Write { address, data: data@, reply: r },
            ),
    {
        let r = self.inner.write(address, data);
        self.log = Ghost(self.log@.push(I2cOp::Write { address, data: data@, reply: r }));
        r
    }

    pub fn write_read(&mut self, address: u8, data: &[u8], len: usize) -> (r: Result<
        Vec<u8>,
        I2cError,
    >)
        ensures
            final(self).log() == old(self).log().push(
                I2cOp::WriteRead { address, data: data@, len: len as nat, got: reply_bytes(r) },
            ),
    {
        let r = self.inner.write_read(address, data, len);
        self.log = Ghost(
            self.log@.push(
                I2cOp::WriteRead { address, data: data@, len: len as nat, got: reply_bytes(r) },
            ),
        );
        r
    }

    pub fn udelay(&mut self, us: u64)
        ensures
            final(self).log() == old(self).log().push(I2cOp::Delay { us }),
    {
        self.inner.udelay(us);
        self.log = Ghost(self.log@.push(I2cOp::Delay { us }));
    }
}

/// Why a device has no usable address.
#[derive(Clone, Copy, Debug, PartialEq, Eq, Structural)]
pub enum AddressError {
    Missing,
    Unsupported,
}

/// The address of a device, which has to fit seven bits.
pub fn seven_bit_address(reg: Option<usize>) -> (r: Result<u8, AddressError>)
    ensures
        r == (match reg {
            None => Err::<u8, AddressError>(AddressError::Missing),
            Some(a) => if a > 0x7f {
                Err(AddressError::Unsupported)
            } else {
                Ok(a as u8)
            },
        }),
{
    match reg {
        None => Err(AddressError::Missing),
        Some(address) => if address > MAX_7BIT_ADDRESS {
            Err(AddressError::Unsupported)
        } else {
            Ok(address as u8)
        },
    }
}

/// Why a device has no bus.
#[derive(Clone, Copy, Debug, PartialEq, Eq, Structural)]
pub enum BusLookupError {
    /// The description names no parent.
    MissingParent,
    /// Try again later: the bus is not there yet.
    NotReady,
}

/// The parent bus of a device with its phandle, where `bus` is what is
/// registered under it.
pub fn resolve_i2c_bus<B>(parent: Option<u32>, bus: Option<B>) -> (r: Result<
    (u32, B),
    BusLookupError,
>)
    ensures
        r == (match (parent, bus) {
            (None, _) => Err::<(u32, B), BusLookupError>(BusLookupError::MissingParent),
            (Some(_), None) => Err(BusLookupError::NotReady),
            (Some(phandle), Some(bus)) => Ok((phandle, bus)),
        }),
{
    match parent {
        Some(phandle) => match bus {
            Some(bus) => Ok((phandle, bus)),
            None => Err(BusLookupError::NotReady),
        },
        None => Err(BusLookupError::MissingParent),
    }
}

} // verus!
