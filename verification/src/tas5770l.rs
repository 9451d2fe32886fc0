//! Speaker amplifier: register access over I2C.

use crate::i2c::{reply_bytes, seven_bit_address, AddressError, I2cBus, I2cError, I2cOp, I2cPort};
use vstd::prelude::*;

verus! {

pub const TAS5770L_SOUND_DAI_CELLS: usize = 0;

/// Why an amplifier was not accepted.
#[derive(Clone, Copy, Debug, PartialEq, Eq, Structural)]
pub enum Tas5770lError {
    MissingAddress,
    UnsupportedAddress,
    UnsupportedCells,
    MissingBus,
}

impl Tas5770lError {
    pub fn message(self) -> (r: &'static str)
        ensures
            r@ == (match self {
                Tas5770lError::MissingAddress => "tas5770l: missing I2C address"@,
                Tas5770lError::UnsupportedAddress => "tas5770l: unsupported I2C address"@,
                Tas5770lError::UnsupportedCells => "tas5770l: unsupported #sound-dai-cells"@,
                Tas5770lError::MissingBus => "tas5770l: missing parent I2C bus"@,
            }),
    {
        match self {
            Tas5770lError::MissingAddress => "tas5770l: missing I2C address",
            Tas5770lError::UnsupportedAddress => "tas5770l: unsupported I2C address",
            Tas5770lError::UnsupportedCells => "tas5770l: unsupported #sound-dai-cells",
            Tas5770lError::MissingBus => "tas5770l: missing parent I2C bus",
        }
    }
}

/// The address of an amplifier.
pub fn read_i2c_address(reg: Option<usize>) -> (r: Result<u8, Tas5770lError>)
    ensures
        r == (match reg {
            None => Err::<u8, Tas5770lError>(Tas5770lError::MissingAddress),
            Some(a) => if a > 0x7f {
                Err(Tas5770lError::UnsupportedAddress)
            } else {
                Ok(a as u8)
            },
        }),
{
    match seven_bit_address(reg) {
        Ok(address) => Ok(address),
        Err(AddressError::Missing) => Err(Tas5770lError::MissingAddress),
        Err(AddressError::Unsupported) => Err(Tas5770lError::UnsupportedAddress),
    }
}

/// Cells of a reference to the amplifier: none.
pub fn read_sound_dai_cells(cells: Option<usize>) -> (r: Result<usize, Tas5770lError>)
    ensures
        r == (if cells is Some && cells->0 != 0 {
            Err::<usize, Tas5770lError>(Tas5770lError::UnsupportedCells)
        } else {
            Ok(0)
        }),
{
    let cells: usize = match cells {
        Some(cells) => cells,
        None => TAS5770L_SOUND_DAI_CELLS,
    };
    if cells != TAS5770L_SOUND_DAI_CELLS {
        return Err(Tas5770lError::UnsupportedCells);
    }
    Ok(cells)
}

/// A speaker amplifier.
#[derive(Clone, Copy, Debug, PartialEq, Eq, Structural)]
pub struct Tas5770l {
    pub address: u8,
    pub bus_phandle: u32,
    pub has_sdz_supply: bool,
}

/// What a reply says of a register: no byte at all is a bus error.
pub open spec fn register_from(got: Result<Seq<u8>, I2cError>) -> Result<u8, I2cError> {
    match got {
        Err(e) => Err(e),
        Ok(data) => if data.len() == 0 {
            Err(I2cError::BusError)
        } else {
            Ok(data[0])
        },
    }
}

/// What the bytes of a reply say of a register.
pub fn register_of(data: &[u8]) -> (r: Result<u8, I2cError>)
    ensures
        r == register_from(Ok(data@)),
{
    if data.len() == 0 {
        Err(I2cError::BusError)
    } else {
        Ok(data[0])
    }
}

/// A register was read.
pub open spec fn register_read(
    log: (Seq<I2cOp>, Seq<I2cOp>),
    address: u8,
    register: u8,
    r: Result<u8, I2cError>,
    got: Result<Seq<u8>, I2cError>,
) -> bool {
    &&& log.1 == log.0.push(I2cOp::WriteRead { address, data: seq![register], len: 1, got })
    &&& r == register_from(got)
}

impl Tas5770l {
    pub fn new(address: u8, bus_phandle: u32, has_sdz_supply: bool) -> (r: Self)
        ensures
            r.address == address,
            r.bus_phandle == bus_phandle,
            r.has_sdz_supply == has_sdz_supply,
    {
        Tas5770l { address, bus_phandle, has_sdz_supply }
    }

    pub fn write_register<B: I2cBus>(&self, port: &mut I2cPort<B>, register: u8, value: u8) -> (r:
        Result<(), I2cError>)
        ensures
            final(port).log() == old(port).log().push(
                I2cOp::Write { address: self.address, data: seq![register, value], reply: r },
            ),
    {
        let data: [u8; 2] = [register, value];
        assert(data@ =~= seq![register, value]);
        port.write(self.address, &data)
    }

    pub fn read_register<B: I2cBus>(&self, port: &mut I2cPort<B>, register: u8) -> (r: Result<
        u8,
        I2cError,
    >)
        ensures
            exists|got: Result<Seq<u8>, I2cError>| #[trigger]
                register_read(
                    (old(port).log(), final(port).log()),
                    self.address,
                    register,
                    r,
                    got,
                ),
    {
        let ghost start = port.log();
        let asked: [u8; 1] = [register];
        assert(asked@ =~= seq![register]);
        let answer = port.write_read(self.address, &asked, 1);
        let ghost got = reply_bytes(answer);
        let r: Result<u8, I2cError> = match answer {
            Ok(data) => register_of(data.as_slice()),
            Err(e) => Err(e),
        };
        assert(register_read((start, port.log()), self.address, register, r, got));
        r
    }
}

} // verus!
