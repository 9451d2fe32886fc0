//! USB Type-C port controller: its status registers over I2C.

use crate::bytes::{copy_range, from_le32, read_le32};
use crate::i2c::{reply_bytes, seven_bit_address, AddressError, I2cBus, I2cError, I2cOp, I2cPort};
use vstd::prelude::*;

verus! {

/// Longest register.
pub const TPS_MAX_LEN: usize = 64;

pub const I2C_SETTLE_US: u64 = 500;

pub const TPS_REG_VID: u8 = 0x00;

pub const TPS_REG_MODE: u8 = 0x03;

pub const TPS_REG_STATUS: u8 = 0x1a;

pub const TPS_REG_POWER_STATUS: u8 = 0x3f;

pub const TPS_REG_DATA_STATUS: u8 = 0x5f;

/// Why a controller was not accepted.
#[derive(Clone, Copy, Debug, PartialEq, Eq, Structural)]
pub enum Cd321xError {
    MissingAddress,
    UnsupportedAddress,
    MissingBus,
    ReadStatus,
}

impl Cd321xError {
    pub fn message(self) -> (r: &'static str)
        ensures
            r@ == (match self {
                Cd321xError::MissingAddress => "apple-cd321x: missing I2C address"@,
                Cd321xError::UnsupportedAddress => "apple-cd321x: unsupported I2C address"@,
                Cd321xError::MissingBus => "apple-cd321x: missing parent I2C bus"@,
                Cd321xError::ReadStatus => "apple-cd321x: failed to read status"@,
            }),
    {
        match self {
            Cd321xError::MissingAddress => "apple-cd321x: missing I2C address",
            Cd321xError::UnsupportedAddress => "apple-cd321x: unsupported I2C address",
            Cd321xError::MissingBus => "apple-cd321x: missing parent I2C bus",
            Cd321xError::ReadStatus => "apple-cd321x: failed to read status",
        }
    }
}

/// The address of a controller.
pub fn read_i2c_address(reg: Option<usize>) -> (r: Result<u8, Cd321xError>)
    ensures
        r == (match reg {
            None => Err::<u8, Cd321xError>(Cd321xError::MissingAddress),
            Some(a) => if a > 0x7f {
                Err(Cd321xError::UnsupportedAddress)
            } else {
                Ok(a as u8)
            },
        }),
{
    match seven_bit_address(reg) {
        Ok(address) => Ok(address),
        Err(AddressError::Missing) => Err(Cd321xError::MissingAddress),
        Err(AddressError::Unsupported) => Err(Cd321xError::UnsupportedAddress),
    }
}

/// What a reply says of a register of `n` bytes: its first byte is the length
/// that the controller has, which must not be less.
pub open spec fn register_from(got: Result<Seq<u8>, I2cError>, n: nat) -> Result<
    Seq<u8>,
    I2cError,
> {
    match got {
        Err(e) => Err(e),
        Ok(data) => if data.len() == 0 || data[0] < n || data.len() < n + 1 {
            Err(I2cError::BusError)
        } else {
            Ok(data.subrange(1, n as int + 1))
        },
    }
}

/// What the bytes of a reply say of a register of `n` bytes.
pub fn register_of(data: &[u8], n: usize) -> (r: Result<Vec<u8>, I2cError>)
    ensures
        reply_bytes(r) == register_from(Ok(data@), n as nat),
{
    if data.len() == 0 || (data[0] as usize) < n || data.len() - 1 < n {
        return Err(I2cError::BusError);
    }
    let out = copy_range(data, 1, n + 1);
    assert(out@ =~= data@.subrange(1, n + 1));
    Ok(out)
}

/// The operations of a register read: a wait follows where the bus answered.
pub open spec fn read_ops(address: u8, register: u8, n: nat, got: Result<Seq<u8>, I2cError>) -> Seq<
    I2cOp,
> {
    let asked = I2cOp::WriteRead { address, data: seq![register], len: n + 1, got };
    if got is Ok {
        seq![asked, I2cOp::Delay { us: 500 }]
    } else {
        seq![asked]
    }
}

/// A register was read, or not, for a stated reason.
pub open spec fn register_read(
    log: (Seq<I2cOp>, Seq<I2cOp>),
    address: u8,
    register: u8,
    n: nat,
    r: Result<Seq<u8>, I2cError>,
    got: Result<Seq<u8>, I2cError>,
) -> bool {
    if n > 64 {
        log.1 == log.0 && r == Err::<Seq<u8>, I2cError>(I2cError::InvalidArg)
    } else {
        log.1 == log.0 + read_ops(address, register, n, got) && r == register_from(got, n)
    }
}

/// Status of a controller.
#[derive(Clone, Copy, Debug)]
pub struct Cd321xSnapshot {
    pub vendor_id: u32,
    pub mode: [u8; 4],
    pub status: u32,
    pub power_status: u32,
    pub data_status: u32,
}

/// A USB Type-C port controller.
#[derive(Clone, Copy, Debug, PartialEq, Eq, Structural)]
pub struct AppleCd321x {
    pub address: u8,
    pub bus_phandle: u32,
}

/// The registers of a snapshot, in order.
pub open spec fn snapshot_registers() -> Seq<u8> {
    seq![0x00u8, 0x03u8, 0x1au8, 0x3fu8, 0x5fu8]
}

/// The operations of reading the first registers of a snapshot.
pub open spec fn snapshot_ops(address: u8, replies: Seq<Result<Seq<u8>, I2cError>>) -> Seq<I2cOp>
    decreases replies.len(),
{
    if replies.len() == 0 {
        Seq::empty()
    } else {
        snapshot_ops(address, replies.drop_last()) + read_ops(
            address,
            snapshot_registers()[replies.len() - 1],
            4,
            replies.last(),
        )
    }
}

/// All replies but the last were sound.
pub open spec fn front_sound(replies: Seq<Result<Seq<u8>, I2cError>>) -> bool {
    forall|i: int| 0 <= i < replies.len() - 1 ==> register_from(#[trigger] replies[i], 4) is Ok
}

/// A word of a sound reply.
pub open spec fn reply_word(got: Result<Seq<u8>, I2cError>) -> int {
    from_le32(register_from(got, 4)->Ok_0, 0)
}

/// A snapshot was taken: registers are read in order up to the first that
/// fails.
pub open spec fn snapshot_taken(
    log: (Seq<I2cOp>, Seq<I2cOp>),
    address: u8,
    r: Result<Cd321xSnapshot, I2cError>,
    replies: Seq<Result<Seq<u8>, I2cError>>,
) -> bool {
    &&& 0 < replies.len() <= 5
    &&& log.1 == log.0 + snapshot_ops(address, replies)
    &&& front_sound(replies)
    &&& match register_from(replies.last(), 4) {
        Err(e) => r is Err && r->Err_0 == e,
        Ok(_) => {
            &&& replies.len() == 5
            &&& r is Ok
            &&& r->Ok_0.vendor_id == reply_word(replies[0])
            &&& r->Ok_0.mode@ == register_from(replies[1], 4)->Ok_0
            &&& r->Ok_0.status == reply_word(replies[2])
            &&& r->Ok_0.power_status == reply_word(replies[3])
            &&& r->Ok_0.data_status == reply_word(replies[4])
        },
    }
}

impl AppleCd321x {
    pub fn new(address: u8, bus_phandle: u32) -> (r: Self)
        ensures
            r.address == address,
            r.bus_phandle == bus_phandle,
    {
        AppleCd321x { address, bus_phandle }
    }

    /// Reads a register of `n` bytes.
    pub fn read_exact<B: I2cBus>(&self, port: &mut I2cPort<B>, register: u8, n: usize) -> (r: Result<
        Vec<u8>,
        I2cError,
    >)
        ensures
            exists|got: Result<Seq<u8>, I2cError>| #[trigger]
                register_read(
                    (old(port).log(), final(port).log()),
                    self.address,
                    register,
                    n as nat,
                    reply_bytes(r),
                    got,
                ),
    {
        let ghost start = port.log();
        if n > TPS_MAX_LEN {
            let r: Result<Vec<u8>, I2cError> = Err(I2cError::InvalidArg);
            proof {
                let none: Result<Seq<u8>, I2cError> = Err(I2cError::BusError);
                assert(register_read(
                    (start, port.log()),
                    self.address,
                    register,
                    n as nat,
                    reply_bytes(r),
                    none,
                ));
            }
            return r;
        }
        let asked: [u8; 1] = [register];
        assert(asked@ =~= seq![register]);
        let answer = port.write_read(self.address, &asked, n + 1);
        let ghost got = reply_bytes(answer);
        let data = match answer {
            Ok(data) => data,
            Err(e) => {
                let r: Result<Vec<u8>, I2cError> = Err(e);
                assert(port.log() =~= start + read_ops(self.address, register, n as nat, got));
                assert(register_read(
                    (start, port.log()),
                    self.address,
                    register,
                    n as nat,
                    reply_bytes(r),
                    got,
                ));
                return r;
            },
        };
        port.udelay(I2C_SETTLE_US);
        assert(port.log() =~= start + read_ops(self.address, register, n as nat, got));
        let r = register_of(data.as_slice(), n);
        assert(register_read(
            (start, port.log()),
            self.address,
            register,
            n as nat,
            reply_bytes(r),
            got,
        ));
        r
    }

    /// Reads vendor, mode and the three status registers.
    pub fn snapshot<B: I2cBus>(&self, port: &mut I2cPort<B>) -> (r: Result<
        Cd321xSnapshot,
        I2cError,
    >)
        ensures
            exists|replies: Seq<Result<Seq<u8>, I2cError>>| #[trigger]
                snapshot_taken(
                    (old(port).log(), final(port).log()),
                    self.address,
                    r,
                    replies,
                ),
    {
        let ghost start = port.log();
        let registers: [u8; 5] = [
            TPS_REG_VID,
            TPS_REG_MODE,
            TPS_REG_STATUS,
            TPS_REG_POWER_STATUS,
            TPS_REG_DATA_STATUS,
        ];
        assert(registers@ =~= snapshot_registers());
        let ghost mut replies: Seq<Result<Seq<u8>, I2cError>> = Seq::empty();
        let mut words: Vec<Vec<u8>> = Vec::new();
        assert(port.log() =~= start + snapshot_ops(self.address, replies));
        let mut i: usize = 0;
        while i < 5
            invariant
                i <= 5,
                start == old(port).log(),
                registers@ == snapshot_registers(),
                replies.len() == i,
                words@.len() == i,
                port.log() == start + snapshot_ops(self.address, replies),
                forall|k: int| 0 <= k < i ==> register_from(#[trigger] replies[k], 4) is Ok,
                forall|k: int|
                    0 <= k < i ==> (#[trigger] words@[k])@ == register_from(replies[k], 4)->Ok_0,
            decreases 5 - i,
        {
            let ghost before = port.log();
            let answer = self.read_exact(port, registers[i], 4);
            proof {
                let got = choose|got: Result<Seq<u8>, I2cError>| #[trigger]
                    register_read(
                        (before, port.log()),
                        self.address,
                        registers@[i as int],
                        4,
                        reply_bytes(answer),
                        got,
                    );
                let more = replies.push(got);
                assert(more.drop_last() =~= replies);
                assert(port.log() =~= start + snapshot_ops(self.address, more));
                assert forall|k: int| 0 <= k < i implies register_from(
                    #[trigger] more[k],
                    4,
                ) is Ok by {
                    assert(more[k] == replies[k]);
                }
                replies = more;
            }
            match answer {
                Ok(word) => {
                    words.push(word);
                },
                Err(e) => {
                    let r: Result<Cd321xSnapshot, I2cError> = Err(e);
                    assert(snapshot_taken((start, port.log()), self.address, r, replies));
                    return r;
                },
            }
            i = i + 1;
        }
        proof {
            assert forall|k: int| 0 <= k < 5 implies (#[trigger] words@[k])@.len() == 4 by {
                assert(register_from(replies[k], 4) is Ok);
            }
        }
        let mode: [u8; 4] = [words[1][0], words[1][1], words[1][2], words[1][3]];
        assert(mode@ =~= words@[1]@);
        let snapshot = Cd321xSnapshot {
            vendor_id: read_le32(words[0].as_slice(), 0),
            mode,
            status: read_le32(words[2].as_slice(), 0),
            power_status: read_le32(words[3].as_slice(), 0),
            data_status: read_le32(words[4].as_slice(), 0),
        };
        let r: Result<Cd321xSnapshot, I2cError> = Ok(snapshot);
        assert(snapshot_taken((start, port.log()), self.address, r, replies));
        r
    }
}

/// A byte as it is printed: itself where it is a printable ASCII character,
/// else a dot.
pub fn printable_ascii(byte: u8) -> (r: char)
    ensures
        r as int == (if 0x20 <= byte <= 0x7e {
            byte as int
        } else {
            0x2e
        }),
{
    if 0x20 <= byte && byte <= 0x7e {
        byte as char
    } else {
        '.'
    }
}

} // verus!
