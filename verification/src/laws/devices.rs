//! Small devices: fuses, channels and amplifiers.

use crate::admac::{channel_request, DmaError};
use crate::efuse::field;
use crate::i2c::{I2cError, I2cOp};
use crate::tas5770l::register_read;
use vstd::arithmetic::div_mod::lemma_fundamental_div_mod_converse;
use vstd::arithmetic::power2::{lemma_pow2_pos, pow2};
use vstd::prelude::*;

verus! {

/// A word that was put together of lower bits, a value and higher bits gives
/// the value back.
pub proof fn fuses_give_back_their_value(
    word: u32,
    offset: u32,
    count: u32,
    low: int,
    value: int,
    high: int,
)
    requires
        0 <= low < pow2(offset as nat),
        0 <= value < pow2(count as nat),
        word == low + pow2(offset as nat) * (value + pow2(count as nat) * high),
    ensures
        field(word, offset, count) == value,
{
    let a = pow2(offset as nat) as int;
    let b = pow2(count as nat) as int;
    lemma_pow2_pos(offset as nat);
    lemma_pow2_pos(count as nat);
    let upper = value + b * high;
    assert(word == upper * a + low) by (nonlinear_arith)
        requires
            word == low + a * upper,
    ;
    lemma_fundamental_div_mod_converse(word as int, a, upper, low);
    assert(upper == high * b + value) by (nonlinear_arith)
        requires
            upper == value + b * high,
    ;
    lemma_fundamental_div_mod_converse(upper, b, high, value);
}

/// A free channel is given to who asks first, and to nobody else until it is
/// free again; the other channels are given as before.
pub proof fn channels_have_one_user(in_use: Seq<bool>, first: u32, second: u32)
    requires
        first < in_use.len(),
        !in_use[first as int],
    ensures
        channel_request(seq![first], in_use) == Ok::<int, DmaError>(first as int),
        ({
            let taken = in_use.update(first as int, true);
            &&& channel_request(seq![first], taken) == Err::<int, DmaError>(DmaError::ChannelBusy)
            &&& second != first ==> channel_request(seq![second], taken) == channel_request(
                seq![second],
                in_use,
            )
            &&& taken.update(first as int, false) =~= in_use
        }),
{
}

/// A register of an amplifier is the first byte that comes back for its
/// number; an empty reply is an error of the bus.
pub proof fn amplifiers_answer_for_their_register(
    log: (Seq<I2cOp>, Seq<I2cOp>),
    address: u8,
    register: u8,
    r: Result<u8, I2cError>,
    got: Result<Seq<u8>, I2cError>,
)
    requires
        register_read(log, address, register, r, got),
    ensures
        log.1.len() == log.0.len() + 1,
        log.1.last() matches I2cOp::WriteRead { address: a, data, len, got: reply } && a == address
            && data.len() == 1 && data[0] == register && len == 1 && reply == got,
        got is Err ==> r is Err && r->Err_0 == got->Err_0,
        got is Ok && got->Ok_0.len() == 0 ==> r == Err::<u8, I2cError>(I2cError::BusError),
        got is Ok && got->Ok_0.len() > 0 ==> r == Ok::<u8, I2cError>(got->Ok_0[0]),
{
}

} // verus!
