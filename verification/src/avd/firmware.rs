//! Status words that the decoder's coprocessor sends.

use vstd::prelude::*;

verus! {

/// Video pipe decode completed.
pub const MSG_VP_DONE: u32 = 0x0000_0100;

/// Post-process pipe completed.
pub const MSG_PP_DONE: u32 = 0x0000_1000;

/// Unexpected interrupt vector.
pub const MSG_UNKNOWN_IRQ: u32 = 0x0001_0000;

/// Decoded firmware message.
#[derive(Clone, Copy, Debug, PartialEq, Eq, Structural)]
pub enum AvdFirmwareMessage {
    /// Video processor completed work.
    VideoProcessorDone,
    /// Video processor reported an error for the enclosed pipe.
    VideoProcessorError(u32),
    /// Post-processor completed work.
    PostProcessorDone,
    /// Firmware reported an interrupt that it did not classify.
    UnknownIrq(u32),
    /// Message without a class.
    Raw(u32),
}

/// Raw firmware mailbox word and its decoded class.
#[derive(Clone, Copy, Debug, PartialEq, Eq, Structural)]
pub struct AvdFirmwareMessageWord {
    /// Raw mailbox value.
    pub raw: u32,
    /// Decoded message class.
    pub message: AvdFirmwareMessage,
}

/// The class of a mailbox word, where `vp_error` is the error bit of the
/// mailbox protocol in use.
pub open spec fn classified(raw: u32, vp_error: u32) -> AvdFirmwareMessage {
    if raw & MSG_UNKNOWN_IRQ != 0 {
        AvdFirmwareMessage::UnknownIrq(raw & !MSG_UNKNOWN_IRQ)
    } else if raw & MSG_PP_DONE != 0 {
        AvdFirmwareMessage::PostProcessorDone
    } else if raw & vp_error != 0 {
        AvdFirmwareMessage::VideoProcessorError(raw & !vp_error)
    } else if raw & MSG_VP_DONE != 0 {
        AvdFirmwareMessage::VideoProcessorDone
    } else {
        AvdFirmwareMessage::VideoProcessorError(raw)
    }
}

impl AvdFirmwareMessage {
    /// The word that stands for a message.
    pub open spec fn word(self, vp_error: u32) -> u32 {
        match self {
            AvdFirmwareMessage::VideoProcessorDone => MSG_VP_DONE,
            AvdFirmwareMessage::VideoProcessorError(pipe) => vp_error | pipe,
            AvdFirmwareMessage::PostProcessorDone => MSG_PP_DONE,
            AvdFirmwareMessage::UnknownIrq(irq) => MSG_UNKNOWN_IRQ | irq,
            AvdFirmwareMessage::Raw(value) => value,
        }
    }

    /// Decode a raw firmware mailbox word.
    pub fn decode(raw: u32, vp_error: u32) -> (r: Self)
        ensures
            r == classified(raw, vp_error),
    {
        if raw & MSG_UNKNOWN_IRQ != 0 {
            AvdFirmwareMessage::UnknownIrq(raw & !MSG_UNKNOWN_IRQ)
        } else if raw & MSG_PP_DONE != 0 {
            AvdFirmwareMessage::PostProcessorDone
        } else if raw & vp_error != 0 {
            AvdFirmwareMessage::VideoProcessorError(raw & !vp_error)
        } else if raw & MSG_VP_DONE != 0 {
            AvdFirmwareMessage::VideoProcessorDone
        } else {
            AvdFirmwareMessage::VideoProcessorError(raw)
        }
    }

    /// Return the raw message word.
    pub fn raw(self, vp_error: u32) -> (r: u32)
        ensures
            r == self.word(vp_error),
    {
        match self {
            AvdFirmwareMessage::VideoProcessorDone => MSG_VP_DONE,
            AvdFirmwareMessage::VideoProcessorError(pipe) => vp_error | pipe,
            AvdFirmwareMessage::PostProcessorDone => MSG_PP_DONE,
            AvdFirmwareMessage::UnknownIrq(irq) => MSG_UNKNOWN_IRQ | irq,
            AvdFirmwareMessage::Raw(value) => value,
        }
    }

    /// The message tells of a state that the firmware does not leave.
    pub open spec fn fatal(self) -> bool {
        self is VideoProcessorError || self is UnknownIrq
    }

    /// Return whether the message represents a fatal firmware state.
    pub fn is_fault(self) -> (r: bool)
        ensures
            r == self.fatal(),
    {
        matches!(
            self,
            AvdFirmwareMessage::VideoProcessorError(_) | AvdFirmwareMessage::UnknownIrq(_)
        )
    }

    /// The message tells that a decode has finished.
    pub open spec fn completes(self) -> bool {
        self is VideoProcessorDone || self is PostProcessorDone
    }

    pub fn is_completion(self) -> (r: bool)
        ensures
            r == self.completes(),
    {
        matches!(
            self,
            AvdFirmwareMessage::VideoProcessorDone | AvdFirmwareMessage::PostProcessorDone
        )
    }
}

/// A decoded word is a completion exactly where it is no fault.
pub proof fn decoded_words_complete_or_fail(raw: u32, vp_error: u32)
    ensures
        classified(raw, vp_error).completes() != classified(raw, vp_error).fatal(),
{
}

/// An unexpected interrupt is reported with its number.
pub proof fn unknown_interrupt_is_recognized(irq: u32, vp_error: u32)
    requires
        irq < 0x1_0000,
    ensures
        classified(AvdFirmwareMessage::UnknownIrq(irq).word(vp_error), vp_error)
            == AvdFirmwareMessage::UnknownIrq(irq),
{
    assert((0x0001_0000u32 | irq) & 0x0001_0000u32 != 0 && (0x0001_0000u32 | irq)
        & !0x0001_0000u32 == irq) by (bit_vector)
        requires
            irq < 0x1_0000u32,
    ;
}

/// What an error report names comes back, where the error bit is one bit of its
/// own above the pipe number.
pub proof fn pipe_error_is_recognized(pipe: u32, vp_error: u32)
    requires
        pipe < 0x100,
        vp_error & 0x0001_11ff == 0,
        vp_error != 0,
    ensures
        classified(AvdFirmwareMessage::VideoProcessorError(pipe).word(vp_error), vp_error)
            == AvdFirmwareMessage::VideoProcessorError(pipe),
{
    assert((vp_error | pipe) & 0x0001_0000u32 == 0 && (vp_error | pipe) & 0x0000_1000u32 == 0 && (
    vp_error | pipe) & vp_error != 0 && (vp_error | pipe) & !vp_error == pipe) by (bit_vector)
        requires
            pipe < 0x100u32,
            vp_error & 0x0001_11ffu32 == 0,
            vp_error != 0,
    ;
}

/// A completion of either kind comes back from its word.
pub proof fn completions_are_recognized(vp_error: u32)
    requires
        vp_error & 0x0001_11ff == 0,
    ensures
        classified(AvdFirmwareMessage::VideoProcessorDone.word(vp_error), vp_error)
            == AvdFirmwareMessage::VideoProcessorDone,
        classified(AvdFirmwareMessage::PostProcessorDone.word(vp_error), vp_error)
            == AvdFirmwareMessage::PostProcessorDone,
{
    assert(0x100u32 & 0x0001_0000u32 == 0 && 0x100u32 & 0x1000u32 == 0 && 0x100u32 & vp_error == 0
        && 0x100u32 & 0x100u32 != 0 && 0x1000u32 & 0x0001_0000u32 == 0 && 0x1000u32 & 0x1000u32
        != 0) by (bit_vector)
        requires
            vp_error & 0x0001_11ffu32 == 0,
    ;
}

} // verus!
