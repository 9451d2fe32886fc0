//! The mapped-buffer frontend of the decoder: one stream, one buffer that holds
//! the input in front of the output.

use crate::arith::aligned_up;
use crate::avd::backend::{mapped_output_bytes, VideoAbi, AVD_MAPPED_INPUT_BYTES};
use crate::platform::PAGE_SIZE;
use vstd::prelude::*;

verus! {

/// The only stream of this frontend.
pub const DEFAULT_STREAM_ID: u32 = 1;

/// Where the output begins in the mapped buffer.
pub const MAPPED_OUTPUT_OFFSET: usize = 8 * 1024 * 1024;

/// Why a request to the frontend failed.
#[derive(Clone, Copy, Debug)]
pub enum VvideoError {
    BufferAllocation,
    InvalidStream,
    UnsupportedFormat,
    EmptyInput,
    InputTooLarge,
    Unaligned,
    OffsetTooLarge,
    LengthTooLarge,
    UnsupportedCommand,
    IncompleteWrite,
    /// What the decoder reported.
    Backend(&'static str),
}

impl VvideoError {
    pub fn message(self) -> (r: &'static str)
        ensures
            r@ == (match self {
                VvideoError::BufferAllocation => "apple-avd-vvideo: mmap buffer allocation failed"@,
                VvideoError::InvalidStream => "apple-avd-vvideo: invalid stream id"@,
                VvideoError::UnsupportedFormat => "apple-avd-vvideo: only H.264 is supported"@,
                VvideoError::EmptyInput => "apple-avd-vvideo: input is empty"@,
                VvideoError::InputTooLarge => "apple-avd-vvideo: input exceeds mapped buffer"@,
                VvideoError::Unaligned =>
                    "apple-avd-vvideo: mmap offset and length must be page-aligned"@,
                VvideoError::OffsetTooLarge =>
                    "apple-avd-vvideo: mmap offset exceeds buffer size"@,
                VvideoError::LengthTooLarge =>
                    "apple-avd-vvideo: mmap length exceeds buffer size"@,
                VvideoError::UnsupportedCommand =>
                    "apple-avd-vvideo: unsupported control command"@,
                VvideoError::IncompleteWrite => "apple-avd-vvideo: write a complete access unit"@,
                VvideoError::Backend(message) => message@,
            }),
    {
        match self {
            VvideoError::BufferAllocation => "apple-avd-vvideo: mmap buffer allocation failed",
            VvideoError::InvalidStream => "apple-avd-vvideo: invalid stream id",
            VvideoError::UnsupportedFormat => "apple-avd-vvideo: only H.264 is supported",
            VvideoError::EmptyInput => "apple-avd-vvideo: input is empty",
            VvideoError::InputTooLarge => "apple-avd-vvideo: input exceeds mapped buffer",
            VvideoError::Unaligned =>
                "apple-avd-vvideo: mmap offset and length must be page-aligned",
            VvideoError::OffsetTooLarge => "apple-avd-vvideo: mmap offset exceeds buffer size",
            VvideoError::LengthTooLarge => "apple-avd-vvideo: mmap length exceeds buffer size",
            VvideoError::UnsupportedCommand => "apple-avd-vvideo: unsupported control command",
            VvideoError::IncompleteWrite => "apple-avd-vvideo: write a complete access unit",
            VvideoError::Backend(message) => message,
        }
    }
}

/// Layout of the mapped buffer.
#[derive(Clone, Copy, Debug, PartialEq, Eq, Structural)]
pub struct VideoBufferInfo {
    pub mmap_offset: u64,
    pub mmap_len: u64,
    pub input_offset: u64,
    pub input_len: u32,
    pub output_offset: u64,
    pub output_len: u32,
}

/// A request handed to the decoder.
#[derive(Clone, Copy, Debug, PartialEq, Eq, Structural)]
pub struct MappedDecodeRequest {
    pub stream_id: u32,
    pub coded_format: u32,
    pub input_dma_addr: u64,
    pub input_len: u32,
    pub output_dma_addr: u64,
    pub output_len: u32,
    pub timestamp: u64,
}

/// Memory that is mapped into a process.
#[derive(Clone, Copy, Debug, PartialEq, Eq, Structural)]
pub struct MappingInfo {
    pub paddr: usize,
    /// Readable and writable.
    pub permissions: usize,
    pub shared: bool,
}

/// Bytes of the output part.
pub open spec fn output_part(abi: VideoAbi) -> int {
    aligned_up(0x100_0000 + abi.frame_header_len, 0x4000)
}

/// Bytes of the whole mapped buffer.
pub open spec fn buffer_bytes(abi: VideoAbi) -> int {
    0x80_0000 + output_part(abi)
}

/// What a control command asks for.
#[derive(Clone, Copy, Debug, PartialEq, Eq, Structural)]
pub enum VvideoCommand {
    GetBuffer,
    Submit,
    Dequeue,
    CreateSession,
    SubmitSession,
    DequeueSession,
    DestroySession,
}

/// Control command numbers of the system's video interface.
#[derive(Clone, Copy, Debug, PartialEq, Eq, Structural)]
pub struct VvideoCommands {
    pub get_buffer: u32,
    pub submit: u32,
    pub dequeue: u32,
    pub create_session: u32,
    pub submit_session: u32,
    pub dequeue_session: u32,
    pub destroy_session: u32,
}

impl VvideoCommands {
    /// What a command number asks for.
    pub open spec fn meaning(self, command: u32) -> Option<VvideoCommand> {
        if command == self.get_buffer {
            Some(VvideoCommand::GetBuffer)
        } else if command == self.submit {
            Some(VvideoCommand::Submit)
        } else if command == self.dequeue {
            Some(VvideoCommand::Dequeue)
        } else if command == self.create_session {
            Some(VvideoCommand::CreateSession)
        } else if command == self.submit_session {
            Some(VvideoCommand::SubmitSession)
        } else if command == self.dequeue_session {
            Some(VvideoCommand::DequeueSession)
        } else if command == self.destroy_session {
            Some(VvideoCommand::DestroySession)
        } else {
            None
        }
    }

    /// Decides what a control call asks for.
    pub fn control(&self, command: u32) -> (r: Result<VvideoCommand, VvideoError>)
        ensures
            r == (match self.meaning(command) {
                Some(c) => Ok::<VvideoCommand, VvideoError>(c),
                None => Err(VvideoError::UnsupportedCommand),
            }),
    {
        if command == self.get_buffer {
            Ok(VvideoCommand::GetBuffer)
        } else if command == self.submit {
            Ok(VvideoCommand::Submit)
        } else if command == self.dequeue {
            Ok(VvideoCommand::Dequeue)
        } else if command == self.create_session {
            Ok(VvideoCommand::CreateSession)
        } else if command == self.submit_session {
            Ok(VvideoCommand::SubmitSession)
        } else if command == self.dequeue_session {
            Ok(VvideoCommand::DequeueSession)
        } else if command == self.destroy_session {
            Ok(VvideoCommand::DestroySession)
        } else {
            Err(VvideoError::UnsupportedCommand)
        }
    }
}

/// State of the frontend.
pub struct AppleAvdVvideoDevice {
    /// Physical address of the mapped buffer, once it is allocated.
    pub buffer: Option<usize>,
    pub last_error: Option<VvideoError>,
    pub next_timestamp: u64,
}

/// The number behind a timestamp.
pub open spec fn stamp_after(timestamp: u64) -> u64 {
    if timestamp == u64::MAX {
        0
    } else {
        (timestamp + 1) as u64
    }
}

/// Why a submission is refused before the buffer is looked at, if it is.
pub open spec fn submit_refusal(
    abi: VideoAbi,
    stream_id: u32,
    coded_format: u32,
    input_len: usize,
) -> Option<VvideoError> {
    if stream_id != 1 {
        Some(VvideoError::InvalidStream)
    } else if coded_format != abi.format_h264 {
        Some(VvideoError::UnsupportedFormat)
    } else if input_len == 0 {
        Some(VvideoError::EmptyInput)
    } else if input_len > 0x80_0000 {
        Some(VvideoError::InputTooLarge)
    } else {
        None
    }
}

/// The layout of the mapped buffer.
pub fn buffer_layout(abi: &VideoAbi) -> (r: VideoBufferInfo)
    requires
        abi.wf(),
    ensures
        r.mmap_offset == 0,
        r.mmap_len == buffer_bytes(*abi),
        r.input_offset == 0,
        r.input_len == 0x80_0000,
        r.output_offset == 0x80_0000,
        r.output_len == output_part(*abi),
{
    let output: usize = mapped_output_bytes(*abi);
    VideoBufferInfo {
        mmap_offset: 0,
        mmap_len: (MAPPED_OUTPUT_OFFSET + output) as u64,
        input_offset: 0,
        input_len: AVD_MAPPED_INPUT_BYTES as u32,
        output_offset: MAPPED_OUTPUT_OFFSET as u64,
        output_len: output as u32,
    }
}

/// Pages of the mapped buffer.
pub fn buffer_pages(abi: &VideoAbi) -> (r: usize)
    requires
        abi.wf(),
    ensures
        r == buffer_bytes(*abi) / 4096,
        r * 4096 == buffer_bytes(*abi),
{
    proof {
        crate::arith::aligned_up_is_least_multiple(0x100_0000 + abi.frame_header_len, 0x4000);
    }
    (MAPPED_OUTPUT_OFFSET + mapped_output_bytes(*abi)) / PAGE_SIZE
}

/// The stream of a session that was asked for: a new one for zero, which must
/// turn out to be the only one.
pub fn created_stream(asked: u32, created: Result<u32, &'static str>) -> (r: Result<
    u32,
    VvideoError,
>)
    ensures
        r == (if asked != 0 {
            if asked == 1 {
                Ok::<u32, VvideoError>(asked)
            } else {
                Err(VvideoError::InvalidStream)
            }
        } else {
            match created {
                Err(message) => Err(VvideoError::Backend(message)),
                Ok(id) => if id == 1 {
                    Ok(id)
                } else {
                    Err(VvideoError::InvalidStream)
                },
            }
        }),
{
    let stream_id: u32 = if asked == 0 {
        match created {
            Ok(id) => id,
            Err(message) => {
                return Err(VvideoError::Backend(message));
            },
        }
    } else {
        asked
    };
    if stream_id != DEFAULT_STREAM_ID {
        return Err(VvideoError::InvalidStream);
    }
    Ok(stream_id)
}

/// The stream that a frame is fetched for.
pub fn dequeued_stream(asked: u32) -> (r: u32)
    ensures
        r == if asked == 0 {
            1
        } else {
            asked
        },
{
    if asked == 0 {
        DEFAULT_STREAM_ID
    } else {
        asked
    }
}

impl AppleAvdVvideoDevice {
    pub fn new() -> (r: Self)
        ensures
            r.buffer is None,
            r.last_error is None,
            r.next_timestamp == 1,
    {
        AppleAvdVvideoDevice { buffer: None, last_error: None, next_timestamp: 1 }
    }

    /// Takes the buffer over where there is none yet. `allocated` is what an
    /// allocation gave, which is only asked for in that case.
    pub fn ensure_mapped_buffer(&mut self, allocated: Option<usize>) -> (r: Result<
        usize,
        VvideoError,
    >)
        ensures
            final(self).last_error == old(self).last_error,
            final(self).next_timestamp == old(self).next_timestamp,
            match old(self).buffer {
                Some(paddr) => r == Ok::<usize, VvideoError>(paddr) && final(self).buffer == old(
                    self,
                ).buffer,
                None => final(self).buffer == allocated && r == (match allocated {
                    Some(paddr) => Ok::<usize, VvideoError>(paddr),
                    None => Err(VvideoError::BufferAllocation),
                }),
            },
    {
        if self.buffer.is_none() {
            self.buffer = allocated;
        }
        match self.buffer {
            Some(paddr) => Ok(paddr),
            None => Err(VvideoError::BufferAllocation),
        }
    }

    /// Hands out a timestamp.
    pub fn next_timestamp(&mut self) -> (r: u64)
        ensures
            r == old(self).next_timestamp,
            final(self).next_timestamp == stamp_after(old(self).next_timestamp),
            final(self).buffer == old(self).buffer,
            final(self).last_error == old(self).last_error,
    {
        let timestamp: u64 = self.next_timestamp;
        self.next_timestamp = timestamp.wrapping_add(1);
        timestamp
    }

    /// Makes the decoder's request of a submission; a timestamp of zero asks
    /// for the next one.
    pub fn submit_mapped(
        &mut self,
        abi: &VideoAbi,
        stream_id: u32,
        coded_format: u32,
        input_len: usize,
        timestamp: u64,
        allocated: Option<usize>,
    ) -> (r: Result<MappedDecodeRequest, VvideoError>)
        requires
            abi.wf(),
            old(self).buffer is Some ==> (old(self).buffer->0) + 0x80_0000 <= usize::MAX,
            allocated is Some ==> allocated->0 + 0x80_0000 <= usize::MAX,
        ensures
            final(self).last_error == old(self).last_error,
            ({
                let refusal = submit_refusal(*abi, stream_id, coded_format, input_len);
                let buffer = if old(self).buffer is Some {
                    old(self).buffer
                } else {
                    allocated
                };
                if refusal is Some {
                    &&& r == Err::<MappedDecodeRequest, VvideoError>(refusal->0)
                    &&& final(self).buffer == old(self).buffer
                    &&& final(self).next_timestamp == old(self).next_timestamp
                } else {
                    &&& final(self).buffer == buffer
                    &&& if buffer is None {
                        &&& r == Err::<MappedDecodeRequest, VvideoError>(
                            VvideoError::BufferAllocation,
                        )
                        &&& final(self).next_timestamp == old(self).next_timestamp
                    } else {
                        &&& r == Ok::<MappedDecodeRequest, VvideoError>(
                            MappedDecodeRequest {
                                stream_id,
                                coded_format,
                                input_dma_addr: buffer->0 as u64,
                                input_len: input_len as u32,
                                output_dma_addr: (buffer->0 + 0x80_0000) as u64,
                                output_len: output_part(*abi) as u32,
                                timestamp: if timestamp == 0 {
                                    old(self).next_timestamp
                                } else {
                                    timestamp
                                },
                            },
                        )
                        &&& final(self).next_timestamp == if timestamp == 0 {
                            stamp_after(old(self).next_timestamp)
                        } else {
                            old(self).next_timestamp
                        }
                    }
                }
            }),
    {
        if stream_id != DEFAULT_STREAM_ID {
            return Err(VvideoError::InvalidStream);
        }
        if coded_format != abi.format_h264 {
            return Err(VvideoError::UnsupportedFormat);
        }
        if input_len == 0 {
            return Err(VvideoError::EmptyInput);
        }
        if input_len > AVD_MAPPED_INPUT_BYTES {
            return Err(VvideoError::InputTooLarge);
        }
        let paddr: usize = match self.ensure_mapped_buffer(allocated) {
            Ok(paddr) => paddr,
            Err(error) => {
                return Err(error);
            },
        };
        let stamp: u64 = if timestamp == 0 {
            self.next_timestamp()
        } else {
            timestamp
        };
        Ok(
            MappedDecodeRequest {
                stream_id,
                coded_format,
                input_dma_addr: paddr as u64,
                input_len: input_len as u32,
                output_dma_addr: (paddr + MAPPED_OUTPUT_OFFSET) as u64,
                output_len: mapped_output_bytes(*abi) as u32,
                timestamp: stamp,
            },
        )
    }

    /// Remembers how a submission went.
    pub fn note_result(&mut self, result: Result<(), VvideoError>) -> (r: Result<(), VvideoError>)
        ensures
            r == result,
            final(self).buffer == old(self).buffer,
            final(self).next_timestamp == old(self).next_timestamp,
            final(self).last_error == (match result {
                Ok(_) => None,
                Err(e) => Some(e),
            }),
    {
        match result {
            Ok(_) => {
                self.last_error = None;
            },
            Err(error) => {
                self.last_error = Some(error);
            },
        }
        result
    }

    /// Starts counting timestamps anew when the session has been closed.
    pub fn session_destroyed(&mut self)
        ensures
            final(self).next_timestamp == 1,
            final(self).buffer == old(self).buffer,
            final(self).last_error == old(self).last_error,
    {
        self.next_timestamp = 1;
    }

    /// Checks an access unit that is written whole, before it is copied.
    pub fn check_write(&self, len: usize) -> (r: Result<(), VvideoError>)
        ensures
            r == (if len > 0x80_0000 {
                Err::<(), VvideoError>(VvideoError::InputTooLarge)
            } else {
                Ok(())
            }),
    {
        if len > AVD_MAPPED_INPUT_BYTES {
            return Err(VvideoError::InputTooLarge);
        }
        Ok(())
    }

    /// Where a part of the buffer is mapped from.
    pub fn get_mapping_info(
        &mut self,
        abi: &VideoAbi,
        offset: usize,
        length: usize,
        allocated: Option<usize>,
    ) -> (r: Result<MappingInfo, VvideoError>)
        requires
            abi.wf(),
            old(self).buffer is Some ==> (old(self).buffer->0) + buffer_bytes(*abi) <= usize::MAX,
            allocated is Some ==> allocated->0 + buffer_bytes(*abi) <= usize::MAX,
        ensures
            final(self).last_error == old(self).last_error,
            final(self).next_timestamp == old(self).next_timestamp,
            ({
                let refusal = mapping_refusal(*abi, offset, length);
                let buffer = if old(self).buffer is Some {
                    old(self).buffer
                } else {
                    allocated
                };
                if refusal is Some {
                    r == Err::<MappingInfo, VvideoError>(refusal->0) && final(self).buffer == old(
                        self,
                    ).buffer
                } else {
                    &&& final(self).buffer == buffer
                    &&& r == (match buffer {
                        None => Err::<MappingInfo, VvideoError>(VvideoError::BufferAllocation),
                        Some(paddr) => Ok(
                            MappingInfo {
                                paddr: (paddr + offset) as usize,
                                permissions: 3,
                                shared: true,
                            },
                        ),
                    })
                }
            }),
    {
        if offset % PAGE_SIZE != 0 || length % PAGE_SIZE != 0 {
            return Err(VvideoError::Unaligned);
        }
        let total: usize = MAPPED_OUTPUT_OFFSET + mapped_output_bytes(*abi);
        if offset >= total {
            return Err(VvideoError::OffsetTooLarge);
        }
        if length > total - offset {
            return Err(VvideoError::LengthTooLarge);
        }
        match self.ensure_mapped_buffer(allocated) {
            Ok(paddr) => Ok(MappingInfo { paddr: paddr + offset, permissions: 0x3, shared: true }),
            Err(error) => Err(error),
        }
    }
}

/// Why a mapping is refused, if it is.
pub open spec fn mapping_refusal(abi: VideoAbi, offset: usize, length: usize) -> Option<
    VvideoError,
> {
    if offset % 4096 != 0 || length % 4096 != 0 {
        Some(VvideoError::Unaligned)
    } else if offset >= buffer_bytes(abi) {
        Some(VvideoError::OffsetTooLarge)
    } else if length > buffer_bytes(abi) - offset {
        Some(VvideoError::LengthTooLarge)
    } else {
        None
    }
}

/// A mapping that is granted lies inside the buffer.
pub proof fn granted_mappings_lie_in_the_buffer(abi: VideoAbi, offset: usize, length: usize)
    requires
        mapping_refusal(abi, offset, length) is None,
    ensures
        offset + length <= buffer_bytes(abi),
{
}

} // verus!
