//! Coprocessor firmware images: from an ELF file to the raw bytes that are
//! loaded, and the checks an image has to pass.

use crate::avd::registers::AVD_MCPU_CODE_BYTES;
use crate::bytes::{from_le16, from_le32, push_zeros, read_le16, read_le32};
use vstd::prelude::*;

verus! {

/// Program header type of a segment that is loaded.
pub const PT_LOAD: u32 = 1;

/// Largest raw image that is made of an ELF file.
pub const MAX_RAW_FIRMWARE_SIZE: usize = 256 * 1024;

/// Why an image was refused by the driver.
#[derive(Clone, Copy, Debug, PartialEq, Eq, Structural)]
pub enum ImageError {
    TooSmall,
    StillElf,
    TooLarge,
    InvalidStackPointer,
    InvalidResetVector,
}

/// Why an ELF file could not be turned into a raw image.
#[derive(Clone, Copy, Debug, PartialEq, Eq, Structural)]
pub enum ElfError {
    NotElf,
    NotElf32LittleEndian,
    /// A header lies behind the end of the file.
    Truncated,
    SegmentOverflow,
    NoSegments,
    TooLarge,
    SegmentPastEnd,
    RawTooSmall,
    RawIsElf,
    InvalidStackPointer,
    InvalidResetVector,
}

impl ElfError {
    pub fn message(self) -> (r: &'static str)
        ensures
            r@ == (match self {
                ElfError::NotElf => "apple-avd firmware is not an ELF file"@,
                ElfError::NotElf32LittleEndian => "apple-avd firmware must be ELF32 little-endian"@,
                ElfError::Truncated => "apple-avd firmware header extends past ELF file"@,
                ElfError::SegmentOverflow => "firmware load segment overflow"@,
                ElfError::NoSegments => "apple-avd firmware ELF has no loadable segments"@,
                ElfError::TooLarge => "apple-avd raw firmware image is too large"@,
                ElfError::SegmentPastEnd => "apple-avd firmware segment extends past ELF file"@,
                ElfError::RawTooSmall => "apple-avd raw firmware image is too small"@,
                ElfError::RawIsElf => "apple-avd firmware conversion produced an ELF header"@,
                ElfError::InvalidStackPointer =>
                    "apple-avd firmware has invalid initial stack pointer"@,
                ElfError::InvalidResetVector => "apple-avd firmware has invalid reset vector"@,
            }),
    {
        match self {
            ElfError::NotElf => "apple-avd firmware is not an ELF file",
            ElfError::NotElf32LittleEndian => "apple-avd firmware must be ELF32 little-endian",
            ElfError::Truncated => "apple-avd firmware header extends past ELF file",
            ElfError::SegmentOverflow => "firmware load segment overflow",
            ElfError::NoSegments => "apple-avd firmware ELF has no loadable segments",
            ElfError::TooLarge => "apple-avd raw firmware image is too large",
            ElfError::SegmentPastEnd => "apple-avd firmware segment extends past ELF file",
            ElfError::RawTooSmall => "apple-avd raw firmware image is too small",
            ElfError::RawIsElf => "apple-avd firmware conversion produced an ELF header",
            ElfError::InvalidStackPointer => "apple-avd firmware has invalid initial stack pointer",
            ElfError::InvalidResetVector => "apple-avd firmware has invalid reset vector",
        }
    }
}

/// The bytes begin with the ELF magic.
pub open spec fn has_elf_magic(bytes: Seq<u8>) -> bool {
    bytes.len() >= 4 && bytes[0] == 0x7f && bytes[1] == 0x45 && bytes[2] == 0x4c && bytes[3] == 0x46
}

fn starts_with_elf_magic(bytes: &[u8]) -> (r: bool)
    ensures
        r == has_elf_magic(bytes@),
{
    bytes.len() >= 4 && bytes[0] == 0x7f && bytes[1] == 0x45 && bytes[2] == 0x4c && bytes[3] == 0x46
}

/// A reset vector that is Thumb code inside the image.
pub open spec fn reset_vector_ok(vector: u32, len: int) -> bool {
    vector & 1 != 0 && (vector & !1u32) < len
}

/// Whether the driver accepts an image: not too small, no ELF file, no larger
/// than the code window, the stack in the coprocessor's data memory, the entry
/// inside the image.
pub open spec fn image_check(image: Seq<u8>) -> Result<(), ImageError> {
    if image.len() < 8 {
        Err(ImageError::TooSmall)
    } else if has_elf_magic(image) {
        Err(ImageError::StillElf)
    } else if image.len() > 0xc000 {
        Err(ImageError::TooLarge)
    } else if from_le32(image, 0) as u32 & 0xff00_0000 != 0x1000_0000 {
        Err(ImageError::InvalidStackPointer)
    } else if !reset_vector_ok(from_le32(image, 4) as u32, image.len() as int) {
        Err(ImageError::InvalidResetVector)
    } else {
        Ok(())
    }
}

/// Checks an image before it is loaded.
pub fn validate_firmware_image(image: &[u8]) -> (r: Result<(), ImageError>)
    ensures
        r == image_check(image@),
{
    if image.len() < 8 {
        return Err(ImageError::TooSmall);
    }
    if starts_with_elf_magic(image) {
        return Err(ImageError::StillElf);
    }
    if image.len() > AVD_MCPU_CODE_BYTES {
        return Err(ImageError::TooLarge);
    }
    let stack_pointer: u32 = read_le32(image, 0);
    if stack_pointer & 0xff00_0000 != 0x1000_0000 {
        return Err(ImageError::InvalidStackPointer);
    }
    let reset_vector: u32 = read_le32(image, 4);
    let reset_addr: u32 = reset_vector & !1u32;
    if reset_vector & 1 == 0 || reset_addr as usize >= image.len() {
        return Err(ImageError::InvalidResetVector);
    }
    Ok(())
}

/// A word of an image, zero where the image does not hold it whole.
pub fn read_image_word(image: &[u8], offset: usize) -> (r: u32)
    requires
        offset + 4 <= usize::MAX,
    ensures
        r == if offset + 4 <= image@.len() {
            from_le32(image@, offset as int)
        } else {
            0
        },
{
    if offset + 4 <= image.len() {
        read_le32(image, offset)
    } else {
        0
    }
}

/// Position of a program header.
pub open spec fn header_at(elf: Seq<u8>, i: int) -> int {
    from_le32(elf, 28) + i * from_le16(elf, 42)
}

/// Number of program headers.
pub open spec fn header_count(elf: Seq<u8>) -> int {
    from_le16(elf, 44)
}

/// A program header that matters, as far as the file holds it: file position,
/// load address and length. `None` for one that is not loaded or is empty.
pub open spec fn segment(elf: Seq<u8>, i: int) -> Result<Option<(int, int, int)>, ElfError> {
    let at = header_at(elf, i);
    if at + 4 > elf.len() {
        Err(ElfError::Truncated)
    } else if from_le32(elf, at) != 1 {
        Ok(None)
    } else if at + 20 > elf.len() {
        Err(ElfError::Truncated)
    } else if from_le32(elf, at + 16) == 0 {
        Ok(None)
    } else {
        Ok(Some((from_le32(elf, at + 4), from_le32(elf, at + 12), from_le32(elf, at + 16))))
    }
}

/// Lowest load address and highest load end of the first `n` headers.
pub open spec fn load_range(elf: Seq<u8>, n: int) -> Result<(int, int), ElfError>
    decreases n,
{
    if n <= 0 {
        Ok((0xffff_ffff, 0))
    } else {
        match load_range(elf, n - 1) {
            Err(e) => Err(e),
            Ok((min, max)) => match segment(elf, n - 1) {
                Err(e) => Err(e),
                Ok(None) => Ok((min, max)),
                Ok(Some((_, paddr, filesz))) => if paddr + filesz > 0xffff_ffff {
                    Err(ElfError::SegmentOverflow)
                } else {
                    Ok(
                        (
                            if paddr < min {
                                paddr
                            } else {
                                min
                            },
                            if paddr + filesz > max {
                                paddr + filesz
                            } else {
                                max
                            },
                        ),
                    )
                },
            },
        }
    }
}

/// Bytes with a range replaced.
pub open spec fn overlaid(bytes: Seq<u8>, at: int, with: Seq<u8>) -> Seq<u8> {
    Seq::new(
        bytes.len(),
        |i: int|
            if at <= i < at + with.len() {
                with[i - at]
            } else {
                bytes[i]
            },
    )
}

/// The image with the segments of the first `n` headers copied in.
pub open spec fn loaded(elf: Seq<u8>, n: int, min: int, len: nat) -> Result<Seq<u8>, ElfError>
    decreases n,
{
    if n <= 0 {
        Ok(Seq::new(len, |i: int| 0u8))
    } else {
        match loaded(elf, n - 1, min, len) {
            Err(e) => Err(e),
            Ok(raw) => match segment(elf, n - 1) {
                Err(e) => Err(e),
                Ok(None) => Ok(raw),
                Ok(Some((file_off, paddr, filesz))) => if file_off + filesz > elf.len() {
                    Err(ElfError::SegmentPastEnd)
                } else {
                    Ok(overlaid(raw, paddr - min, elf.subrange(file_off, file_off + filesz)))
                },
            },
        }
    }
}

/// Whether a raw image is fit to be shipped.
pub open spec fn raw_check(raw: Seq<u8>) -> Result<(), ElfError> {
    if raw.len() < 8 {
        Err(ElfError::RawTooSmall)
    } else if has_elf_magic(raw) {
        Err(ElfError::RawIsElf)
    } else if from_le32(raw, 0) as u32 & 0xff00_0000 != 0x2000_0000 {
        Err(ElfError::InvalidStackPointer)
    } else if !reset_vector_ok(from_le32(raw, 4) as u32, raw.len() as int) {
        Err(ElfError::InvalidResetVector)
    } else {
        Ok(())
    }
}

/// The raw image of an ELF file.
pub open spec fn raw_image(elf: Seq<u8>) -> Result<Seq<u8>, ElfError> {
    if !has_elf_magic(elf) {
        Err(ElfError::NotElf)
    } else if elf.len() < 6 || elf[4] != 1 || elf[5] != 1 {
        Err(ElfError::NotElf32LittleEndian)
    } else if elf.len() < 46 {
        Err(ElfError::Truncated)
    } else {
        match load_range(elf, header_count(elf)) {
            Err(e) => Err(e),
            Ok((min, max)) => if min == 0xffff_ffff || max <= min {
                Err(ElfError::NoSegments)
            } else if max - min > 0x4_0000 {
                Err(ElfError::TooLarge)
            } else {
                match loaded(elf, header_count(elf), min, (max - min) as nat) {
                    Err(e) => Err(e),
                    Ok(raw) => match raw_check(raw) {
                        Err(e) => Err(e),
                        Ok(_) => Ok(raw),
                    },
                }
            },
        }
    }
}

/// Checks a raw image made of an ELF file.
pub fn validate_raw_firmware(raw: &[u8]) -> (r: Result<(), ElfError>)
    ensures
        r == raw_check(raw@),
{
    if raw.len() < 8 {
        return Err(ElfError::RawTooSmall);
    }
    if starts_with_elf_magic(raw) {
        return Err(ElfError::RawIsElf);
    }
    let stack_pointer: u32 = read_le32(raw, 0);
    if stack_pointer & 0xff00_0000 != 0x2000_0000 {
        return Err(ElfError::InvalidStackPointer);
    }
    let reset_vector: u32 = read_le32(raw, 4);
    let reset_addr: u32 = reset_vector & !1u32;
    if reset_vector & 1 == 0 || reset_addr as usize >= raw.len() {
        return Err(ElfError::InvalidResetVector);
    }
    Ok(())
}

/// Load segment of a program header.
struct Segment {
    file_off: u32,
    paddr: u32,
    filesz: u32,
}

fn read_segment(elf: &[u8], phoff: u32, phentsize: u16, index: u16) -> (r: Result<
    Option<Segment>,
    ElfError,
>)
    requires
        elf@.len() >= 46,
        phoff == from_le32(elf@, 28),
        phentsize == from_le16(elf@, 42),
    ensures
        match segment(elf@, index as int) {
            Err(e) => r == Err::<Option<Segment>, _>(e),
            Ok(None) => r is Ok && r->Ok_0 is None,
            Ok(Some((file_off, paddr, filesz))) => r is Ok && r->Ok_0 is Some && (r->Ok_0)->0.file_off
                == file_off && (r->Ok_0)->0.paddr == paddr && (r->Ok_0)->0.filesz == filesz && filesz
                > 0,
        },
{
    assert(0 <= index * phentsize <= 0xffff * 0xffff) by (nonlinear_arith)
        requires
            index <= 0xffff,
            phentsize <= 0xffff,
    ;
    let len: usize = elf.len();
    let at: u64 = phoff as u64 + index as u64 * phentsize as u64;
    if at + 4 > len as u64 {
        return Err(ElfError::Truncated);
    }
    let off: usize = at as usize;
    if read_le32(elf, off) != PT_LOAD {
        return Ok(None);
    }
    if at + 20 > len as u64 {
        return Err(ElfError::Truncated);
    }
    let filesz: u32 = read_le32(elf, off + 16);
    if filesz == 0 {
        return Ok(None);
    }
    Ok(
        Some(
            Segment {
                file_off: read_le32(elf, off + 4),
                paddr: read_le32(elf, off + 12),
                filesz,
            },
        ),
    )
}

fn find_load_range(elf: &[u8], phoff: u32, phentsize: u16, phnum: u16) -> (r: Result<
    (u32, u32),
    ElfError,
>)
    requires
        elf@.len() >= 46,
        phoff == from_le32(elf@, 28),
        phentsize == from_le16(elf@, 42),
    ensures
        match load_range(elf@, phnum as int) {
            Err(e) => r == Err::<(u32, u32), _>(e),
            Ok((min, max)) => r is Ok && (r->Ok_0).0 == min && (r->Ok_0).1 == max,
        },
{
    let mut min_paddr: u32 = 0xffff_ffff;
    let mut max_paddr: u32 = 0;
    let mut index: u16 = 0;
    while index < phnum
        invariant
            index <= phnum,
            elf@.len() >= 46,
            phoff == from_le32(elf@, 28),
            phentsize == from_le16(elf@, 42),
            load_range(elf@, index as int) == Ok::<(int, int), ElfError>(
                (min_paddr as int, max_paddr as int),
            ),
        decreases phnum - index,
    {
        match read_segment(elf, phoff, phentsize, index) {
            Err(e) => {
                proof {
                    failure_stays(elf@, index as int + 1, phnum as int);
                }
                return Err(e);
            },
            Ok(None) => {},
            Ok(Some(segment)) => {
                let end: u32 = match segment.paddr.checked_add(segment.filesz) {
                    Some(end) => end,
                    None => {
                        proof {
                            failure_stays(elf@, index as int + 1, phnum as int);
                        }
                        return Err(ElfError::SegmentOverflow);
                    },
                };
                if segment.paddr < min_paddr {
                    min_paddr = segment.paddr;
                }
                if end > max_paddr {
                    max_paddr = end;
                }
            },
        }
        index = index + 1;
    }
    Ok((min_paddr, max_paddr))
}

/// A failed scan stays failed.
proof fn failure_stays(elf: Seq<u8>, m: int, n: int)
    requires
        0 <= m <= n,
        load_range(elf, m) is Err,
    ensures
        load_range(elf, n) == load_range(elf, m),
    decreases n - m,
{
    if m < n {
        failure_stays(elf, m + 1, n);
    }
}

/// A failed load stays failed.
proof fn load_failure_stays(elf: Seq<u8>, m: int, n: int, min: int, len: nat)
    requires
        0 <= m <= n,
        loaded(elf, m, min, len) is Err,
    ensures
        loaded(elf, n, min, len) == loaded(elf, m, min, len),
    decreases n - m,
{
    if m < n {
        load_failure_stays(elf, m + 1, n, min, len);
    }
}

/// Every segment lies in the load range.
proof fn segments_in_range(elf: Seq<u8>, i: int, n: int)
    requires
        0 <= i < n,
        load_range(elf, n) is Ok,
    ensures
        segment(elf, i) is Ok,
        segment(elf, i)->Ok_0 is Some ==> ({
            let (_, paddr, filesz) = (segment(elf, i)->Ok_0)->0;
            let (min, max) = load_range(elf, n)->Ok_0;
            min <= paddr && paddr + filesz <= max
        }),
    decreases n,
{
    assert(load_range(elf, n - 1) is Ok);
    if i < n - 1 {
        segments_in_range(elf, i, n - 1);
    }
}

fn copy_into(raw: &mut Vec<u8>, at: usize, elf: &[u8], from: usize, len: usize)
    requires
        at + len <= old(raw)@.len(),
        from + len <= elf@.len(),
    ensures
        final(raw)@ == overlaid(
            old(raw)@,
            at as int,
            elf@.subrange(from as int, (from + len) as int),
        ),
{
    let ghost before = raw@;
    let room: usize = raw.len();
    let total: usize = elf.len();
    let mut i: usize = 0;
    while i < len
        invariant
            i <= len,
            at + len <= room,
            raw@.len() == room,
            raw@.len() == before.len(),
            from + len <= total,
            total == elf@.len(),
            raw@ == overlaid(before, at as int, elf@.subrange(from as int, (from + i) as int)),
        decreases len - i,
    {
        raw.set(at + i, elf[from + i]);
        assert(raw@ =~= overlaid(
            before,
            at as int,
            elf@.subrange(from as int, (from + i + 1) as int),
        ));
        i = i + 1;
    }
}

/// Turns an ELF file into the raw image of its load segments.
pub fn elf_to_raw(elf: &[u8]) -> (r: Result<Vec<u8>, ElfError>)
    ensures
        match raw_image(elf@) {
            Ok(raw) => r is Ok && r->Ok_0@ == raw,
            Err(e) => r == Err::<Vec<u8>, _>(e),
        },
{
    if !starts_with_elf_magic(elf) {
        return Err(ElfError::NotElf);
    }
    if elf.len() < 6 || elf[4] != 1 || elf[5] != 1 {
        return Err(ElfError::NotElf32LittleEndian);
    }
    if elf.len() < 46 {
        return Err(ElfError::Truncated);
    }
    let phoff: u32 = read_le32(elf, 28);
    let phentsize: u16 = read_le16(elf, 42);
    let phnum: u16 = read_le16(elf, 44);
    let (min_paddr, max_paddr) = match find_load_range(elf, phoff, phentsize, phnum) {
        Ok(range) => range,
        Err(e) => {
            return Err(e);
        },
    };
    if min_paddr == 0xffff_ffff || max_paddr <= min_paddr {
        return Err(ElfError::NoSegments);
    }
    let raw_len: usize = (max_paddr - min_paddr) as usize;
    if raw_len > MAX_RAW_FIRMWARE_SIZE {
        return Err(ElfError::TooLarge);
    }
    let total: usize = elf.len();
    let ghost min = min_paddr as int;
    let mut raw: Vec<u8> = Vec::new();
    push_zeros(&mut raw, raw_len);
    assert(raw@ =~= Seq::new(raw_len as nat, |i: int| 0u8));
    let mut index: u16 = 0;
    while index < phnum
        invariant
            index <= phnum,
            total == elf@.len(),
            elf@.len() >= 46,
            phoff == from_le32(elf@, 28),
            phentsize == from_le16(elf@, 42),
            phnum == header_count(elf@),
            min == min_paddr,
            min_paddr < max_paddr,
            raw_len == max_paddr - min_paddr,
            raw_len <= 0x4_0000,
            min_paddr != 0xffff_ffff,
            has_elf_magic(elf@),
            elf@[4] == 1,
            elf@[5] == 1,
            load_range(elf@, phnum as int) == Ok::<(int, int), ElfError>((min, max_paddr as int)),
            loaded(elf@, index as int, min, raw_len as nat) == Ok::<Seq<u8>, ElfError>(raw@),
            raw@.len() == raw_len,
        decreases phnum - index,
    {
        proof {
            segments_in_range(elf@, index as int, phnum as int);
        }
        match read_segment(elf, phoff, phentsize, index) {
            Err(_) => {},
            Ok(None) => {},
            Ok(Some(segment)) => {
                let file_end: u64 = segment.file_off as u64 + segment.filesz as u64;
                if file_end > total as u64 {
                    proof {
                        load_failure_stays(
                            elf@,
                            index as int + 1,
                            phnum as int,
                            min,
                            raw_len as nat,
                        );
                    }
                    return Err(ElfError::SegmentPastEnd);
                }
                let dst_off: usize = (segment.paddr - min_paddr) as usize;
                copy_into(
                    &mut raw,
                    dst_off,
                    elf,
                    segment.file_off as usize,
                    segment.filesz as usize,
                );
            },
        }
        index = index + 1;
    }
    match validate_raw_firmware(raw.as_slice()) {
        Ok(_) => Ok(raw),
        Err(e) => Err(e),
    }
}

/// Every byte of the last segment that is loaded is found in the image at its
/// load address.
pub proof fn last_segment_is_in_the_image(elf: Seq<u8>, n: int, min: int, len: nat)
    requires
        n > 0,
        loaded(elf, n, min, len) is Ok,
        segment(elf, n - 1) is Ok,
        segment(elf, n - 1)->Ok_0 is Some,
        ({
            let (_, paddr, filesz) = (segment(elf, n - 1)->Ok_0)->0;
            min <= paddr && paddr + filesz <= min + len
        }),
    ensures
        ({
            let (file_off, paddr, filesz) = (segment(elf, n - 1)->Ok_0)->0;
            let raw = loaded(elf, n, min, len)->Ok_0;
            raw.len() == len && forall|k: int|
                0 <= k < filesz ==> raw[paddr - min + k] == #[trigger] elf[file_off + k]
        }),
{
    loaded_len(elf, n, min, len);
    let (file_off, paddr, filesz) = (segment(elf, n - 1)->Ok_0)->0;
    let before = loaded(elf, n - 1, min, len)->Ok_0;
    loaded_len(elf, n - 1, min, len);
    let data = elf.subrange(file_off, file_off + filesz);
    let raw = overlaid(before, paddr - min, data);
    assert forall|k: int| 0 <= k < filesz implies raw[paddr - min + k] == #[trigger] elf[file_off
        + k] by {
        assert(raw[paddr - min + k] == data[k]);
    }
}

/// Loading keeps the length of the image.
pub proof fn loaded_len(elf: Seq<u8>, n: int, min: int, len: nat)
    requires
        loaded(elf, n, min, len) is Ok,
    ensures
        loaded(elf, n, min, len)->Ok_0.len() == len,
    decreases n,
{
    if n > 0 {
        loaded_len(elf, n - 1, min, len);
    }
}

} // verus!
