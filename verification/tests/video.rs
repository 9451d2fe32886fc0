//! The video decoder.

use std::cell::RefCell;
use std::collections::HashMap;
use std::rc::Rc;

use apple_silicon::avd::backend::{
    capabilities, mapped_output_bytes, AvdBackendState, VideoAbi, VideoDecodeRequest,
    AVD_MAPPED_INPUT_BYTES,
};
use apple_silicon::avd::cm3::{
    irq_action, selected_variant, signal_booted, AvdCm3, Generation, IrqAction, IrqEnd,
};
use apple_silicon::avd::common::AvdDmaRange;
use apple_silicon::avd::decode::{
    check_request, check_stream, create_session, dequeue_frame, destroy_session,
    service_completions, submit_decode,
};
use apple_silicon::avd::device::{
    enable_adt_pmgr_clock_gates, get_apple_avd, probe_mmio, read_be_u64_cells, register_avd,
    resolve_avd_power_domain, resolve_avd_reset, AppleAvd, AppleAvdSoc, AvdError,
    AvdFirmwareCommand,
};
use apple_silicon::avd::firmware::AvdFirmwareMessage;
use apple_silicon::avd::h264::{
    AvdFrameLayout, H264DecodeControl, H264DecodeFlags, H264DpbEntry, H264FrontendError,
    H264Pps, H264PredWeights, H264Reference, H264SliceControl, H264SliceKind,
    H264SliceParameters, H264Sps, H264StatelessParams, H264StreamParameters, H264WeightFactors,
};
use apple_silicon::avd::h264_refs::{
    reference_picture_for_dpb_entry, AvdH264ReferencePicture, ReferencePlan,
};
use apple_silicon::avd::h264_stream::{
    can_build, AvdH264InstructionStream, AvdH264Workspace, H264DecodeRequest,
};
use apple_silicon::avd::image::{
    elf_to_raw, read_image_word, validate_firmware_image, validate_raw_firmware, ElfError,
    ImageError,
};
use apple_silicon::avd::registers::AvdRegisters;
use apple_silicon::avd::trace::{AvdTraceKind, AvdTraceLog};
use apple_silicon::avd::vp9::{
    AvdVp9FrameLayout, AvdVp9InstructionStream, AvdVp9Workspace, Vp9DecodeRequest,
    Vp9FrameParams, Vp9FrontendError, Vp9InterpFilter, Vp9StatelessParams, Vp9StreamParameters,
    Vp9Tile,
};
use apple_silicon::avd::vvideo::{
    buffer_layout, buffer_pages, created_stream, dequeued_stream, AppleAvdVvideoDevice,
    VvideoCommand, VvideoCommands, VvideoError,
};
use apple_silicon::avd::words::WordBuffer;
use apple_silicon::bus::{Bus, Mmio};
use apple_silicon::platform::{Resource, ResourceKind};
use apple_silicon::ports::video::{AvdMemory, AvdMemoryPort, AvdPlatform, AvdPort};

const BASE: usize = 0x10_0000_0000;
const VP_ERROR: u32 = 0x200;

#[derive(Clone, Default)]
struct Chip(Rc<RefCell<HashMap<usize, u8>>>);

impl Chip {
    fn bus(&self) -> Bus<Chip> {
        Bus::new(self.clone())
    }
    fn poke(&self, addr: usize, value: u64, size: usize) {
        for i in 0..size {
            self.0.borrow_mut().insert(addr + i, (value >> (8 * i)) as u8);
        }
    }
    fn peek(&self, addr: usize, size: usize) -> u64 {
        let bytes = self.0.borrow();
        (0..size).map(|i| (*bytes.get(&(addr + i)).unwrap_or(&0) as u64) << (8 * i)).sum()
    }
}

impl Mmio for Chip {
    fn read8(&mut self, addr: usize) -> u8 {
        self.peek(addr, 1) as u8
    }
    fn write8(&mut self, addr: usize, value: u8) {
        self.poke(addr, value as u64, 1);
    }
    fn read32(&mut self, addr: usize) -> u32 {
        self.peek(addr, 4) as u32
    }
    fn write32(&mut self, addr: usize, value: u32) {
        self.poke(addr, value as u64, 4);
    }
    fn read64(&mut self, addr: usize) -> u64 {
        self.peek(addr, 8)
    }
    fn write64(&mut self, addr: usize, value: u64) {
        self.poke(addr, value, 8);
    }
    fn udelay(&mut self, _us: u64) {}
    fn current_time(&mut self) -> u64 {
        0
    }
    fn barrier(&mut self) {}
    fn clean_cache(&mut self, _addr: usize, _len: usize) {}
    fn invalidate_cache(&mut self, _addr: usize, _len: usize) {}
    fn clean_invalidate_cache(&mut self, _addr: usize, _len: usize) {}
}

#[test]
fn words_are_counted_and_written() {
    let mut buffer = WordBuffer::new(2);
    buffer.push(0x0403_0201);
    buffer.push(5);
    assert_eq!(buffer.words(), &[0x0403_0201, 5]);
    let mut bytes = [0u8; 8];
    assert_eq!(buffer.write_le_bytes(&mut bytes), Some(8));
    assert_eq!(bytes, [1, 2, 3, 4, 5, 0, 0, 0]);
    assert_eq!(buffer.write_le_bytes(&mut bytes[..7]), None);
    buffer.push(6);
    assert_eq!(buffer.write_le_bytes(&mut [0; 64]), None);
}

#[test]
fn decode_flags_contain_what_was_inserted() {
    let mut flags = H264DecodeFlags::empty();
    assert!(!flags.contains(H264DecodeFlags::idr()));
    flags.insert(H264DecodeFlags::idr());
    flags.insert(H264DecodeFlags::end_of_stream());
    assert!(flags.contains(H264DecodeFlags::idr()));
    assert!(!flags.contains(H264DecodeFlags::parameter_sets()));
    assert_eq!(
        flags.bits(),
        H264DecodeFlags::idr().bits() | H264DecodeFlags::end_of_stream().bits()
    );
}

#[test]
fn frame_layouts_have_exact_sizes() {
    let layout = AvdFrameLayout::nv12(128, 64, 128, 128);
    assert_eq!(layout.output_len(), 128 * 64 + 128 * 32);
    assert_eq!(layout.rvra_offsets(), [10240, 0, 10240 + 256 + 5120, 10240 + 256]);
    assert_eq!(layout.rvra_len(), 0x4000);
    assert_eq!(layout.sps_scratch_len(), 0x8000);
    let wide = AvdFrameLayout::nv12(1920, 1088, 1920, 1920);
    let size0 = 1920 * 1088 + 1920 * 1088 / 4;
    let size1 = 2048 * 2048 / 32;
    assert_eq!(wide.rvra_offsets()[2], size0 + size1 + size0 / 2);
    assert_eq!(
        wide.rvra_len(),
        ((size0 + size1 + size0 / 2) as usize + 0x3fff) / 0x4000 * 0x4000 + 3 * 0x4000
    );
    assert_eq!(wide.sps_scratch_len(), (1919 * 1087 / 0x10000 + 2) * 0x4000);
}

fn sps() -> H264Sps {
    H264Sps {
        profile_idc: 66,
        level_idc: 30,
        seq_parameter_set_id: 2,
        chroma_format_idc: 1,
        bit_depth_luma_minus8: 0,
        bit_depth_chroma_minus8: 0,
        log2_max_frame_num_minus4: 1,
        pic_order_cnt_type: 2,
        max_num_ref_frames: 1,
        pic_width_in_mbs_minus1: 7,
        pic_height_in_map_units_minus1: 3,
        frame_crop_left_offset: 1,
        frame_crop_right_offset: 2,
        frame_crop_top_offset: 3,
        frame_crop_bottom_offset: 4,
        frame_mbs_only: true,
        frame_cropping: false,
        direct_8x8_inference: true,
    }
}

#[test]
fn sequence_parameters_are_lowered() {
    let stream = H264StreamParameters::from_stateless_sps(&sps()).unwrap();
    assert_eq!((stream.width, stream.height), (128, 64));
    assert_eq!((stream.sps_id, stream.crop_left), (2, 0));
    assert_eq!(stream.nv12_layout(), AvdFrameLayout::nv12(128, 64, 128, 128));
    let mut cropped = sps();
    cropped.frame_cropping = true;
    let stream = H264StreamParameters::from_stateless_sps(&cropped).unwrap();
    assert_eq!((stream.width, stream.height), (122, 50));
    assert_eq!((stream.crop_left, stream.crop_top), (2, 6));
    cropped.frame_crop_right_offset = 63;
    assert_eq!(
        H264StreamParameters::from_stateless_sps(&cropped),
        Err(H264FrontendError::InvalidDimensions)
    );
    let mut fields = sps();
    fields.frame_mbs_only = false;
    assert_eq!(
        H264StreamParameters::from_stateless_sps(&fields),
        Err(H264FrontendError::UnsupportedSps)
    );
    let mut deep = sps();
    deep.bit_depth_luma_minus8 = 2;
    assert_eq!(
        H264StreamParameters::from_stateless_sps(&deep),
        Err(H264FrontendError::UnsupportedSps)
    );
}

fn pps() -> H264Pps {
    H264Pps {
        weighted_bipred_idc: 0,
        pic_init_qp_minus26: 0,
        chroma_qp_index_offset: 0,
        second_chroma_qp_index_offset: 0,
        entropy_coding_mode: false,
        transform_8x8_mode: false,
        constrained_intra_pred: false,
        weighted_pred: false,
    }
}

fn dpb_entry() -> H264DpbEntry {
    H264DpbEntry {
        reference_ts: 0,
        pic_num: 0,
        frame_num: 0,
        top_field_order_cnt: 0,
        valid: false,
        long_term: false,
    }
}

fn slice() -> H264SliceControl {
    H264SliceControl {
        nal_offset: 0,
        nal_len: 16,
        header_bit_size: 16,
        first_mb_in_slice: 0,
        slice_type: 7,
        pic_parameter_set_id: 0,
        cabac_init_idc: 0,
        slice_qp_delta: 0,
        disable_deblocking_filter_idc: 0,
        slice_alpha_c0_offset_div2: 0,
        slice_beta_offset_div2: 0,
        num_ref_idx_l0_active_minus1: 0,
        num_ref_idx_l1_active_minus1: 0,
        ref_pic_list0: [H264Reference { index: 0 }; 32],
        ref_pic_list1: [H264Reference { index: 0 }; 32],
        ref_lists_present: false,
        direct_spatial_mv_pred: false,
    }
}

fn params() -> H264StatelessParams {
    let factors = H264WeightFactors {
        luma_weight: [0; 32],
        luma_offset: [0; 32],
        chroma_weight: [[0; 2]; 32],
        chroma_offset: [[0; 2]; 32],
    };
    H264StatelessParams {
        pps: pps(),
        slice_params: slice(),
        decode_params: H264DecodeControl {
            nal_ref_idc: 3,
            frame_num: 0,
            top_field_order_cnt: 0,
            dpb: [dpb_entry(); 16],
            idr: true,
        },
        pred_weights: H264PredWeights {
            luma_log2_weight_denom: 0,
            chroma_log2_weight_denom: 0,
            weight_factors: [factors, factors],
        },
    }
}

fn nal() -> Vec<u8> {
    let mut bytes = vec![0x65u8];
    bytes.extend((1..=15u8).map(|b| b | 0x80));
    bytes
}

#[test]
fn slices_are_located() {
    let p = params();
    let lowered =
        H264SliceParameters::from_stateless(&p.slice_params, &p.decode_params, &p.pps, &nal())
            .ok()
            .unwrap();
    assert_eq!(lowered.kind, H264SliceKind::I);
    assert!(lowered.is_idr() && lowered.is_reference());
    assert_eq!(lowered.slice_data_offset + lowered.slice_data_len, 16);
    let mut empty = p.slice_params;
    empty.nal_len = 0;
    let r = H264SliceParameters::from_stateless(&empty, &p.decode_params, &p.pps, &nal());
    assert_eq!(r.err(), Some(H264FrontendError::MalformedSlice));
    let mut long = p.slice_params;
    long.nal_len = 17;
    let r = H264SliceParameters::from_stateless(&long, &p.decode_params, &p.pps, &nal());
    assert_eq!(r.err(), Some(H264FrontendError::InvalidSliceRange));
}

fn picture(timestamp: u64, poc: i32) -> AvdH264ReferencePicture {
    AvdH264ReferencePicture {
        timestamp,
        reference_dma_addr: 0x1000 * timestamp,
        sps_tile_dma_addr: 0,
        frame_num: timestamp as u16,
        pic_num: timestamp as i32,
        top_field_order_cnt: poc,
        long_term: false,
    }
}

#[test]
fn references_are_found_and_ordered() {
    let mut entry = dpb_entry();
    entry.valid = true;
    entry.reference_ts = 2;
    entry.pic_num = 2;
    entry.frame_num = 2;
    entry.top_field_order_cnt = 4;
    let pictures = [picture(1, 2), picture(2, 4)];
    assert_eq!(reference_picture_for_dpb_entry(&entry, &pictures).unwrap().timestamp, 2);
    entry.reference_ts = 9;
    assert_eq!(reference_picture_for_dpb_entry(&entry, &pictures).unwrap().timestamp, 2);
    entry.top_field_order_cnt = 9;
    assert!(reference_picture_for_dpb_entry(&entry, &pictures).is_none());

    let p = params();
    let mut control = p.slice_params;
    control.slice_type = 5;
    control.num_ref_idx_l0_active_minus1 = 1;
    let mut decode = p.decode_params;
    decode.idr = false;
    let slice =
        H264SliceParameters::from_stateless(&control, &decode, &p.pps, &nal()).ok().unwrap();
    let mut dpb = [dpb_entry(); 16];
    for (i, ts) in [1u64, 2].iter().enumerate() {
        dpb[i] = H264DpbEntry {
            reference_ts: *ts,
            pic_num: *ts as i32,
            frame_num: *ts as u16,
            top_field_order_cnt: 2 * *ts as i32,
            valid: true,
            long_term: false,
        };
    }
    let plan = ReferencePlan::build(&dpb, 6, &slice, &pictures);
    assert_eq!(plan.table().len(), 2);
    let stamps = |plan: &ReferencePlan, list: &[u8]| -> Vec<u64> {
        list.iter().map(|i| plan.table()[*i as usize].timestamp).collect()
    };
    assert_eq!(stamps(&plan, plan.list0()), vec![1, 2]);
    assert!(plan.list1().is_empty());

    control.slice_type = 6;
    control.num_ref_idx_l0_active_minus1 = 2;
    control.num_ref_idx_l1_active_minus1 = 2;
    let slice =
        H264SliceParameters::from_stateless(&control, &decode, &p.pps, &nal()).ok().unwrap();
    let pictures = [picture(1, 2), picture(2, 4), picture(3, 8)];
    let plan = ReferencePlan::build(&dpb, 6, &slice, &pictures);
    assert_eq!(stamps(&plan, plan.list0()), vec![2, 1, 3]);
    assert_eq!(stamps(&plan, plan.list1()), vec![3, 2, 1]);
}

fn h264_request() -> (H264DecodeRequest, H264StreamParameters) {
    let stream = H264StreamParameters::from_stateless_sps(&sps()).unwrap();
    let layout = stream.nv12_layout();
    let request = H264DecodeRequest::from_stateless(
        1,
        0,
        &params(),
        AvdDmaRange { dma_addr: 0x10_0000, len: 16 },
        &nal(),
        AvdDmaRange { dma_addr: 0x20_0000, len: layout.output_len() },
        layout,
    )
    .ok()
    .unwrap();
    (request, stream)
}

fn workspace() -> AvdH264Workspace {
    AvdH264Workspace {
        instruction_fifo_dma_addr: 0x30_0000,
        pps_tile_dma_addr: 0x40_0000,
        sps_tile_dma_addr: 0x50_0000,
        reference_dma_addr: 0x60_0000,
        reference_offsets: [0x100, 0x200, 0x300, 0x400],
    }
}

#[test]
fn instruction_streams_are_built() {
    let (request, stream) = h264_request();
    assert!(can_build(
        &request,
        &stream,
        &request.slice,
        &workspace(),
        &[]
    ));
    let built =
        AvdH264InstructionStream::build(&request, &stream, &request.slice, &workspace(), &[]);
    assert!(built.words().len() > 20);
    let mut bytes = vec![0u8; 4096];
    let len = built.write_le_bytes(&mut bytes).unwrap();
    assert_eq!(len, 4 * built.words().len());
    assert_eq!(bytes[..4], built.words()[0].to_le_bytes());
    assert_eq!(
        built.write_le_bytes(&mut bytes[..len - 1]),
        Err(H264FrontendError::InstructionStreamTooLarge)
    );
}

fn vp9_frame() -> Vp9FrameParams {
    Vp9FrameParams {
        profile: 0,
        bit_depth: 8,
        frame_width_minus_1: 127,
        frame_height_minus_1: 63,
        render_width_minus_1: 127,
        render_height_minus_1: 63,
        tile_cols_log2: 0,
        tile_rows_log2: 0,
        tx_mode: 4,
        refresh_frame_flags: 0xff,
        base_q_idx: 10,
        loop_filter_level: 3,
        interpolation_filter: Vp9InterpFilter::EightTap,
        key_frame: true,
        show_frame: true,
        error_resilient: false,
    }
}

#[test]
fn vp9_frames_are_checked() {
    let stream = Vp9StreamParameters::from_stateless_frame(&vp9_frame()).unwrap();
    assert_eq!((stream.width, stream.height), (128, 64));
    let layout = stream.nv12_layout();
    assert_eq!(layout, AvdVp9FrameLayout::nv12(128, 64));
    assert_eq!(layout.output_len(), 128 * 64 * 3 / 2);
    assert_eq!(layout.rvra_offsets(), [8192, 8448, 8448 + 4096, 8448 + 2048]);
    assert_eq!(layout.rvra_len(), 0x4000);
    assert_eq!(layout.sps_scratch_len(), 0x3_0000);
    let mut large = vp9_frame();
    large.frame_width_minus_1 = 4096;
    assert_eq!(
        Vp9StreamParameters::from_stateless_frame(&large),
        Err(Vp9FrontendError::InvalidDimensions)
    );
    let mut deep = vp9_frame();
    deep.bit_depth = 10;
    assert_eq!(
        Vp9StreamParameters::from_stateless_frame(&deep),
        Err(Vp9FrontendError::UnsupportedFrame)
    );
}

#[test]
fn vp9_streams_are_built() {
    let stream = Vp9StreamParameters::from_stateless_frame(&vp9_frame()).unwrap();
    let tiles = vec![Vp9Tile { offset: 8, size: 8, row: 0, col: 0 }];
    let good = Vp9StatelessParams { frame: vp9_frame(), tiles: tiles.clone(), tile_count: 1 };
    let input = AvdDmaRange { dma_addr: 0x1000, len: 16 };
    let output = AvdDmaRange { dma_addr: 0x2000, len: 0x3000 };
    let request =
        Vp9DecodeRequest::from_stateless(1, 2, &good, input, output, stream.nv12_layout())
            .ok()
            .unwrap();
    let workspace = AvdVp9Workspace {
        instruction_fifo_dma_addr: 0,
        probabilities_dma_addr: 0x100,
        pps0_tile_dma_addr: 0x200,
        pps1_tile_dma_addrs: [0x300; 8],
        pps2_tile_dma_addrs: [0x400; 2],
        sps_tile_dma_addr: 0x500,
        current_rvra_dma_addrs: [0x600; 4],
        reference_rvra_dma_addrs: [[0x700; 4]; 3],
    };
    let built =
        AvdVp9InstructionStream::build(&request, &stream, &workspace, &[None, None, None]);
    assert!(!built.words().is_empty());
    let mut bytes = vec![0u8; 4096];
    assert_eq!(built.write_le_bytes(&mut bytes), Ok(4 * built.words().len()));
    let outside = Vp9StatelessParams {
        frame: vp9_frame(),
        tiles: vec![Vp9Tile { offset: 8, size: 9, row: 0, col: 0 }],
        tile_count: 1,
    };
    let r = Vp9DecodeRequest::from_stateless(1, 2, &outside, input, output, stream.nv12_layout());
    assert_eq!(r.err(), Some(Vp9FrontendError::InvalidTiles));
}

#[test]
fn traces_keep_the_newest_events() {
    let mut trace = AvdTraceLog::new(2);
    trace.push(AvdTraceKind::Probe, 1, 2);
    trace.push(AvdTraceKind::Fault, 3, 4);
    trace.push(AvdTraceKind::Firmware, 5, 6);
    let entries = trace.entries();
    assert_eq!(entries.len(), 2);
    assert_eq!(entries[1].sequence, entries[0].sequence + 1);
    assert_eq!((entries[1].kind, entries[1].arg0), (AvdTraceKind::Firmware, 5));
    assert_eq!(trace.capacity(), 2);
    trace.clear();
    assert!(trace.entries().is_empty());
}

#[test]
fn a_long_run_leaves_its_newest_events() {
    let mut trace = AvdTraceLog::new(3);
    for i in 0..10 {
        trace.push(AvdTraceKind::MailboxTx, 100 + i, i);
    }
    let kept: Vec<(u64, u64)> = trace.entries().iter().map(|e| (e.sequence, e.arg0)).collect();
    assert_eq!(kept, vec![(7, 107), (8, 108), (9, 109)]);
    let mut none = AvdTraceLog::new(0);
    none.push(AvdTraceKind::Fault, 1, 1);
    assert!(none.entries().is_empty());
}

#[test]
fn firmware_messages_are_classified() {
    let done = AvdFirmwareMessage::VideoProcessorDone;
    assert_eq!(AvdFirmwareMessage::decode(done.raw(VP_ERROR), VP_ERROR), done);
    let post = AvdFirmwareMessage::PostProcessorDone;
    assert_eq!(AvdFirmwareMessage::decode(post.raw(VP_ERROR), VP_ERROR), post);
    let error = AvdFirmwareMessage::VideoProcessorError(2);
    assert_eq!(AvdFirmwareMessage::decode(error.raw(VP_ERROR), VP_ERROR), error);
    let unknown = AvdFirmwareMessage::UnknownIrq(9);
    assert_eq!(AvdFirmwareMessage::decode(unknown.raw(VP_ERROR), VP_ERROR), unknown);
    assert!(error.is_fault() && unknown.is_fault());
    assert!(done.is_completion() && post.is_completion());
    assert!(!done.is_fault() && !error.is_completion());
    assert_eq!(
        AvdFirmwareMessage::decode(0, VP_ERROR),
        AvdFirmwareMessage::VideoProcessorError(0)
    );
}

fn image(stack: u32, reset: u32) -> Vec<u8> {
    let mut image = vec![0u8; 64];
    image[..4].copy_from_slice(&stack.to_le_bytes());
    image[4..8].copy_from_slice(&reset.to_le_bytes());
    image
}

#[test]
fn firmware_images_are_checked() {
    assert_eq!(validate_firmware_image(&[0; 7]), Err(ImageError::TooSmall));
    assert_eq!(validate_firmware_image(b"\x7fELF\x01\x01\x01\x00"), Err(ImageError::StillElf));
    assert_eq!(validate_firmware_image(&vec![0; 0xc001]), Err(ImageError::TooLarge));
    assert_eq!(
        validate_firmware_image(&image(0x2000_1000, 0x11)),
        Err(ImageError::InvalidStackPointer)
    );
    assert_eq!(
        validate_firmware_image(&image(0x1000_1000, 0x10)),
        Err(ImageError::InvalidResetVector)
    );
    assert_eq!(validate_firmware_image(&image(0x1000_1000, 0x11)), Ok(()));
    assert_eq!(read_image_word(&image(0x1000_1000, 0x11), 4), 0x11);
    assert_eq!(read_image_word(&[1, 2, 3], 0), 0);
}

fn elf(paddr: u32, data: &[u8]) -> Vec<u8> {
    let mut elf = vec![0u8; 52];
    elf[..6].copy_from_slice(b"\x7fELF\x01\x01");
    elf[28..32].copy_from_slice(&52u32.to_le_bytes());
    elf[42..44].copy_from_slice(&32u16.to_le_bytes());
    elf[44..46].copy_from_slice(&1u16.to_le_bytes());
    for word in [1, 84, paddr, paddr, data.len() as u32, data.len() as u32, 5, 4] {
        elf.extend_from_slice(&word.to_le_bytes());
    }
    elf.extend_from_slice(data);
    elf
}

#[test]
fn executables_become_raw_images() {
    let raw = image(0x2000_1000, 0x11);
    assert_eq!(elf_to_raw(&elf(0x100, &raw)), Ok(raw.clone()));
    assert_eq!(elf_to_raw(&raw), Err(ElfError::NotElf));
    let mut wide = elf(0x100, &raw);
    wide[4] = 2;
    assert_eq!(elf_to_raw(&wide), Err(ElfError::NotElf32LittleEndian));
    assert_eq!(elf_to_raw(&elf(0x100, &raw)[..45]), Err(ElfError::Truncated));
    let cut = elf(0x100, &raw);
    assert_eq!(elf_to_raw(&cut[..cut.len() - 1]), Err(ElfError::SegmentPastEnd));
    assert_eq!(elf_to_raw(&elf(0x100, &[])), Err(ElfError::NoSegments));
    assert_eq!(elf_to_raw(&elf(0xffff_fff0, &raw)), Err(ElfError::SegmentOverflow));
    assert_eq!(validate_raw_firmware(&raw), Ok(()));
    assert_eq!(
        validate_raw_firmware(&image(0x1000_1000, 0x11)),
        Err(ElfError::InvalidStackPointer)
    );
    assert_eq!(validate_raw_firmware(&[0; 4]), Err(ElfError::RawTooSmall));
}

#[derive(Clone, Default)]
struct Platform {
    on: bool,
    fail_power: bool,
    fail_gate: Option<usize>,
    calls: Rc<RefCell<Vec<String>>>,
}

impl AvdPlatform for Platform {
    fn power_is_on(&mut self) -> bool {
        self.on
    }
    fn power_enable(&mut self) -> Result<(), &'static str> {
        self.calls.borrow_mut().push(String::from("power"));
        if self.fail_power {
            Err("no power")
        } else {
            Ok(())
        }
    }
    fn reset(&mut self) -> Result<(), &'static str> {
        self.calls.borrow_mut().push(String::from("reset"));
        Ok(())
    }
    fn gate_enable(&mut self, paddr: usize) -> Result<(), &'static str> {
        self.calls.borrow_mut().push(format!("gate {:x}", paddr));
        if self.fail_gate == Some(paddr) {
            Err("stuck gate")
        } else {
            Ok(())
        }
    }
}

fn decoder() -> AppleAvd<u8> {
    AppleAvd::new(
        "avd",
        AppleAvdSoc::T8103,
        0x2_6900_0000,
        0x200_0000,
        Some(700),
        AvdRegisters::new(BASE),
        1,
        true,
        true,
        VP_ERROR,
    )
}

#[test]
fn decoder_boots_its_firmware() {
    let chip = Chip::default();
    let platform = Platform::default();
    let mut port = AvdPort::new(platform.clone());
    let mut avd = decoder();
    let good = image(0x1000_1000, 0x11);
    let r = avd.boot_firmware(&mut chip.bus(), &mut port, &image(0, 0));
    assert!(matches!(r, Err(AvdError::Image(ImageError::InvalidStackPointer))));
    let r = avd.boot_firmware(&mut chip.bus(), &mut port, &good);
    assert!(matches!(r, Err(AvdError::RunTimeout)));
    assert_eq!(*platform.calls.borrow(), vec!["power", "reset"]);
    let r = avd.ensure_firmware_running(&mut chip.bus(), &mut port, &good);
    assert!(matches!(r, Err(AvdError::FirmwareFaultedBefore)));
    let mut avd = decoder();
    chip.poke(BASE + 0x109_8090, 1, 4);
    assert!(avd.boot_firmware(&mut chip.bus(), &mut port, &good).is_ok());
    assert_eq!(avd.firmware_state_name(), "running");
    assert_eq!(avd.firmware_image_size(), Some(64));
    assert_eq!(chip.peek(BASE + 0x108_0000, 4), 0x1000_1000);
    assert!(avd.ensure_firmware_running(&mut chip.bus(), &mut port, &good).is_ok());
    assert!(avd.trace_entries().len() >= 3);
}

#[test]
fn decoder_reports_missing_power() {
    let chip = Chip::default();
    let mut port = AvdPort::new(Platform { fail_power: true, ..Platform::default() });
    let r = decoder().reset_hardware(&mut chip.bus(), &mut port);
    assert!(matches!(r, Err(AvdError::Platform("no power"))));
}

#[test]
fn decoder_is_placed() {
    let mem = Resource { kind: ResourceKind::Mem, start: 0x1000, end: 0x1fff };
    assert_eq!(probe_mmio(&[mem]).ok(), Some((0x1000, 0x1000)));
    assert!(matches!(probe_mmio(&[]), Err(AvdError::MissingMmio)));
    let bad = Resource { kind: ResourceKind::Mem, start: 0x1000, end: 0xfff };
    assert!(matches!(probe_mmio(&[bad]), Err(AvdError::EmptyMmio)));
    assert_eq!(AppleAvdSoc::from_compatible(&["x", "apple,t6000-avd"]), AppleAvdSoc::T6000);
    assert_eq!(AppleAvdSoc::from_compatible(&["x"]), AppleAvdSoc::Unknown);
    assert_eq!(AppleAvdSoc::T8112.name(), "t8112");
    let mut registry = Vec::new();
    assert_eq!(register_avd(&mut registry, decoder()), 0);
    assert_eq!(get_apple_avd(&registry, 0).unwrap().irq(), Some(700));
    assert!(get_apple_avd(&registry, 1).is_none());
}

#[test]
fn clock_gates_are_opened_in_order() {
    let cells = [0, 0, 0, 0, 0, 0, 0, 7, 0, 0, 0, 0, 0, 0, 0, 9];
    assert_eq!(read_be_u64_cells(&cells).ok(), Some(vec![7, 9]));
    assert!(matches!(read_be_u64_cells(&cells[..15]), Err(AvdError::MalformedClockGates)));
    let platform = Platform { fail_gate: Some(9), ..Platform::default() };
    let calls = platform.calls.clone();
    let r = enable_adt_pmgr_clock_gates(&mut AvdPort::new(platform), &[7, 9, 11]);
    assert!(matches!(r, Err(AvdError::ClockGateMissing) | Err(AvdError::Platform(_))));
    assert_eq!(*calls.borrow(), vec!["gate 7", "gate 9"]);
}

#[test]
fn reset_and_power_may_be_missing() {
    assert_eq!(resolve_avd_reset(Ok(()), false).ok(), Some(true));
    assert!(matches!(resolve_avd_reset(Err("later"), true), Err(AvdError::ProbeDeferred)));
    assert_eq!(resolve_avd_power_domain(Ok(()), Ok(())).ok(), Some(true));
}

struct Memory {
    next: usize,
    fail_map: bool,
}

impl AvdMemory<u8> for Memory {
    fn mapping_granule(&mut self) -> usize {
        0x4000
    }
    fn map(&mut self, paddr: usize, _len: usize, _writable: bool) -> Option<(u64, u8)> {
        if self.fail_map {
            None
        } else {
            Some((paddr as u64 & 0xfff_ffff, 1))
        }
    }
    fn allocate(&mut self, pages: usize, _align: usize) -> Option<(usize, usize, u8)> {
        let at = self.next;
        self.next += pages * 4096;
        Some((at, at, 2))
    }
}

fn abi() -> VideoAbi {
    VideoAbi { format_h264: 1, pixel_format_nv12: 2, frame_magic: *b"SVID", frame_header_len: 20 }
}

fn request(stream_id: u32) -> VideoDecodeRequest {
    VideoDecodeRequest {
        stream_id,
        coded_format: 1,
        input_paddr: 0x100_0000,
        input_vaddr: 0x100_0000,
        input_len: 16,
        output_paddr: 0x200_0000,
        output_vaddr: 0x200_0000,
        output_offset: 0x80_0000,
        output_len: mapped_output_bytes(abi()) as u32,
        timestamp: 77,
    }
}

#[test]
fn capabilities_are_stated() {
    let caps = capabilities(abi());
    assert_eq!(caps.max_sessions, 4);
    assert_eq!(caps.mapped_input_len as usize, AVD_MAPPED_INPUT_BYTES);
    assert_eq!(caps.mapped_output_len, 0x100_4000);
    assert!(caps.supports_h264 && !caps.supports_av1);
}

#[test]
fn requests_are_checked() {
    assert!(check_request(&abi(), &request(1)).is_ok());
    let mut other = request(1);
    other.coded_format = 9;
    assert!(matches!(check_request(&abi(), &other), Err(AvdError::UnsupportedFormat)));
    let mut empty = request(1);
    empty.input_len = 0;
    assert!(matches!(check_request(&abi(), &empty), Err(AvdError::EmptyInput)));
    let mut small = request(1);
    small.output_len = 20;
    assert!(matches!(check_request(&abi(), &small), Err(AvdError::OutputTooSmall)));
    let mut large = request(1);
    large.input_len = AVD_MAPPED_INPUT_BYTES as u32 + 1;
    assert!(matches!(check_request(&abi(), &large), Err(AvdError::InputTooLarge)));
}

#[test]
fn sessions_are_handed_out() {
    let mut state: AvdBackendState<u8> = AvdBackendState::new();
    assert!(matches!(
        create_session(&mut state, &abi(), 9),
        Err(AvdError::UnsupportedSession) | Err(AvdError::UnsupportedFormat)
    ));
    let ids: Vec<u32> =
        (0..4).map(|_| create_session(&mut state, &abi(), 1).ok().unwrap()).collect();
    assert_eq!(ids, vec![1, 2, 3, 4]);
    assert!(matches!(create_session(&mut state, &abi(), 1), Err(AvdError::NoFreeSessions)));
    let chip = Chip::default();
    let mut avd = decoder();
    assert!(destroy_session(&mut avd, &mut state, &mut chip.bus(), 2).is_ok());
    assert_eq!(create_session(&mut state, &abi(), 1).ok(), Some(2));
    assert!(matches!(
        destroy_session(&mut avd, &mut state, &mut chip.bus(), 9),
        Err(AvdError::InvalidStream)
    ));
}

#[test]
fn frame_is_decoded() {
    let chip = Chip::default();
    chip.poke(BASE + 0x109_8090, 1, 4);
    for (i, b) in nal().iter().enumerate() {
        chip.poke(0x100_0000 + i, *b as u64, 1);
    }
    let mut avd = decoder();
    let mut state: AvdBackendState<u8> = AvdBackendState::new();
    let stream = create_session(&mut state, &abi(), 1).ok().unwrap();
    let mut memory = AvdMemoryPort::new(Memory { next: 0x800_0000, fail_map: false });
    let mut port = AvdPort::new(Platform::default());
    let parsed = H264StreamParameters::from_stateless_sps(&sps()).unwrap();
    let image = image(0x1000_1000, 0x11);
    let command = AvdFirmwareCommand { raw: 5, tag: 6 };
    let r = submit_decode(
        &mut avd,
        &mut state,
        &mut chip.bus(),
        &mut port,
        &mut memory,
        &abi(),
        &image,
        &request(stream),
        Ok(Some(parsed)),
        &params(),
        &[],
        command,
    );
    assert!(r.is_ok());
    assert!(state.has_pending_for_stream(stream));
    let again = submit_decode(
        &mut avd,
        &mut state,
        &mut chip.bus(),
        &mut port,
        &mut memory,
        &abi(),
        &image,
        &request(stream),
        Ok(None),
        &params(),
        &[],
        command,
    );
    assert!(matches!(again, Err(AvdError::DecodePending)));
    chip.poke(BASE + 0x110_4060, 8, 4);
    let frame = dequeue_frame(&mut avd, &mut state, &mut chip.bus(), &abi(), stream)
        .ok()
        .unwrap()
        .unwrap();
    assert_eq!((frame.width, frame.height, frame.timestamp), (128, 64, 77));
    assert_eq!(frame.pixel_format, 2);
    assert!(!state.has_pending_for_stream(stream));
    let none = dequeue_frame(&mut avd, &mut state, &mut chip.bus(), &abi(), stream);
    assert!(matches!(none, Ok(None)));
}

/// Memory that numbers what it hands out.
struct Ledger(u32);

impl AvdMemory<u32> for Ledger {
    fn mapping_granule(&mut self) -> usize {
        0x4000
    }
    fn map(&mut self, paddr: usize, _len: usize, _writable: bool) -> Option<(u64, u32)> {
        self.0 += 1;
        Some((paddr as u64 & 0xfff_ffff, self.0))
    }
    fn allocate(&mut self, _pages: usize, _align: usize) -> Option<(usize, usize, u32)> {
        self.0 += 1;
        Some((0x800_0000, 0x800_0000, self.0))
    }
}

#[test]
fn decodes_keep_their_memory() {
    let chip = Chip::default();
    chip.poke(BASE + 0x109_8090, 1, 4);
    for (i, b) in nal().iter().enumerate() {
        chip.poke(0x100_0000 + i, *b as u64, 1);
    }
    let mut avd = decoder();
    let mut state: AvdBackendState<u32> = AvdBackendState::new();
    let stream = create_session(&mut state, &abi(), 1).ok().unwrap();
    let mut memory = AvdMemoryPort::new(Ledger(0));
    let mut port = AvdPort::new(Platform::default());
    let image = image(0x1000_1000, 0x11);
    let command = AvdFirmwareCommand { raw: 5, tag: 6 };
    let mut huge = H264StreamParameters::from_stateless_sps(&sps()).unwrap();
    assert!(check_stream(&huge));
    let good = huge;
    huge.coded_width = 0xffff_fff0;
    assert!(!check_stream(&huge));
    huge.coded_width = 0x10000;
    huge.coded_height = 0x10000;
    assert!(!check_stream(&huge));
    let refused = submit_decode(
        &mut avd,
        &mut state,
        &mut chip.bus(),
        &mut port,
        &mut memory,
        &abi(),
        &image,
        &request(stream),
        Ok(Some(huge)),
        &params(),
        &[],
        command,
    );
    assert!(matches!(refused, Err(AvdError::AddressRange)));
    assert!(state.sessions[0].stream_parameters.is_none());
    let r = submit_decode(
        &mut avd,
        &mut state,
        &mut chip.bus(),
        &mut port,
        &mut memory,
        &abi(),
        &image,
        &request(stream),
        Ok(Some(good)),
        &params(),
        &[],
        command,
    );
    assert!(r.is_ok());
    assert_eq!(state.pending[0].input_mapping, 1);
    assert_eq!(state.sessions[0].output_pool.as_ref().unwrap().mapping, 2);
    let work = state.sessions[0].workspace.as_ref().unwrap();
    assert_eq!((work.pages, work.mapping), (3, 4));
    assert_eq!(memory.into_inner().0, 4);
}

#[test]
fn failed_decodes_are_reported() {
    let chip = Chip::default();
    chip.poke(BASE + 0x109_8090, 1, 4);
    let mut avd = decoder();
    let mut state: AvdBackendState<u8> = AvdBackendState::new();
    let stream = create_session(&mut state, &abi(), 1).ok().unwrap();
    let mut memory = AvdMemoryPort::new(Memory { next: 0x800_0000, fail_map: true });
    let mut port = AvdPort::new(Platform::default());
    let image = image(0x1000_1000, 0x11);
    let command = AvdFirmwareCommand { raw: 5, tag: 6 };
    let r = submit_decode(
        &mut avd,
        &mut state,
        &mut chip.bus(),
        &mut port,
        &mut memory,
        &abi(),
        &image,
        &request(stream),
        Ok(None),
        &params(),
        &[],
        command,
    );
    assert!(matches!(r, Err(AvdError::MissingSps)));
    assert!(service_completions(&mut avd, &mut state, &mut chip.bus(), &abi()).is_ok());
    let r = submit_decode(
        &mut avd,
        &mut state,
        &mut chip.bus(),
        &mut port,
        &mut memory,
        &abi(),
        &image,
        &request(9),
        Ok(None),
        &params(),
        &[],
        command,
    );
    assert!(matches!(r, Err(AvdError::InvalidStream)));
}

/// Registers in which writing a bit clears it.
#[derive(Clone)]
struct Clearing {
    chip: Chip,
    from: usize,
}

impl Mmio for Clearing {
    fn read8(&mut self, addr: usize) -> u8 {
        self.chip.read8(addr)
    }
    fn write8(&mut self, addr: usize, value: u8) {
        self.chip.write8(addr, value);
    }
    fn read32(&mut self, addr: usize) -> u32 {
        self.chip.read32(addr)
    }
    fn write32(&mut self, addr: usize, value: u32) {
        if addr >= self.from && addr < self.from + 0x1_0000 {
            let old = self.chip.read32(addr);
            self.chip.write32(addr, old & !value);
        } else {
            self.chip.write32(addr, value);
        }
    }
    fn read64(&mut self, addr: usize) -> u64 {
        self.chip.read64(addr)
    }
    fn write64(&mut self, addr: usize, value: u64) {
        self.chip.write64(addr, value);
    }
    fn udelay(&mut self, _us: u64) {}
    fn current_time(&mut self) -> u64 {
        0
    }
    fn barrier(&mut self) {}
    fn clean_cache(&mut self, _addr: usize, _len: usize) {}
    fn invalidate_cache(&mut self, _addr: usize, _len: usize) {}
    fn clean_invalidate_cache(&mut self, _addr: usize, _len: usize) {}
}

#[test]
fn coprocessor_answers_its_interrupts() {
    let chip = Chip::default();
    let cm3 = AvdCm3 { generation: Generation::V2T0, vp_error: VP_ERROR, panic: 0x2000 };
    signal_booted(&mut chip.bus());
    assert_eq!(chip.peek(0x5001_0090, 4), 1);
    let variant = selected_variant(Generation::V2T0);
    assert_eq!(variant.tunables.len(), 111);
    let hardware = Clearing { chip: chip.clone(), from: variant.decode_ctrl_base };
    assert_eq!(cm3.video_pipe_done(&mut Bus::new(hardware.clone()), 3), IrqEnd::Return);
    assert_eq!(chip.peek(0x5001_0060, 4), 0x103);
    assert_eq!(cm3.post_process_done(&mut Bus::new(hardware.clone())), IrqEnd::Return);
    assert_eq!(chip.peek(0x5001_0060, 4), 0x1000);
    assert_eq!(cm3.video_pipe_error(&mut Bus::new(hardware.clone()), 2), IrqEnd::Halt);
    assert_eq!(chip.peek(0x5001_0060, 4), 0x202);
    assert_eq!(cm3.fatal_exception(&mut Bus::new(hardware), 3), IrqEnd::Halt);
    assert_eq!(chip.peek(0x5001_0060, 4), 0x1_0000 | 1003);
    assert!(matches!(irq_action(223), IrqAction::Unknown(223)));
}

#[test]
fn coprocessor_reports_its_exceptions() {
    let chip = Chip::default();
    let cm3 = AvdCm3 { generation: Generation::V2T0, vp_error: VP_ERROR, panic: 0x2000 };
    assert_eq!(cm3.nmi_handler(&mut chip.bus()), IrqEnd::Halt);
    assert_eq!(chip.peek(0x5001_0060, 4), 0x2010);
    assert_eq!(cm3.hardfault_handler(&mut chip.bus()), IrqEnd::Halt);
    assert_eq!(chip.peek(0x5001_0060, 4), 0x2020);
    assert_eq!(cm3.default_exception_handler(&mut chip.bus()), IrqEnd::Return);
    assert_eq!(chip.peek(0x5001_0060, 4), 0x2030);
    assert_eq!(cm3.systick_handler(&mut chip.bus()), IrqEnd::Halt);
    assert_eq!(chip.peek(0x5001_0060, 4), 0x1_000f);
    assert_eq!(cm3.unknown_exception(&mut chip.bus(), 3), IrqEnd::Halt);
    assert_eq!(chip.peek(0x5001_0060, 4), 0x1_0000 | 1003);
    assert_eq!(cm3.unknown_exception(&mut chip.bus(), 20), IrqEnd::Halt);
    assert_eq!(chip.peek(0x5001_0060, 4), 0x1_0004);
}

#[test]
fn coprocessor_prepares_its_interrupts() {
    let chip = Chip::default();
    let cm3 = AvdCm3 { generation: Generation::V2T0, vp_error: VP_ERROR, panic: 0x2000 };
    let variant = selected_variant(Generation::V2T0);
    chip.bus().write32(0xe000_e010, 7);
    cm3.prepare(&mut chip.bus());
    assert_eq!(chip.peek(0xe000_e010, 4), 0);
    cm3.h264_status_irq1(&mut chip.bus());
    assert_eq!(chip.peek(variant.decode_ctrl_base + 0x4060, 4), 0x800);
    let hardware = Clearing { chip: chip.clone(), from: variant.decode_ctrl_base };
    assert_eq!(cm3.video_pipe_unknown(&mut Bus::new(hardware.clone()), 1), IrqEnd::Return);
    assert_eq!(cm3.submit_unknown(&mut Bus::new(hardware)), IrqEnd::Return);
}

#[test]
fn coprocessor_gives_up_on_stuck_interrupts() {
    let chip = Chip::default();
    let cm3 = AvdCm3 { generation: Generation::V2T0, vp_error: VP_ERROR, panic: 0x2000 };
    assert_eq!(cm3.video_pipe_done(&mut chip.bus(), 3), IrqEnd::Halt);
    assert_eq!(chip.peek(0x5001_0060, 4), 0x203);
}

fn commands() -> VvideoCommands {
    VvideoCommands {
        get_buffer: 1,
        submit: 2,
        dequeue: 3,
        create_session: 4,
        submit_session: 5,
        dequeue_session: 6,
        destroy_session: 7,
    }
}

#[test]
fn control_commands_are_told_apart() {
    assert_eq!(commands().control(4).ok(), Some(VvideoCommand::CreateSession));
    assert!(matches!(commands().control(9), Err(VvideoError::UnsupportedCommand)));
    assert_eq!(created_stream(0, Ok(1)).ok(), Some(1));
    assert!(matches!(created_stream(0, Ok(2)), Err(VvideoError::InvalidStream)));
    assert!(matches!(created_stream(5, Ok(1)), Err(VvideoError::InvalidStream)));
    assert_eq!(created_stream(0, Err("full")).err().unwrap().message(), "full");
    assert_eq!(dequeued_stream(0), 1);
    assert_eq!(dequeued_stream(3), 3);
}

#[test]
fn mapped_buffer_is_shared() {
    let layout = buffer_layout(&abi());
    assert_eq!((layout.mmap_len, layout.output_offset), (0x180_4000, 0x80_0000));
    assert_eq!(buffer_pages(&abi()), 0x1804);
    let mut device = AppleAvdVvideoDevice::new();
    let r = device.get_mapping_info(&abi(), 0, 0x1000, None);
    assert!(matches!(r, Err(VvideoError::BufferAllocation)));
    let info = device.get_mapping_info(&abi(), 0x1000, 0x1000, Some(0x40_0000)).ok().unwrap();
    assert_eq!((info.paddr, info.permissions, info.shared), (0x40_1000, 3, true));
    let r = device.get_mapping_info(&abi(), 1, 0x1000, None);
    assert!(matches!(r, Err(VvideoError::Unaligned)));
    let r = device.get_mapping_info(&abi(), 0x180_4000, 0, None);
    assert!(matches!(r, Err(VvideoError::OffsetTooLarge)));
    let r = device.get_mapping_info(&abi(), 0x180_3000, 0x2000, None);
    assert!(matches!(r, Err(VvideoError::LengthTooLarge)));
    let request = device.submit_mapped(&abi(), 1, 1, 100, 0, None).ok().unwrap();
    assert_eq!((request.input_dma_addr, request.timestamp), (0x40_0000, 1));
    assert_eq!(request.output_dma_addr, 0xc0_0000);
    let second = device.submit_mapped(&abi(), 1, 1, 100, 0, None).ok().unwrap();
    assert_eq!(second.timestamp, 2);
    assert!(matches!(
        device.submit_mapped(&abi(), 2, 1, 100, 0, None),
        Err(VvideoError::InvalidStream)
    ));
    assert!(matches!(
        device.submit_mapped(&abi(), 1, 9, 100, 0, None),
        Err(VvideoError::UnsupportedFormat)
    ));
    assert!(device.note_result(Err(VvideoError::EmptyInput)).is_err());
    assert!(matches!(device.last_error, Some(VvideoError::EmptyInput)));
    assert!(device.note_result(Ok(())).is_ok());
    assert!(device.last_error.is_none());
    device.session_destroyed();
    assert_eq!(device.next_timestamp, 1);
}
