use kernel_core::elf::{
    fill_segment, map_flags, parse_header, plan_load, read_phdr, user_stack_segment,
    validate_header, MapFlags, SegmentLoad, EHDR_SIZE, PHDR_SIZE, USER_STACK_TOP,
};
use kernel_core::error::{KernelError, MemoryError};
use kernel_core::exec::{error_code, exec_path, exec_result, terminated_len};
use kernel_core::usermode::iret_frame;
use kernel_core::abi::EINVAL;
use kernel_core::task::PrivilegeLevel;
use kernel_core::kernel::Kernel;

fn put(buf: &mut Vec<u8>, off: usize, bytes: &[u8]) {
    buf[off..off + bytes.len()].copy_from_slice(bytes);
}

/// A 64-bit little-endian image with one LOAD segment of flags `flags`,
/// `code` as its file bytes at offset 0x100, `memsz` bytes in memory at
/// 0x40_0000, and entry 0x1000.
fn image(flags: u32, code: &[u8], memsz: u64) -> Vec<u8> {
    let mut d = vec![0u8; 0x100 + code.len()];
    put(&mut d, 0, &[0x7F, b'E', b'L', b'F', 2, 1, 1]);
    put(&mut d, 24, &0x1000u64.to_le_bytes());
    put(&mut d, 32, &64u64.to_le_bytes());
    put(&mut d, 52, &64u16.to_le_bytes());
    put(&mut d, 54, &56u16.to_le_bytes());
    put(&mut d, 56, &1u16.to_le_bytes());
    put(&mut d, 64, &1u32.to_le_bytes());
    put(&mut d, 68, &flags.to_le_bytes());
    put(&mut d, 72, &0x100u64.to_le_bytes());
    put(&mut d, 80, &0x40_0000u64.to_le_bytes());
    put(&mut d, 96, &(code.len() as u64).to_le_bytes());
    put(&mut d, 104, &memsz.to_le_bytes());
    put(&mut d, 0x100, code);
    d
}

#[test]
fn single_segment_image_gives_one_mapping() {
    let code = [0x90u8, 0x90, 0xC3];
    let d = image(0x5, &code, 8);
    let plan = plan_load(&d).unwrap();
    assert_eq!(plan.entry, 0x1000);
    assert_eq!(plan.segments.len(), 1);
    let seg = plan.segments[0];
    assert_eq!(seg.vaddr, 0x40_0000);
    assert_eq!(seg.filesz, 3);
    assert_eq!(seg.memsz, 8);
    assert_eq!(
        seg.flags,
        MapFlags { present: true, user_accessible: true, writable: false, no_execute: false }
    );
    let mut mem = vec![0xAAu8; 8];
    fill_segment(&d, &seg, &mut mem);
    assert_eq!(mem, vec![0x90, 0x90, 0xC3, 0, 0, 0, 0, 0]);
}

#[test]
fn corrupted_magic_is_rejected() {
    let mut d = image(0x5, &[1, 2, 3], 8);
    d[1] = b'X';
    assert_eq!(plan_load(&d).err(), Some(KernelError::InvalidParam));
}

#[test]
fn wrong_class_or_entry_size_is_rejected() {
    let mut d = image(0x5, &[1], 1);
    d[4] = 1;
    assert_eq!(plan_load(&d).err(), Some(KernelError::InvalidParam));
    let mut d = image(0x5, &[1], 1);
    d[5] = 2;
    assert_eq!(plan_load(&d).err(), Some(KernelError::InvalidParam));
    let mut d = image(0x5, &[1], 1);
    put(&mut d, 54, &32u16.to_le_bytes());
    assert_eq!(plan_load(&d).err(), Some(KernelError::InvalidParam));
}

#[test]
fn short_image_is_rejected() {
    let d = vec![0x7F, b'E', b'L', b'F'];
    assert_eq!(parse_header(&d).err(), Some(KernelError::InvalidParam));
    assert_eq!(plan_load(&d).err(), Some(KernelError::InvalidParam));
}

#[test]
fn truncated_segment_is_invalid_address() {
    let mut d = image(0x5, &[1, 2, 3], 8);
    put(&mut d, 96, &100u64.to_le_bytes());
    put(&mut d, 104, &200u64.to_le_bytes());
    assert_eq!(plan_load(&d).err(), Some(KernelError::Memory(MemoryError::InvalidAddress)));
}

#[test]
fn program_header_outside_image_is_invalid_param() {
    let mut d = image(0x5, &[1, 2, 3], 8);
    put(&mut d, 32, &0x1_0000u64.to_le_bytes());
    assert_eq!(plan_load(&d).err(), Some(KernelError::InvalidParam));
    assert_eq!(read_phdr(&d, d.len() - 10).err(), Some(KernelError::InvalidParam));
}

#[test]
fn non_load_and_empty_segments_are_skipped() {
    let mut d = image(0x5, &[1, 2, 3], 8);
    put(&mut d, 64, &2u32.to_le_bytes());
    assert_eq!(plan_load(&d).unwrap().segments.len(), 0);
    let d = image(0x5, &[1, 2, 3], 0);
    assert_eq!(plan_load(&d).unwrap().segments.len(), 0);
}

#[test]
fn header_fields_are_read_little_endian() {
    let d = image(0x6, &[1], 1);
    let h = parse_header(&d).unwrap();
    assert_eq!(h.e_entry, 0x1000);
    assert_eq!(h.e_phoff, 64);
    assert_eq!(h.e_phentsize as usize, PHDR_SIZE);
    assert_eq!(h.e_phnum, 1);
    assert!(validate_header(&h).is_ok());
    let ph = read_phdr(&d, EHDR_SIZE).unwrap();
    assert_eq!(ph.p_type, 1);
    assert_eq!(ph.p_vaddr, 0x40_0000);
}

#[test]
fn segment_flags_translate() {
    assert_eq!(map_flags(0), MapFlags { present: true, user_accessible: true, writable: false, no_execute: true });
    assert_eq!(map_flags(2), MapFlags { present: true, user_accessible: true, writable: true, no_execute: true });
    assert_eq!(map_flags(3), MapFlags { present: true, user_accessible: true, writable: true, no_execute: false });
}

#[test]
fn user_stack_mapping() {
    let s: SegmentLoad = user_stack_segment();
    assert_eq!(s.vaddr + s.memsz, USER_STACK_TOP);
    assert_eq!(s.memsz, 8 * 4096);
    assert!(s.flags.writable && s.flags.no_execute);
    let plan = plan_load(&image(0x5, &[1], 1)).unwrap();
    let loaded = plan.loaded();
    assert_eq!(loaded.entry, 0x1000);
    assert_eq!(loaded.stack_top - loaded.stack_bottom, 8 * 4096);
}

#[test]
fn iret_frame_sets_user_privilege() {
    let f = iret_frame(0x40_0000, 0x7000, 0x18, 0x20);
    assert_eq!(f.rip, 0x40_0000);
    assert_eq!(f.rsp, 0x7000);
    assert_eq!(f.cs, 0x1B);
    assert_eq!(f.ss, 0x23);
    assert_eq!(f.rflags, 0x202);
}

#[test]
fn terminated_strings_are_bounded() {
    assert_eq!(terminated_len(b"/hello.bin\0junk"), Some(10));
    assert_eq!(terminated_len(b"no terminator"), None);
    let long = vec![b'a'; 300];
    assert_eq!(terminated_len(&long), None);
    let mut edge = vec![b'a'; 256];
    edge.push(0);
    assert_eq!(terminated_len(&edge), Some(256));
}

#[test]
fn exec_defaults_and_results() {
    assert_eq!(exec_path(None), "/hello.bin");
    assert_eq!(exec_path(Some("/bin/sh")), "/bin/sh");
    assert_eq!(error_code(KernelError::InvalidParam), EINVAL);
    let mut k = Kernel::new();
    let plan = plan_load(&image(0x5, &[1], 1)).unwrap();
    let spawned = k.spawn("/app", PrivilegeLevel::User, 0, &plan.loaded(), 0, 0x9000, 0x4000);
    let pid = spawned.unwrap().0;
    assert_eq!(exec_result(spawned), pid.as_u64());
    assert_eq!(exec_result(Err(KernelError::InvalidParam)), EINVAL);
}

#[test]
fn segment_with_more_file_than_memory_bytes_is_rejected() {
    let d = image(0x5, &[1, 2, 3, 4], 2);
    assert_eq!(plan_load(&d).err(), Some(KernelError::InvalidParam));
}

#[test]
fn truncation_is_reported_before_oversized_file_size() {
    let mut d = image(0x5, &[1, 2, 3], 2);
    put(&mut d, 96, &100u64.to_le_bytes());
    assert_eq!(plan_load(&d).err(), Some(KernelError::Memory(MemoryError::InvalidAddress)));
}
