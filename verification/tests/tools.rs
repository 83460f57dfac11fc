use gba_emu::bus::Bus;
use gba_emu::cpu::{Cpu, T_FLAG};
use gba_emu::ppm::ppm_image;
use gba_emu::replay::{keys_for_frame, parse_unsigned_exec, replay_entry};

fn words(line: &str) -> Vec<Vec<u8>> {
    line.split_whitespace().map(|w| w.as_bytes().to_vec()).collect()
}

#[test]
fn ppm_header_and_channels() {
    let fb = vec![0xFF11_2233u32, 0xFF00_00FF];
    let img = ppm_image(&fb);
    assert_eq!(&img[..15], b"P6\n240 160\n255\n");
    assert_eq!(&img[15..], &[0x33, 0x22, 0x11, 0xFF, 0x00, 0x00]);
}

#[test]
fn ppm_of_a_full_frame() {
    let bus = Bus::new();
    let img = ppm_image(&bus.framebuffer);
    assert_eq!(img.len(), 15 + 3 * 240 * 160);
}

#[test]
fn replay_line_with_hex_prefix() {
    assert_eq!(replay_entry(&words("12 0x0001")), Some((12, 1)));
    assert_eq!(replay_entry(&words("7 0X3FF")), Some((7, 0x3FF)));
    assert_eq!(replay_entry(&words("  5   ff  extra")), Some((5, 0xFF)));
}

#[test]
fn replay_line_errors_read_as_zero() {
    assert_eq!(replay_entry(&words("x 12")), Some((0, 0x12)));
    assert_eq!(replay_entry(&words("3 0xZZ")), Some((3, 0)));
    assert_eq!(replay_entry(&words("3 1FFFFFFFF")), Some((3, 0)));
    assert_eq!(replay_entry(&words("only")), None);
    assert_eq!(replay_entry(&words("")), None);
}

#[test]
fn replay_repeated_prefixes_are_stripped() {
    assert_eq!(replay_entry(&words("1 0x0x10")), Some((1, 0x10)));
    assert_eq!(replay_entry(&words("1 0X0x10")), Some((1, 0)));
}

#[test]
fn parse_unsigned_like_std() {
    assert_eq!(parse_unsigned_exec(b"+42", 0, 10, u64::MAX), Some(42));
    assert_eq!(parse_unsigned_exec(b"+", 0, 10, u64::MAX), None);
    assert_eq!(parse_unsigned_exec(b"", 0, 10, u64::MAX), None);
    assert_eq!(parse_unsigned_exec(b"-1", 0, 10, u64::MAX), None);
    assert_eq!(parse_unsigned_exec(b"18446744073709551615", 0, 10, u64::MAX), Some(u64::MAX));
    assert_eq!(parse_unsigned_exec(b"18446744073709551616", 0, 10, u64::MAX), None);
    assert_eq!(parse_unsigned_exec(b"aB", 0, 16, 0xFFFF_FFFF), Some(0xAB));
    assert_eq!(parse_unsigned_exec(b"xx10", 2, 10, 100), Some(10));
    assert_eq!("+42".parse::<u64>().ok(), Some(42));
    assert_eq!(u32::from_str_radix("aB", 16).ok(), Some(0xAB));
}

#[test]
fn later_replay_entries_win() {
    let entries = vec![(3usize, 1u32), (4, 2), (3, 5)];
    assert_eq!(keys_for_frame(&entries, 3), Some(5));
    assert_eq!(keys_for_frame(&entries, 4), Some(2));
    assert_eq!(keys_for_frame(&entries, 9), None);
}

#[test]
fn next_instruction_address_follows_the_pipeline() {
    let mut cpu = Cpu::new();
    cpu.regs[15] = 0x0200_0010;
    assert_eq!(cpu.next_instruction_address(), 0x0200_0010);
    cpu.pipeline_valid = true;
    assert_eq!(cpu.next_instruction_address(), 0x0200_0008);
    assert!(cpu.arm_code_in_ewram());
    cpu.cpsr |= T_FLAG;
    assert_eq!(cpu.next_instruction_address(), 0x0200_000C);
    assert!(!cpu.arm_code_in_ewram());
}
