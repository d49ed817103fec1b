use extension_host::bindings::{
    as_i32, export_run, export_spec, lift_u64, lift_u8, string_lift, AsI32, Guest,
};

struct Echo;

impl Guest for Echo {
    fn spec() -> String {
        "echo <text\u{2026}>".to_string()
    }

    fn run(args: Vec<String>) -> u8 {
        args.len() as u8
    }
}

struct Failing;

impl Guest for Failing {
    fn spec() -> String {
        String::new()
    }

    fn run(_args: Vec<String>) -> u8 {
        255
    }
}

#[test]
fn as_i32_keeps_small_values() {
    assert_eq!(as_i32(0u8), 0);
    assert_eq!(as_i32(255u8), 255);
    assert_eq!(as_i32(-128i8), -128);
    assert_eq!(as_i32(127i8), 127);
    assert_eq!(as_i32(65535u16), 65535);
    assert_eq!(as_i32(-32768i16), -32768);
    assert_eq!(as_i32(i32::MIN), i32::MIN);
    assert_eq!(as_i32(i32::MAX), i32::MAX);
    assert_eq!(as_i32(-1i32), -1);
}

#[test]
fn as_i32_wraps_u32() {
    assert_eq!(as_i32(0u32), 0);
    assert_eq!(as_i32(0x7FFF_FFFFu32), i32::MAX);
    assert_eq!(as_i32(0x8000_0000u32), i32::MIN);
    assert_eq!(as_i32(u32::MAX), -1);
    assert_eq!(as_i32(0xFFFF_FF00u32), -256);
}

#[test]
fn as_i32_wraps_usize() {
    assert_eq!(as_i32(0usize), 0);
    assert_eq!(as_i32(8usize), 8);
    assert_eq!(as_i32(0x7FFF_FFFFusize), i32::MAX);
    assert_eq!(as_i32(0x8000_0000usize), i32::MIN);
    assert_eq!(as_i32(0xFFFF_FFFFusize), -1);
    assert_eq!(as_i32(usize::MAX), -1);
}

#[test]
fn as_i32_of_char_is_code_point() {
    assert_eq!(as_i32('A'), 65);
    assert_eq!(as_i32('\0'), 0);
    assert_eq!(as_i32('\u{e9}'), 0xE9);
    assert_eq!(as_i32('\u{10FFFF}'), 0x10FFFF);
}

#[test]
fn as_i32_through_reference() {
    let byte = 200u8;
    let wide = 0x8000_0001u32;
    assert_eq!(as_i32(&byte), 200);
    assert_eq!(as_i32(&wide), -0x7FFF_FFFF);
    assert_eq!((&byte).as_i32(), 200);
    assert_eq!(wide.as_i32(), -0x7FFF_FFFF);
}

#[test]
fn lift_u8_takes_low_byte() {
    assert_eq!(lift_u8(0), 0);
    assert_eq!(lift_u8(255), 255);
    assert_eq!(lift_u8(256), 0);
    assert_eq!(lift_u8(0x1234), 0x34);
    assert_eq!(lift_u8(-1), 255);
    assert_eq!(lift_u8(i32::MIN), 0);
    assert_eq!(lift_u8(i32::MAX), 255);
}

#[test]
fn lift_u64_keeps_the_bits() {
    assert_eq!(lift_u64(0), 0);
    assert_eq!(lift_u64(1_700_000_000), 1_700_000_000);
    assert_eq!(lift_u64(i64::MAX), 0x7FFF_FFFF_FFFF_FFFF);
    assert_eq!(lift_u64(-1), u64::MAX);
    assert_eq!(lift_u64(i64::MIN), 0x8000_0000_0000_0000);
}

#[test]
fn string_lift_decodes_utf8() {
    assert_eq!(string_lift(vec![]), "");
    assert_eq!(string_lift(vec![0x61, 0x64, 0x64]), "add");
    assert_eq!(string_lift(vec![0x63, 0x61, 0x66, 0xC3, 0xA9]), "caf\u{e9}");
    assert_eq!(string_lift(vec![0xF0, 0x9F, 0xA6, 0x80]), "\u{1F980}");
}

#[test]
fn export_spec_gives_utf8_of_schema() {
    let bytes = export_spec::<Echo>();
    assert_eq!(bytes, "echo <text\u{2026}>".as_bytes().to_vec());
    assert_eq!(string_lift(bytes), Echo::spec());
    assert_eq!(export_spec::<Failing>(), Vec::<u8>::new());
}

#[test]
fn export_run_lowers_status() {
    assert_eq!(export_run::<Echo>(vec![]), 0);
    assert_eq!(export_run::<Echo>(vec!["a".to_string(), "b".to_string()]), 2);
    assert_eq!(export_run::<Failing>(vec![]), 255);
}
