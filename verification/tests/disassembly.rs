use iced_x86::{
    Decoder, DecoderOptions, FastFormatterOptions, SpecializedFormatter, SpecializedFormatterTraitOptions,
};
use pexer::disassemble::disassemble;

struct ListingOptions;

impl SpecializedFormatterTraitOptions for ListingOptions {
    fn space_after_operand_separator(_options: &FastFormatterOptions) -> bool {
        true
    }
    fn rip_relative_addresses(options: &FastFormatterOptions) -> bool {
        options.rip_relative_addresses()
    }
}

fn reference_listing(bytes: &[u8], bitness: u32, ip: u64) -> Vec<String> {
    let mut decoder = Decoder::with_ip(bitness, bytes, ip, DecoderOptions::NONE);
    let mut formatter = SpecializedFormatter::<ListingOptions>::new();
    let mut out = Vec::new();
    let mut instruction = iced_x86::Instruction::default();
    while decoder.can_decode() {
        decoder.decode_out(&mut instruction);
        let mut line = String::new();
        formatter.format(&instruction, &mut line);
        out.push(line);
    }
    out
}

const CODE64: &[u8] = &[
    0x48, 0x89, 0xc8, 0x48, 0x8b, 0x05, 0x10, 0x00, 0x00, 0x00, 0xe8, 0x00, 0x00, 0x00, 0x00, 0x66, 0x90, 0xf3, 0x48,
    0xa5, 0xc3, 0x0f,
];

#[test]
fn listing_of_64_bit_code() {
    let lines = disassemble(CODE64, 64, 0x1000);
    assert_eq!(lines[0], "mov rax, rcx");
    assert_eq!(lines[4], "rep movsq [rdi], [rsi]");
    assert_eq!(lines, reference_listing(CODE64, 64, 0x1000));
}

#[test]
fn listing_of_32_bit_code() {
    let code: &[u8] = &[0x55, 0x89, 0xe5, 0x83, 0xec, 0x10, 0xb8, 0x2a, 0x00, 0x00, 0x00, 0xc9, 0xc3];
    let lines = disassemble(code, 32, 0x401000);
    assert_eq!(lines.len(), 6);
    assert_eq!(lines[0], "push ebp");
    assert_eq!(lines, reference_listing(code, 32, 0x401000));
}

#[test]
fn empty_buffer_lists_nothing() {
    assert!(disassemble(&[], 64, 0).is_empty());
}
