//! Disassembly of a run of x86 machine code into one text line per instruction.
use vstd::prelude::*;

verus! {

/// What iced-x86 lists for `bytes` decoded as `bitness`-bit code at address `ip`: one
/// line per instruction, in the fast formatter's syntax with a space after each operand
/// separator, no pseudo-ops and hexadecimal numbers with a prefix.
pub uninterp spec fn x86_listing(bytes: Seq<u8>, bitness: u32, ip: u64) -> Seq<Seq<char>>;

/// A bitness that iced-x86's decoder accepts.
pub open spec fn valid_bitness(bitness: u32) -> bool {
    bitness == 16 || bitness == 32 || bitness == 64
}

/// `iced_x86::Decoder::with_ip` over `buffer`, each decoded instruction written by
/// `iced_x86::FastFormatter::format` (space after the operand separator, no pseudo-ops,
/// hexadecimal prefix). The decoder panics on any other bitness than 16, 32 or 64, which
/// `requires` leaves out. Claimed: the listing is a function of the bytes, the bitness
/// and the address, named `x86_listing`.
#[verifier::external_body]
fn decode_listing(buffer: &[u8], bitness: u32, ip: u64) -> (r: Vec<String>)
    requires
        valid_bitness(bitness),
    ensures
        r@.map_values(|s: String| s@) == x86_listing(buffer@, bitness, ip),
{
    let decoder = iced_x86::Decoder::with_ip(bitness, buffer, ip, iced_x86::DecoderOptions::NONE);
    let mut formatter = iced_x86::FastFormatter::new();
    formatter.options_mut().set_space_after_operand_separator(true);
    formatter.options_mut().set_use_pseudo_ops(false);
    formatter.options_mut().set_use_hex_prefix(true);
    decoder.into_iter().map(|instruction| {
        let mut line = String::new();
        formatter.format(&instruction, &mut line);
        line
    }).collect()
}

/// The listing of `buffer` decoded as `bitness`-bit code starting at address `ip`: one
/// line per instruction, until the bytes run out.
pub fn disassemble(buffer: &[u8], bitness: u32, ip: u64) -> (r: Vec<String>)
    requires
        valid_bitness(bitness),
    ensures
        r@.map_values(|s: String| s@) == x86_listing(buffer@, bitness, ip),
{
    decode_listing(buffer, bitness, ip)
}

} // verus!
