//! Reading little-endian fields out of a script's bytes.
//!
//! A script is a slice of bytes, and a position in it is a number of bytes
//! from its start. Every reader takes the slice and a position, and gives the
//! field together with the position that follows it.

use crate::scan::{lemma_run, lemma_run_ends, run_len};
use byteorder::{ByteOrder, LittleEndian};
use vstd::prelude::*;
use vstd::slice::slice_subrange;

verus! {

/// Why a field, an operand or an instruction could not be decoded.
#[derive(Debug, Clone, Copy, PartialEq, Eq, Structural)]
pub enum DecodeError {
    /// The script ends before the field does.
    UnexpectedEof,
    /// An operand begins with a type tag that no decoding rule is known for.
    UnknownTypeId(u8),
    /// No command is known under this opcode, so the operands that follow it
    /// cannot be told apart.
    UnknownOpcode(u16),
}

/// Whether `n` bytes can be read at `pos`.
pub open spec fn in_bounds(bytes: Seq<u8>, pos: int, n: int) -> bool {
    0 <= pos && 0 <= n && pos + n <= bytes.len()
}

/// The number that the first two bytes spell, lowest byte first.
pub open spec fn le_u16(b: Seq<u8>) -> int
    recommends
        b.len() >= 2,
{
    b[0] + 0x100 * b[1]
}

/// The number that the first four bytes spell, lowest byte first.
pub open spec fn le_u32(b: Seq<u8>) -> int
    recommends
        b.len() >= 4,
{
    b[0] + 0x100 * b[1] + 0x1_0000 * b[2] + 0x100_0000 * b[3]
}

/// The signed reading, in two's complement, of an unsigned number below
/// twice `half`: from `half` on the numbers stand for the negative ones.
pub open spec fn twos_complement(unsigned: int, half: int) -> int {
    if unsigned >= half {
        unsigned - 2 * half
    } else {
        unsigned
    }
}

/// Calls `byteorder`'s `LittleEndian::read_u16`, which panics on fewer than
/// two bytes and otherwise assembles the first two, lowest byte first.
#[verifier::external_body]
fn le_read_u16(buf: &[u8]) -> (v: u16)
    requires
        buf@.len() >= 2,
    ensures
        v == le_u16(buf@),
{
    LittleEndian::read_u16(buf)
}

/// Calls `byteorder`'s `LittleEndian::read_i16`: the two's complement reading
/// of what `read_u16` gives. Panics on fewer than two bytes.
#[verifier::external_body]
fn le_read_i16(buf: &[u8]) -> (v: i16)
    requires
        buf@.len() >= 2,
    ensures
        v == twos_complement(le_u16(buf@), 0x8000),
{
    LittleEndian::read_i16(buf)
}

/// Calls `byteorder`'s `LittleEndian::read_u32`, which panics on fewer than
/// four bytes and otherwise assembles the first four, lowest byte first.
#[verifier::external_body]
fn le_read_u32(buf: &[u8]) -> (v: u32)
    requires
        buf@.len() >= 4,
    ensures
        v == le_u32(buf@),
{
    LittleEndian::read_u32(buf)
}

/// Calls `byteorder`'s `LittleEndian::read_i32`: the two's complement reading
/// of what `read_u32` gives. Panics on fewer than four bytes.
#[verifier::external_body]
fn le_read_i32(buf: &[u8]) -> (v: i32)
    requires
        buf@.len() >= 4,
    ensures
        v == twos_complement(le_u32(buf@), 0x8000_0000),
{
    LittleEndian::read_i32(buf)
}

/// Whether what a reader gave is what the script holds: the same field, by its
/// view, with the same next position, or the same error.
pub open spec fn read_matches<T: View>(
    got: Result<(T, usize), DecodeError>,
    held: Result<(T::V, int), DecodeError>,
) -> bool {
    match held {
        Ok((field, next)) => got is Ok && got->Ok_0.0@ == field && got->Ok_0.1 == next,
        Err(e) => got is Err && got->Err_0 == e,
    }
}

/// The `n` bytes at `pos` and the position after them.
pub open spec fn spec_take(bytes: Seq<u8>, pos: int, n: int) -> Result<(Seq<u8>, int), DecodeError> {
    if in_bounds(bytes, pos, n) {
        Ok((bytes.subrange(pos, pos + n), pos + n))
    } else {
        Err(DecodeError::UnexpectedEof)
    }
}

/// The `n` bytes at `pos`, or `UnexpectedEof` where the script holds fewer.
pub fn take(bytes: &[u8], pos: usize, n: usize) -> (r: Result<(&[u8], usize), DecodeError>)
    ensures
        read_matches(r, spec_take(bytes@, pos as int, n as int)),
{
    if n <= bytes.len() && pos <= bytes.len() - n {
        Ok((slice_subrange(bytes, pos, pos + n), pos + n))
    } else {
        Err(DecodeError::UnexpectedEof)
    }
}

/// The byte at `pos`.
pub open spec fn spec_read_u8(bytes: Seq<u8>, pos: int) -> Result<(u8, int), DecodeError> {
    match spec_take(bytes, pos, 1) {
        Ok((field, next)) => Ok((field[0], next)),
        Err(e) => Err(e),
    }
}

/// The byte at `pos`, read as a signed number.
pub open spec fn spec_read_i8(bytes: Seq<u8>, pos: int) -> Result<(i8, int), DecodeError> {
    match spec_take(bytes, pos, 1) {
        Ok((field, next)) => Ok((twos_complement(field[0] as int, 0x80) as i8, next)),
        Err(e) => Err(e),
    }
}

/// The unsigned 16-bit number at `pos`.
pub open spec fn spec_read_u16(bytes: Seq<u8>, pos: int) -> Result<(u16, int), DecodeError> {
    match spec_take(bytes, pos, 2) {
        Ok((field, next)) => Ok((le_u16(field) as u16, next)),
        Err(e) => Err(e),
    }
}

/// The signed 16-bit number at `pos`.
pub open spec fn spec_read_i16(bytes: Seq<u8>, pos: int) -> Result<(i16, int), DecodeError> {
    match spec_take(bytes, pos, 2) {
        Ok((field, next)) => Ok((twos_complement(le_u16(field), 0x8000) as i16, next)),
        Err(e) => Err(e),
    }
}

/// The unsigned 32-bit number at `pos`.
pub open spec fn spec_read_u32(bytes: Seq<u8>, pos: int) -> Result<(u32, int), DecodeError> {
    match spec_take(bytes, pos, 4) {
        Ok((field, next)) => Ok((le_u32(field) as u32, next)),
        Err(e) => Err(e),
    }
}

/// The signed 32-bit number at `pos`.
pub open spec fn spec_read_i32(bytes: Seq<u8>, pos: int) -> Result<(i32, int), DecodeError> {
    match spec_take(bytes, pos, 4) {
        Ok((field, next)) => Ok((twos_complement(le_u32(field), 0x8000_0000) as i32, next)),
        Err(e) => Err(e),
    }
}

/// Reads the byte at `pos`.
pub fn read_u8(bytes: &[u8], pos: usize) -> (r: Result<(u8, usize), DecodeError>)
    ensures
        read_matches(r, spec_read_u8(bytes@, pos as int)),
{
    let (field, next) = take(bytes, pos, 1)?;
    Ok((field[0], next))
}

/// Reads the byte at `pos` as a signed number.
pub fn read_i8(bytes: &[u8], pos: usize) -> (r: Result<(i8, usize), DecodeError>)
    ensures
        read_matches(r, spec_read_i8(bytes@, pos as int)),
{
    let (field, next) = take(bytes, pos, 1)?;
    let byte = field[0];
    if byte >= 0x80 {
        Ok(((byte as i16 - 0x100) as i8, next))
    } else {
        Ok((byte as i8, next))
    }
}

/// Reads the unsigned 16-bit number at `pos`.
pub fn read_u16(bytes: &[u8], pos: usize) -> (r: Result<(u16, usize), DecodeError>)
    ensures
        read_matches(r, spec_read_u16(bytes@, pos as int)),
{
    let (field, next) = take(bytes, pos, 2)?;
    Ok((le_read_u16(field), next))
}

/// Reads the signed 16-bit number at `pos`.
pub fn read_i16(bytes: &[u8], pos: usize) -> (r: Result<(i16, usize), DecodeError>)
    ensures
        read_matches(r, spec_read_i16(bytes@, pos as int)),
{
    let (field, next) = take(bytes, pos, 2)?;
    Ok((le_read_i16(field), next))
}

/// Reads the unsigned 32-bit number at `pos`.
pub fn read_u32(bytes: &[u8], pos: usize) -> (r: Result<(u32, usize), DecodeError>)
    ensures
        read_matches(r, spec_read_u32(bytes@, pos as int)),
{
    let (field, next) = take(bytes, pos, 4)?;
    Ok((le_read_u32(field), next))
}

/// Reads the signed 32-bit number at `pos`.
pub fn read_i32(bytes: &[u8], pos: usize) -> (r: Result<(i32, usize), DecodeError>)
    ensures
        read_matches(r, spec_read_i32(bytes@, pos as int)),
{
    let (field, next) = take(bytes, pos, 4)?;
    Ok((le_read_i32(field), next))
}

/// What std documents of `String::push`: it appends the character to the end
/// of the string.
pub assume_specification[ std::string::String::push ](s: &mut std::string::String, ch: char)
    ensures
        final(s)@ == old(s)@.push(ch),
;

/// What holds of the bytes of a text: they are not zero.
pub open spec fn nonzero() -> spec_fn(u8) -> bool {
    |byte: u8| byte != 0
}

/// How many bytes of a text field stand before its first zero byte: all of
/// them, where none is zero.
pub open spec fn text_len(field: Seq<u8>) -> nat {
    run_len(field, nonzero())
}

/// The text that a field holds: its bytes up to the first zero byte, each
/// byte being the character of that code.
pub open spec fn text_of(field: Seq<u8>) -> Seq<char> {
    Seq::new(text_len(field), |i: int| field[i] as char)
}

/// A text is no longer than its field, none of its bytes is zero, and a zero
/// byte follows it unless it fills the field.
pub proof fn lemma_text_in_field(field: Seq<u8>)
    ensures
        text_len(field) <= field.len(),
        forall|j: int| 0 <= j < text_len(field) ==> field[j] != 0,
        text_len(field) < field.len() ==> field[text_len(field) as int] == 0,
{
    lemma_run(field, nonzero());
}

/// The text that a field holds.
pub fn text(field: &[u8]) -> (s: String)
    ensures
        s@ == text_of(field@),
{
    let mut s = String::new();
    let mut i: usize = 0;
    while i < field.len() && field[i] != 0
        invariant
            i <= field.len(),
            forall|j: int| 0 <= j < i ==> field@[j] != 0,
            s@ == Seq::new(i as nat, |j: int| field@[j] as char),
        decreases field.len() - i,
    {
        s.push(field[i] as char);
        i += 1;
        assert(s@ =~= Seq::new(i as nat, |j: int| field@[j] as char));
    }
    proof {
        lemma_run_ends(field@, nonzero(), i as int);
    }
    s
}

/// The text in the `n` bytes at `pos`.
pub open spec fn spec_read_text(bytes: Seq<u8>, pos: int, n: int) -> Result<
    (Seq<char>, int),
    DecodeError,
> {
    match spec_take(bytes, pos, n) {
        Ok((field, next)) => Ok((text_of(field), next)),
        Err(e) => Err(e),
    }
}

/// Reads the text in the `n` bytes at `pos`.
pub fn read_text(bytes: &[u8], pos: usize, n: usize) -> (r: Result<(String, usize), DecodeError>)
    ensures
        read_matches(r, spec_read_text(bytes@, pos as int, n as int)),
{
    let (field, next) = take(bytes, pos, n)?;
    Ok((text(field), next))
}

} // verus!
