//! Writing numbers, operands and instructions out as text.
//!
//! Reals are not written out here: that takes floating-point arithmetic. An
//! instruction is therefore written out from its operands' texts, which the
//! caller gives, and an operand that is a real has no text of its own.

use crate::chars::{append_str, string_of_all};
use crate::instr::{Instr, InstrView};
use crate::stream::DecodeError;
use crate::value::{Location, Pointer, Value, ValueView, Variable};
use vstd::prelude::*;

verus! {

/// The character of a digit below 16: `0` to `9`, then `a` to `f`.
pub open spec fn digit(d: int) -> char {
    if d < 10 {
        ('0' as u8 + d) as u8 as char
    } else {
        ('a' as u8 + d - 10) as u8 as char
    }
}

/// The digits of a number to the base 10 or 16, the highest first, without
/// leading zeros; zero is written with one digit.
pub open spec fn digits(n: nat, base: nat) -> Seq<char>
    recommends
        base == 10 || base == 16,
    decreases n,
{
    if n < base || base < 2 {
        seq![digit(n as int)]
    } else {
        proof {
            assert(n / base < n) by (nonlinear_arith)
                requires
                    n >= base,
                    base >= 2,
            ;
        }
        digits(n / base, base).push(digit((n % base) as int))
    }
}

/// `n` zeros; none where `n` is negative.
pub open spec fn zeros(n: int) -> Seq<char> {
    if n <= 0 {
        Seq::empty()
    } else {
        Seq::new(n as nat, |i: int| '0')
    }
}

/// A number in hexadecimal with a `0x` before it.
pub open spec fn hex(n: nat) -> Seq<char> {
    seq!['0', 'x'] + digits(n, 16)
}

/// A number in hexadecimal, with zeros before it to the width of `width`
/// where it has fewer digits.
pub open spec fn hex_padded(n: nat, width: nat) -> Seq<char> {
    zeros(width - digits(n, 16).len()) + digits(n, 16)
}

/// A number in decimal, with a minus sign before it where it is negative.
pub open spec fn decimal(i: int) -> Seq<char> {
    if i < 0 {
        seq!['-'] + digits((-i) as nat, 10)
    } else {
        digits(i as nat, 10)
    }
}

/// The parts in their order, with `separator` between every two.
pub open spec fn joined(parts: Seq<Seq<char>>, separator: Seq<char>) -> Seq<char>
    decreases parts.len(),
{
    if parts.len() == 0 {
        Seq::empty()
    } else if parts.len() == 1 {
        parts[0]
    } else {
        joined(parts.drop_last(), separator) + separator + parts.last()
    }
}

/// The character of a digit below 16.
fn digit_char(d: u8) -> (c: char)
    requires
        d < 16,
    ensures
        c == digit(d as int),
{
    if d < 10 {
        ('0' as u8 + d) as char
    } else {
        ('a' as u8 + (d - 10)) as char
    }
}

/// Appends the digits of `n` to the base `base`.
fn push_digits(text: &mut Vec<char>, n: u64, base: u64)
    requires
        base == 10 || base == 16,
    ensures
        final(text)@ == old(text)@ + digits(n as nat, base as nat),
    decreases n,
{
    if n >= base {
        push_digits(text, n / base, base);
    }
    text.push(digit_char((n % base) as u8));
    assert(final(text)@ =~= old(text)@ + digits(n as nat, base as nat));
}

/// Appends `n` zeros.
fn push_zeros(text: &mut Vec<char>, n: usize)
    ensures
        final(text)@ == old(text)@ + zeros(n as int),
{
    let ghost before = text@;
    let mut i: usize = 0;
    while i < n
        invariant
            i <= n,
            text@ == before + zeros(i as int),
        decreases n - i,
    {
        text.push('0');
        i += 1;
        assert(text@ =~= before + zeros(i as int));
    }
}

/// Appends `n` in hexadecimal with a `0x` before it.
fn push_hex(text: &mut Vec<char>, n: u64)
    ensures
        final(text)@ == old(text)@ + hex(n as nat),
{
    text.push('0');
    text.push('x');
    push_digits(text, n, 16);
    assert(final(text)@ =~= old(text)@ + hex(n as nat));
}

/// Appends `n` in hexadecimal, filled up with zeros to `width` digits.
fn push_hex_padded(text: &mut Vec<char>, n: u64, width: usize)
    ensures
        final(text)@ == old(text)@ + hex_padded(n as nat, width as nat),
{
    let mut number: Vec<char> = Vec::new();
    push_digits(&mut number, n, 16);
    if number.len() < width {
        push_zeros(text, width - number.len());
    }
    text.append(&mut number);
    assert(final(text)@ =~= old(text)@ + hex_padded(n as nat, width as nat));
}

/// Appends `i` in decimal.
fn push_decimal(text: &mut Vec<char>, i: i64)
    ensures
        final(text)@ == old(text)@ + decimal(i as int),
{
    if i < 0 {
        text.push('-');
        let magnitude = if i == i64::MIN {
            0x8000_0000_0000_0000u64
        } else {
            (-i) as u64
        };
        push_digits(text, magnitude, 10);
    } else {
        push_digits(text, i as u64, 10);
    }
    assert(final(text)@ =~= old(text)@ + decimal(i as int));
}

/// The unsigned reading of a signed number of 64 bits in two's complement:
/// as such a number is written in hexadecimal.
pub open spec fn unsigned(i: i64) -> nat {
    if i < 0 {
        (i + 0x1_0000_0000_0000_0000) as nat
    } else {
        i as nat
    }
}

/// A pointer as text: a local one as the offset that it addresses, any other
/// marked as global.
pub open spec fn pointer_text(raw: i64) -> Seq<char> {
    if Pointer::spec_is_local(raw) {
        hex(Pointer::spec_absolute(raw) as nat)
    } else {
        "Global("@ + hex(Pointer::spec_absolute(raw) as nat) + ")"@
    }
}

/// A variable as text: its identifier after its storage class. An immediate
/// variable has no text.
pub open spec fn variable_text(variable: Variable) -> Option<Seq<char>> {
    match variable.location {
        Location::Global => Some("global_"@ + hex(unsigned(variable.value))),
        Location::Local => Some("local_"@ + hex(unsigned(variable.value))),
        Location::Immediate => None,
    }
}

/// An operand as text. Integers are written in decimal, texts between double
/// quotes. A real has no text here, nor has a model, a buffer or a list of
/// operands.
pub open spec fn value_text(value: ValueView) -> Option<Seq<char>> {
    match value {
        ValueView::Integer(i) => Some(decimal(i as int)),
        ValueView::String(text) => Some("\""@ + text + "\""@),
        ValueView::Pointer(raw) => Some(pointer_text(raw)),
        ValueView::Variable(variable) => variable_text(variable),
        ValueView::Array => Some("arr"@),
        _ => None,
    }
}

/// An instruction as text, given its operands' texts: the offset in eight
/// hexadecimal digits, the opcode in four, then the command's name, with an
/// exclamation mark before it where its result is inverted, and the operands
/// in round brackets with commas between them.
pub open spec fn instr_text(instr: InstrView, args: Seq<Seq<char>>) -> Seq<char> {
    hex_padded(instr.offset as nat, 8) + " "@ + hex_padded(instr.opcode as nat, 4) + " "@ + (
    if instr.bool_inverted {
        "!"@
    } else {
        Seq::empty()
    }) + instr.name + "("@ + joined(args, ", "@) + ")"@
}

/// A decoding error in words.
pub open spec fn error_text(error: DecodeError) -> Seq<char> {
    match error {
        DecodeError::UnexpectedEof => "failed to fill whole buffer"@,
        DecodeError::UnknownTypeId(id) => "Unknown type ID '"@ + decimal(id as int) + "'"@,
        DecodeError::UnknownOpcode(opcode) => "unknown opcode "@ + hex(opcode as nat),
    }
}

/// Whether a text is given or withheld as `held` says, and is the text held.
pub open spec fn text_matches(got: Option<String>, held: Option<Seq<char>>) -> bool {
    match held {
        Some(text) => got is Some && got->Some_0@ == text,
        None => got is None,
    }
}

impl DecodeError {
    /// The error in words.
    pub fn to_text(&self) -> (text: String)
        ensures
            text@ == error_text(*self),
    {
        let mut chars: Vec<char> = Vec::new();
        match self {
            DecodeError::UnexpectedEof => append_str(&mut chars, "failed to fill whole buffer"),
            DecodeError::UnknownTypeId(id) => {
                append_str(&mut chars, "Unknown type ID '");
                push_decimal(&mut chars, *id as i64);
                append_str(&mut chars, "'");
            },
            DecodeError::UnknownOpcode(opcode) => {
                append_str(&mut chars, "unknown opcode ");
                push_hex(&mut chars, *opcode as u64);
            },
        }
        string_of_all(&chars)
    }
}

impl Pointer {
    /// The pointer as text.
    pub fn to_text(&self) -> (text: String)
        ensures
            text@ == pointer_text(self.0),
    {
        let mut chars: Vec<char> = Vec::new();
        if self.is_local() {
            push_hex(&mut chars, self.absolute());
        } else {
            append_str(&mut chars, "Global(");
            push_hex(&mut chars, self.absolute());
            append_str(&mut chars, ")");
        }
        string_of_all(&chars)
    }
}

impl Variable {
    /// The variable as text, unless it is an immediate one.
    pub fn to_text(&self) -> (text: Option<String>)
        ensures
            text_matches(text, variable_text(*self)),
    {
        let mut chars: Vec<char> = Vec::new();
        match self.location {
            Location::Global => append_str(&mut chars, "global_"),
            Location::Local => append_str(&mut chars, "local_"),
            Location::Immediate => {
                return None;
            },
        }
        let value = if self.value >= 0 {
            self.value as u64
        } else {
            (self.value - i64::MIN) as u64 + 0x8000_0000_0000_0000
        };
        push_hex(&mut chars, value);
        Some(string_of_all(&chars))
    }
}

impl Value {
    /// The operand as text, where it has one.
    pub fn to_text(&self) -> (text: Option<String>)
        ensures
            text_matches(text, value_text(self@)),
    {
        let mut chars: Vec<char> = Vec::new();
        match self {
            Value::Integer(i) => push_decimal(&mut chars, *i),
            Value::String(text) => {
                append_str(&mut chars, "\"");
                append_str(&mut chars, text.as_str());
                append_str(&mut chars, "\"");
            },
            Value::Pointer(pointer) => {
                return Some(pointer.to_text());
            },
            Value::Variable(variable) => {
                return variable.to_text();
            },
            Value::Array(_) => append_str(&mut chars, "arr"),
            _ => {
                return None;
            },
        }
        Some(string_of_all(&chars))
    }
}

impl Instr {
    /// The instruction as text, `args` being its operands' texts.
    pub fn to_text(&self, args: &Vec<String>) -> (text: String)
        ensures
            text@ == instr_text(self@, args@.map_values(|arg: String| arg@)),
    {
        let mut chars: Vec<char> = Vec::new();
        push_hex_padded(&mut chars, self.offset, 8);
        append_str(&mut chars, " ");
        push_hex_padded(&mut chars, self.opcode as u64, 4);
        append_str(&mut chars, " ");
        if self.bool_inverted {
            append_str(&mut chars, "!");
        }
        assert(chars@ =~= hex_padded(self.offset as nat, 8) + " "@ + hex_padded(
            self.opcode as nat,
            4,
        ) + " "@ + (if self.bool_inverted {
            "!"@
        } else {
            Seq::empty()
        }));
        append_str(&mut chars, self.name.as_str());
        append_str(&mut chars, "(");
        let ghost head = chars@;
        let ghost texts = args@.map_values(|arg: String| arg@);
        let mut i: usize = 0;
        while i < args.len()
            invariant
                i <= args.len(),
                texts == args@.map_values(|arg: String| arg@),
                chars@ == head + joined(texts.take(i as int), ", "@),
            decreases args.len() - i,
        {
            if i > 0 {
                append_str(&mut chars, ", ");
            }
            append_str(&mut chars, args[i].as_str());
            proof {
                let done = texts.take(i + 1);
                assert(done.drop_last() =~= texts.take(i as int));
                assert(done.last() == args[i as int]@);
                if i == 0 {
                    assert(joined(texts.take(0), ", "@) =~= Seq::<char>::empty());
                }
                assert(chars@ =~= head + joined(done, ", "@));
            }
            i += 1;
        }
        assert(texts.take(i as int) =~= texts);
        append_str(&mut chars, ")");
        string_of_all(&chars)
    }
}

} // verus!
