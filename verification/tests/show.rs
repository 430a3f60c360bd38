use cleo::instr::Instr;
use cleo::stream::DecodeError;
use cleo::value::{Array, Location, Pointer, Value, Variable};

fn variable(value: i64, location: Location) -> Variable {
    Variable { value, location }
}

fn instr(offset: u64, opcode: u16, name: &str, bool_inverted: bool) -> Instr {
    Instr { opcode, name: name.to_string(), offset, bool_inverted, args: Vec::new() }
}

fn texts(args: &[&str]) -> Vec<String> {
    args.iter().map(|arg| arg.to_string()).collect()
}

#[test]
fn a_local_pointer_is_written_as_its_offset() {
    assert_eq!(Pointer::from_i64(-0x1f).to_text(), "0x1f");
    assert_eq!(Pointer::from_i64(-1).to_text(), "0x1");
    assert_eq!(Pointer::from_i64(-255).to_text(), "0xff");
    assert_eq!(Pointer::from_i64(-256).to_text(), "0x100");
    assert_eq!(Pointer::from_i64(-0xdead_beef).to_text(), "0xdeadbeef");
    assert_eq!(Pointer::from_i64(i64::MIN).to_text(), "0x8000000000000000");
}

#[test]
fn another_pointer_is_written_as_global() {
    assert_eq!(Pointer::from_i64(0x1f).to_text(), "Global(0x1f)");
    assert_eq!(Pointer::from_i64(0).to_text(), "Global(0x0)");
    assert_eq!(Pointer::from_i64(i64::MAX).to_text(), "Global(0x7fffffffffffffff)");
}

#[test]
fn pointers_are_written_as_numbers_are_formatted() {
    for raw in (-70_000i64..70_000).step_by(13).chain([i64::MIN, i64::MIN + 1, i64::MAX]) {
        let pointer = Pointer::from_i64(raw);
        let expected = if raw < 0 {
            format!("{:#x}", raw.unsigned_abs())
        } else {
            format!("Global({:#x})", raw)
        };
        assert_eq!(pointer.to_text(), expected);
    }
}

#[test]
fn a_variable_is_written_after_its_storage_class() {
    assert_eq!(variable(8, Location::Global).to_text(), Some("global_0x8".to_string()));
    assert_eq!(variable(0xffff, Location::Local).to_text(), Some("local_0xffff".to_string()));
    assert_eq!(variable(0, Location::Local).to_text(), Some("local_0x0".to_string()));
    assert_eq!(variable(0x1a2b, Location::Global).to_text(), Some("global_0x1a2b".to_string()));
}

#[test]
fn a_negative_identifier_is_written_in_two_s_complement() {
    assert_eq!(
        variable(-1, Location::Global).to_text(),
        Some("global_0xffffffffffffffff".to_string())
    );
    assert_eq!(
        variable(i64::MIN, Location::Local).to_text(),
        Some("local_0x8000000000000000".to_string())
    );
    for value in [-2i64, -16, -255, -65536, i64::MIN + 1, i64::MAX] {
        assert_eq!(
            variable(value, Location::Local).to_text(),
            Some(format!("local_{:#x}", value))
        );
    }
}

#[test]
fn an_immediate_variable_has_no_text() {
    assert_eq!(variable(8, Location::Immediate).to_text(), None);
    assert_eq!(Value::Variable(variable(8, Location::Immediate)).to_text(), None);
}

#[test]
fn an_integer_is_written_in_decimal() {
    assert_eq!(Value::Integer(0).to_text(), Some("0".to_string()));
    assert_eq!(Value::Integer(7).to_text(), Some("7".to_string()));
    assert_eq!(Value::Integer(10).to_text(), Some("10".to_string()));
    assert_eq!(Value::Integer(-123).to_text(), Some("-123".to_string()));
    assert_eq!(Value::Integer(1_000_000).to_text(), Some("1000000".to_string()));
    assert_eq!(Value::Integer(i64::MAX).to_text(), Some("9223372036854775807".to_string()));
    assert_eq!(Value::Integer(i64::MIN).to_text(), Some("-9223372036854775808".to_string()));
}

#[test]
fn integers_are_written_as_numbers_are_formatted() {
    for i in (-100_000i64..100_000).step_by(7).chain([i64::MIN, i64::MIN + 1, i64::MAX - 1]) {
        assert_eq!(Value::Integer(i).to_text(), Some(format!("{}", i)));
    }
}

#[test]
fn a_text_is_written_between_quotes() {
    assert_eq!(Value::String("MAIN".to_string()).to_text(), Some("\"MAIN\"".to_string()));
    assert_eq!(Value::String(String::new()).to_text(), Some("\"\"".to_string()));
    assert_eq!(Value::String("a\"b \u{e9}".to_string()).to_text(), Some("\"a\"b \u{e9}\"".to_string()));
}

#[test]
fn other_operands_as_text() {
    assert_eq!(Value::Array(Array).to_text(), Some("arr".to_string()));
    assert_eq!(Value::Pointer(Pointer::from_i64(-9)).to_text(), Some("0x9".to_string()));
    assert_eq!(Value::Pointer(Pointer::from_i64(9)).to_text(), Some("Global(0x9)".to_string()));
    assert_eq!(
        Value::Variable(variable(3, Location::Local)).to_text(),
        Some("local_0x3".to_string())
    );
}

#[test]
fn operands_without_text() {
    assert_eq!(Value::Real(0x3fc0_0000).to_text(), None);
    assert_eq!(Value::Model(5).to_text(), None);
    assert_eq!(Value::Buffer("x".to_string()).to_text(), None);
    assert_eq!(Value::VarArgs(vec![Value::Integer(1)]).to_text(), None);
}

#[test]
fn an_instruction_without_operands_as_text() {
    assert_eq!(instr(0, 0x0051, "return", false).to_text(&vec![]), "00000000 0051 return()");
}

#[test]
fn an_instruction_with_operands_as_text() {
    assert_eq!(
        instr(0x1f, 0x00d6, "if", true).to_text(&texts(&["5"])),
        "0000001f 00d6 !if(5)"
    );
    assert_eq!(
        instr(0xabcdef, 0x0871, "switch_start", false).to_text(&texts(&[
            "local_0x1",
            "3",
            "0x64",
            "\"x\"",
            "1.5f"
        ])),
        "00abcdef 0871 switch_start(local_0x1, 3, 0x64, \"x\", 1.5f)"
    );
    assert_eq!(
        instr(7, 0x0002, "goto", false).to_text(&texts(&["", ""])),
        "00000007 0002 goto(, )"
    );
}

#[test]
fn wide_numbers_take_the_room_that_they_need() {
    assert_eq!(
        instr(0x1_2345_6789, 0x7fff, "", false).to_text(&vec![]),
        "123456789 7fff ()"
    );
    assert_eq!(
        instr(u64::MAX, 0xffff, "x", true).to_text(&vec![]),
        "ffffffffffffffff ffff !x()"
    );
}

#[test]
fn instructions_are_written_as_numbers_are_formatted() {
    for offset in (0u64..3_000_000).step_by(4099).chain([0xffff_ffff, 0x1_0000_0000, u64::MAX]) {
        let opcode = (offset % 0x8000) as u16;
        assert_eq!(
            instr(offset, opcode, "nop", false).to_text(&texts(&["a", "b"])),
            format!("{:08x} {:04x} {}{}({})", offset, opcode, "", "nop", "a, b")
        );
    }
}

#[test]
fn decoding_errors_in_words() {
    assert_eq!(DecodeError::UnexpectedEof.to_text(), "failed to fill whole buffer");
    assert_eq!(DecodeError::UnknownTypeId(0).to_text(), "Unknown type ID '0'");
    assert_eq!(DecodeError::UnknownTypeId(20).to_text(), "Unknown type ID '20'");
    assert_eq!(DecodeError::UnknownTypeId(255).to_text(), "Unknown type ID '255'");
    assert_eq!(DecodeError::UnknownOpcode(0).to_text(), "unknown opcode 0x0");
    assert_eq!(DecodeError::UnknownOpcode(0x7fff).to_text(), "unknown opcode 0x7fff");
    assert_eq!(DecodeError::UnknownOpcode(0x0dd5).to_text(), "unknown opcode 0xdd5");
}
