use cleo::command::{Command, CommandTable, Param, ParamType};
use cleo::stream::DecodeError;
use cleo::value::{Location, Pointer, Value, Variable};

fn param(param_type: ParamType) -> Param {
    Param { param_type, location: Location::Immediate, is_variadic: false, is_output: false }
}

fn command(opcode: u16, name: &str, params: Vec<Param>) -> Command {
    Command { opcode, name: name.to_string(), returns: false, params }
}

#[test]
fn a_pointer_parameter_takes_an_integer_for_a_pointer() {
    let pointer = param(ParamType::Pointer);
    assert_eq!(
        pointer.read(&[0x01, 0xf9, 0xff, 0xff, 0xff], 0),
        Ok((Value::Pointer(Pointer::from_i64(-7)), 5))
    );
    assert_eq!(pointer.read(&[0x04, 0x09], 0), Ok((Value::Pointer(Pointer::from_i64(9)), 2)));
    assert_eq!(
        pointer.read(&[0x05, 0x00, 0x80], 0),
        Ok((Value::Pointer(Pointer::from_i64(-32768)), 3))
    );
}

#[test]
fn a_pointer_parameter_leaves_other_operands_as_they_are() {
    let pointer = param(ParamType::Pointer);
    assert_eq!(
        pointer.read(&[0x02, 0x08, 0x00], 0),
        Ok((Value::Variable(Variable { value: 8, location: Location::Global }), 3))
    );
    assert_eq!(pointer.read(b"\x0e\x02hi", 0), Ok((Value::String("hi".to_string()), 4)));
}

#[test]
fn other_parameters_leave_integers_as_they_are() {
    for param_type in [
        ParamType::Integer,
        ParamType::String,
        ParamType::Real,
        ParamType::Model,
        ParamType::End,
        ParamType::Buffer,
        ParamType::Any,
    ] {
        assert_eq!(param(param_type).read(&[0x04, 0xff], 0), Ok((Value::Integer(-1), 2)));
    }
}

#[test]
fn a_parameter_fails_as_its_operand_fails() {
    let pointer = param(ParamType::Pointer);
    assert_eq!(pointer.read(&[0x01, 0xf9], 0), Err(DecodeError::UnexpectedEof));
    assert_eq!(pointer.read(&[0x00], 0), Err(DecodeError::UnknownTypeId(0)));
    assert_eq!(pointer.read(&[], 0), Err(DecodeError::UnexpectedEof));
}

fn variadic(param_type: ParamType) -> Param {
    Param { param_type, location: Location::Immediate, is_variadic: true, is_output: false }
}

#[test]
fn a_variadic_parameter_takes_the_operands_up_to_the_end_byte() {
    let any = variadic(ParamType::Any);
    let bytes = [0x04, 0x01, 0x05, 0x34, 0x12, 0x03, 0x08, 0x00, 0x00];
    assert_eq!(
        any.read(&bytes, 0),
        Ok((
            Value::VarArgs(vec![
                Value::Integer(1),
                Value::Integer(0x1234),
                Value::Variable(Variable { value: 8, location: Location::Local }),
            ]),
            9
        ))
    );
}

#[test]
fn a_variadic_parameter_may_find_no_operand() {
    let any = variadic(ParamType::Any);
    assert_eq!(any.read(&[0x00], 0), Ok((Value::VarArgs(vec![]), 1)));
    assert_eq!(any.read(&[0x04, 0x01, 0x00, 0x04], 2), Ok((Value::VarArgs(vec![]), 3)));
}

#[test]
fn a_variadic_parameter_stops_at_the_first_end_byte() {
    let any = variadic(ParamType::Any);
    let bytes = [0x04, 0x01, 0x00, 0x04, 0x02, 0x00];
    assert_eq!(any.read(&bytes, 0), Ok((Value::VarArgs(vec![Value::Integer(1)]), 3)));
    assert_eq!(any.read(&bytes, 3), Ok((Value::VarArgs(vec![Value::Integer(2)]), 6)));
}

#[test]
fn a_zero_inside_an_operand_does_not_end_the_list() {
    let any = variadic(ParamType::Any);
    let bytes = [0x04, 0x00, 0x01, 0x00, 0x00, 0x00, 0x00, b'\x0e', 0x02, 0x00, b'x', 0x00];
    assert_eq!(
        any.read(&bytes, 0),
        Ok((
            Value::VarArgs(vec![
                Value::Integer(0),
                Value::Integer(0),
                Value::String(String::new()),
            ]),
            12
        ))
    );
}

#[test]
fn a_variadic_parameter_fails_without_an_end_byte() {
    let any = variadic(ParamType::Any);
    assert_eq!(any.read(&[], 0), Err(DecodeError::UnexpectedEof));
    assert_eq!(any.read(&[0x04, 0x01], 0), Err(DecodeError::UnexpectedEof));
    assert_eq!(any.read(&[0x04, 0x01, 0x04, 0x02], 0), Err(DecodeError::UnexpectedEof));
    assert_eq!(any.read(&[0x00], 1), Err(DecodeError::UnexpectedEof));
}

#[test]
fn a_variadic_parameter_fails_as_its_first_failing_operand() {
    let any = variadic(ParamType::Any);
    assert_eq!(
        any.read(&[0x04, 0x01, 0x14, 0x02, 0x00], 0),
        Err(DecodeError::UnknownTypeId(0x14))
    );
    assert_eq!(
        any.read(&[0x04, 0x01, 0x01, 0x02, 0x00], 0),
        Err(DecodeError::UnexpectedEof)
    );
    assert_eq!(
        any.read(&[0x20, 0x14, 0x00], 0),
        Err(DecodeError::UnknownTypeId(0x20))
    );
}

#[test]
fn the_operands_of_a_list_stand_as_they_decode() {
    let pointers = variadic(ParamType::Pointer);
    assert_eq!(
        pointers.read(&[0x01, 0xf9, 0xff, 0xff, 0xff, 0x04, 0x09, 0x00], 0),
        Ok((Value::VarArgs(vec![Value::Integer(-7), Value::Integer(9)]), 8))
    );
}

#[test]
fn the_end_byte_is_an_unknown_tag_where_one_operand_is_due() {
    let any = param(ParamType::Any);
    assert_eq!(any.read(&[0x00], 0), Err(DecodeError::UnknownTypeId(0)));
    assert_eq!(param(ParamType::End).read(&[0x00], 0), Err(DecodeError::UnknownTypeId(0)));
}

#[test]
fn an_empty_table_knows_no_opcode() {
    let table = CommandTable::new();
    assert_eq!(table.len(), 0);
    assert!(table.lookup(0).is_none());
    assert!(table.lookup(0x0051).is_none());
}

#[test]
fn a_table_finds_each_command_under_its_opcode() {
    let table = CommandTable::from_commands(vec![
        command(0x0002, "goto", vec![param(ParamType::Pointer)]),
        command(0x0051, "return", vec![]),
    ]);
    assert_eq!(table.len(), 2);
    assert_eq!(
        table.lookup(0x0002),
        Some(&command(0x0002, "goto", vec![param(ParamType::Pointer)]))
    );
    assert_eq!(table.lookup(0x0051), Some(&command(0x0051, "return", vec![])));
    assert!(table.lookup(0x0050).is_none());
}

#[test]
fn a_later_command_takes_the_place_of_an_earlier_one() {
    let table = CommandTable::from_commands(vec![
        command(0x0001, "first", vec![]),
        command(0x0002, "other", vec![]),
        command(0x0001, "second", vec![param(ParamType::Integer)]),
    ]);
    assert_eq!(table.len(), 2);
    assert_eq!(table.lookup(0x0001).unwrap().name, "second");
    assert_eq!(table.lookup(0x0002).unwrap().name, "other");
}

#[test]
fn a_table_of_what_failed_to_load_is_empty() {
    assert_eq!(CommandTable::from_loaded(None).len(), 0);
    let loaded = CommandTable::from_loaded(Some(vec![command(0x0051, "return", vec![])]));
    assert_eq!(loaded.len(), 1);
    assert_eq!(loaded.lookup(0x0051).unwrap().name, "return");
}
