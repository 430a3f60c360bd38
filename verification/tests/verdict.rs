use cleo::check::{check_bytecode, classify, issue_of, CompatIssue};
use cleo::command::{Command, CommandTable, Param, ParamType};
use cleo::disasm::disassemble;
use cleo::instr::Instr;
use cleo::value::Location;
use std::collections::HashMap;

fn plain(opcode: u16, name: &str) -> Command {
    Command { opcode, name: name.to_string(), returns: false, params: Vec::new() }
}

fn table() -> CommandTable {
    CommandTable::from_commands(vec![
        plain(0x0000, "nop"),
        Command {
            opcode: 0x0002,
            name: "goto".to_string(),
            returns: false,
            params: vec![Param {
                param_type: ParamType::Pointer,
                location: Location::Immediate,
                is_variadic: false,
                is_output: false,
            }],
        },
        plain(0x0051, "return"),
        plain(0x0dd5, "get_platform"),
        plain(0x0dd2, "context_call_func"),
    ])
}

fn instr(opcode: u16, offset: u64) -> Instr {
    Instr { opcode, name: String::new(), offset, bool_inverted: false, args: Vec::new() }
}

fn map_of(opcodes: &[(u64, u16)]) -> HashMap<u64, Instr> {
    opcodes.iter().map(|&(offset, opcode)| (offset, instr(opcode, offset))).collect()
}

#[test]
fn lone_return_raises_no_issue() {
    let commands = table();
    let script = [0x51, 0x00];
    assert_eq!(check_bytecode(&commands, &script), Ok(None));
    assert_eq!(disassemble(&commands, &script).len(), 1);
}

#[test]
fn unimplemented_command_is_reported() {
    let commands = table();
    assert_eq!(check_bytecode(&commands, &[0xd5, 0x0d]), Ok(Some(CompatIssue::NotImpl)));
}

#[test]
fn android_command_is_reported() {
    let commands = table();
    assert_eq!(check_bytecode(&commands, &[0xd2, 0x0d]), Ok(Some(CompatIssue::AndroidSpecific)));
}

#[test]
fn an_inverted_opcode_is_reported_as_the_plain_one() {
    let commands = table();
    assert_eq!(check_bytecode(&commands, &[0xd5, 0x8d]), Ok(Some(CompatIssue::NotImpl)));
}

#[test]
fn checking_twice_gives_the_same() {
    let commands = table();
    let script = [0x00, 0x00, 0xd2, 0x0d, 0xd5, 0x0d, 0x51, 0x00];
    let first = check_bytecode(&commands, &script);
    let second = check_bytecode(&commands, &script);
    assert_eq!(first, second);
    assert_eq!(first, Ok(Some(CompatIssue::AndroidSpecific)));
    let first_map = disassemble(&commands, &script);
    let second_map = disassemble(&commands, &script);
    assert_eq!(first_map.len(), 4);
    assert_eq!(first_map, second_map);
}

#[test]
fn the_lowest_offset_decides() {
    let commands = table();
    assert_eq!(
        check_bytecode(&commands, &[0xd2, 0x0d, 0xd5, 0x0d]),
        Ok(Some(CompatIssue::AndroidSpecific))
    );
    assert_eq!(
        check_bytecode(&commands, &[0xd5, 0x0d, 0xd2, 0x0d]),
        Ok(Some(CompatIssue::NotImpl))
    );
    assert_eq!(
        check_bytecode(&commands, &[0x00, 0x00, 0xd5, 0x0d, 0x00, 0x00, 0xd2, 0x0d]),
        Ok(Some(CompatIssue::NotImpl))
    );
}

#[test]
fn code_that_is_never_reached_raises_nothing() {
    let commands = table();
    assert_eq!(check_bytecode(&commands, &[0x51, 0x00, 0xd5, 0x0d]), Ok(None));
    // 0: goto 9; 7: get_platform; 9: return
    let script = [0x02, 0x00, 0x01, 0xf7, 0xff, 0xff, 0xff, 0xd5, 0x0d, 0x51, 0x00];
    assert_eq!(check_bytecode(&commands, &script), Ok(None));
}

#[test]
fn a_script_of_which_nothing_decodes_raises_nothing() {
    assert_eq!(check_bytecode(&table(), &[]), Ok(None));
    assert_eq!(check_bytecode(&table(), &[0xd5]), Ok(None));
    assert_eq!(check_bytecode(&CommandTable::new(), &[0xd5, 0x0d]), Ok(None));
}

#[test]
fn an_empty_map_raises_nothing() {
    assert_eq!(classify(&HashMap::new()), None);
}

#[test]
fn a_map_without_marked_opcodes_raises_nothing() {
    assert_eq!(classify(&map_of(&[(0, 0x0001), (4, 0x0dcf), (9, 0x0df7), (11, 0x0051)])), None);
}

#[test]
fn a_map_is_judged_by_its_lowest_marked_offset() {
    let map = map_of(&[(0, 0x0001), (40, 0x0dd5), (9, 0x0dd0), (77, 0x0de1), (5, 0x0000)]);
    assert_eq!(classify(&map), Some(CompatIssue::AndroidSpecific));
    let map = map_of(&[(0, 0x0001), (40, 0x0dd0), (9, 0x0df6), (77, 0x0dde), (5, 0x0000)]);
    assert_eq!(classify(&map), Some(CompatIssue::NotImpl));
    let map = map_of(&[(u64::MAX, 0x0dd6), (0, 0x0dde)]);
    assert_eq!(classify(&map), Some(CompatIssue::AndroidSpecific));
}

#[test]
fn opcodes_that_are_not_implemented() {
    assert_eq!(issue_of(0x0dd5), Some(CompatIssue::NotImpl));
    assert_eq!(issue_of(0x0dd6), Some(CompatIssue::NotImpl));
    for opcode in 0x0de1u16..=0x0df6 {
        assert_eq!(issue_of(opcode), Some(CompatIssue::NotImpl));
    }
}

#[test]
fn opcodes_that_are_android_specific() {
    for opcode in [0x0dd0u16, 0x0dd1, 0x0dd2, 0x0dd3, 0x0dd4, 0x0dd7, 0x0dd8, 0x0dd9, 0x0dda, 0x0ddb]
    {
        assert_eq!(issue_of(opcode), Some(CompatIssue::AndroidSpecific));
    }
    assert_eq!(issue_of(0x0dde), Some(CompatIssue::AndroidSpecific));
}

#[test]
fn opcodes_that_raise_nothing() {
    for opcode in [0x0000u16, 0x0051, 0x0dcf, 0x0ddc, 0x0ddd, 0x0ddf, 0x0de0, 0x0df7, 0x7fff] {
        assert_eq!(issue_of(opcode), None);
    }
    let marked = (0u16..=0xffff).filter(|&opcode| issue_of(opcode).is_some()).count();
    assert_eq!(marked, 2 + 22 + 10 + 1);
}

#[test]
fn issues_in_words() {
    assert_eq!(CompatIssue::AndroidSpecific.message(), "Script uses Android-specific code.");
    assert_eq!(CompatIssue::NotImpl.message(), "Script uses features not yet present on iOS.");
    assert_eq!(
        CompatIssue::CheckFailed.message(),
        "Unable to complete script check on this script."
    );
}
