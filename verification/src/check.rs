//! The compatibility verdict on a script.

use crate::command::{Command, CommandTable};
use crate::disasm::{decodes, disassemble, is_instruction_map, reachable};
use crate::instr::{decode_instr, Instr};
use std::collections::HashMap;
use vstd::prelude::*;
use vstd::std_specs::iter::IteratorSpec;

verus! {

/// Why a script may not run here.
#[derive(Debug, Clone, Copy, PartialEq, Eq, Structural)]
pub enum CompatIssue {
    /// The script relies on things that only exist on Android, such as
    /// hardcoded memory addresses or symbol names.
    AndroidSpecific,
    /// The script uses a command that is not implemented yet.
    NotImpl,
    /// Nothing can be said of the script, because the check could not be
    /// made. The check itself never gives this: it is for those who call it.
    CheckFailed,
}

impl CompatIssue {
    /// The issue in words.
    pub fn message(&self) -> (text: &'static str)
        ensures
            text@ == match self {
                CompatIssue::AndroidSpecific => "Script uses Android-specific code."@,
                CompatIssue::NotImpl => "Script uses features not yet present on iOS."@,
                CompatIssue::CheckFailed => "Unable to complete script check on this script."@,
            },
    {
        match self {
            CompatIssue::AndroidSpecific => "Script uses Android-specific code.",
            CompatIssue::NotImpl => "Script uses features not yet present on iOS.",
            CompatIssue::CheckFailed => "Unable to complete script check on this script.",
        }
    }
}

/// The issue that a command raises by being used.
pub open spec fn spec_issue_of(opcode: u16) -> Option<CompatIssue> {
    if opcode == 0x0dd5 || opcode == 0x0dd6 || 0x0de1 <= opcode <= 0x0df6 {
        Some(CompatIssue::NotImpl)
    } else if 0x0dd0 <= opcode <= 0x0ddb || opcode == 0x0dde {
        Some(CompatIssue::AndroidSpecific)
    } else {
        None
    }
}

/// The issue that a command raises by being used.
pub fn issue_of(opcode: u16) -> (issue: Option<CompatIssue>)
    ensures
        issue == spec_issue_of(opcode),
{
    match opcode {
        0x0dd5 | 0x0dd6 | 0x0de1..=0x0df6 => Some(CompatIssue::NotImpl),
        0x0dd0..=0x0ddb | 0x0dde => Some(CompatIssue::AndroidSpecific),
        _ => None,
    }
}

/// Whether `offset` is the lowest offset that `flag` marks.
pub open spec fn is_lowest(flag: spec_fn(u64) -> Option<CompatIssue>, offset: u64) -> bool {
    &&& flag(offset) is Some
    &&& forall|lower: u64| lower < offset ==> (#[trigger] flag(lower)) is None
}

/// What `flag` marks the lowest offset with that it marks, if it marks any.
pub open spec fn lowest_flagged(flag: spec_fn(u64) -> Option<CompatIssue>) -> Option<CompatIssue> {
    if exists|offset: u64| is_lowest(flag, offset) {
        flag(choose|offset: u64| is_lowest(flag, offset))
    } else {
        None
    }
}

/// The issue that each instruction of a map raises, by its offset.
pub open spec fn issues_in(instrs: Map<u64, Instr>) -> spec_fn(u64) -> Option<CompatIssue> {
    |offset: u64|
        if instrs.contains_key(offset) {
            spec_issue_of(instrs[offset].opcode)
        } else {
            None
        }
}

/// The verdict on an instruction map: the issue that the instruction at the
/// lowest offset raises among those that raise one, or none where no
/// instruction raises any.
pub open spec fn verdict(instrs: Map<u64, Instr>) -> Option<CompatIssue> {
    lowest_flagged(issues_in(instrs))
}

/// The one mark that can be the lowest decides.
pub proof fn lemma_lowest_flagged(flag: spec_fn(u64) -> Option<CompatIssue>, offset: u64)
    requires
        is_lowest(flag, offset),
    ensures
        lowest_flagged(flag) == flag(offset),
{
    let chosen = choose|offset: u64| is_lowest(flag, offset);
    if chosen < offset {
        assert(flag(chosen) is None);
    }
    if offset < chosen {
        assert(flag(offset) is None);
    }
}

/// Where nothing is marked there is no issue.
pub proof fn lemma_none_flagged(flag: spec_fn(u64) -> Option<CompatIssue>)
    requires
        forall|offset: u64| (#[trigger] flag(offset)) is None,
    ensures
        lowest_flagged(flag) is None,
{
}

/// Among the offsets that are marked there is a lowest.
pub proof fn lemma_least_flagged(flag: spec_fn(u64) -> Option<CompatIssue>, offset: u64)
    requires
        flag(offset) is Some,
    ensures
        exists|least: u64| least <= offset && is_lowest(flag, least),
    decreases offset,
{
    if exists|lower: u64| lower < offset && (#[trigger] flag(lower)) is Some {
        let lower = choose|lower: u64| lower < offset && (#[trigger] flag(lower)) is Some;
        lemma_least_flagged(flag, lower);
        let least = choose|least: u64| least <= lower && is_lowest(flag, least);
        assert(least <= offset && is_lowest(flag, least));
    } else {
        assert(is_lowest(flag, offset));
    }
}

/// The verdict on a map is none exactly where no instruction of the map
/// raises an issue. An issue that it gives is one that an instruction of the
/// map raises, and never that the check failed.
pub proof fn lemma_verdict(instrs: Map<u64, Instr>)
    ensures
        verdict(instrs) is None <==> forall|offset: u64| #[trigger]
            instrs.contains_key(offset) ==> spec_issue_of(instrs[offset].opcode) is None,
        verdict(instrs) is Some ==> exists|offset: u64| #[trigger]
            instrs.contains_key(offset) && spec_issue_of(instrs[offset].opcode) == verdict(
                instrs,
            ),
        verdict(instrs) != Some(CompatIssue::CheckFailed),
{
    let flag = issues_in(instrs);
    if exists|offset: u64| is_lowest(flag, offset) {
        let least = choose|offset: u64| is_lowest(flag, offset);
        assert(instrs.contains_key(least));
    } else {
        assert forall|offset: u64| #[trigger] instrs.contains_key(offset) implies spec_issue_of(
            instrs[offset].opcode,
        ) is None by {
            if flag(offset) is Some {
                lemma_least_flagged(flag, offset);
            }
        }
    }
}

/// Gives the verdict on an instruction map. The map is walked whole, and the
/// lowest offset that raises an issue decides, so that the verdict does not
/// hang on the order in which the map yields its instructions.
pub fn classify(instrs: &HashMap<u64, Instr>) -> (issue: Option<CompatIssue>)
    ensures
        issue == verdict(instrs@),
{
    let mut lowest: Option<(u64, CompatIssue)> = None;
    for pair in it: instrs.iter()
        invariant
            it.seq() == instrs.iter().remaining(),
            match lowest {
                Some((at, issue)) => {
                    &&& instrs@.contains_key(at)
                    &&& spec_issue_of(instrs@[at].opcode) == Some(issue)
                    &&& forall|j: int|
                        0 <= j < it.index() && spec_issue_of((#[trigger] it.seq()[j]).1.opcode)
                            is Some ==> at <= *it.seq()[j].0
                },
                None => forall|j: int|
                    0 <= j < it.index() ==> spec_issue_of((#[trigger] it.seq()[j]).1.opcode)
                        is None,
            },
    {
        let (offset, instr) = pair;
        if let Some(issue) = issue_of(instr.opcode) {
            let lower = match lowest {
                Some((at, _)) => *offset < at,
                None => true,
            };
            if lower {
                lowest = Some((*offset, issue));
            }
        }
    }
    proof {
        let flag = issues_in(instrs@);
        let pairs = instrs.iter().remaining();
        match lowest {
            Some((at, issue)) => {
                assert forall|lower: u64| lower < at implies (#[trigger] flag(lower)) is None by {
                    if instrs@.contains_key(lower) {
                        assert(pairs.contains((&lower, &instrs@[lower])));
                        let j = choose|j: int|
                            0 <= j < pairs.len() && pairs[j] == (&lower, &instrs@[lower]);
                        assert(*pairs[j].0 == lower);
                    }
                }
                lemma_lowest_flagged(flag, at);
            },
            None => {
                assert forall|offset: u64| (#[trigger] flag(offset)) is None by {
                    if instrs@.contains_key(offset) {
                        assert(pairs.contains((&offset, &instrs@[offset])));
                        let j = choose|j: int|
                            0 <= j < pairs.len() && pairs[j] == (&offset, &instrs@[offset]);
                        assert(*pairs[j].1 == instrs@[offset]);
                    }
                }
                lemma_none_flagged(flag);
            },
        }
    }
    match lowest {
        Some((_, issue)) => Some(issue),
        None => None,
    }
}

/// The issue that a script raises at each offset: that of the instruction
/// there, where one decodes and the offset can be reached from the entry.
pub open spec fn script_issues(commands: Map<u16, Command>, bytes: Seq<u8>) -> spec_fn(u64) -> Option<
    CompatIssue,
> {
    |offset: u64|
        if reachable(commands, bytes, offset) && decodes(commands, bytes, offset) {
            spec_issue_of(decode_instr(commands, bytes, offset as int)->Ok_0.0.opcode)
        } else {
            None
        }
}

/// The verdict on a script: the issue that its reachable code raises at the
/// lowest offset at which it raises one.
pub open spec fn script_verdict(commands: Map<u16, Command>, bytes: Seq<u8>) -> Option<CompatIssue> {
    lowest_flagged(script_issues(commands, bytes))
}

/// The verdict on a script's instruction map is the verdict on the script.
pub proof fn lemma_map_verdict(commands: Map<u16, Command>, bytes: Seq<u8>, instrs: Map<u64, Instr>)
    requires
        is_instruction_map(commands, bytes, instrs),
    ensures
        verdict(instrs) == script_verdict(commands, bytes),
{
    assert(issues_in(instrs) =~= script_issues(commands, bytes));
}

/// A script that is checked against a table without commands raises no
/// issue.
pub proof fn lemma_nothing_known_raises_nothing(bytes: Seq<u8>)
    ensures
        script_verdict(Map::empty(), bytes) is None,
{
    let flag = script_issues(Map::empty(), bytes);
    assert forall|offset: u64| (#[trigger] flag(offset)) is None by {}
    lemma_none_flagged(flag);
}

/// A script has one instruction map. Whatever two explorations of the same
/// bytes under the same commands give holds the same offsets, as many of
/// them, the same instruction at each, and gets the same verdict.
pub proof fn lemma_instruction_map_unique(
    commands: Map<u16, Command>,
    bytes: Seq<u8>,
    first: Map<u64, Instr>,
    second: Map<u64, Instr>,
)
    requires
        is_instruction_map(commands, bytes, first),
        is_instruction_map(commands, bytes, second),
    ensures
        first.dom() == second.dom(),
        first.len() == second.len(),
        forall|offset: u64| #[trigger]
            first.contains_key(offset) ==> first[offset]@ == second[offset]@,
        verdict(first) == verdict(second),
{
    assert(first.dom() =~= second.dom());
    lemma_map_verdict(commands, bytes, first);
    lemma_map_verdict(commands, bytes, second);
}

/// Checks a script against the known commands: explores the code that the
/// script can reach and gives the verdict on it. `None` says that nothing
/// was found against the script. The check cannot fail: a script of which
/// nothing decodes raises no issue.
pub fn check_bytecode(commands: &CommandTable, bytes: &[u8]) -> (r: Result<
    Option<CompatIssue>,
    String,
>)
    ensures
        r is Ok,
        r->Ok_0 == script_verdict(commands@, bytes@),
{
    let instruction_map = disassemble(commands, bytes);
    proof {
        lemma_map_verdict(commands@, bytes@, instruction_map@);
    }
    Ok(classify(&instruction_map))
}

} // verus!
