//! Exploration of the instructions that a script can reach from its entry.

use crate::command::{Command, CommandTable};
use crate::instr::{
    decode_instr, lemma_decode_instr_bounds, local_targets, successors, Instr, OPCODE_GOTO,
    OPCODE_RETURN,
};
use std::collections::HashMap;
use vstd::prelude::*;
use vstd::set_lib::lemma_len_subset;

verus! {

/// The offset at which a script is entered.
pub const ENTRY: u64 = 0;

/// Whether an instruction decodes at `offset`.
pub open spec fn decodes(commands: Map<u16, Command>, bytes: Seq<u8>, offset: u64) -> bool {
    decode_instr(commands, bytes, offset as int) is Ok
}

/// Whether control may pass from `from` to `to`: an instruction decodes at
/// `from`, and `to` is among its successors.
pub open spec fn edge(commands: Map<u16, Command>, bytes: Seq<u8>, from: u64, to: u64) -> bool {
    match decode_instr(commands, bytes, from as int) {
        Ok((instr, next)) => successors(instr, next as u64).contains(to),
        Err(_) => false,
    }
}

/// Whether `path` leads from the entry along successor edges.
pub open spec fn is_path(commands: Map<u16, Command>, bytes: Seq<u8>, path: Seq<u64>) -> bool {
    &&& path.len() > 0
    &&& path[0] == ENTRY
    &&& forall|i: int|
        #![trigger path[i]]
        0 <= i < path.len() - 1 ==> edge(commands, bytes, path[i], path[i + 1])
}

/// Whether a finite chain of successor edges leads from the entry to `offset`.
pub open spec fn reachable(commands: Map<u16, Command>, bytes: Seq<u8>, offset: u64) -> bool {
    exists|path: Seq<u64>| #[trigger] is_path(commands, bytes, path) && path.last() == offset
}

/// Whether `instrs` is the instruction map of the script: it holds the
/// offsets that can be reached from the entry and at which an instruction
/// decodes, no others, and at each of them that instruction.
pub open spec fn is_instruction_map(
    commands: Map<u16, Command>,
    bytes: Seq<u8>,
    instrs: Map<u64, Instr>,
) -> bool {
    &&& forall|offset: u64| #[trigger]
        instrs.contains_key(offset) <==> reachable(commands, bytes, offset) && decodes(
            commands,
            bytes,
            offset,
        )
    &&& forall|offset: u64| #[trigger]
        instrs.contains_key(offset) ==> instrs[offset]@ == decode_instr(
            commands,
            bytes,
            offset as int,
        )->Ok_0.0
}

/// The entry can be reached.
pub proof fn lemma_entry_reachable(commands: Map<u16, Command>, bytes: Seq<u8>)
    ensures
        reachable(commands, bytes, ENTRY),
{
    let path = seq![ENTRY];
    assert(is_path(commands, bytes, path) && path.last() == ENTRY);
}

/// What an edge leads to from an offset that can be reached can be reached.
pub proof fn lemma_reachable_step(commands: Map<u16, Command>, bytes: Seq<u8>, from: u64, to: u64)
    requires
        reachable(commands, bytes, from),
        edge(commands, bytes, from, to),
    ensures
        reachable(commands, bytes, to),
{
    let path = choose|path: Seq<u64>| #[trigger]
        is_path(commands, bytes, path) && path.last() == from;
    let longer = path.push(to);
    assert forall|i: int| 0 <= i < longer.len() - 1 implies edge(
        commands,
        bytes,
        #[trigger] longer[i],
        longer[i + 1],
    ) by {
        if i < path.len() - 1 {
            assert(longer[i] == path[i]);
            assert(longer[i + 1] == path[i + 1]);
        }
    }
    assert(is_path(commands, bytes, longer) && longer.last() == to);
}

/// The offsets below `n`.
spec fn offsets_below(n: nat) -> Set<u64> {
    Set::new(|offset: u64| offset < n)
}

/// The offsets below `n` are finitely many, and no more than `n`.
proof fn lemma_offsets_below(n: nat)
    ensures
        offsets_below(n).finite(),
        offsets_below(n).len() <= n,
    decreases n,
{
    if n == 0 {
        assert(offsets_below(n) =~= Set::empty());
    } else {
        lemma_offsets_below((n - 1) as nat);
        if n - 1 <= u64::MAX {
            assert(offsets_below(n) =~= offsets_below((n - 1) as nat).insert((n - 1) as u64));
        } else {
            assert(offsets_below(n) =~= offsets_below((n - 1) as nat));
        }
    }
}

/// An instruction map holds offsets of the script only, each with room for
/// an opcode word after it, so it has fewer instructions than the script has
/// bytes, or none.
pub proof fn lemma_instruction_map_bounds(
    commands: Map<u16, Command>,
    bytes: Seq<u8>,
    instrs: Map<u64, Instr>,
)
    requires
        is_instruction_map(commands, bytes, instrs),
    ensures
        forall|offset: u64| #[trigger] instrs.contains_key(offset) ==> offset + 2 <= bytes.len(),
        instrs.dom().finite(),
        instrs.len() <= bytes.len(),
        instrs.len() > 0 ==> instrs.len() < bytes.len(),
{
    assert forall|offset: u64| #[trigger] instrs.contains_key(offset) implies offset + 2
        <= bytes.len() by {
        lemma_decode_instr_bounds(commands, bytes, offset as int);
    }
    let below = offsets_below((bytes.len() - 1) as nat);
    if bytes.len() > 0 {
        lemma_offsets_below((bytes.len() - 1) as nat);
        assert(instrs.dom().subset_of(below));
        lemma_len_subset(instrs.dom(), below);
    } else {
        assert(instrs.dom() =~= Set::empty());
    }
}

/// An offset at which no instruction decodes is left out of the instruction
/// map and costs the map nothing else: whatever can be reached and decodes
/// is in it.
pub proof fn lemma_failure_is_local(
    commands: Map<u16, Command>,
    bytes: Seq<u8>,
    instrs: Map<u64, Instr>,
    failed: u64,
    other: u64,
)
    requires
        is_instruction_map(commands, bytes, instrs),
        !decodes(commands, bytes, failed),
        reachable(commands, bytes, other),
        decodes(commands, bytes, other),
    ensures
        !instrs.contains_key(failed),
        instrs.contains_key(other),
{
}

/// Under a table without commands nothing decodes, so the instruction map
/// of every script is empty.
pub proof fn lemma_nothing_known(bytes: Seq<u8>, instrs: Map<u64, Instr>)
    requires
        is_instruction_map(Map::empty(), bytes, instrs),
    ensures
        forall|offset: u64| !decodes(Map::empty(), bytes, offset),
        instrs == Map::<u64, Instr>::empty(),
{
    assert(instrs =~= Map::<u64, Instr>::empty());
}

/// The instruction map of a script that starts with a return holds that
/// return and nothing else.
pub proof fn lemma_return_at_entry(
    commands: Map<u16, Command>,
    bytes: Seq<u8>,
    instrs: Map<u64, Instr>,
)
    requires
        is_instruction_map(commands, bytes, instrs),
        decodes(commands, bytes, ENTRY),
        decode_instr(commands, bytes, ENTRY as int)->Ok_0.0.opcode == OPCODE_RETURN,
    ensures
        instrs.dom() == set![ENTRY],
        instrs.len() == 1,
{
    lemma_entry_reachable(commands, bytes);
    assert forall|offset: u64| #[trigger] instrs.contains_key(offset) implies offset == ENTRY by {
        let path = choose|path: Seq<u64>| #[trigger]
            is_path(commands, bytes, path) && path.last() == offset;
        if path.len() > 1 {
            assert(edge(commands, bytes, path[0], path[0int + 1]));
        }
    }
    assert(instrs.contains_key(ENTRY));
    assert(instrs.dom() =~= set![ENTRY]);
}

/// From an unconditional jump at the entry, control passes to the jump's
/// local targets and nowhere else: not to what follows the jump. So every
/// local target at which an instruction decodes is in the instruction map,
/// and whatever else the map holds was reached through one of the targets.
pub proof fn lemma_goto_at_entry(
    commands: Map<u16, Command>,
    bytes: Seq<u8>,
    instrs: Map<u64, Instr>,
)
    requires
        is_instruction_map(commands, bytes, instrs),
        decodes(commands, bytes, ENTRY),
        decode_instr(commands, bytes, ENTRY as int)->Ok_0.0.opcode == OPCODE_GOTO,
    ensures
        ({
            let (jump, next) = decode_instr(commands, bytes, ENTRY as int)->Ok_0;
            let targets = local_targets(jump.args);
            &&& successors(jump, next as u64) == targets
            &&& forall|target: u64|
                targets.contains(target) && decodes(commands, bytes, target)
                    ==> #[trigger] instrs.contains_key(target)
            &&& forall|path: Seq<u64>| #[trigger]
                is_path(commands, bytes, path) && path.len() >= 2 ==> targets.contains(path[1])
        }),
{
    let (jump, next) = decode_instr(commands, bytes, ENTRY as int)->Ok_0;
    let targets = local_targets(jump.args);
    assert(successors(jump, next as u64) =~= targets);
    lemma_entry_reachable(commands, bytes);
    assert forall|target: u64|
        targets.contains(target) && decodes(commands, bytes, target) implies #[trigger]
        instrs.contains_key(target) by {
        lemma_reachable_step(commands, bytes, ENTRY, target);
    }
    assert forall|path: Seq<u64>| #[trigger]
        is_path(commands, bytes, path) && path.len() >= 2 implies targets.contains(path[1]) by {
        assert(edge(commands, bytes, path[0], path[0int + 1]));
    }
}

/// Whether `done` lacks nothing but what `pending` may still bring: the
/// entry and every successor of an offset in `done` is in `done` or in
/// `pending`, unless no instruction decodes there.
spec fn closed_but(
    commands: Map<u16, Command>,
    bytes: Seq<u8>,
    done: Set<u64>,
    pending: Set<u64>,
) -> bool {
    &&& decodes(commands, bytes, ENTRY) ==> done.contains(ENTRY) || pending.contains(ENTRY)
    &&& forall|from: u64, to: u64|
        #![trigger done.contains(from), edge(commands, bytes, from, to)]
        done.contains(from) && edge(commands, bytes, from, to) && decodes(commands, bytes, to)
            ==> done.contains(to) || pending.contains(to)
}

/// A set that lacks nothing holds every offset of a path at which an
/// instruction decodes.
proof fn lemma_closed_holds_path(
    commands: Map<u16, Command>,
    bytes: Seq<u8>,
    done: Set<u64>,
    path: Seq<u64>,
    i: int,
)
    requires
        closed_but(commands, bytes, done, Set::empty()),
        is_path(commands, bytes, path),
        0 <= i < path.len(),
        decodes(commands, bytes, path[i]),
    ensures
        done.contains(path[i]),
    decreases i,
{
    if i > 0 {
        assert(edge(commands, bytes, path[i - 1], path[i - 1 + 1]));
        lemma_closed_holds_path(commands, bytes, done, path, i - 1);
    }
}

/// Whether everything in `instrs` belongs to the instruction map.
spec fn sound(commands: Map<u16, Command>, bytes: Seq<u8>, instrs: Map<u64, Instr>) -> bool {
    forall|offset: u64| #[trigger]
        instrs.contains_key(offset) ==> {
            &&& reachable(commands, bytes, offset)
            &&& decodes(commands, bytes, offset)
            &&& instrs[offset]@ == decode_instr(commands, bytes, offset as int)->Ok_0.0
        }
}

/// Whether every one of `offsets` can be reached.
spec fn all_reachable(commands: Map<u16, Command>, bytes: Seq<u8>, offsets: Seq<u64>) -> bool {
    forall|i: int| 0 <= i < offsets.len() ==> reachable(commands, bytes, #[trigger] offsets[i])
}

/// The offsets that a round has yet to look at: those of `cur` from index
/// `from` on, and those gathered in `new` for the next round.
spec fn pending(cur: Seq<u64>, from: int, new: Seq<u64>) -> Set<u64> {
    Set::new(|offset: u64| cur.skip(from).contains(offset) || new.contains(offset))
}

/// What is sound and lacks nothing is the instruction map.
proof fn lemma_sound_and_closed(
    commands: Map<u16, Command>,
    bytes: Seq<u8>,
    instrs: Map<u64, Instr>,
)
    requires
        sound(commands, bytes, instrs),
        closed_but(commands, bytes, instrs.dom(), Set::empty()),
    ensures
        is_instruction_map(commands, bytes, instrs),
{
    assert forall|offset: u64|
        reachable(commands, bytes, offset) && decodes(
            commands,
            bytes,
            offset,
        ) implies #[trigger] instrs.contains_key(offset) by {
        let path = choose|path: Seq<u64>| #[trigger]
            is_path(commands, bytes, path) && path.last() == offset;
        lemma_closed_holds_path(commands, bytes, instrs.dom(), path, path.len() - 1);
    }
}

/// Looking at the offset at index `i` of a round takes nothing from what is
/// pending but, at most, that offset, whatever the look adds to `new`.
proof fn lemma_pending_step(cur: Seq<u64>, i: int, new: Seq<u64>, found: Seq<u64>)
    requires
        0 <= i < cur.len(),
    ensures
        forall|offset: u64|
            pending(cur, i, new).contains(offset) ==> offset == cur[i] || #[trigger] pending(
                cur,
                i + 1,
                new + found,
            ).contains(offset),
        forall|j: int|
            0 <= j < found.len() ==> pending(cur, i + 1, new + found).contains(#[trigger] found[j]),
{
    let after = pending(cur, i + 1, new + found);
    assert forall|offset: u64| pending(cur, i, new).contains(offset) implies offset == cur[i]
        || #[trigger] after.contains(offset) by {
        if new.contains(offset) {
            let j = choose|j: int| 0 <= j < new.len() && new[j] == offset;
            assert((new + found)[j] == offset);
        } else {
            let rest = cur.skip(i);
            let j = choose|j: int| 0 <= j < rest.len() && rest[j] == offset;
            if j > 0 {
                assert(cur.skip(i + 1)[j - 1] == offset);
            }
        }
    }
    assert forall|j: int| 0 <= j < found.len() implies after.contains(#[trigger] found[j]) by {
        assert((new + found)[new.len() + j] == found[j]);
    }
}

/// Explores the script from its entry and gives its instruction map.
///
/// Offsets are looked at in rounds: what the instructions of one round lead
/// to is looked at in the next. An offset at which no instruction decodes is
/// passed over, for a script may hold bytes that are never executed. An
/// offset that the map holds already is not decoded again, so a script that
/// loops is explored once.
pub fn disassemble(commands: &CommandTable, bytes: &[u8]) -> (instrs: HashMap<u64, Instr>)
    ensures
        is_instruction_map(commands@, bytes@, instrs@),
{
    let mut instrs: HashMap<u64, Instr> = HashMap::new();
    // Start with the beginning of the script.
    let mut cur_offsets: Vec<u64> = Vec::new();
    cur_offsets.push(ENTRY);
    // This vector is only used inside the loop, but it is made here so that
    // it keeps its buffer between the rounds.
    let mut new_offsets: Vec<u64> = Vec::new();
    proof {
        lemma_entry_reachable(commands@, bytes@);
        assert(cur_offsets@.to_set().contains(cur_offsets@[0]));
    }
    while cur_offsets.len() > 0
        invariant
            new_offsets@.len() == 0,
            sound(commands@, bytes@, instrs@),
            all_reachable(commands@, bytes@, cur_offsets@),
            closed_but(commands@, bytes@, instrs@.dom(), cur_offsets@.to_set()),
            instrs@.len() <= bytes@.len(),
        decreases bytes@.len() - instrs@.len(), cur_offsets@.len(),
    {
        let ghost size = instrs@.len();
        let mut i: usize = 0;
        proof {
            assert(cur_offsets@.skip(0) =~= cur_offsets@);
            assert(pending(cur_offsets@, 0, new_offsets@) =~= cur_offsets@.to_set());
        }
        while i < cur_offsets.len()
            invariant
                i <= cur_offsets.len(),
                sound(commands@, bytes@, instrs@),
                all_reachable(commands@, bytes@, cur_offsets@),
                all_reachable(commands@, bytes@, new_offsets@),
                closed_but(
                    commands@,
                    bytes@,
                    instrs@.dom(),
                    pending(cur_offsets@, i as int, new_offsets@),
                ),
                instrs@.len() >= size,
                instrs@.len() == size ==> new_offsets@.len() == 0,
            decreases cur_offsets.len() - i,
        {
            let offset = cur_offsets[i];
            let ghost gathered = new_offsets@;
            let ghost done = instrs@.dom();
            if !instrs.contains_key(&offset) {
                match Instr::read(commands, bytes, offset) {
                    Ok((instr, next)) => {
                        instr.next_offsets(next, &mut new_offsets);
                        instrs.insert(offset, instr);
                        proof {
                            let found = successors(instr@, next);
                            lemma_pending_step(cur_offsets@, i as int, gathered, found);
                            assert forall|j: int| 0 <= j < new_offsets@.len() implies reachable(
                                commands@,
                                bytes@,
                                #[trigger] new_offsets@[j],
                            ) by {
                                if j >= gathered.len() {
                                    assert(found[j - gathered.len()] == new_offsets@[j]);
                                    lemma_reachable_step(
                                        commands@,
                                        bytes@,
                                        offset,
                                        new_offsets@[j],
                                    );
                                } else {
                                    assert(gathered[j] == new_offsets@[j]);
                                }
                            }
                            assert(instrs@.dom() =~= done.insert(offset));
                        }
                    },
                    Err(_) => {
                        // The script may never come here, so it can still
                        // run fine: go on with the other offsets.
                        proof {
                            lemma_pending_step(cur_offsets@, i as int, gathered, Seq::empty());
                            assert(gathered + Seq::<u64>::empty() =~= gathered);
                        }
                    },
                }
            } else {
                proof {
                    lemma_pending_step(cur_offsets@, i as int, gathered, Seq::empty());
                    assert(gathered + Seq::<u64>::empty() =~= gathered);
                }
            }
            i += 1;
        }
        proof {
            assert(cur_offsets@.skip(i as int) =~= Seq::<u64>::empty());
            assert(pending(cur_offsets@, i as int, new_offsets@) =~= new_offsets@.to_set());
        }
        cur_offsets.clear();
        cur_offsets.append(&mut new_offsets);
        proof {
            let below = offsets_below(bytes@.len());
            lemma_offsets_below(bytes@.len());
            assert(instrs@.dom().subset_of(below));
            lemma_len_subset(instrs@.dom(), below);
        }
    }
    proof {
        assert(cur_offsets@.to_set() =~= Set::<u64>::empty());
        lemma_sound_and_closed(commands@, bytes@, instrs@);
    }
    instrs
}

} // verus!
