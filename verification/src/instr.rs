//! Instructions: an opcode word followed by the operands that the command's
//! schema lists.

use crate::command::{decode_param, lemma_decode_param_bounds, Command, CommandTable, Param};
use crate::stream::{read_u16, spec_read_u16, DecodeError};
use crate::value::{after_operands, Pointer, Value, ValueView};
use vstd::prelude::*;

verus! {

/// The bit of an opcode word that asks for the command's boolean result to be
/// inverted.
pub const INVERT_FLAG: u16 = 0x8000;

/// The bits of an opcode word that hold the opcode.
pub const OPCODE_MASK: u16 = 0x7fff;

/// Unconditional jump.
pub const OPCODE_GOTO: u16 = 0x0002;

/// Jump taken when the last condition held.
pub const OPCODE_GOTO_IF_TRUE: u16 = 0x004c;

/// Jump taken when the last condition failed.
pub const OPCODE_GOTO_IF_FALSE: u16 = 0x004d;

/// Subroutine call.
pub const OPCODE_GOSUB: u16 = 0x0050;

/// Return from a subroutine.
pub const OPCODE_RETURN: u16 = 0x0051;

/// First instruction of a multi-way branch.
pub const OPCODE_SWITCH_START: u16 = 0x0871;

/// Further cases of a multi-way branch.
pub const OPCODE_SWITCH_CONTINUE: u16 = 0x0872;

/// One decoded instruction.
#[derive(Debug, PartialEq, Eq)]
pub struct Instr {
    /// The opcode, without the invert flag.
    pub opcode: u16,
    /// The command's name.
    pub name: String,
    /// Where in the script the instruction starts.
    pub offset: u64,
    /// Whether the opcode word carried the invert flag.
    pub bool_inverted: bool,
    /// The operands, in the order of the command's parameters.
    pub args: Vec<Value>,
}

/// The mathematical content of an [`Instr`].
pub struct InstrView {
    pub opcode: u16,
    pub name: Seq<char>,
    pub offset: u64,
    pub bool_inverted: bool,
    pub args: Seq<ValueView>,
}

impl View for Instr {
    type V = InstrView;

    open spec fn view(&self) -> InstrView {
        InstrView {
            opcode: self.opcode,
            name: self.name@,
            offset: self.offset,
            bool_inverted: self.bool_inverted,
            args: self.args@.map_values(|v: Value| v@),
        }
    }
}

/// What `params` find from `pos` on, one after the other, with the position
/// after the last: for each parameter one operand, which for a variadic
/// parameter is a list. The first failure fails them all.
pub open spec fn decode_args(params: Seq<Param>, bytes: Seq<u8>, pos: int) -> Result<
    (Seq<ValueView>, int),
    DecodeError,
>
    decreases params.len(),
{
    if params.len() == 0 {
        Ok((Seq::empty(), pos))
    } else {
        match decode_param(params[0], bytes, pos) {
            Err(e) => Err(e),
            Ok((first, next)) => match decode_args(params.drop_first(), bytes, next) {
                Err(e) => Err(e),
                Ok((rest, end)) => Ok((seq![first] + rest, end)),
            },
        }
    }
}

/// The instruction that starts at `offset`, with the position after it. The
/// opcode word's low 15 bits select the command and its top bit is the invert
/// flag. An opcode without a command fails: nothing tells what follows it.
pub open spec fn decode_instr(commands: Map<u16, Command>, bytes: Seq<u8>, offset: int) -> Result<
    (InstrView, int),
    DecodeError,
> {
    match spec_read_u16(bytes, offset) {
        Err(e) => Err(e),
        Ok((word, at)) => {
            let opcode = word & OPCODE_MASK;
            if !commands.contains_key(opcode) {
                Err(DecodeError::UnknownOpcode(opcode))
            } else {
                match decode_args(commands[opcode].params@, bytes, at) {
                    Err(e) => Err(e),
                    Ok((args, next)) => Ok(
                        (
                            InstrView {
                                opcode,
                                name: commands[opcode].name@,
                                offset: offset as u64,
                                bool_inverted: word & INVERT_FLAG != 0,
                                args,
                            },
                            next,
                        ),
                    ),
                }
            }
        },
    }
}

/// Whether what [`Instr::read`] gave is the instruction that the script holds.
pub open spec fn instr_read_matches(
    got: Result<(Instr, u64), DecodeError>,
    held: Result<(InstrView, int), DecodeError>,
) -> bool {
    match held {
        Ok((instr, next)) => got is Ok && got->Ok_0.0@ == instr && got->Ok_0.1 == next,
        Err(e) => got is Err && got->Err_0 == e,
    }
}

/// Whether a command of this opcode may pass control to the addresses among
/// its operands: the jumps, the subroutine call and the multi-way branches.
pub open spec fn spec_is_branch(opcode: u16) -> bool {
    opcode == OPCODE_GOTO || opcode == OPCODE_GOTO_IF_TRUE || opcode == OPCODE_GOTO_IF_FALSE
        || opcode == OPCODE_GOSUB || opcode == OPCODE_SWITCH_START || opcode
        == OPCODE_SWITCH_CONTINUE
}

/// Where an operand may send control inside the script: to the magnitude of a
/// local pointer. Any other operand, a pointer out of the script too, sends it
/// nowhere. Nor does a list of operands: its operands stand as they decode,
/// and none decodes to a pointer.
pub open spec fn local_target(arg: ValueView) -> Seq<u64> {
    match arg {
        ValueView::Pointer(raw) => if Pointer::spec_is_local(raw) {
            seq![Pointer::spec_absolute(raw) as u64]
        } else {
            Seq::empty()
        },
        _ => Seq::empty(),
    }
}

/// The local targets of all the operands, in the operands' order.
pub open spec fn local_targets(args: Seq<ValueView>) -> Seq<u64>
    decreases args.len(),
{
    if args.len() == 0 {
        Seq::empty()
    } else {
        local_targets(args.drop_last()) + local_target(args.last())
    }
}

/// The offsets at which execution may go on after an instruction that ends
/// at `next`. After a return there is none. Otherwise the instruction that
/// follows comes first, except after an unconditional jump; then, for a
/// branching command, the local targets among its operands.
pub open spec fn successors(instr: InstrView, next: u64) -> Seq<u64> {
    if instr.opcode == OPCODE_RETURN {
        Seq::empty()
    } else {
        let fallthrough = if instr.opcode != OPCODE_GOTO {
            seq![next]
        } else {
            Seq::empty()
        };
        let targets = if spec_is_branch(instr.opcode) {
            local_targets(instr.args)
        } else {
            Seq::empty()
        };
        fallthrough + targets
    }
}

/// Operands that decode are as many as the parameters, and end inside the
/// script, not before they start.
pub proof fn lemma_decode_args_bounds(params: Seq<Param>, bytes: Seq<u8>, pos: int)
    requires
        decode_args(params, bytes, pos) is Ok,
        0 <= pos <= bytes.len(),
    ensures
        decode_args(params, bytes, pos)->Ok_0.0.len() == params.len(),
        pos <= decode_args(params, bytes, pos)->Ok_0.1 <= bytes.len(),
    decreases params.len(),
{
    if params.len() > 0 {
        lemma_decode_param_bounds(params[0], bytes, pos);
        let next = decode_param(params[0], bytes, pos)->Ok_0.1;
        lemma_decode_args_bounds(params.drop_first(), bytes, next);
    }
}

/// An instruction that decodes is one of a known command, of an opcode of 15
/// bits, with an operand for each of the command's parameters; it takes at
/// least its opcode word and ends inside the script, where the next
/// instruction starts.
pub proof fn lemma_decode_instr_bounds(commands: Map<u16, Command>, bytes: Seq<u8>, offset: int)
    requires
        decode_instr(commands, bytes, offset) is Ok,
    ensures
        ({
            let (instr, next) = decode_instr(commands, bytes, offset)->Ok_0;
            &&& 0 <= offset
            &&& offset + 2 <= next <= bytes.len()
            &&& instr.opcode < 0x8000
            &&& commands.contains_key(instr.opcode)
            &&& instr.name == commands[instr.opcode].name@
            &&& instr.args.len() == commands[instr.opcode].params@.len()
        }),
{
    let word = spec_read_u16(bytes, offset)->Ok_0.0;
    lemma_opcode_word(word);
    lemma_decode_args_bounds(commands[word & OPCODE_MASK].params@, bytes, offset + 2);
}

/// The first operand that fails to decode fails the instruction's operands
/// with its own error.
pub proof fn lemma_first_failure(params: Seq<Param>, bytes: Seq<u8>, pos: int, i: int)
    requires
        0 <= i < params.len(),
        decode_args(params.take(i), bytes, pos) is Ok,
        decode_param(params[i], bytes, decode_args(params.take(i), bytes, pos)->Ok_0.1) is Err,
    ensures
        decode_args(params, bytes, pos) == Err::<(Seq<ValueView>, int), DecodeError>(
            decode_param(
                params[i],
                bytes,
                decode_args(params.take(i), bytes, pos)->Ok_0.1,
            )->Err_0,
        ),
    decreases i,
{
    if i > 0 {
        let next = decode_param(params[0], bytes, pos)->Ok_0.1;
        assert(params.take(i)[0] == params[0]);
        assert(params.take(i).drop_first() =~= params.drop_first().take(i - 1));
        lemma_first_failure(params.drop_first(), bytes, next, i - 1);
    } else {
        assert(params.take(0) =~= Seq::<Param>::empty());
    }
}

/// A pointer that leads out of the script is never followed.
pub proof fn lemma_global_pointer_not_followed(raw: i64)
    requires
        !Pointer::spec_is_local(raw),
    ensures
        local_target(ValueView::Pointer(raw)) == Seq::<u64>::empty(),
{
}

/// Operands whose pointers all lead out of the script have no local target.
pub proof fn lemma_no_local_targets(args: Seq<ValueView>)
    requires
        forall|i: int|
            0 <= i < args.len() ==> (#[trigger] args[i] matches ValueView::Pointer(raw)
                ==> !Pointer::spec_is_local(raw)),
    ensures
        local_targets(args) == Seq::<u64>::empty(),
    decreases args.len(),
{
    if args.len() > 0 {
        assert forall|i: int| 0 <= i < args.drop_last().len() implies (
        #[trigger] args.drop_last()[i] matches ValueView::Pointer(raw) ==> !Pointer::spec_is_local(
            raw,
        )) by {
            assert(args.drop_last()[i] == args[i]);
        }
        lemma_no_local_targets(args.drop_last());
        assert(args.last() == args[args.len() - 1]);
        assert(local_targets(args) =~= Seq::<u64>::empty());
    }
}

/// An instruction whose pointers all lead out of the script passes control,
/// at most, to the instruction that follows it.
pub proof fn lemma_successors_without_local_pointers(instr: InstrView, next: u64)
    requires
        forall|i: int|
            0 <= i < instr.args.len() ==> (#[trigger] instr.args[i] matches ValueView::Pointer(
                raw,
            ) ==> !Pointer::spec_is_local(raw)),
    ensures
        successors(instr, next) == if instr.opcode == OPCODE_RETURN || instr.opcode
            == OPCODE_GOTO {
            Seq::<u64>::empty()
        } else {
            seq![next]
        },
{
    lemma_no_local_targets(instr.args);
    assert(seq![next] + Seq::<u64>::empty() =~= seq![next]);
    assert(Seq::<u64>::empty() + Seq::<u64>::empty() =~= Seq::<u64>::empty());
}

/// The low 15 bits of an opcode word and its top bit make up the word.
pub proof fn lemma_opcode_word(word: u16)
    ensures
        word & OPCODE_MASK < 0x8000,
        word == (word & OPCODE_MASK) + (word & INVERT_FLAG),
        word & INVERT_FLAG == 0 || word & INVERT_FLAG == 0x8000,
{
    assert(word & 0x7fff < 0x8000) by (bit_vector);
    assert(word == (word & 0x7fff) + (word & 0x8000)) by (bit_vector);
    assert(word & 0x8000 == 0 || word & 0x8000 == 0x8000) by (bit_vector);
}

impl Instr {
    /// Decodes the instruction that starts at `offset`.
    #[verifier::loop_isolation(false)]
    pub fn read(commands: &CommandTable, bytes: &[u8], offset: u64) -> (r: Result<
        (Instr, u64),
        DecodeError,
    >)
        ensures
            instr_read_matches(r, decode_instr(commands@, bytes@, offset as int)),
    {
        if offset > bytes.len() as u64 {
            return Err(DecodeError::UnexpectedEof);
        }
        let (opcode_in_file, at) = read_u16(bytes, offset as usize)?;
        let opcode = opcode_in_file & OPCODE_MASK;
        let bool_inverted = opcode_in_file & INVERT_FLAG != 0;
        let cmd = match commands.lookup(opcode) {
            Some(command) => command,
            None => {
                return Err(DecodeError::UnknownOpcode(opcode));
            },
        };
        let mut args: Vec<Value> = Vec::with_capacity(cmd.params.len());
        let mut pos = at;
        let mut i: usize = 0;
        let ghost params = cmd.params@;
        let ghost whole = decode_args(params, bytes@, at as int);
        proof {
            assert(params.skip(0) =~= params);
            assert(whole is Ok ==> Seq::<ValueView>::empty() + whole->Ok_0.0 =~= whole->Ok_0.0);
        }
        while i < cmd.params.len()
            invariant
                i <= params.len(),
                whole == after_operands(
                    args@.map_values(|v: Value| v@),
                    decode_args(params.skip(i as int), bytes@, pos as int),
                ),
            decreases params.len() - i,
        {
            let ghost done = args@.map_values(|v: Value| v@);
            let ghost here = params.skip(i as int);
            assert(here.drop_first() =~= params.skip(i + 1));
            assert(here[0] == params[i as int]);
            let (value, next) = cmd.params[i].read(bytes, pos)?;
            args.push(value);
            proof {
                let rest = decode_args(params.skip(i + 1), bytes@, next as int);
                assert(args@.map_values(|v: Value| v@) =~= done.push(value@));
                if rest is Ok {
                    assert(done + (seq![value@] + rest->Ok_0.0) =~= done.push(value@)
                        + rest->Ok_0.0);
                }
            }
            pos = next;
            i += 1;
        }
        proof {
            let done = args@.map_values(|v: Value| v@);
            assert(params.skip(i as int) =~= Seq::<Param>::empty());
            assert(done + Seq::<ValueView>::empty() =~= done);
        }
        Ok(
            (
                Instr { opcode, name: cmd.name.clone(), offset, bool_inverted, args },
                pos as u64,
            ),
        )
    }

    /// Whether this instruction's command may pass control to the addresses
    /// among its operands.
    pub fn is_branch(&self) -> (branch: bool)
        ensures
            branch == spec_is_branch(self.opcode),
    {
        self.opcode == OPCODE_GOTO || self.opcode == OPCODE_GOTO_IF_TRUE || self.opcode
            == OPCODE_GOTO_IF_FALSE || self.opcode == OPCODE_GOSUB || self.opcode
            == OPCODE_SWITCH_START || self.opcode == OPCODE_SWITCH_CONTINUE
    }

    /// Appends to `offsets` the offsets at which execution may go on after
    /// this instruction, `current` being the position after it.
    pub fn next_offsets(&self, current: u64, offsets: &mut Vec<u64>)
        ensures
            final(offsets)@ == old(offsets)@ + successors(self@, current),
    {
        // A return goes to the address on the call stack, which the call
        // already covers by going on after itself.
        if self.opcode == OPCODE_RETURN {
            assert(offsets@ + Seq::<u64>::empty() =~= offsets@);
            return ;
        }
        // An unconditional jump always branches; anything else may also go on
        // to the next instruction.
        if self.opcode != OPCODE_GOTO {
            offsets.push(current);
        }
        let ghost base = offsets@;
        let ghost args = self@.args;
        if self.is_branch() {
            let mut i: usize = 0;
            while i < self.args.len()
                invariant
                    i <= self.args.len(),
                    args == self@.args,
                    offsets@ == base + local_targets(args.take(i as int)),
                decreases self.args.len() - i,
            {
                assert(args.take(i + 1).drop_last() =~= args.take(i as int));
                assert(args.take(i + 1).last() == self.args[i as int]@);
                let ghost before = offsets@;
                if let Value::Pointer(ptr) = &self.args[i] {
                    if ptr.is_local() {
                        offsets.push(ptr.absolute());
                    }
                }
                assert(offsets@ =~= before + local_target(self.args[i as int]@));
                assert(offsets@ =~= base + local_targets(args.take(i + 1)));
                i += 1;
            }
            assert(args.take(i as int) =~= args);
        }
        assert(final(offsets)@ =~= old(offsets)@ + successors(self@, current));
    }
}

} // verus!
