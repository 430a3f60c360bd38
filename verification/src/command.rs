//! Command schemas: what operands each opcode takes.

use crate::stream::{in_bounds, read_matches, DecodeError};
use crate::value::{
    decodable, decode_list, decode_value, lemma_decode_list, lemma_decode_value_bounds,
    lemma_list_view, Location, Pointer, Value, ValueView, END_OF_LIST,
};
use std::collections::HashMap;
use vstd::prelude::*;

verus! {

/// What kind of operand a command expects in one place.
#[derive(Debug, Clone, Copy, PartialEq, Eq, Structural)]
pub enum ParamType {
    /// An integral value.
    Integer,
    /// A string value.
    String,
    /// A floating-point value.
    Real,
    /// A model identifier.
    Model,
    /// A pointer to a script location.
    Pointer,
    /// A null byte that marks the end of an argument list.
    End,
    /// A long buffer.
    Buffer,
    /// Any type; typical of variadic arguments.
    Any,
}

/// One operand place of a command.
///
/// Decoding takes one operand for a parameter, or, for a variadic one, the
/// list of the operands that stand up to an end byte. How an operand is laid
/// out its own tag tells; of the parameter's type only that of a pointer
/// bears on it. The other fields describe the command to those who display or
/// run it.
#[derive(Debug, Clone, Copy, PartialEq, Eq, Structural)]
pub struct Param {
    pub param_type: ParamType,
    /// Where the operand is expected to live.
    pub location: Location,
    /// Whether the place stands for a list of operands of any length, which
    /// an end byte closes.
    pub is_variadic: bool,
    /// Whether the command writes to the operand.
    pub is_output: bool,
}

/// What a parameter finds at `pos`. A variadic parameter finds the list of
/// operands that starts there, as the operands stand. Any other finds the
/// operand that stands there, where an integer under a pointer parameter is
/// taken as a pointer of the same number.
pub open spec fn decode_param(param: Param, bytes: Seq<u8>, pos: int) -> Result<
    (ValueView, int),
    DecodeError,
> {
    if param.is_variadic {
        match decode_list(bytes, pos) {
            Ok((items, next)) => Ok((ValueView::VarArgs(items), next)),
            Err(e) => Err(e),
        }
    } else {
        match decode_value(bytes, pos) {
            Ok((ValueView::Integer(i), next)) => if param.param_type == ParamType::Pointer {
                Ok((ValueView::Pointer(i), next))
            } else {
                Ok((ValueView::Integer(i), next))
            },
            other => other,
        }
    }
}

/// What a parameter finds takes at least one byte and ends inside the
/// script.
pub proof fn lemma_decode_param_bounds(param: Param, bytes: Seq<u8>, pos: int)
    requires
        decode_param(param, bytes, pos) is Ok,
    ensures
        0 <= pos < decode_param(param, bytes, pos)->Ok_0.1 <= bytes.len(),
{
    if param.is_variadic {
        lemma_decode_list(bytes, pos);
    } else {
        lemma_decode_value_bounds(bytes, pos);
    }
}

/// A parameter that is not variadic finds one operand: it ends where the
/// operand that stands at `pos` ends, and fails as it fails.
pub proof fn lemma_decode_single(param: Param, bytes: Seq<u8>, pos: int)
    requires
        !param.is_variadic,
    ensures
        match decode_value(bytes, pos) {
            Ok((_, next)) => decode_param(param, bytes, pos) is Ok && decode_param(
                param,
                bytes,
                pos,
            )->Ok_0.1 == next,
            Err(e) => decode_param(param, bytes, pos) == Err::<(ValueView, int), DecodeError>(e),
        },
{
}

/// A variadic parameter finds a list of operands, which holds what operands
/// decode to and ends after an end byte. Under it the end byte in the place
/// of a type tag is no error: it ends the list.
pub proof fn lemma_decode_variadic(param: Param, bytes: Seq<u8>, pos: int)
    requires
        param.is_variadic,
        in_bounds(bytes, pos, 1),
    ensures
        bytes[pos] == END_OF_LIST ==> decode_param(param, bytes, pos) == Ok::<
            (ValueView, int),
            DecodeError,
        >((ValueView::VarArgs(Seq::empty()), pos + 1)),
        decode_param(param, bytes, pos) is Ok ==> {
            let (list, end) = decode_param(param, bytes, pos)->Ok_0;
            &&& list is VarArgs
            &&& bytes[end - 1] == END_OF_LIST
            &&& forall|i: int|
                0 <= i < list->VarArgs_0.len() ==> decodable(#[trigger] list->VarArgs_0[i])
        },
{
    if decode_param(param, bytes, pos) is Ok {
        lemma_decode_list(bytes, pos);
    }
}

impl Param {
    /// Decodes what stands at `pos` in this parameter's place.
    pub fn read(&self, bytes: &[u8], pos: usize) -> (r: Result<(Value, usize), DecodeError>)
        ensures
            read_matches(r, decode_param(*self, bytes@, pos as int)),
    {
        if self.is_variadic {
            let (items, next) = Value::read_list(bytes, pos)?;
            let list = Value::VarArgs(items);
            proof {
                lemma_list_view(list);
            }
            return Ok((list, next));
        }
        let (value, next) = Value::read(bytes, pos)?;
        if let ParamType::Pointer = self.param_type {
            if let Value::Integer(number) = value {
                return Ok((Value::Pointer(Pointer::from_i64(number)), next));
            }
        }
        Ok((value, next))
    }
}

/// The schema of one command.
#[derive(Debug, Clone, PartialEq, Eq)]
pub struct Command {
    /// The command's number. A script can only call for numbers of 15 bits:
    /// the high bit of an opcode word is the flag that inverts the result.
    pub opcode: u16,
    pub name: String,
    /// Whether the command yields a boolean.
    pub returns: bool,
    /// The operands in the order in which they follow the opcode.
    pub params: Vec<Param>,
}

/// The commands that a table built from `commands` holds: each under its own
/// opcode, a later command taking the place of an earlier one of that opcode.
pub open spec fn table_of(commands: Seq<Command>) -> Map<u16, Command>
    decreases commands.len(),
{
    if commands.len() == 0 {
        Map::empty()
    } else {
        table_of(commands.drop_last()).insert(commands.last().opcode, commands.last())
    }
}

/// In a table every command stands under its own opcode.
pub proof fn lemma_table_keyed_by_opcode(commands: Seq<Command>)
    ensures
        forall|opcode: u16| #[trigger]
            table_of(commands).contains_key(opcode) ==> table_of(commands)[opcode].opcode
                == opcode,
    decreases commands.len(),
{
    if commands.len() > 0 {
        let earlier = table_of(commands.drop_last());
        lemma_table_keyed_by_opcode(commands.drop_last());
        assert forall|opcode: u16| #[trigger]
            table_of(commands).contains_key(opcode) implies table_of(commands)[opcode].opcode
            == opcode by {
            if opcode != commands.last().opcode {
                assert(earlier.contains_key(opcode));
            }
        }
    }
}

/// The known commands, each found under its opcode. A table does not change
/// once it is made.
pub struct CommandTable {
    commands: HashMap<u16, Command>,
}

impl View for CommandTable {
    type V = Map<u16, Command>;

    closed spec fn view(&self) -> Map<u16, Command> {
        self.commands@
    }
}

impl CommandTable {
    #[verifier::type_invariant]
    spec fn keyed_by_opcode(self) -> bool {
        forall|opcode: u16| #[trigger]
            self.commands@.contains_key(opcode) ==> self.commands@[opcode].opcode == opcode
    }

    /// A table without commands: under it every opcode is unknown.
    pub fn new() -> (table: CommandTable)
        ensures
            table@ == Map::<u16, Command>::empty(),
    {
        CommandTable { commands: HashMap::new() }
    }

    /// The table of the given commands.
    pub fn from_commands(commands: Vec<Command>) -> (table: CommandTable)
        ensures
            table@ == table_of(commands@),
    {
        let mut map: HashMap<u16, Command> = HashMap::new();
        let ghost all = commands@;
        for command in it: commands
            invariant
                it.seq() == all,
                map@ == table_of(it.seq().take(it.index() as int)),
                forall|opcode: u16| #[trigger]
                    map@.contains_key(opcode) ==> map@[opcode].opcode == opcode,
        {
            assert(it.seq().take(it.index() + 1).drop_last() == it.seq().take(it.index() as int));
            map.insert(command.opcode, command);
        }
        assert(all.take(all.len() as int) == all);
        CommandTable { commands: map }
    }

    /// The table of what was loaded of the commands; where loading failed,
    /// the table without commands.
    pub fn from_loaded(loaded: Option<Vec<Command>>) -> (table: CommandTable)
        ensures
            table@ == match loaded {
                Some(commands) => table_of(commands@),
                None => Map::<u16, Command>::empty(),
            },
    {
        match loaded {
            Some(commands) => CommandTable::from_commands(commands),
            None => CommandTable::new(),
        }
    }

    /// The number of commands.
    pub fn len(&self) -> (n: usize)
        ensures
            n == self@.len(),
    {
        self.commands.len()
    }

    /// The schema of `opcode`, if a command of that number is known.
    pub fn lookup(&self, opcode: u16) -> (found: Option<&Command>)
        ensures
            match found {
                Some(command) => self@.contains_key(opcode) && *command == self@[opcode]
                    && command.opcode == opcode,
                None => !self@.contains_key(opcode),
            },
    {
        proof {
            use_type_invariant(self);
        }
        self.commands.get(&opcode)
    }
}

} // verus!
