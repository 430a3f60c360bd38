//! Operand values of script instructions.

use crate::stream::{
    read_i16, read_i32, read_i8, read_matches, read_text, read_u16, read_u32, read_u8, spec_read_i16,
    spec_read_i32, spec_read_i8, spec_read_text, spec_read_u16, spec_read_u32, spec_read_u8,
    in_bounds, lemma_text_in_field, spec_take, take, DecodeError,
};
use vstd::prelude::*;

verus! {

/// Where a variable lives.
#[derive(Debug, Clone, Copy, PartialEq, Eq, Structural)]
pub enum Location {
    /// A value written directly in the instruction bytecode. The decoder never
    /// produces this class; it is kept for layers that display operands.
    Immediate,
    /// A variable local to the script.
    Local,
    /// A variable shared between scripts.
    Global,
}

/// A reference to a script variable.
#[derive(Debug, Clone, Copy, PartialEq, Eq, Structural)]
pub struct Variable {
    /// The variable's identifier.
    pub value: i64,
    pub location: Location,
}

/// Stands for an array operand, whose bytes are skipped and not interpreted.
#[derive(Debug, Clone, Copy, PartialEq, Eq, Structural)]
pub struct Array;

/// A code address operand. A negative number addresses the script's own bytes,
/// by its magnitude; any other number addresses code outside the script.
#[derive(Debug, Clone, Copy, PartialEq, Eq, Structural)]
pub struct Pointer(pub i64);

impl Pointer {
    /// Whether a raw pointer value addresses the script's own bytes.
    pub open spec fn spec_is_local(raw: i64) -> bool {
        raw < 0
    }

    /// The magnitude of a raw pointer value.
    pub open spec fn spec_absolute(raw: i64) -> int {
        if raw < 0 {
            -(raw as int)
        } else {
            raw as int
        }
    }

    /// The pointer of this number.
    pub fn from_i64(i: i64) -> (p: Pointer)
        ensures
            p.0 == i,
    {
        Pointer(i)
    }

    /// Whether the pointer addresses the script's own bytes.
    pub fn is_local(&self) -> (local: bool)
        ensures
            local == Self::spec_is_local(self.0),
    {
        self.0 < 0
    }

    /// The pointer's magnitude: for a local pointer, the offset in the
    /// script that it addresses.
    pub fn absolute(&self) -> (offset: u64)
        ensures
            offset == Self::spec_absolute(self.0),
    {
        if self.0 >= 0 {
            self.0 as u64
        } else if self.0 == i64::MIN {
            0x8000_0000_0000_0000u64
        } else {
            (-self.0) as u64
        }
    }
}

/// An operand of an instruction.
///
/// Decoding an operand by its tag gives an integer, a real, a text, a
/// variable or an array. A pointer comes of an integer that stands in the
/// place of a pointer parameter, and a list of operands of what stands in the
/// place of a variadic one. The other variants are for layers that know more
/// of a command than its operands' tags.
#[derive(Debug, PartialEq, Eq)]
pub enum Value {
    /// An integer, widened from the 8, 16 or 32 bits of its field.
    Integer(i64),
    /// A 32-bit real number, held as its IEEE 754 bit pattern.
    Real(u32),
    /// A text of single-byte characters.
    String(String),
    /// A model identifier.
    Model(i64),
    Pointer(Pointer),
    /// The operands that stand in the place of a variadic parameter, in
    /// their order, without the byte that ends them.
    VarArgs(Vec<Value>),
    /// A long buffer.
    Buffer(String),
    Variable(Variable),
    Array(Array),
}

/// The mathematical content of a [`Value`].
pub enum ValueView {
    Integer(i64),
    Real(u32),
    String(Seq<char>),
    Model(i64),
    Pointer(i64),
    VarArgs(Seq<ValueView>),
    Buffer(Seq<char>),
    Variable(Variable),
    Array,
}

impl View for Value {
    type V = ValueView;

    open spec fn view(&self) -> ValueView
        decreases self,
    {
        match self {
            Value::Integer(i) => ValueView::Integer(*i),
            Value::Real(bits) => ValueView::Real(*bits),
            Value::String(s) => ValueView::String(s@),
            Value::Model(m) => ValueView::Model(*m),
            Value::Pointer(p) => ValueView::Pointer(p.0),
            Value::VarArgs(items) => ValueView::VarArgs(
                Seq::new(
                    items.len() as nat,
                    |i: int|
                        if 0 <= i < items.len() {
                            items[i].view()
                        } else {
                            ValueView::Array
                        },
                ),
            ),
            Value::Buffer(s) => ValueView::Buffer(s@),
            Value::Variable(v) => ValueView::Variable(*v),
            Value::Array(_) => ValueView::Array,
        }
    }
}

impl Clone for Value {
    #[verifier::loop_isolation(false)]
    fn clone(&self) -> (copy: Value)
        ensures
            copy@ == self@,
        decreases self,
    {
        match self {
            Value::Integer(i) => Value::Integer(*i),
            Value::Real(bits) => Value::Real(*bits),
            Value::String(s) => Value::String(s.clone()),
            Value::Model(m) => Value::Model(*m),
            Value::Pointer(p) => Value::Pointer(*p),
            Value::VarArgs(items) => {
                let mut copies: Vec<Value> = Vec::new();
                let mut i: usize = 0;
                while i < items.len()
                    invariant
                        i <= items.len(),
                        copies.len() == i,
                        forall|j: int| 0 <= j < i ==> copies[j]@ == items[j]@,
                    decreases items.len() - i,
                {
                    proof {
                        assert(decreases_to!(self => items[i as int]));
                    }
                    copies.push(items[i].clone());
                    i += 1;
                }
                assert(Value::VarArgs(copies)@ =~= self@) by {
                    assert(Value::VarArgs(copies)@->VarArgs_0 =~= self@->VarArgs_0);
                }
                Value::VarArgs(copies)
            },
            Value::Buffer(s) => Value::Buffer(s.clone()),
            Value::Variable(v) => Value::Variable(*v),
            Value::Array(a) => Value::Array(*a),
        }
    }
}

/// The number of bytes that an array operand takes after its tag.
pub const ARRAY_OPERAND_LEN: usize = 6;

/// A variable operand: a 16-bit identifier at `at`.
pub open spec fn decode_variable(bytes: Seq<u8>, at: int, location: Location) -> Result<
    (ValueView, int),
    DecodeError,
> {
    match spec_read_u16(bytes, at) {
        Ok((id, next)) => Ok((ValueView::Variable(Variable { value: id as i64, location }), next)),
        Err(e) => Err(e),
    }
}

/// An array operand: bytes at `at` that are passed over.
pub open spec fn decode_array(bytes: Seq<u8>, at: int) -> Result<(ValueView, int), DecodeError> {
    match spec_take(bytes, at, ARRAY_OPERAND_LEN as int) {
        Ok((_, next)) => Ok((ValueView::Array, next)),
        Err(e) => Err(e),
    }
}

/// A text operand in a field of `n` bytes at `at`.
pub open spec fn decode_text(bytes: Seq<u8>, at: int, n: int) -> Result<
    (ValueView, int),
    DecodeError,
> {
    match spec_read_text(bytes, at, n) {
        Ok((text, next)) => Ok((ValueView::String(text), next)),
        Err(e) => Err(e),
    }
}

/// The operand that stands at `pos`, with the position after it: a type tag
/// of one byte, then the field that the tag announces.
pub open spec fn decode_value(bytes: Seq<u8>, pos: int) -> Result<(ValueView, int), DecodeError> {
    match spec_read_u8(bytes, pos) {
        Err(e) => Err(e),
        Ok((tag, at)) => match tag {
            0x1 => match spec_read_i32(bytes, at) {
                Ok((v, next)) => Ok((ValueView::Integer(v as i64), next)),
                Err(e) => Err(e),
            },
            0x2 | 0xa | 0x10 => decode_variable(bytes, at, Location::Global),
            0x3 | 0xb | 0x11 => decode_variable(bytes, at, Location::Local),
            0x4 => match spec_read_i8(bytes, at) {
                Ok((v, next)) => Ok((ValueView::Integer(v as i64), next)),
                Err(e) => Err(e),
            },
            0x5 => match spec_read_i16(bytes, at) {
                Ok((v, next)) => Ok((ValueView::Integer(v as i64), next)),
                Err(e) => Err(e),
            },
            0x6 => match spec_read_u32(bytes, at) {
                Ok((bits, next)) => Ok((ValueView::Real(bits), next)),
                Err(e) => Err(e),
            },
            0x7 | 0x8 | 0xc | 0xd | 0x12 | 0x13 => decode_array(bytes, at),
            0x9 => decode_text(bytes, at, 8),
            0xe => match spec_read_u8(bytes, at) {
                Ok((n, start)) => decode_text(bytes, start, n as int),
                Err(e) => Err(e),
            },
            0xf => decode_text(bytes, at, 16),
            _ => Err(DecodeError::UnknownTypeId(tag)),
        },
    }
}

/// The byte that ends a list of operands. It stands where the type tag of a
/// further operand would stand, and is the tag of no operand.
pub const END_OF_LIST: u8 = 0;

/// The operands `done`, put before the outcome of decoding the rest.
pub open spec fn after_operands(
    done: Seq<ValueView>,
    rest: Result<(Seq<ValueView>, int), DecodeError>,
) -> Result<(Seq<ValueView>, int), DecodeError> {
    match rest {
        Err(e) => Err(e),
        Ok((more, end)) => Ok((done + more, end)),
    }
}

/// The list of operands that starts at `pos`, with the position after the
/// byte that ends it: the operands that stand one after the other up to the
/// first place where the end byte stands for a type tag. The list fails with
/// the error of the first operand that fails, and with `UnexpectedEof` where
/// the script ends before the list does.
pub open spec fn decode_list(bytes: Seq<u8>, pos: int) -> Result<(Seq<ValueView>, int), DecodeError>
    decreases bytes.len() - pos,
{
    match spec_read_u8(bytes, pos) {
        Err(e) => Err(e),
        Ok((tag, after)) => if tag == END_OF_LIST {
            Ok((Seq::empty(), after))
        } else {
            match decode_value(bytes, pos) {
                Err(e) => Err(e),
                Ok((first, next)) => after_operands(seq![first], decode_list(bytes, next)),
            }
        },
    }
}

/// Whether what [`Value::read_list`] gave is the list that the script holds.
pub open spec fn list_read_matches(
    got: Result<(Vec<Value>, usize), DecodeError>,
    held: Result<(Seq<ValueView>, int), DecodeError>,
) -> bool {
    match held {
        Ok((items, next)) => got is Ok && got->Ok_0.0@.map_values(|v: Value| v@) == items
            && got->Ok_0.1 == next,
        Err(e) => got is Err && got->Err_0 == e,
    }
}

/// A list of operands holds what operands decode to, takes at least its end
/// byte and ends inside the script, and the byte before its end is the end
/// byte.
pub proof fn lemma_decode_list(bytes: Seq<u8>, pos: int)
    requires
        decode_list(bytes, pos) is Ok,
    ensures
        ({
            let (items, end) = decode_list(bytes, pos)->Ok_0;
            &&& 0 <= pos < end <= bytes.len()
            &&& bytes[end - 1] == END_OF_LIST
            &&& forall|i: int| 0 <= i < items.len() ==> decodable(#[trigger] items[i])
        }),
    decreases bytes.len() - pos,
{
    if bytes[pos] != END_OF_LIST {
        let (first, next) = decode_value(bytes, pos)->Ok_0;
        lemma_decode_value_bounds(bytes, pos);
        lemma_decoded_kinds(bytes, pos);
        lemma_decode_list(bytes, next);
        let (rest, end) = decode_list(bytes, next)->Ok_0;
        let items = decode_list(bytes, pos)->Ok_0.0;
        assert forall|i: int| 0 <= i < items.len() implies decodable(#[trigger] items[i]) by {
            if i > 0 {
                assert(items[i] == rest[i - 1]);
            }
        }
    }
}

/// The view of a list of operands is the list of the operands' views.
pub proof fn lemma_list_view(list: Value)
    requires
        list is VarArgs,
    ensures
        list@ == ValueView::VarArgs(list->VarArgs_0@.map_values(|v: Value| v@)),
{
    reveal_with_fuel(<Value as View>::view, 2);
    assert(list@->VarArgs_0 =~= list->VarArgs_0@.map_values(|v: Value| v@));
}

/// Whether a value is one that an operand can decode to: an integer of 32
/// bits, a real, a text of at most 255 characters, a local or global variable
/// of a 16-bit identifier, or an array.
pub open spec fn decodable(value: ValueView) -> bool {
    match value {
        ValueView::Integer(i) => -0x8000_0000 <= i < 0x8000_0000,
        ValueView::Real(_) => true,
        ValueView::String(text) => text.len() <= 255,
        ValueView::Variable(variable) => variable.location != Location::Immediate && 0
            <= variable.value <= 0xffff,
        ValueView::Array => true,
        _ => false,
    }
}

/// What decodes as an operand is decodable: no operand decodes to a model, a
/// pointer, a buffer, a list of operands or an immediate variable.
pub proof fn lemma_decoded_kinds(bytes: Seq<u8>, pos: int)
    requires
        decode_value(bytes, pos) is Ok,
    ensures
        decodable(decode_value(bytes, pos)->Ok_0.0),
{
    let at = pos + 1;
    if bytes[pos] == 0x9 {
        lemma_text_in_field(bytes.subrange(at, at + 8));
    } else if bytes[pos] == 0xf {
        lemma_text_in_field(bytes.subrange(at, at + 16));
    } else if bytes[pos] == 0xe {
        lemma_text_in_field(bytes.subrange(at + 1, at + 1 + bytes[at]));
    }
}

/// An operand takes at least its tag and ends inside the script.
pub proof fn lemma_decode_value_bounds(bytes: Seq<u8>, pos: int)
    requires
        decode_value(bytes, pos) is Ok,
    ensures
        0 <= pos < decode_value(bytes, pos)->Ok_0.1 <= bytes.len(),
{
}

/// A type tag is known when it lies between 0x1 and 0x13. An operand with a
/// tag outside that range fails as of unknown type, whatever follows the tag,
/// and no operand with a tag inside it does. Only in a list of operands the
/// end byte may stand in a tag's place: there it is no operand's tag, and
/// ends the list.
pub proof fn lemma_unknown_type_id(bytes: Seq<u8>, pos: int)
    requires
        in_bounds(bytes, pos, 1),
    ensures
        !(0x1 <= bytes[pos] <= 0x13) <==> decode_value(bytes, pos) == Err::<
            (ValueView, int),
            DecodeError,
        >(DecodeError::UnknownTypeId(bytes[pos])),
        forall|tag: u8|
            decode_value(bytes, pos) == Err::<(ValueView, int), DecodeError>(
                DecodeError::UnknownTypeId(tag),
            ) ==> tag == bytes[pos],
{
    let tag = bytes[pos];
    assert(spec_read_u8(bytes, pos) == Ok::<(u8, int), DecodeError>((tag, pos + 1)));
}

impl Value {
    /// Decodes a variable operand, whose tag was read, at `at`.
    fn read_variable(bytes: &[u8], at: usize, location: Location) -> (r: Result<
        (Value, usize),
        DecodeError,
    >)
        ensures
            read_matches(r, decode_variable(bytes@, at as int, location)),
    {
        let (id, next) = read_u16(bytes, at)?;
        Ok((Value::Variable(Variable { value: id as i64, location }), next))
    }

    /// Passes over an array operand, whose tag was read, at `at`.
    fn read_array(bytes: &[u8], at: usize) -> (r: Result<(Value, usize), DecodeError>)
        ensures
            read_matches(r, decode_array(bytes@, at as int)),
    {
        let (_, next) = take(bytes, at, ARRAY_OPERAND_LEN)?;
        Ok((Value::Array(Array), next))
    }

    /// Decodes a text operand in the field of `n` bytes at `at`.
    fn read_string(bytes: &[u8], at: usize, n: usize) -> (r: Result<(Value, usize), DecodeError>)
        ensures
            read_matches(r, decode_text(bytes@, at as int, n as int)),
    {
        let (text, next) = read_text(bytes, at, n)?;
        Ok((Value::String(text), next))
    }

    /// Decodes the list of operands that starts at `pos`: operand after
    /// operand, up to the end byte, which is taken too.
    pub fn read_list(bytes: &[u8], pos: usize) -> (r: Result<(Vec<Value>, usize), DecodeError>)
        ensures
            list_read_matches(r, decode_list(bytes@, pos as int)),
    {
        let mut items: Vec<Value> = Vec::new();
        let mut at = pos;
        let ghost whole = decode_list(bytes@, pos as int);
        proof {
            assert(whole is Ok ==> Seq::<ValueView>::empty() + whole->Ok_0.0 =~= whole->Ok_0.0);
        }
        loop
            invariant_except_break
                whole == after_operands(
                    items@.map_values(|v: Value| v@),
                    decode_list(bytes@, at as int),
                ),
            invariant
                whole == decode_list(bytes@, pos as int),
            ensures
                list_read_matches(Ok::<(Vec<Value>, usize), DecodeError>((items, at)), whole),
            decreases bytes@.len() - at,
        {
            let ghost done = items@.map_values(|v: Value| v@);
            let (tag, after) = read_u8(bytes, at)?;
            if tag == END_OF_LIST {
                at = after;
                proof {
                    assert(done + Seq::<ValueView>::empty() =~= done);
                }
                break ;
            }
            let (value, next) = Value::read(bytes, at)?;
            proof {
                lemma_decode_value_bounds(bytes@, at as int);
                let rest = decode_list(bytes@, next as int);
                if rest is Ok {
                    assert(done + (seq![value@] + rest->Ok_0.0) =~= done.push(value@)
                        + rest->Ok_0.0);
                }
            }
            items.push(value);
            assert(items@.map_values(|v: Value| v@) =~= done.push(value@));
            at = next;
        }
        Ok((items, at))
    }

    /// Decodes the operand at `pos`: reads its type tag and then the field
    /// that the tag announces. Fails where the tag is unknown or the script
    /// ends before the operand does.
    pub fn read(bytes: &[u8], pos: usize) -> (r: Result<(Value, usize), DecodeError>)
        ensures
            read_matches(r, decode_value(bytes@, pos as int)),
    {
        let (id, at) = read_u8(bytes, pos)?;
        match id {
            0x1 => {
                let (v, next) = read_i32(bytes, at)?;
                Ok((Value::Integer(v as i64), next))
            },
            0x2 | 0xa | 0x10 => Value::read_variable(bytes, at, Location::Global),
            0x3 | 0xb | 0x11 => Value::read_variable(bytes, at, Location::Local),
            0x4 => {
                let (v, next) = read_i8(bytes, at)?;
                Ok((Value::Integer(v as i64), next))
            },
            0x5 => {
                let (v, next) = read_i16(bytes, at)?;
                Ok((Value::Integer(v as i64), next))
            },
            0x6 => {
                let (bits, next) = read_u32(bytes, at)?;
                Ok((Value::Real(bits), next))
            },
            0x7 | 0x8 | 0xc | 0xd | 0x12 | 0x13 => Value::read_array(bytes, at),
            0x9 => Value::read_string(bytes, at, 8),
            0xe => {
                let (length, start) = read_u8(bytes, at)?;
                Value::read_string(bytes, start, length as usize)
            },
            0xf => Value::read_string(bytes, at, 16),
            _ => Err(DecodeError::UnknownTypeId(id)),
        }
    }
}

} // verus!
