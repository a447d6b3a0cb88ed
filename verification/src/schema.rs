//! Packet layouts as data, and the decoder that reads a message by them.
//!
//! The layouts change with every update of the game client, so they are
//! tables that are loaded, not code. A layout is a list of fields; a field
//! has a kind and, where its value is kept, a name.

use crate::definitions::{
    MoveOptionData, SkillMoveOptionData, SkillOptionData, TripodIndex, TripodLevel,
};
use crate::parser::{
    bytes_span, le_u16, le_u32, le_u64, packed_i64_len, packed_i64_value, signed,
    simple_u64_is_long, simple_u64_short, utf16_chars, code_units, Arena, Event, ParseError,
    Parser,
};
use vstd::prelude::*;

verus! {

/// When an optional part of a layout is there.
#[derive(Debug)]
pub enum Condition {
    /// A byte in front of the part is 1.
    Bool,
    /// The earlier field of this name equals the number.
    Equality(String, u64),
    /// The earlier field of this name is greater than the number.
    Greater(String, u64),
}

/// A number that is written in the layout or taken from an earlier field.
#[derive(Debug)]
pub enum LiteralOrIdent {
    Literal(u64),
    Ident(String),
}

/// The kind of a field.
#[derive(Debug)]
pub enum Kind {
    U8,
    U16,
    U32,
    U64,
    I8,
    I16,
    I32,
    I64,
    /// A single-precision number; its bit pattern is kept.
    F32,
    Bool,
    /// A text of UTF-16 code units behind a 16-bit count.
    String(usize),
    PackedI64,
    DateTime,
    Angle,
    Vector,
    /// A value that is there under a condition.
    Optional(Condition, Box<Kind>),
    /// Fields that are there under a condition.
    If(Condition, Vec<Field>),
    /// The layout of this name.
    Struct(String),
    /// So many bytes.
    Bytes(usize),
    /// A length of the given kind and, where it is at most the first
    /// number, that many times the second number of bytes (once where the
    /// second number is missing).
    KindedBytes(Box<Kind>, usize, Option<usize>),
    /// Fields that are kept together.
    Tuple(Vec<Field>),
    /// A length of kind `len_kind` and, where it is at most `len`, that
    /// many values of `kind`.
    Array { kind: Box<Kind>, len_kind: Box<Kind>, len: LiteralOrIdent },
    /// So many bytes that are passed over.
    Skip(usize),
}

/// A field of a layout: its kind, and its name where the value is kept.
#[derive(Debug)]
pub struct Field {
    pub kind: Kind,
    pub name: Option<String>,
}

/// The layout of a packet, or of a part of packets that has a name.
#[derive(Debug)]
pub struct Packet {
    pub name: String,
    pub fields: Vec<Field>,
    /// Number of the packet on the wire; a part has none.
    pub opcode: Option<u16>,
}

/// A decoded value.
#[derive(Debug)]
pub enum Value {
    /// Nothing is kept of the value.
    Unit,
    Unsigned(u64),
    Signed(i64),
    Bool(bool),
    Text(String),
    Bytes(Vec<u8>),
    Optional(Option<Box<Value>>),
    List(Vec<Value>),
    /// The named fields of a layout, in order.
    Record(Vec<(String, Value)>),
}

/// Mathematical content of [`Value`].
pub enum ValueView {
    Unit,
    Unsigned(u64),
    Signed(i64),
    Bool(bool),
    Text(Seq<char>),
    Bytes(Seq<u8>),
    Optional(Option<Box<ValueView>>),
    List(Seq<ValueView>),
    Record(Seq<(Seq<char>, ValueView)>),
}

/// The content of a value.
pub open spec fn value_view(v: Value) -> ValueView
    decreases v,
{
    match v {
        Value::Unit => ValueView::Unit,
        Value::Unsigned(u) => ValueView::Unsigned(u),
        Value::Signed(i) => ValueView::Signed(i),
        Value::Bool(b) => ValueView::Bool(b),
        Value::Text(s) => ValueView::Text(s@),
        Value::Bytes(b) => ValueView::Bytes(b@),
        Value::Optional(None) => ValueView::Optional(None),
        Value::Optional(Some(inner)) => ValueView::Optional(Some(Box::new(value_view(*inner)))),
        Value::List(items) => ValueView::List(values_view(items@)),
        Value::Record(fields) => ValueView::Record(fields_view(fields@)),
    }
}

/// The contents of values.
pub open spec fn values_view(items: Seq<Value>) -> Seq<ValueView>
    decreases items,
{
    if items.len() == 0 {
        Seq::empty()
    } else {
        values_view(items.drop_last()).push(value_view(items.last()))
    }
}

/// The contents of named values.
pub open spec fn fields_view(fields: Seq<(String, Value)>) -> Seq<(Seq<char>, ValueView)>
    decreases fields,
{
    if fields.len() == 0 {
        Seq::empty()
    } else {
        fields_view(fields.drop_last()).push((fields.last().0@, value_view(fields.last().1)))
    }
}

impl View for Value {
    type V = ValueView;

    open spec fn view(&self) -> ValueView {
        value_view(*self)
    }
}

/// Why a message could not be read by its layout.
#[derive(Debug, Copy, Clone, PartialEq, Eq, Structural)]
pub enum DecodeError {
    /// The bytes do not hold what the layout asks for.
    Parse(ParseError),
    /// No layout has the number of the packet.
    UnknownPacket,
    /// A layout refers to a layout that is not there.
    UnknownStruct,
    /// A condition or a length refers to a field that is not there or is
    /// no number.
    BadReference,
    /// Layouts refer to each other more deeply than is allowed.
    TooDeep,
}

/// How deeply layouts may refer to each other.
pub const MAX_DEPTH: usize = 32;

/// The named values read so far.
pub type Scope = Seq<(Seq<char>, ValueView)>;

/// What reading gives: the value and the bytes behind it.
pub type Read<T> = Result<(T, Seq<u8>), DecodeError>;

/// The value of the last field of the given name.
pub open spec fn lookup(scope: Scope, name: Seq<char>) -> Option<ValueView>
    decreases scope.len(),
{
    if scope.len() == 0 {
        None
    } else if scope.last().0 == name {
        Some(scope.last().1)
    } else {
        lookup(scope.drop_last(), name)
    }
}

/// The number that a value is, if it is one.
pub open spec fn number_of(v: ValueView) -> Option<int> {
    match v {
        ValueView::Unsigned(u) => Some(u as int),
        ValueView::Signed(i) => Some(i as int),
        _ => None,
    }
}

/// The number in the last field of the given name.
pub open spec fn number_at(scope: Scope, name: Seq<char>) -> Option<int> {
    match lookup(scope, name) {
        Some(v) => number_of(v),
        None => None,
    }
}

/// A number as a length: it must not be negative and must fit the machine's
/// word.
pub open spec fn length_of(n: int) -> Option<usize> {
    if 0 <= n <= usize::MAX {
        Some(n as usize)
    } else {
        None
    }
}

/// Whether a condition holds, and the bytes behind what it read.
pub open spec fn condition_holds(cond: Condition, scope: Scope, bytes: Seq<u8>) -> Read<bool> {
    match cond {
        Condition::Bool => if bytes.len() >= 1 {
            Ok((bytes[0] == 1, bytes.skip(1)))
        } else {
            Err(DecodeError::Parse(ParseError::OutOfBytes))
        },
        Condition::Equality(name, lit) => match number_at(scope, name@) {
            Some(n) => Ok((n == lit, bytes)),
            None => Err(DecodeError::BadReference),
        },
        Condition::Greater(name, lit) => match number_at(scope, name@) {
            Some(n) => Ok((n > lit, bytes)),
            None => Err(DecodeError::BadReference),
        },
    }
}

/// An unsigned number of `width` bytes at the start of `bytes`.
pub open spec fn read_unsigned(bytes: Seq<u8>, width: int) -> Read<ValueView> {
    if bytes.len() < width {
        Err(DecodeError::Parse(ParseError::OutOfBytes))
    } else {
        Ok(
            (
                ValueView::Unsigned(
                    (if width == 1 {
                        bytes[0] as int
                    } else if width == 2 {
                        le_u16(bytes)
                    } else if width == 4 {
                        le_u32(bytes)
                    } else {
                        le_u64(bytes)
                    }) as u64,
                ),
                bytes.skip(width),
            ),
        )
    }
}

/// A signed number of `width` bytes at the start of `bytes`.
pub open spec fn read_signed(bytes: Seq<u8>, width: int) -> Read<ValueView> {
    if bytes.len() < width {
        Err(DecodeError::Parse(ParseError::OutOfBytes))
    } else {
        Ok(
            (
                ValueView::Signed(
                    (if width == 1 {
                        signed(bytes[0] as int, 0x80)
                    } else if width == 2 {
                        signed(le_u16(bytes), 0x8000)
                    } else if width == 4 {
                        signed(le_u32(bytes), 0x8000_0000)
                    } else {
                        signed(le_u64(bytes), 0x8000_0000_0000_0000)
                    }) as i64,
                ),
                bytes.skip(width),
            ),
        )
    }
}

/// A text at the start of `bytes`.
pub open spec fn read_text(bytes: Seq<u8>) -> Read<ValueView> {
    if bytes.len() < 2 || bytes.len() < 2 + 2 * le_u16(bytes) {
        Err(DecodeError::Parse(ParseError::OutOfBytes))
    } else {
        match utf16_chars(code_units(bytes.subrange(2, 2 + 2 * le_u16(bytes)))) {
            Some(text) => Ok((ValueView::Text(text), bytes.skip(2 + 2 * le_u16(bytes)))),
            None => Err(DecodeError::Parse(ParseError::InvalidUtf16)),
        }
    }
}

/// A packed integer at the start of `bytes`.
pub open spec fn read_packed(bytes: Seq<u8>) -> Read<ValueView> {
    if bytes.len() < 1 || bytes.len() < 1 + packed_i64_len(bytes[0]) {
        Err(DecodeError::Parse(ParseError::OutOfBytes))
    } else {
        Ok(
            (
                ValueView::Signed(
                    packed_i64_value(bytes[0], bytes.subrange(1, 1 + packed_i64_len(bytes[0]))) as i64,
                ),
                bytes.skip(1 + packed_i64_len(bytes[0])),
            ),
        )
    }
}

/// A date at the start of `bytes`.
pub open spec fn read_date(bytes: Seq<u8>) -> Read<ValueView> {
    if bytes.len() < 2 {
        Err(DecodeError::Parse(ParseError::OutOfBytes))
    } else if simple_u64_is_long(le_u16(bytes)) {
        read_unsigned(bytes, 8)
    } else {
        Ok((ValueView::Unsigned(simple_u64_short(le_u16(bytes)) as u64), bytes.skip(2)))
    }
}

/// The bytes behind `n` bytes that are passed over.
pub open spec fn read_skip(bytes: Seq<u8>, n: int) -> Read<ValueView> {
    if 0 <= n <= bytes.len() {
        Ok((ValueView::Unit, bytes.skip(n)))
    } else {
        Err(DecodeError::Parse(ParseError::OutOfBytes))
    }
}

/// The kind that a structure of the given name is another word for.
pub open spec fn alias_of(name: Seq<char>) -> Option<Kind> {
    if name == "ReadNBytesInt64"@ {
        Some(Kind::PackedI64)
    } else if name == "Angle"@ {
        Some(Kind::Angle)
    } else if name == "LostArkDateTime"@ {
        Some(Kind::DateTime)
    } else if name == "Vector3F"@ {
        Some(Kind::Vector)
    } else {
        None
    }
}

/// Number of bytes that one of the structures with a fixed reader takes at
/// the start of `bytes`: `Some(None)` where the bytes run out, `None` where
/// the name is none of them.
pub open spec fn builtin_span(name: Seq<char>, bytes: Seq<u8>) -> Option<Option<nat>> {
    if name == "TripodIndex"@ {
        Some(<TripodIndex as Event>::span(bytes))
    } else if name == "TripodLevel"@ {
        Some(<TripodLevel as Event>::span(bytes))
    } else if name == "SkillOptionData"@ {
        Some(<SkillOptionData as Event>::span(bytes))
    } else if name == "SkillMoveOptionData"@ {
        Some(<SkillMoveOptionData as Event>::span(bytes))
    } else if name == "MoveOptionData"@ {
        Some(<MoveOptionData as Event>::span(bytes))
    } else {
        None
    }
}

/// Position of the first layout of the given name.
pub open spec fn find_layout(schema: Seq<Packet>, name: Seq<char>, from: int) -> Option<int>
    decreases schema.len() - from,
{
    if from < 0 || from >= schema.len() {
        None
    } else if schema[from].name@ == name {
        Some(from)
    } else {
        find_layout(schema, name, from + 1)
    }
}

/// Position of the first layout with the given packet number.
pub open spec fn find_opcode(schema: Seq<Packet>, opcode: u16, from: int) -> Option<int>
    decreases schema.len() - from,
{
    if from < 0 || from >= schema.len() {
        None
    } else if schema[from].opcode == Some(opcode) {
        Some(from)
    } else {
        find_opcode(schema, opcode, from + 1)
    }
}

/// The most values that a list may have.
pub open spec fn list_limit(len: LiteralOrIdent, scope: Scope) -> Result<usize, DecodeError> {
    match len {
        LiteralOrIdent::Literal(n) => Ok(
            if n <= usize::MAX {
                n as usize
            } else {
                usize::MAX
            },
        ),
        LiteralOrIdent::Ident(name) => match number_at(scope, name@) {
            Some(n) => match length_of(n) {
                Some(limit) => Ok(limit),
                None => Err(DecodeError::BadReference),
            },
            None => Err(DecodeError::BadReference),
        },
    }
}

/// What a field reads whose kind stands for itself: a number, a truth
/// value, a text, or bytes that are kept or passed over.
pub open spec fn decode_plain(kind: Kind, bytes: Seq<u8>) -> Read<ValueView> {
    match kind {
        Kind::U8 => read_unsigned(bytes, 1),
        Kind::U16 => read_unsigned(bytes, 2),
        Kind::U32 => read_unsigned(bytes, 4),
        Kind::U64 => read_unsigned(bytes, 8),
        Kind::I8 => read_signed(bytes, 1),
        Kind::I16 => read_signed(bytes, 2),
        Kind::I32 => read_signed(bytes, 4),
        Kind::I64 => read_signed(bytes, 8),
        Kind::F32 => read_unsigned(bytes, 4),
        Kind::Bool => if bytes.len() >= 1 {
            Ok((ValueView::Bool(bytes[0] == 1), bytes.skip(1)))
        } else {
            Err(DecodeError::Parse(ParseError::OutOfBytes))
        },
        Kind::String(_) => read_text(bytes),
        Kind::PackedI64 => read_packed(bytes),
        Kind::DateTime => read_date(bytes),
        Kind::Angle => read_unsigned(bytes, 2),
        Kind::Vector => read_unsigned(bytes, 8),
        Kind::Bytes(n) => if bytes.len() >= n {
            Ok((ValueView::Bytes(bytes.take(n as int)), bytes.skip(n as int)))
        } else {
            Err(DecodeError::Parse(ParseError::OutOfBytes))
        },
        Kind::Skip(n) => read_skip(bytes, n as int),
        _ => Err(DecodeError::BadReference),
    }
}

/// What a field of the given kind reads from `bytes`, with the named values
/// of its layout read so far in `scope`.
pub open spec fn decode_kind(
    schema: Seq<Packet>,
    kind: Kind,
    scope: Scope,
    bytes: Seq<u8>,
    depth: nat,
) -> Read<ValueView>
    decreases depth, kind, 0nat,
{
    match kind {
        Kind::Optional(cond, inner) => match condition_holds(cond, scope, bytes) {
            Err(e) => Err(e),
            Ok((false, rest)) => Ok((ValueView::Optional(None), rest)),
            Ok((true, rest)) => match decode_kind(schema, *inner, scope, rest, depth) {
                Ok((v, rest)) => Ok((ValueView::Optional(Some(Box::new(v))), rest)),
                Err(e) => Err(e),
            },
        },
        Kind::If(cond, fields) => match condition_holds(cond, scope, bytes) {
            Err(e) => Err(e),
            Ok((false, rest)) => Ok((ValueView::Optional(None), rest)),
            Ok((true, rest)) => match decode_fields(schema, fields@, fields@.len(), rest, depth) {
                Ok((record, rest)) => Ok(
                    (ValueView::Optional(Some(Box::new(ValueView::Record(record)))), rest),
                ),
                Err(e) => Err(e),
            },
        },
        Kind::Struct(name) => match alias_of(name@) {
            Some(plain) => decode_plain(plain, bytes),
            None => match builtin_span(name@, bytes) {
                Some(Some(n)) => read_skip(bytes, n as int),
                Some(None) => Err(DecodeError::Parse(ParseError::OutOfBytes)),
                None => match find_layout(schema, name@, 0) {
                    None => Err(DecodeError::UnknownStruct),
                    Some(at) => if depth == 0 {
                        Err(DecodeError::TooDeep)
                    } else {
                        match decode_fields(
                            schema,
                            schema[at].fields@,
                            schema[at].fields@.len(),
                            bytes,
                            (depth - 1) as nat,
                        ) {
                            Ok((record, rest)) => Ok((ValueView::Record(record), rest)),
                            Err(e) => Err(e),
                        }
                    },
                },
            },
        },
        Kind::KindedBytes(len_kind, max_len, multiplier) => match decode_kind(
            schema,
            *len_kind,
            scope,
            bytes,
            depth,
        ) {
            Err(e) => Err(e),
            Ok((len, rest)) => match number_of(len) {
                None => Err(DecodeError::BadReference),
                Some(n) => match length_of(n) {
                    None => Err(DecodeError::Parse(ParseError::BadLength)),
                    Some(count) => read_skip(
                        rest,
                        bytes_span(
                            count,
                            match multiplier {
                                Some(m) => m,
                                None => 1,
                            },
                            max_len,
                        ),
                    ),
                },
            },
        },
        Kind::Tuple(fields) => match decode_fields(schema, fields@, fields@.len(), bytes, depth) {
            Ok((record, rest)) => Ok((ValueView::Record(record), rest)),
            Err(e) => Err(e),
        },
        Kind::Array { kind, len_kind, len } => match decode_kind(
            schema,
            *len_kind,
            scope,
            bytes,
            depth,
        ) {
            Err(e) => Err(e),
            Ok((count, rest)) => match number_of(count) {
                None => Err(DecodeError::BadReference),
                Some(n) => match length_of(n) {
                    None => Err(DecodeError::Parse(ParseError::BadLength)),
                    Some(count) => match list_limit(len, scope) {
                        Err(e) => Err(e),
                        Ok(limit) => if count <= limit {
                            match decode_run(schema, *kind, scope, rest, count as nat, depth) {
                                Ok((items, rest)) => Ok((ValueView::List(items), rest)),
                                Err(e) => Err(e),
                            }
                        } else {
                            Ok((ValueView::List(Seq::empty()), rest))
                        },
                    },
                },
            },
        },
        _ => decode_plain(kind, bytes),
    }
}

/// What `count` values of the given kind read one after the other.
pub open spec fn decode_run(
    schema: Seq<Packet>,
    kind: Kind,
    scope: Scope,
    bytes: Seq<u8>,
    count: nat,
    depth: nat,
) -> Read<Seq<ValueView>>
    decreases depth, kind, count,
{
    if count == 0 {
        Ok((Seq::empty(), bytes))
    } else {
        match decode_run(schema, kind, scope, bytes, (count - 1) as nat, depth) {
            Err(e) => Err(e),
            Ok((items, rest)) => match decode_kind(schema, kind, scope, rest, depth) {
                Ok((v, rest)) => Ok((items.push(v), rest)),
                Err(e) => Err(e),
            },
        }
    }
}

/// What the first `upto` fields of a layout read: the named values, and the
/// bytes behind the fields. A field is read with the named values before it
/// as its scope.
pub open spec fn decode_fields(
    schema: Seq<Packet>,
    fields: Seq<Field>,
    upto: nat,
    bytes: Seq<u8>,
    depth: nat,
) -> Read<Scope>
    decreases depth, fields, upto,
{
    if upto == 0 || upto > fields.len() {
        Ok((Seq::empty(), bytes))
    } else {
        match decode_fields(schema, fields, (upto - 1) as nat, bytes, depth) {
            Err(e) => Err(e),
            Ok((record, rest)) => match decode_kind(
                schema,
                fields[upto - 1].kind,
                record,
                rest,
                depth,
            ) {
                Err(e) => Err(e),
                Ok((v, rest)) => Ok(
                    (
                        match fields[upto - 1].name {
                            Some(name) => record.push((name@, v)),
                            None => record,
                        },
                        rest,
                    ),
                ),
            },
        }
    }
}

/// What the message of the packet with the given number reads as.
pub open spec fn decode_message(schema: Seq<Packet>, opcode: u16, bytes: Seq<u8>) -> Read<
    ValueView,
> {
    match find_opcode(schema, opcode, 0) {
        None => Err(DecodeError::UnknownPacket),
        Some(at) => match decode_fields(
            schema,
            schema[at].fields@,
            schema[at].fields@.len(),
            bytes,
            MAX_DEPTH as nat,
        ) {
            Ok((record, rest)) => Ok((ValueView::Record(record), rest)),
            Err(e) => Err(e),
        },
    }
}

/// Whether reading gives the value `v` and leaves `rest`.
pub open spec fn reads<T>(r: Read<T>, v: T, rest: Seq<u8>) -> bool {
    r == Ok::<(T, Seq<u8>), DecodeError>((v, rest))
}

/// Whether reading fails with `e`.
pub open spec fn fails<T>(r: Read<T>, e: DecodeError) -> bool {
    r == Err::<(T, Seq<u8>), DecodeError>(e)
}

/// The layouts of all packets and of their named parts.
pub struct Schema {
    pub packets: Vec<Packet>,
}

/// Whether a text is the given one.
fn same_text(a: &String, b: &str) -> (same: bool)
    ensures
        same == (a@ == b@),
{
    let other = b.to_owned();
    *a == other
}

/// The value of the last field of the given name.
pub fn find_field<'a>(scope: &'a Vec<(String, Value)>, name: &String) -> (found: Option<
    &'a Value,
>)
    ensures
        match found {
            Some(v) => lookup(fields_view(scope@), name@) == Some(v@),
            None => lookup(fields_view(scope@), name@) is None,
        },
{
    let mut i: usize = scope.len();
    assert(scope@.take(i as int) =~= scope@);
    while i > 0
        invariant
            0 <= i <= scope@.len(),
            lookup(fields_view(scope@), name@) == lookup(fields_view(scope@.take(i as int)), name@),
        decreases i,
    {
        i = i - 1;
        proof {
            let head = scope@.take(i + 1);
            assert(head.drop_last() =~= scope@.take(i as int));
            assert(head.last() == scope@[i as int]);
            assert(fields_view(head).drop_last() =~= fields_view(scope@.take(i as int)));
        }
        if scope[i].0 == *name {
            return Some(&scope[i].1);
        }
    }
    None
}

/// The number that a value is, if it is one.
fn value_number(v: &Value) -> (n: Option<i128>)
    ensures
        match n {
            Some(n) => number_of(v@) == Some(n as int),
            None => number_of(v@) is None,
        },
{
    match v {
        Value::Unsigned(u) => Some(*u as i128),
        Value::Signed(i) => Some(*i as i128),
        _ => None,
    }
}

/// The number in the last field of the given name.
fn field_number(scope: &Vec<(String, Value)>, name: &String) -> (n: Option<i128>)
    ensures
        match n {
            Some(n) => number_at(fields_view(scope@), name@) == Some(n as int),
            None => number_at(fields_view(scope@), name@) is None,
        },
{
    match find_field(scope, name) {
        Some(v) => value_number(v),
        None => None,
    }
}

/// A number as a length.
fn to_length(n: i128) -> (len: Option<usize>)
    ensures
        len == length_of(n as int),
{
    if n < 0 || n > usize::MAX as i128 {
        None
    } else {
        Some(n as usize)
    }
}

/// Tests a condition.
fn check_condition(cond: &Condition, scope: &Vec<(String, Value)>, parser: &mut Parser) -> (r:
    Result<bool, DecodeError>)
    ensures
        match r {
            Ok(holds) => reads(
                condition_holds(*cond, fields_view(scope@), old(parser)@),
                holds,
                final(parser)@,
            ),
            Err(e) => fails(condition_holds(*cond, fields_view(scope@), old(parser)@), e),
        },
{
    match cond {
        Condition::Bool => match parser.read_bool() {
            Ok(b) => Ok(b),
            Err(e) => Err(DecodeError::Parse(e)),
        },
        Condition::Equality(name, lit) => match field_number(scope, name) {
            Some(n) => Ok(n == *lit as i128),
            None => Err(DecodeError::BadReference),
        },
        Condition::Greater(name, lit) => match field_number(scope, name) {
            Some(n) => Ok(n > *lit as i128),
            None => Err(DecodeError::BadReference),
        },
    }
}

/// The most values that a list may have.
fn limit_of(len: &LiteralOrIdent, scope: &Vec<(String, Value)>) -> (r: Result<usize, DecodeError>)
    ensures
        r == list_limit(*len, fields_view(scope@)),
{
    match len {
        LiteralOrIdent::Literal(n) => Ok(
            if *n > usize::MAX as u64 {
                usize::MAX
            } else {
                *n as usize
            },
        ),
        LiteralOrIdent::Ident(name) => match field_number(scope, name) {
            Some(n) => match to_length(n) {
                Some(limit) => Ok(limit),
                None => Err(DecodeError::BadReference),
            },
            None => Err(DecodeError::BadReference),
        },
    }
}

/// The kind that a structure of the given name is another word for.
fn alias(name: &String) -> (kind: Option<Kind>)
    ensures
        kind == alias_of(name@),
{
    if same_text(name, "ReadNBytesInt64") {
        Some(Kind::PackedI64)
    } else if same_text(name, "Angle") {
        Some(Kind::Angle)
    } else if same_text(name, "LostArkDateTime") {
        Some(Kind::DateTime)
    } else if same_text(name, "Vector3F") {
        Some(Kind::Vector)
    } else {
        None
    }
}

/// Reads `n` bytes as they are.
fn take_bytes(parser: &mut Parser, n: usize) -> (r: Result<Value, DecodeError>)
    ensures
        match r {
            Ok(v) => old(parser)@.len() >= n && v@ == ValueView::Bytes(old(parser)@.take(n as int))
                && final(parser)@ == old(parser)@.skip(n as int),
            Err(e) => old(parser)@.len() < n && e == DecodeError::Parse(ParseError::OutOfBytes),
        },
{
    if parser.remaining() < n {
        return Err(DecodeError::Parse(ParseError::OutOfBytes));
    }
    let raw = parser.raw();
    let mut bytes: Vec<u8> = Vec::new();
    let mut i: usize = 0;
    while i < n
        invariant
            0 <= i <= n <= raw@.len(),
            bytes@ == raw@.take(i as int),
        decreases n - i,
    {
        bytes.push(raw[i]);
        proof {
            assert(raw@.take(i as int).push(raw@[i as int]) =~= raw@.take(i + 1));
        }
        i = i + 1;
    }
    parser.advance(n);
    Ok(Value::Bytes(bytes))
}

/// Reads one of the structures with a fixed reader and keeps nothing of it.
/// Returns nothing where the name is none of them.
fn decode_builtin(name: &String, parser: &mut Parser, arena: &Arena) -> (r: Option<
    Result<Value, DecodeError>,
>)
    ensures
        match r {
            None => builtin_span(name@, old(parser)@) is None && final(parser)@ == old(parser)@,
            Some(Ok(v)) => builtin_span(name@, old(parser)@) matches Some(Some(n)) && v@
                == ValueView::Unit && n <= old(parser)@.len() && final(parser)@ == old(parser)@.skip(
                n as int,
            ),
            Some(Err(e)) => builtin_span(name@, old(parser)@) == Some(None::<nat>) && e
                == DecodeError::Parse(ParseError::OutOfBytes),
        },
{
    let parsed = if same_text(name, "TripodIndex") {
        TripodIndex::parse(parser, arena).is_ok()
    } else if same_text(name, "TripodLevel") {
        TripodLevel::parse(parser, arena).is_ok()
    } else if same_text(name, "SkillOptionData") {
        SkillOptionData::parse(parser, arena).is_ok()
    } else if same_text(name, "SkillMoveOptionData") {
        SkillMoveOptionData::parse(parser, arena).is_ok()
    } else if same_text(name, "MoveOptionData") {
        MoveOptionData::parse(parser, arena).is_ok()
    } else {
        return None;
    };
    if parsed {
        Some(Ok(Value::Unit))
    } else {
        Some(Err(DecodeError::Parse(ParseError::OutOfBytes)))
    }
}

/// Reads a field whose kind stands for itself.
fn read_plain(kind: &Kind, parser: &mut Parser, arena: &Arena) -> (r: Result<Value, DecodeError>)
    ensures
        match r {
            Ok(v) => reads(decode_plain(*kind, old(parser)@), v@, final(parser)@),
            Err(e) => fails(decode_plain(*kind, old(parser)@), e),
        },
{
    match kind {
        Kind::U8 => match parser.read_u8() {
            Ok(v) => Ok(Value::Unsigned(v as u64)),
            Err(e) => Err(DecodeError::Parse(e)),
        },
        Kind::U16 | Kind::Angle => match parser.read_u16() {
            Ok(v) => Ok(Value::Unsigned(v as u64)),
            Err(e) => Err(DecodeError::Parse(e)),
        },
        Kind::U32 | Kind::F32 => match parser.read_u32() {
            Ok(v) => Ok(Value::Unsigned(v as u64)),
            Err(e) => Err(DecodeError::Parse(e)),
        },
        Kind::U64 | Kind::Vector => match parser.read_u64() {
            Ok(v) => Ok(Value::Unsigned(v)),
            Err(e) => Err(DecodeError::Parse(e)),
        },
        Kind::I8 => match parser.read_i8() {
            Ok(v) => Ok(Value::Signed(v as i64)),
            Err(e) => Err(DecodeError::Parse(e)),
        },
        Kind::I16 => match parser.read_i16() {
            Ok(v) => Ok(Value::Signed(v as i64)),
            Err(e) => Err(DecodeError::Parse(e)),
        },
        Kind::I32 => match parser.read_i32() {
            Ok(v) => Ok(Value::Signed(v as i64)),
            Err(e) => Err(DecodeError::Parse(e)),
        },
        Kind::I64 => match parser.read_i64() {
            Ok(v) => Ok(Value::Signed(v)),
            Err(e) => Err(DecodeError::Parse(e)),
        },
        Kind::Bool => match parser.read_bool() {
            Ok(v) => Ok(Value::Bool(v)),
            Err(e) => Err(DecodeError::Parse(e)),
        },
        Kind::String(_) => match parser.read_str(arena) {
            Ok(text) => Ok(Value::Text(text.to_owned())),
            Err(e) => Err(DecodeError::Parse(e)),
        },
        Kind::PackedI64 => match parser.read_packed_i64() {
            Ok(v) => Ok(Value::Signed(v)),
            Err(e) => Err(DecodeError::Parse(e)),
        },
        Kind::DateTime => match parser.read_simple_u64() {
            Ok(v) => Ok(Value::Unsigned(v)),
            Err(e) => Err(DecodeError::Parse(e)),
        },
        Kind::Bytes(n) => take_bytes(parser, *n),
        Kind::Skip(n) => match parser.skip(*n) {
            Ok(()) => Ok(Value::Unit),
            Err(e) => Err(DecodeError::Parse(e)),
        },
        _ => Err(DecodeError::BadReference),
    }
}

proof fn lemma_values_push(items: Seq<Value>, v: Value)
    ensures
        values_view(items.push(v)) == values_view(items).push(value_view(v)),
{
    assert(items.push(v).drop_last() =~= items);
}

proof fn lemma_fields_push(fields: Seq<(String, Value)>, name: String, v: Value)
    ensures
        fields_view(fields.push((name, v))) == fields_view(fields).push((name@, value_view(v))),
{
    assert(fields.push((name, v)).drop_last() =~= fields);
}

impl Schema {
    /// Position of the first layout of the given name.
    fn layout_named(&self, name: &String) -> (at: Option<usize>)
        ensures
            match at {
                Some(i) => find_layout(self.packets@, name@, 0) == Some(i as int) && i
                    < self.packets@.len(),
                None => find_layout(self.packets@, name@, 0) is None,
            },
    {
        let mut i: usize = 0;
        while i < self.packets.len()
            invariant
                0 <= i <= self.packets@.len(),
                find_layout(self.packets@, name@, 0) == find_layout(self.packets@, name@, i as int),
            decreases self.packets@.len() - i,
        {
            if self.packets[i].name == *name {
                return Some(i);
            }
            i = i + 1;
        }
        None
    }

    /// Position of the first layout with the given packet number.
    fn layout_of(&self, opcode: u16) -> (at: Option<usize>)
        ensures
            match at {
                Some(i) => find_opcode(self.packets@, opcode, 0) == Some(i as int) && i
                    < self.packets@.len(),
                None => find_opcode(self.packets@, opcode, 0) is None,
            },
    {
        let mut i: usize = 0;
        while i < self.packets.len()
            invariant
                0 <= i <= self.packets@.len(),
                find_opcode(self.packets@, opcode, 0) == find_opcode(
                    self.packets@,
                    opcode,
                    i as int,
                ),
            decreases self.packets@.len() - i,
        {
            let hit = match self.packets[i].opcode {
                Some(number) => number == opcode,
                None => false,
            };
            if hit {
                return Some(i);
            }
            i = i + 1;
        }
        None
    }

    /// Reads a field of the given kind.
    fn decode_kind(
        &self,
        kind: &Kind,
        scope: &Vec<(String, Value)>,
        parser: &mut Parser,
        arena: &Arena,
        depth: usize,
    ) -> (r: Result<Value, DecodeError>)
        ensures
            match r {
                Ok(v) => reads(
                    decode_kind(
                        self.packets@,
                        *kind,
                        fields_view(scope@),
                        old(parser)@,
                        depth as nat,
                    ),
                    v@,
                    final(parser)@,
                ),
                Err(e) => fails(
                    decode_kind(
                        self.packets@,
                        *kind,
                        fields_view(scope@),
                        old(parser)@,
                        depth as nat,
                    ),
                    e,
                ),
            },
        decreases depth, kind, 0nat,
    {
        match kind {
            Kind::Optional(cond, inner) => {
                if check_condition(cond, scope, parser)? {
                    let v = self.decode_kind(inner, scope, parser, arena, depth)?;
                    Ok(Value::Optional(Some(Box::new(v))))
                } else {
                    Ok(Value::Optional(None))
                }
            },
            Kind::If(cond, fields) => {
                if check_condition(cond, scope, parser)? {
                    let record = self.decode_fields(fields, parser, arena, depth)?;
                    let inner = Value::Record(record);
                    assert(inner@ == ValueView::Record(fields_view(record@)));
                    Ok(Value::Optional(Some(Box::new(inner))))
                } else {
                    Ok(Value::Optional(None))
                }
            },
            Kind::Struct(name) => {
                match alias(name) {
                    Some(plain) => {
                        return read_plain(&plain, parser, arena);
                    },
                    None => {},
                }
                match decode_builtin(name, parser, arena) {
                    Some(r) => {
                        return r;
                    },
                    None => {},
                }
                let at = match self.layout_named(name) {
                    Some(at) => at,
                    None => {
                        return Err(DecodeError::UnknownStruct);
                    },
                };
                if depth == 0 {
                    return Err(DecodeError::TooDeep);
                }
                let record = self.decode_fields(&self.packets[at].fields, parser, arena, depth - 1)?;
                Ok(Value::Record(record))
            },
            Kind::KindedBytes(len_kind, max_len, multiplier) => {
                let len = self.decode_kind(len_kind, scope, parser, arena, depth)?;
                let n = match value_number(&len) {
                    Some(n) => n,
                    None => {
                        return Err(DecodeError::BadReference);
                    },
                };
                let count = match to_length(n) {
                    Some(count) => count,
                    None => {
                        return Err(DecodeError::Parse(ParseError::BadLength));
                    },
                };
                let times = match multiplier {
                    Some(m) => *m,
                    None => 1,
                };
                match parser.read_bytes(arena, count, times, *max_len) {
                    Ok(()) => Ok(Value::Unit),
                    Err(e) => Err(DecodeError::Parse(e)),
                }
            },
            Kind::Tuple(fields) => {
                let record = self.decode_fields(fields, parser, arena, depth)?;
                Ok(Value::Record(record))
            },
            Kind::Array { kind, len_kind, len } => {
                let count = self.decode_kind(len_kind, scope, parser, arena, depth)?;
                let n = match value_number(&count) {
                    Some(n) => n,
                    None => {
                        return Err(DecodeError::BadReference);
                    },
                };
                let count = match to_length(n) {
                    Some(count) => count,
                    None => {
                        return Err(DecodeError::Parse(ParseError::BadLength));
                    },
                };
                let limit = limit_of(len, scope)?;
                if count <= limit {
                    let items = self.decode_run(kind, scope, parser, arena, count, depth)?;
                    Ok(Value::List(items))
                } else {
                    let items: Vec<Value> = Vec::new();
                    assert(values_view(items@) =~= Seq::<ValueView>::empty());
                    Ok(Value::List(items))
                }
            },
            _ => read_plain(kind, parser, arena),
        }
    }

    /// Reads `count` values of the given kind one after the other.
    fn decode_run(
        &self,
        kind: &Kind,
        scope: &Vec<(String, Value)>,
        parser: &mut Parser,
        arena: &Arena,
        count: usize,
        depth: usize,
    ) -> (r: Result<Vec<Value>, DecodeError>)
        ensures
            match r {
                Ok(items) => reads(
                    decode_run(
                        self.packets@,
                        *kind,
                        fields_view(scope@),
                        old(parser)@,
                        count as nat,
                        depth as nat,
                    ),
                    values_view(items@),
                    final(parser)@,
                ),
                Err(e) => fails(
                    decode_run(
                        self.packets@,
                        *kind,
                        fields_view(scope@),
                        old(parser)@,
                        count as nat,
                        depth as nat,
                    ),
                    e,
                ),
            },
        decreases depth, kind, 1nat,
    {
        let mut items: Vec<Value> = Vec::new();
        let mut i: usize = 0;
        while i < count
            invariant
                0 <= i <= count,
                reads(
                    decode_run(
                        self.packets@,
                        *kind,
                        fields_view(scope@),
                        old(parser)@,
                        i as nat,
                        depth as nat,
                    ),
                    values_view(items@),
                    parser@,
                ),
            decreases count - i,
        {
            match self.decode_kind(kind, scope, parser, arena, depth) {
                Ok(v) => {
                    proof {
                        lemma_values_push(items@, v);
                    }
                    items.push(v);
                },
                Err(e) => {
                    proof {
                        lemma_run_fails(
                            self.packets@,
                            *kind,
                            fields_view(scope@),
                            old(parser)@,
                            (i + 1) as nat,
                            count as nat,
                            depth as nat,
                        );
                    }
                    return Err(e);
                },
            }
            i = i + 1;
        }
        Ok(items)
    }

    /// Reads the fields of a layout and returns the named values.
    fn decode_fields(
        &self,
        fields: &Vec<Field>,
        parser: &mut Parser,
        arena: &Arena,
        depth: usize,
    ) -> (r: Result<Vec<(String, Value)>, DecodeError>)
        ensures
            match r {
                Ok(record) => reads(
                    decode_fields(
                        self.packets@,
                        fields@,
                        fields@.len(),
                        old(parser)@,
                        depth as nat,
                    ),
                    fields_view(record@),
                    final(parser)@,
                ),
                Err(e) => fails(
                    decode_fields(
                        self.packets@,
                        fields@,
                        fields@.len(),
                        old(parser)@,
                        depth as nat,
                    ),
                    e,
                ),
            },
        decreases depth, fields, 0nat,
    {
        let mut record: Vec<(String, Value)> = Vec::new();
        let mut i: usize = 0;
        while i < fields.len()
            invariant
                0 <= i <= fields@.len(),
                reads(
                    decode_fields(self.packets@, fields@, i as nat, old(parser)@, depth as nat),
                    fields_view(record@),
                    parser@,
                ),
            decreases fields@.len() - i,
        {
            let field = &fields[i];
            match self.decode_kind(&field.kind, &record, parser, arena, depth) {
                Ok(v) => {
                    match &field.name {
                        Some(name) => {
                            let name = name.clone();
                            proof {
                                lemma_fields_push(record@, name, v);
                            }
                            record.push((name, v));
                        },
                        None => {},
                    }
                },
                Err(e) => {
                    proof {
                        lemma_fields_fail(
                            self.packets@,
                            fields@,
                            (i + 1) as nat,
                            fields@.len(),
                            old(parser)@,
                            depth as nat,
                        );
                    }
                    return Err(e);
                },
            }
            i = i + 1;
        }
        Ok(record)
    }

    /// Reads the message of the packet with the given number by its layout.
    /// The whole message need not be used up.
    pub fn decode(&self, opcode: u16, message: &[u8], arena: &Arena) -> (r: Result<
        Value,
        DecodeError,
    >)
        ensures
            match r {
                Ok(v) => decode_message(self.packets@, opcode, message@) matches Ok((view, _))
                    && v@ == view,
                Err(e) => decode_message(self.packets@, opcode, message@) matches Err(f) && e == f,
            },
    {
        let at = match self.layout_of(opcode) {
            Some(at) => at,
            None => {
                return Err(DecodeError::UnknownPacket);
            },
        };
        let mut parser = Parser::new(message);
        let record = self.decode_fields(&self.packets[at].fields, &mut parser, arena, MAX_DEPTH)?;
        Ok(Value::Record(record))
    }
}

proof fn lemma_run_fails(
    schema: Seq<Packet>,
    kind: Kind,
    scope: Scope,
    bytes: Seq<u8>,
    at: nat,
    count: nat,
    depth: nat,
)
    requires
        at <= count,
        decode_run(schema, kind, scope, bytes, at, depth) is Err,
    ensures
        decode_run(schema, kind, scope, bytes, count, depth) == decode_run(
            schema,
            kind,
            scope,
            bytes,
            at,
            depth,
        ),
    decreases count,
{
    if at < count {
        lemma_run_fails(schema, kind, scope, bytes, at, (count - 1) as nat, depth);
    }
}

proof fn lemma_fields_fail(
    schema: Seq<Packet>,
    fields: Seq<Field>,
    at: nat,
    upto: nat,
    bytes: Seq<u8>,
    depth: nat,
)
    requires
        at <= upto <= fields.len(),
        decode_fields(schema, fields, at, bytes, depth) is Err,
    ensures
        decode_fields(schema, fields, upto, bytes, depth) == decode_fields(
            schema,
            fields,
            at,
            bytes,
            depth,
        ),
    decreases upto,
{
    if at < upto {
        lemma_fields_fail(schema, fields, at, (upto - 1) as nat, bytes, depth);
    }
}

/// The value of a field of a record.
pub open spec fn field_of(v: ValueView, name: Seq<char>) -> Option<ValueView> {
    match v {
        ValueView::Record(fields) => lookup(fields, name),
        _ => None,
    }
}

/// The number in a field of a record, where it lies between 0 and `max`.
pub open spec fn uint_at(v: ValueView, name: Seq<char>, max: int) -> Option<int> {
    match field_of(v, name) {
        Some(x) => match number_of(x) {
            Some(n) => if 0 <= n <= max {
                Some(n)
            } else {
                None
            },
            None => None,
        },
        None => None,
    }
}

/// The number in a field of a record, where it is a signed 64-bit number.
pub open spec fn int_at(v: ValueView, name: Seq<char>) -> Option<int> {
    match field_of(v, name) {
        Some(x) => match number_of(x) {
            Some(n) => if i64::MIN <= n <= i64::MAX {
                Some(n)
            } else {
                None
            },
            None => None,
        },
        None => None,
    }
}

/// The text in a field of a record.
pub open spec fn text_at(v: ValueView, name: Seq<char>) -> Option<Seq<char>> {
    match field_of(v, name) {
        Some(ValueView::Text(text)) => Some(text),
        _ => None,
    }
}

/// The list in a field of a record.
pub open spec fn list_at(v: ValueView, name: Seq<char>) -> Option<Seq<ValueView>> {
    match field_of(v, name) {
        Some(ValueView::List(items)) => Some(items),
        _ => None,
    }
}

/// The contents of values, one by one.
pub proof fn lemma_values_view(items: Seq<Value>)
    ensures
        values_view(items).len() == items.len(),
        forall|i: int| 0 <= i < items.len() ==> #[trigger] values_view(items)[i] == value_view(items[i]),
    decreases items.len(),
{
    if items.len() > 0 {
        lemma_values_view(items.drop_last());
        assert forall|i: int| 0 <= i < items.len() implies #[trigger] values_view(items)[i]
            == value_view(items[i]) by {
            if i < items.len() - 1 {
                assert(values_view(items.drop_last())[i] == value_view(items.drop_last()[i]));
            }
        }
    }
}

impl Value {
    /// The value of the last field of the given name, for a record.
    pub fn field<'a>(&'a self, name: &str) -> (found: Option<&'a Value>)
        ensures
            match found {
                Some(v) => field_of(self@, name@) == Some(v@),
                None => field_of(self@, name@) is None,
            },
    {
        match self {
            Value::Record(fields) => {
                let key = name.to_owned();
                find_field(fields, &key)
            },
            _ => None,
        }
    }

    /// The number in a field, where it lies between 0 and `max`.
    pub fn unsigned(&self, name: &str, max: u64) -> (n: Option<u64>)
        ensures
            match n {
                Some(n) => uint_at(self@, name@, max as int) == Some(n as int),
                None => uint_at(self@, name@, max as int) is None,
            },
    {
        match self.field(name) {
            Some(v) => match value_number(v) {
                Some(n) => if 0 <= n && n <= max as i128 {
                    Some(n as u64)
                } else {
                    None
                },
                None => None,
            },
            None => None,
        }
    }

    /// The number in a field, where it is a signed 64-bit number.
    pub fn signed(&self, name: &str) -> (n: Option<i64>)
        ensures
            match n {
                Some(n) => int_at(self@, name@) == Some(n as int),
                None => int_at(self@, name@) is None,
            },
    {
        match self.field(name) {
            Some(v) => match value_number(v) {
                Some(n) => if i64::MIN as i128 <= n && n <= i64::MAX as i128 {
                    Some(n as i64)
                } else {
                    None
                },
                None => None,
            },
            None => None,
        }
    }

    /// The text in a field.
    pub fn text<'a>(&'a self, name: &str) -> (text: Option<&'a str>)
        ensures
            match text {
                Some(t) => text_at(self@, name@) == Some(t@),
                None => text_at(self@, name@) is None,
            },
    {
        match self.field(name) {
            Some(Value::Text(text)) => Some(text.as_str()),
            _ => None,
        }
    }

    /// The list in a field.
    pub fn list<'a>(&'a self, name: &str) -> (items: Option<&'a Vec<Value>>)
        ensures
            match items {
                Some(list) => list_at(self@, name@) == Some(values_view(list@)),
                None => list_at(self@, name@) is None,
            },
    {
        match self.field(name) {
            Some(Value::List(items)) => Some(items),
            _ => None,
        }
    }
}

/// The numbers of the packets as the layouts give them: for each layout
/// with a number whose name is the structure of a known packet, that number
/// and that packet, in the order of the layouts.
pub open spec fn numbers_of(schema: Seq<Packet>) -> Seq<(u16, crate::opcode::Opcode)>
    decreases schema.len(),
{
    if schema.len() == 0 {
        Seq::empty()
    } else {
        let earlier = numbers_of(schema.drop_last());
        match (schema.last().opcode, crate::opcode::Opcode::of_structure(schema.last().name@)) {
            (Some(number), Some(opcode)) => earlier.push((number, opcode)),
            _ => earlier,
        }
    }
}

impl Schema {
    /// The numbers of the known packets.
    pub fn opcode_table(&self) -> (table: crate::opcode::OpcodeTable)
        ensures
            table@ == numbers_of(self.packets@),
    {
        let mut entries: Vec<(u16, crate::opcode::Opcode)> = Vec::new();
        let mut i: usize = 0;
        assert(self.packets@.take(0) =~= Seq::empty());
        while i < self.packets.len()
            invariant
                0 <= i <= self.packets@.len(),
                entries@ == numbers_of(self.packets@.take(i as int)),
            decreases self.packets@.len() - i,
        {
            let packet = &self.packets[i];
            proof {
                let grown = self.packets@.take(i + 1);
                assert(grown.drop_last() =~= self.packets@.take(i as int));
                assert(grown.last() == self.packets@[i as int]);
            }
            let known = crate::opcode::Opcode::from_structure(&packet.name);
            match (packet.opcode, known) {
                (Some(number), Some(opcode)) => {
                    entries.push((number, opcode));
                },
                _ => {},
            }
            i = i + 1;
        }
        assert(self.packets@.take(self.packets@.len() as int) =~= self.packets@);
        crate::opcode::OpcodeTable::new(entries)
    }
}

} // verus!
