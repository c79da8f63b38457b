//! Scalar types and typed values.

use vstd::prelude::*;
use crate::document::{Node, NodeView};
use crate::text::same_text;

verus! {

/// The kind of a scalar value.
#[derive(Debug, Clone, Copy, PartialEq, Eq, Structural)]
pub enum Type {
    String,
    Bool,
    U8,
    U16,
    U32,
    U64,
    I8,
    I16,
    I32,
    I64,
    Uuid,
}

/// A scalar value together with its kind.
#[derive(Debug, PartialEq, Eq)]
pub enum Value {
    String(String),
    Bool(bool),
    U8(u8),
    U16(u16),
    U32(u32),
    U64(u64),
    I8(i8),
    I16(i16),
    I32(i32),
    I64(i64),
    /// A UUID, as its 128 bits in big-endian order.
    Uuid(u128),
}

/// The mathematical value of a [`Value`].
pub enum ValueView {
    String(Seq<char>),
    Bool(bool),
    U8(u8),
    U16(u16),
    U32(u32),
    U64(u64),
    I8(i8),
    I16(i16),
    I32(i32),
    I64(i64),
    Uuid(u128),
}

impl DeepView for Value {
    type V = ValueView;

    open spec fn deep_view(&self) -> ValueView {
        match self {
            Value::String(s) => ValueView::String(s@),
            Value::Bool(b) => ValueView::Bool(*b),
            Value::U8(n) => ValueView::U8(*n),
            Value::U16(n) => ValueView::U16(*n),
            Value::U32(n) => ValueView::U32(*n),
            Value::U64(n) => ValueView::U64(*n),
            Value::I8(n) => ValueView::I8(*n),
            Value::I16(n) => ValueView::I16(*n),
            Value::I32(n) => ValueView::I32(*n),
            Value::I64(n) => ValueView::I64(*n),
            Value::Uuid(u) => ValueView::Uuid(*u),
        }
    }
}

impl ValueView {
    /// The kind of the value.
    pub open spec fn ty(self) -> Type {
        match self {
            ValueView::String(_) => Type::String,
            ValueView::Bool(_) => Type::Bool,
            ValueView::U8(_) => Type::U8,
            ValueView::U16(_) => Type::U16,
            ValueView::U32(_) => Type::U32,
            ValueView::U64(_) => Type::U64,
            ValueView::I8(_) => Type::I8,
            ValueView::I16(_) => Type::I16,
            ValueView::I32(_) => Type::I32,
            ValueView::I64(_) => Type::I64,
            ValueView::Uuid(_) => Type::Uuid,
        }
    }
}

/// The name under which a schema writes a kind.
pub open spec fn name_of_type(ty: Type) -> Seq<char> {
    match ty {
        Type::String => "string"@,
        Type::Bool => "bool"@,
        Type::U8 => "u8"@,
        Type::U16 => "u16"@,
        Type::U32 => "u32"@,
        Type::U64 => "u64"@,
        Type::I8 => "i8"@,
        Type::I16 => "i16"@,
        Type::I32 => "i32"@,
        Type::I64 => "i64"@,
        Type::Uuid => "uuid"@,
    }
}

/// The kind that a name stands for in a schema.
pub open spec fn type_named(name: Seq<char>) -> Option<Type> {
    if name == "string"@ || name == "str"@ || name == "String"@ {
        Some(Type::String)
    } else if name == "bool"@ || name == "Bool"@ || name == "boolean"@ {
        Some(Type::Bool)
    } else if name == "u8"@ {
        Some(Type::U8)
    } else if name == "u16"@ {
        Some(Type::U16)
    } else if name == "u32"@ {
        Some(Type::U32)
    } else if name == "u64"@ {
        Some(Type::U64)
    } else if name == "i8"@ {
        Some(Type::I8)
    } else if name == "i16"@ {
        Some(Type::I16)
    } else if name == "i32"@ {
        Some(Type::I32)
    } else if name == "i64"@ {
        Some(Type::I64)
    } else if name == "uuid"@ || name == "Uuid"@ {
        Some(Type::Uuid)
    } else {
        None
    }
}

impl Type {
    /// The name of the kind.
    pub fn as_str(&self) -> (name: &'static str)
        ensures
            name@ == name_of_type(*self),
    {
        match self {
            Type::String => "string",
            Type::Bool => "bool",
            Type::U8 => "u8",
            Type::U16 => "u16",
            Type::U32 => "u32",
            Type::U64 => "u64",
            Type::I8 => "i8",
            Type::I16 => "i16",
            Type::I32 => "i32",
            Type::I64 => "i64",
            Type::Uuid => "uuid",
        }
    }

    /// The kind that `input` names, if it names one.
    pub fn parse(input: &str) -> (ty: Option<Type>)
        ensures
            ty == type_named(input@),
    {
        if same_text(input, "string") || same_text(input, "str") || same_text(input, "String") {
            Some(Type::String)
        } else if same_text(input, "bool") || same_text(input, "Bool") || same_text(
            input,
            "boolean",
        ) {
            Some(Type::Bool)
        } else if same_text(input, "u8") {
            Some(Type::U8)
        } else if same_text(input, "u16") {
            Some(Type::U16)
        } else if same_text(input, "u32") {
            Some(Type::U32)
        } else if same_text(input, "u64") {
            Some(Type::U64)
        } else if same_text(input, "i8") {
            Some(Type::I8)
        } else if same_text(input, "i16") {
            Some(Type::I16)
        } else if same_text(input, "i32") {
            Some(Type::I32)
        } else if same_text(input, "i64") {
            Some(Type::I64)
        } else if same_text(input, "uuid") || same_text(input, "Uuid") {
            Some(Type::Uuid)
        } else {
            None
        }
    }
}

/// Every kind is named by its own name.
pub proof fn law_type_names_round_trip(ty: Type)
    ensures
        type_named(name_of_type(ty)) == Some(ty),
{
    reveal_strlit("string");
    reveal_strlit("str");
    reveal_strlit("String");
    reveal_strlit("bool");
    reveal_strlit("Bool");
    reveal_strlit("boolean");
    reveal_strlit("u8");
    reveal_strlit("u16");
    reveal_strlit("u32");
    reveal_strlit("u64");
    reveal_strlit("i8");
    reveal_strlit("i16");
    reveal_strlit("i32");
    reveal_strlit("i64");
    reveal_strlit("uuid");
    reveal_strlit("Uuid");
    let name = name_of_type(ty);
    match ty {
        Type::String => {},
        Type::Bool => {
            assert(name[0] == 'b');
        },
        Type::U8 => {
            assert(name[0] == 'u' && name.len() == 2);
        },
        Type::U16 => {
            assert(name[0] == 'u' && name[1] == '1');
        },
        Type::U32 => {
            assert(name[0] == 'u' && name[1] == '3');
        },
        Type::U64 => {
            assert(name[0] == 'u' && name[1] == '6');
        },
        Type::I8 => {
            assert(name[0] == 'i' && name.len() == 2);
        },
        Type::I16 => {
            assert(name[0] == 'i' && name[1] == '1');
        },
        Type::I32 => {
            assert(name[0] == 'i' && name[1] == '3');
        },
        Type::I64 => {
            assert(name[0] == 'i' && name[1] == '6');
        },
        Type::Uuid => {
            assert(name[0] == 'u' && name[1] == 'u');
        },
    }
}

/// The UUID that a text denotes, where it is the text of one.
pub uninterp spec fn uuid_of_text(text: Seq<char>) -> Option<u128>;

/// `uuid::Uuid::parse_str`, then `Uuid::as_u128`: the 128 bits of the UUID
/// that `text` denotes, or nothing where `text` is not the text of a UUID.
#[verifier::external_body]
fn parse_uuid(text: &str) -> (bits: Option<u128>)
    ensures
        bits == uuid_of_text(text@),
{
    match uuid::Uuid::parse_str(text) {
        Ok(id) => Some(id.as_u128()),
        Err(_) => None,
    }
}

/// The zero value of a kind: the empty text, `false`, zero, the nil UUID.
pub open spec fn zero_value(ty: Type) -> ValueView {
    match ty {
        Type::String => ValueView::String(Seq::empty()),
        Type::Bool => ValueView::Bool(false),
        Type::U8 => ValueView::U8(0),
        Type::U16 => ValueView::U16(0),
        Type::U32 => ValueView::U32(0),
        Type::U64 => ValueView::U64(0),
        Type::I8 => ValueView::I8(0),
        Type::I16 => ValueView::I16(0),
        Type::I32 => ValueView::I32(0),
        Type::I64 => ValueView::I64(0),
        Type::Uuid => ValueView::Uuid(0),
    }
}

/// The value of kind `ty` that a document node stands for: a string node
/// for text, a boolean node for a truth value, an integer node within the
/// range of an integer kind for that number, a string node holding the text
/// of a UUID for that UUID; nothing else stands for a value.
pub open spec fn coerce(ty: Type, node: NodeView) -> Option<ValueView> {
    match ty {
        Type::String => match node {
            NodeView::String(s) => Some(ValueView::String(s)),
            _ => None,
        },
        Type::Bool => match node {
            NodeView::Boolean(b) => Some(ValueView::Bool(b)),
            _ => None,
        },
        Type::Uuid => match node {
            NodeView::String(s) => match uuid_of_text(s) {
                Some(bits) => Some(ValueView::Uuid(bits)),
                None => None,
            },
            _ => None,
        },
        _ => match node {
            NodeView::Integer(n) => narrow(ty, n),
            _ => None,
        },
    }
}

/// The value of kind `ty` that a node stands for, or the zero value of the
/// kind where it stands for none.
pub open spec fn value_or_zero(ty: Type, node: NodeView) -> ValueView {
    match coerce(ty, node) {
        Some(value) => value,
        None => zero_value(ty),
    }
}

/// The integer `n` as a value of the integer kind `ty`, where it is in the
/// range of that kind.
pub open spec fn narrow(ty: Type, n: i64) -> Option<ValueView> {
    match ty {
        Type::U8 => if 0 <= n <= u8::MAX {
            Some(ValueView::U8(n as u8))
        } else {
            None
        },
        Type::U16 => if 0 <= n <= u16::MAX {
            Some(ValueView::U16(n as u16))
        } else {
            None
        },
        Type::U32 => if 0 <= n <= u32::MAX {
            Some(ValueView::U32(n as u32))
        } else {
            None
        },
        Type::U64 => if 0 <= n {
            Some(ValueView::U64(n as u64))
        } else {
            None
        },
        Type::I8 => if i8::MIN <= n <= i8::MAX {
            Some(ValueView::I8(n as i8))
        } else {
            None
        },
        Type::I16 => if i16::MIN <= n <= i16::MAX {
            Some(ValueView::I16(n as i16))
        } else {
            None
        },
        Type::I32 => if i32::MIN <= n <= i32::MAX {
            Some(ValueView::I32(n as i32))
        } else {
            None
        },
        Type::I64 => Some(ValueView::I64(n)),
        _ => None,
    }
}

/// Whether a kind is one of the integer kinds.
pub open spec fn is_integer(ty: Type) -> bool {
    !(ty is String || ty is Bool || ty is Uuid)
}

/// The least number of an integer kind.
pub open spec fn least(ty: Type) -> int {
    match ty {
        Type::I8 => i8::MIN as int,
        Type::I16 => i16::MIN as int,
        Type::I32 => i32::MIN as int,
        Type::I64 => i64::MIN as int,
        _ => 0,
    }
}

/// The greatest number of an integer kind.
pub open spec fn greatest(ty: Type) -> int {
    match ty {
        Type::U8 => u8::MAX as int,
        Type::U16 => u16::MAX as int,
        Type::U32 => u32::MAX as int,
        Type::U64 => u64::MAX as int,
        Type::I8 => i8::MAX as int,
        Type::I16 => i16::MAX as int,
        Type::I32 => i32::MAX as int,
        _ => i64::MAX as int,
    }
}

impl ValueView {
    /// The number that a value of an integer kind holds.
    pub open spec fn number(self) -> int {
        match self {
            ValueView::U8(n) => n as int,
            ValueView::U16(n) => n as int,
            ValueView::U32(n) => n as int,
            ValueView::U64(n) => n as int,
            ValueView::I8(n) => n as int,
            ValueView::I16(n) => n as int,
            ValueView::I32(n) => n as int,
            ValueView::I64(n) => n as int,
            _ => 0,
        }
    }
}

/// A node of the matching kind stands for the value that holds what the
/// node holds: a string node for that text, a boolean node for that truth
/// value, an integer node for that number where the number is in the range
/// of the integer kind. An integer out of that range stands for no value,
/// and whatever a node stands for is of the kind asked for.
pub proof fn law_coerce(ty: Type, node: NodeView)
    ensures
        ty is String ==> forall|s: Seq<char>|
            node == NodeView::String(s) ==> coerce(ty, node) == Some(ValueView::String(s)),
        ty is Bool ==> forall|b: bool|
            node == NodeView::Boolean(b) ==> coerce(ty, node) == Some(ValueView::Bool(b)),
        is_integer(ty) ==> forall|n: i64|
            node == NodeView::Integer(n) ==> if least(ty) <= n <= greatest(ty) {
                coerce(ty, node) matches Some(value) && value.ty() == ty && value.number() == n
            } else {
                coerce(ty, node) is None
            },
        coerce(ty, node) matches Some(value) ==> value.ty() == ty,
{
}

/// The zero value of a kind is of that kind, and holds the empty text,
/// `false`, the number zero or the nil UUID.
pub proof fn law_zero_value(ty: Type)
    ensures
        zero_value(ty).ty() == ty,
        is_integer(ty) ==> zero_value(ty).number() == 0,
        ty is String ==> zero_value(ty) == ValueView::String(Seq::empty()),
        ty is Bool ==> zero_value(ty) == ValueView::Bool(false),
        ty is Uuid ==> zero_value(ty) == ValueView::Uuid(0),
{
}

impl Value {
    /// The kind of the value.
    pub fn ty(&self) -> (ty: Type)
        ensures
            ty == self.deep_view().ty(),
    {
        match self {
            Value::String(_) => Type::String,
            Value::Bool(_) => Type::Bool,
            Value::U8(_) => Type::U8,
            Value::U16(_) => Type::U16,
            Value::U32(_) => Type::U32,
            Value::U64(_) => Type::U64,
            Value::I8(_) => Type::I8,
            Value::I16(_) => Type::I16,
            Value::I32(_) => Type::I32,
            Value::I64(_) => Type::I64,
            Value::Uuid(_) => Type::Uuid,
        }
    }

    /// The zero value of kind `ty`.
    pub fn default(ty: Type) -> (value: Value)
        ensures
            value.deep_view() == zero_value(ty),
            value.deep_view().ty() == ty,
    {
        match ty {
            Type::String => Value::String(String::new()),
            Type::Bool => Value::Bool(false),
            Type::U8 => Value::U8(0),
            Type::U16 => Value::U16(0),
            Type::U32 => Value::U32(0),
            Type::U64 => Value::U64(0),
            Type::I8 => Value::I8(0),
            Type::I16 => Value::I16(0),
            Type::I32 => Value::I32(0),
            Type::I64 => Value::I64(0),
            Type::Uuid => Value::Uuid(0),
        }
    }

    /// The value of kind `ty` that the node `val` stands for, if it stands
    /// for one.
    pub fn new(ty: Type, val: &Node) -> (value: Option<Value>)
        ensures
            value.deep_view() == coerce(ty, val.deep_view()),
            value matches Some(v) ==> v.deep_view().ty() == ty,
    {
        match ty {
            Type::String => match val {
                Node::String(s) => Some(Value::String(s.clone())),
                _ => None,
            },
            Type::Bool => match val {
                Node::Boolean(b) => Some(Value::Bool(*b)),
                _ => None,
            },
            Type::Uuid => match val {
                Node::String(s) => match parse_uuid(s.as_str()) {
                    Some(bits) => Some(Value::Uuid(bits)),
                    None => None,
                },
                _ => None,
            },
            _ => match val {
                Node::Integer(n) => Value::narrow(ty, *n),
                _ => None,
            },
        }
    }

    /// The value of kind `ty` that the node `val` stands for, or the zero
    /// value of the kind where it stands for none.
    pub fn new_or_default(ty: Type, val: &Node) -> (value: Value)
        ensures
            value.deep_view() == value_or_zero(ty, val.deep_view()),
            value.deep_view().ty() == ty,
    {
        match Value::new(ty, val) {
            Some(value) => value,
            None => Value::default(ty),
        }
    }

    /// The integer `n` as a value of the integer kind `ty`, if it is in the
    /// range of that kind.
    pub fn narrow(ty: Type, n: i64) -> (value: Option<Value>)
        ensures
            value.deep_view() == narrow(ty, n),
            value matches Some(v) ==> v.deep_view().ty() == ty,
    {
        match ty {
            Type::U8 => if 0 <= n && n <= 0xff {
                Some(Value::U8(n as u8))
            } else {
                None
            },
            Type::U16 => if 0 <= n && n <= 0xffff {
                Some(Value::U16(n as u16))
            } else {
                None
            },
            Type::U32 => if 0 <= n && n <= 0xffff_ffff {
                Some(Value::U32(n as u32))
            } else {
                None
            },
            Type::U64 => if 0 <= n {
                Some(Value::U64(n as u64))
            } else {
                None
            },
            Type::I8 => if -0x80 <= n && n <= 0x7f {
                Some(Value::I8(n as i8))
            } else {
                None
            },
            Type::I16 => if -0x8000 <= n && n <= 0x7fff {
                Some(Value::I16(n as i16))
            } else {
                None
            },
            Type::I32 => if -0x8000_0000 <= n && n <= 0x7fff_ffff {
                Some(Value::I32(n as i32))
            } else {
                None
            },
            Type::I64 => Some(Value::I64(n)),
            _ => None,
        }
    }
}

} // verus!
