//! Schema descriptors: fields, messages and enums as the generators read them.

use vstd::prelude::*;

verus! {

/// The declared kind of a field.
#[derive(Clone, Copy, Debug, PartialEq, Eq, Structural)]
pub enum FieldType {
    Double,
    Float,
    Int64,
    Uint64,
    Int32,
    Fixed64,
    Fixed32,
    Bool,
    String,
    Group,
    Message,
    Bytes,
    Uint32,
    Enum,
    Sfixed32,
    Sfixed64,
    Sint32,
    Sint64,
}

/// The label of a field.
#[derive(Clone, Copy, Debug, PartialEq, Eq, Structural)]
pub enum Label {
    Optional,
    Required,
    Repeated,
}

impl FieldType {
    /// A 64-bit integer kind, held as an arbitrary-precision integer.
    pub open spec fn spec_is_bigint(self) -> bool {
        self == FieldType::Int64 || self == FieldType::Uint64 || self == FieldType::Sint64
            || self == FieldType::Fixed64 || self == FieldType::Sfixed64
    }

    /// A numeric kind held as a native number.
    pub open spec fn spec_is_number(self) -> bool {
        self == FieldType::Double || self == FieldType::Float || self == FieldType::Int32
            || self == FieldType::Uint32 || self == FieldType::Sint32 || self == FieldType::Fixed32
            || self == FieldType::Sfixed32
    }

    /// A kind whose repeated values may be written as one length-delimited
    /// block: the numeric kinds, booleans and enums.
    pub open spec fn spec_is_packable(self) -> bool {
        self.spec_is_bigint() || self.spec_is_number() || self == FieldType::Bool || self
            == FieldType::Enum
    }

    #[verifier::when_used_as_spec(spec_is_bigint)]
    pub fn is_bigint(self) -> (r: bool)
        ensures
            r == self.spec_is_bigint(),
    {
        match self {
            FieldType::Int64
            | FieldType::Uint64
            | FieldType::Sint64
            | FieldType::Fixed64
            | FieldType::Sfixed64 => true,
            _ => false,
        }
    }

    #[verifier::when_used_as_spec(spec_is_number)]
    pub fn is_number(self) -> (r: bool)
        ensures
            r == self.spec_is_number(),
    {
        match self {
            FieldType::Double
            | FieldType::Float
            | FieldType::Int32
            | FieldType::Uint32
            | FieldType::Sint32
            | FieldType::Fixed32
            | FieldType::Sfixed32 => true,
            _ => false,
        }
    }

    #[verifier::when_used_as_spec(spec_is_packable)]
    pub fn is_packable(self) -> (r: bool)
        ensures
            r == self.spec_is_packable(),
    {
        self.is_bigint() || self.is_number() || self == FieldType::Bool || self == FieldType::Enum
    }
}

/// One field of a message.
#[derive(Debug, PartialEq, Eq)]
pub struct FieldDescriptorProto {
    pub name: String,
    /// The field number: unique within the message, never 0.
    pub number: i32,
    pub label: Label,
    pub type_: FieldType,
    /// The referenced message or enum, for fields of those kinds.
    pub type_ref: String,
    /// The declared default literal, if any.
    pub default_value: Option<String>,
    /// The index of the oneof group that the field belongs to, if any.
    pub oneof_index: Option<i32>,
    pub proto3_optional: bool,
    /// The explicit `packed` option, if given.
    pub packed: Option<bool>,
}

/// The model of a [`FieldDescriptorProto`].
pub struct SpecField {
    pub name: Seq<char>,
    pub number: int,
    pub label: Label,
    pub type_: FieldType,
    pub type_ref: Seq<char>,
    pub default_value: Option<Seq<char>>,
    pub oneof_index: Option<int>,
    pub proto3_optional: bool,
    pub packed: Option<bool>,
}

impl View for FieldDescriptorProto {
    type V = SpecField;

    open spec fn view(&self) -> SpecField {
        SpecField {
            name: self.name@,
            number: self.number as int,
            label: self.label,
            type_: self.type_,
            type_ref: self.type_ref@,
            default_value: match self.default_value {
                Some(d) => Some(d@),
                None => None,
            },
            oneof_index: match self.oneof_index {
                Some(i) => Some(i as int),
                None => None,
            },
            proto3_optional: self.proto3_optional,
            packed: self.packed,
        }
    }
}

impl SpecField {
    /// Whether the field may occur any number of times.
    pub open spec fn is_repeated(self) -> bool {
        self.label == Label::Repeated
    }

    pub open spec fn is_optional(self) -> bool {
        self.label == Label::Optional
    }

    /// Whether the field is a member of a oneof group.
    pub open spec fn has_oneof_index(self) -> bool {
        self.oneof_index is Some
    }

    pub open spec fn is_string(self) -> bool {
        self.type_ == FieldType::String
    }

    pub open spec fn is_bytes(self) -> bool {
        self.type_ == FieldType::Bytes
    }

    pub open spec fn is_boolean(self) -> bool {
        self.type_ == FieldType::Bool
    }

    pub open spec fn is_enum(self) -> bool {
        self.type_ == FieldType::Enum
    }

    pub open spec fn is_message(self) -> bool {
        self.type_ == FieldType::Message
    }

    /// Whether the field is of a 64-bit integer kind.
    pub open spec fn is_bigint(self) -> bool {
        self.type_.spec_is_bigint()
    }

    /// Whether the field is of a numeric kind held as a native number.
    pub open spec fn is_number(self) -> bool {
        self.type_.spec_is_number()
    }

    /// A repeated field of a kind that may be packed.
    pub open spec fn is_packable(self) -> bool {
        self.is_repeated() && self.type_.spec_is_packable()
    }

    /// The property under which the class holds the field: the field's name,
    /// with `_` in front of it for a member of a oneof group.
    pub open spec fn prop_name(self) -> Seq<char> {
        if self.has_oneof_index() {
            "_"@ + self.name
        } else {
            self.name
        }
    }
}

impl FieldDescriptorProto {
    pub fn name(&self) -> (r: &str)
        ensures
            r@ == self@.name,
    {
        self.name.as_str()
    }

    pub fn number(&self) -> (r: i32)
        ensures
            r == self@.number,
    {
        self.number
    }

    pub fn type_(&self) -> (r: FieldType)
        ensures
            r == self@.type_,
    {
        self.type_
    }

    pub fn type_ref(&self) -> (r: &str)
        ensures
            r@ == self@.type_ref,
    {
        self.type_ref.as_str()
    }

    pub fn proto3_optional(&self) -> (r: bool)
        ensures
            r == self@.proto3_optional,
    {
        self.proto3_optional
    }

    pub fn has_oneof_index(&self) -> (r: bool)
        ensures
            r == self@.has_oneof_index(),
    {
        self.oneof_index.is_some()
    }

    pub fn is_repeated(&self) -> (r: bool)
        ensures
            r == self@.is_repeated(),
    {
        self.label == Label::Repeated
    }

    pub fn is_optional(&self) -> (r: bool)
        ensures
            r == self@.is_optional(),
    {
        self.label == Label::Optional
    }

    pub fn is_string(&self) -> (r: bool)
        ensures
            r == self@.is_string(),
    {
        self.type_ == FieldType::String
    }

    pub fn is_bytes(&self) -> (r: bool)
        ensures
            r == self@.is_bytes(),
    {
        self.type_ == FieldType::Bytes
    }

    pub fn is_boolean(&self) -> (r: bool)
        ensures
            r == self@.is_boolean(),
    {
        self.type_ == FieldType::Bool
    }

    pub fn is_enum(&self) -> (r: bool)
        ensures
            r == self@.is_enum(),
    {
        self.type_ == FieldType::Enum
    }

    pub fn is_message(&self) -> (r: bool)
        ensures
            r == self@.is_message(),
    {
        self.type_ == FieldType::Message
    }

    pub fn is_bigint(&self) -> (r: bool)
        ensures
            r == self@.is_bigint(),
    {
        self.type_.is_bigint()
    }

    pub fn is_number(&self) -> (r: bool)
        ensures
            r == self@.is_number(),
    {
        self.type_.is_number()
    }

    pub fn is_packable(&self) -> (r: bool)
        ensures
            r == self@.is_packable(),
    {
        self.is_repeated() && self.type_.is_packable()
    }
}

/// The models of a sequence of fields, in order.
pub open spec fn fields_view(fs: Seq<FieldDescriptorProto>) -> Seq<SpecField> {
    Seq::new(fs.len(), |i: int| fs[i]@)
}

/// One named member of an enum.
#[derive(Debug, PartialEq, Eq)]
pub struct EnumValueDescriptorProto {
    pub name: String,
    pub number: i32,
}

/// The model of an [`EnumValueDescriptorProto`].
pub struct SpecEnumValue {
    pub name: Seq<char>,
    pub number: int,
}

impl View for EnumValueDescriptorProto {
    type V = SpecEnumValue;

    open spec fn view(&self) -> SpecEnumValue {
        SpecEnumValue { name: self.name@, number: self.number as int }
    }
}

/// An enum: its members in declaration order.
#[derive(Debug, PartialEq, Eq)]
pub struct EnumDescriptorProto {
    pub name: String,
    pub value: Vec<EnumValueDescriptorProto>,
}

/// The model of an [`EnumDescriptorProto`].
pub struct SpecEnum {
    pub name: Seq<char>,
    pub value: Seq<SpecEnumValue>,
}

impl View for EnumDescriptorProto {
    type V = SpecEnum;

    open spec fn view(&self) -> SpecEnum {
        SpecEnum { name: self.name@, value: Seq::new(self.value@.len(), |i: int| self.value@[i]@) }
    }
}

impl SpecEnum {
    /// The number of the first declared member, if the enum has a member.
    pub open spec fn leading_member(self) -> Option<int> {
        if self.value.len() > 0 {
            Some(self.value[0].number)
        } else {
            None
        }
    }
}

impl EnumDescriptorProto {
    /// The number of the first declared member, if the enum has a member.
    pub fn leading_member(&self) -> (r: Option<i32>)
        ensures
            self@.leading_member() == match r {
                Some(n) => Some(n as int),
                None => None,
            },
    {
        if self.value.len() > 0 {
            Some(self.value[0].number)
        } else {
            None
        }
    }
}

/// The models of a sequence of enums, in order.
pub open spec fn enums_view(es: Seq<EnumDescriptorProto>) -> Seq<SpecEnum> {
    Seq::new(es.len(), |i: int| es[i]@)
}

/// A message: its fields in declaration order and the types declared in it.
#[derive(Debug, PartialEq, Eq)]
pub struct DescriptorProto {
    pub name: String,
    pub field: Vec<FieldDescriptorProto>,
    pub nested_type: Vec<DescriptorProto>,
    pub enum_type: Vec<EnumDescriptorProto>,
    /// Set on the synthetic two-field message that stands for the entries
    /// of a map field.
    pub map_entry: bool,
}

/// The model of a [`DescriptorProto`].
pub struct SpecDescriptor {
    pub name: Seq<char>,
    pub field: Seq<SpecField>,
    pub nested_type: Seq<SpecDescriptor>,
    pub enum_type: Seq<SpecEnum>,
    pub map_entry: bool,
}

/// The model of one message.
pub open spec fn descriptor_view(d: DescriptorProto) -> SpecDescriptor
    decreases d,
{
    SpecDescriptor {
        name: d.name@,
        field: fields_view(d.field@),
        nested_type: descriptors_view(d.nested_type@),
        enum_type: enums_view(d.enum_type@),
        map_entry: d.map_entry,
    }
}

/// The models of a sequence of messages, in order.
pub open spec fn descriptors_view(ds: Seq<DescriptorProto>) -> Seq<SpecDescriptor>
    decreases ds,
{
    Seq::new(
        ds.len(),
        |i: int|
            if 0 <= i < ds.len() {
                descriptor_view(ds[i])
            } else {
                SpecDescriptor {
                    name: Seq::empty(),
                    field: Seq::empty(),
                    nested_type: Seq::empty(),
                    enum_type: Seq::empty(),
                    map_entry: false,
                }
            },
    )
}

impl View for DescriptorProto {
    type V = SpecDescriptor;

    open spec fn view(&self) -> SpecDescriptor {
        descriptor_view(*self)
    }
}

impl SpecDescriptor {
    /// A well-formed map entry: a synthetic message of exactly two fields,
    /// the key first and the value second, neither of them repeated.
    pub open spec fn is_map_entry(self) -> bool {
        &&& self.map_entry
        &&& self.field.len() == 2
        &&& !self.field[0].is_repeated()
        &&& !self.field[1].is_repeated()
    }
}

impl DescriptorProto {
    /// Whether the message is a well-formed map entry.
    pub fn is_map_entry(&self) -> (r: bool)
        ensures
            r == self@.is_map_entry(),
    {
        self.map_entry && self.field.len() == 2 && !self.field[0].is_repeated()
            && !self.field[1].is_repeated()
    }
}

} // verus!
