//! Generated code that reads and writes the wire format through a binary
//! reader `br` and a binary writer `bw`.

pub mod deserialize;
pub mod serialize;

use crate::common::field::Runtime;
use crate::descriptor::{FieldDescriptorProto, FieldType};
use crate::text::joined;
use vstd::prelude::*;
use vstd::string::*;

verus! {

/// The generator of code over the binary reader and writer.
#[derive(Clone, Copy, Debug)]
pub struct GooglePBRuntime {}

impl Runtime for GooglePBRuntime {

}

/// The part of a reader's or writer's method name that says which kind of
/// value it moves. The methods for 64-bit integers move them as decimal
/// text.
pub open spec fn wire_name(t: FieldType) -> Seq<char> {
    match t {
        FieldType::Double => "Double"@,
        FieldType::Float => "Float"@,
        FieldType::Int64 => "Int64String"@,
        FieldType::Uint64 => "Uint64String"@,
        FieldType::Int32 => "Int32"@,
        FieldType::Fixed64 => "Fixed64String"@,
        FieldType::Fixed32 => "Fixed32"@,
        FieldType::Bool => "Bool"@,
        FieldType::String => "String"@,
        FieldType::Group => "Group"@,
        FieldType::Message => "Message"@,
        FieldType::Bytes => "Bytes"@,
        FieldType::Uint32 => "Uint32"@,
        FieldType::Enum => "Enum"@,
        FieldType::Sfixed32 => "Sfixed32"@,
        FieldType::Sfixed64 => "Sfixed64String"@,
        FieldType::Sint32 => "Sint32"@,
        FieldType::Sint64 => "Sint64String"@,
    }
}

/// The name of the method that reads (`rw` is `read`) or writes (`write`)
/// one value of a kind, or a packed run of them.
pub open spec fn rw_name(rw: Seq<char>, packed: bool, t: FieldType) -> Seq<char> {
    if packed {
        rw + "Packed"@ + wire_name(t)
    } else {
        rw + wire_name(t)
    }
}

impl GooglePBRuntime {
    /// The generator.
    pub fn new() -> (r: GooglePBRuntime) {
        GooglePBRuntime {  }
    }

    /// The part of a method name that says which kind of value it moves.
    fn wire_name(t: FieldType) -> (r: &'static str)
        ensures
            r@ == wire_name(t),
    {
        match t {
            FieldType::Double => "Double",
            FieldType::Float => "Float",
            FieldType::Int64 => "Int64String",
            FieldType::Uint64 => "Uint64String",
            FieldType::Int32 => "Int32",
            FieldType::Fixed64 => "Fixed64String",
            FieldType::Fixed32 => "Fixed32",
            FieldType::Bool => "Bool",
            FieldType::String => "String",
            FieldType::Group => "Group",
            FieldType::Message => "Message",
            FieldType::Bytes => "Bytes",
            FieldType::Uint32 => "Uint32",
            FieldType::Enum => "Enum",
            FieldType::Sfixed32 => "Sfixed32",
            FieldType::Sfixed64 => "Sfixed64String",
            FieldType::Sint32 => "Sint32",
            FieldType::Sint64 => "Sint64String",
        }
    }

    /// The name of the method that reads or writes one value of the
    /// field's kind, or a packed run of them.
    pub fn rw_function_name(&self, rw: &str, packed: bool, field: &FieldDescriptorProto) -> (r:
        String)
        ensures
            r@ == rw_name(rw@, packed, field@.type_),
    {
        if packed {
            let head = joined(rw, "Packed");
            joined(head.as_str(), Self::wire_name(field.type_()))
        } else {
            joined(rw, Self::wire_name(field.type_()))
        }
    }
}

} // verus!
