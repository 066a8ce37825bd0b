use vstd::prelude::*;

verus! {

/// The runtime type of a value.
#[derive(Clone, Copy, Debug, PartialEq, Eq, Structural, Hash, PartialOrd, Ord)]
pub enum ValueType {
    Null,
    String,
    Integer,
    Boolean,
    Array,
    Object,
    Type,
    Lambda,
}

/// The name under which a type is written in source code and printed.
pub open spec fn value_type_name(t: ValueType) -> Seq<char> {
    match t {
        ValueType::Null => seq!['N', 'u', 'l', 'l'],
        ValueType::String => seq!['S', 't', 'r', 'i', 'n', 'g'],
        ValueType::Integer => seq!['I', 'n', 't', 'e', 'g', 'e', 'r'],
        ValueType::Boolean => seq!['B', 'o', 'o', 'l', 'e', 'a', 'n'],
        ValueType::Array => seq!['A', 'r', 'r', 'a', 'y'],
        ValueType::Object => seq!['O', 'b', 'j', 'e', 'c', 't'],
        ValueType::Type => seq!['T', 'y', 'p', 'e'],
        ValueType::Lambda => seq!['L', 'a', 'm', 'b', 'd', 'a'],
    }
}

impl ValueType {
    /// The printed name of the type (`Integer`, `String`, ...).
    pub fn name(&self) -> (r: String)
        ensures
            r@ == value_type_name(*self),
    {
        let s = match self {
            ValueType::Null => "Null",
            ValueType::String => "String",
            ValueType::Integer => "Integer",
            ValueType::Boolean => "Boolean",
            ValueType::Array => "Array",
            ValueType::Object => "Object",
            ValueType::Type => "Type",
            ValueType::Lambda => "Lambda",
        };
        proof {
            reveal_strlit("Null");
            reveal_strlit("String");
            reveal_strlit("Integer");
            reveal_strlit("Boolean");
            reveal_strlit("Array");
            reveal_strlit("Object");
            reveal_strlit("Type");
            reveal_strlit("Lambda");
        }
        s.to_string()
    }
}

} // verus!
