use crate::text::{replace, replaced, same};
use vstd::prelude::*;

verus! {

/// The kinds of value that the Java native interface passes: one for each primitive type,
/// one for `void`, and one for every reference.
#[derive(Clone, Copy, Debug, PartialEq, Eq, Structural)]
pub enum ValueKind {
    Boolean,
    Byte,
    Char,
    Short,
    Int,
    Long,
    Float,
    Double,
    Void,
    Object,
}

/// The kind that the type name `name` stands for when it names no array: that of the
/// keyword, where it is one, and a reference for every other name.
pub open spec fn named_kind(name: Seq<char>) -> ValueKind {
    if name == "boolean"@ {
        ValueKind::Boolean
    } else if name == "byte"@ {
        ValueKind::Byte
    } else if name == "char"@ {
        ValueKind::Char
    } else if name == "short"@ {
        ValueKind::Short
    } else if name == "int"@ {
        ValueKind::Int
    } else if name == "long"@ {
        ValueKind::Long
    } else if name == "float"@ {
        ValueKind::Float
    } else if name == "double"@ {
        ValueKind::Double
    } else if name == "void"@ {
        ValueKind::Void
    } else {
        ValueKind::Object
    }
}

/// The kind of a value of the type `name`, which is an array where `is_array` is set: an
/// array is a reference whatever it holds.
pub open spec fn value_kind(name: Seq<char>, is_array: bool) -> ValueKind {
    if is_array {
        ValueKind::Object
    } else {
        named_kind(name)
    }
}

/// The type name `class` without the array markers written in it.
pub open spec fn element_name(class: Seq<char>) -> Seq<char> {
    replaced(class, "[]"@, Seq::empty())
}

/// Whether the name and the flag tell the same of a type: a name that carries an array marker
/// comes with the flag set. The flag decides; the marker may be left out.
pub open spec fn marker_agrees(class: Seq<char>, is_array: bool) -> bool {
    element_name(class) != class ==> is_array
}

/// The letter by which a method descriptor names the kind; for a reference that is the
/// letter which opens the class name.
pub open spec fn kind_code(kind: ValueKind) -> char {
    match kind {
        ValueKind::Boolean => 'Z',
        ValueKind::Byte => 'B',
        ValueKind::Char => 'C',
        ValueKind::Short => 'S',
        ValueKind::Int => 'I',
        ValueKind::Long => 'J',
        ValueKind::Float => 'F',
        ValueKind::Double => 'D',
        ValueKind::Void => 'V',
        ValueKind::Object => 'L',
    }
}

/// The letter of the method by which the result of a call is read as a value of the kind:
/// that of the kind's code in lower case, and `l` for a reference.
pub open spec fn kind_accessor(kind: ValueKind) -> char {
    match kind {
        ValueKind::Boolean => 'z',
        ValueKind::Byte => 'b',
        ValueKind::Char => 'c',
        ValueKind::Short => 's',
        ValueKind::Int => 'i',
        ValueKind::Long => 'j',
        ValueKind::Float => 'f',
        ValueKind::Double => 'd',
        ValueKind::Void => 'v',
        ValueKind::Object => 'l',
    }
}

impl ValueKind {
    /// The kind that `name` stands for when it names no array.
    pub fn of_name(name: &str) -> (k: ValueKind)
        ensures
            k == named_kind(name@),
    {
        if same(name, "boolean") {
            ValueKind::Boolean
        } else if same(name, "byte") {
            ValueKind::Byte
        } else if same(name, "char") {
            ValueKind::Char
        } else if same(name, "short") {
            ValueKind::Short
        } else if same(name, "int") {
            ValueKind::Int
        } else if same(name, "long") {
            ValueKind::Long
        } else if same(name, "float") {
            ValueKind::Float
        } else if same(name, "double") {
            ValueKind::Double
        } else if same(name, "void") {
            ValueKind::Void
        } else {
            ValueKind::Object
        }
    }

    /// The kind of a value of the type `name`, an array where `is_array` is set.
    pub fn of(name: &str, is_array: bool) -> (k: ValueKind)
        ensures
            k == value_kind(name@, is_array),
    {
        if is_array {
            ValueKind::Object
        } else {
            ValueKind::of_name(name)
        }
    }

    /// The letter by which a method descriptor names the kind.
    pub fn code(&self) -> (c: char)
        ensures
            c == kind_code(*self),
    {
        match self {
            ValueKind::Boolean => 'Z',
            ValueKind::Byte => 'B',
            ValueKind::Char => 'C',
            ValueKind::Short => 'S',
            ValueKind::Int => 'I',
            ValueKind::Long => 'J',
            ValueKind::Float => 'F',
            ValueKind::Double => 'D',
            ValueKind::Void => 'V',
            ValueKind::Object => 'L',
        }
    }

    /// The letter of the method by which the result of a call is read as a value of the kind.
    pub fn accessor(&self) -> (c: char)
        ensures
            c == kind_accessor(*self),
    {
        match self {
            ValueKind::Boolean => 'z',
            ValueKind::Byte => 'b',
            ValueKind::Char => 'c',
            ValueKind::Short => 's',
            ValueKind::Int => 'i',
            ValueKind::Long => 'j',
            ValueKind::Float => 'f',
            ValueKind::Double => 'd',
            ValueKind::Void => 'v',
            ValueKind::Object => 'l',
        }
    }
}

/// Takes the array markers out of the type name `class`.
pub fn strip_markers(class: &str) -> (r: String)
    ensures
        r@ == element_name(class@),
{
    let r = replace(class, "[]", "");
    proof {
        reveal_strlit("");
        assert(""@ =~= Seq::<char>::empty());
    }
    r
}

/// Tells whether the name `class` and the flag agree, and hands out the name without its
/// markers.
pub fn checked_element(class: &str, is_array: bool) -> (r: Option<String>)
    ensures
        r is Some == marker_agrees(class@, is_array),
        r matches Some(name) ==> name@ == element_name(class@),
{
    let name = strip_markers(class);
    if !is_array && !same(name.as_str(), class) {
        None
    } else {
        Some(name)
    }
}

} // verus!
