use crate::text::same;
use vstd::prelude::*;

verus! {

/// The Java types for which the runtime support crate brings a wrapper of its own.
#[derive(Clone, Copy, Debug, PartialEq, Eq, Structural)]
pub enum EJNIType {
    Iterator,
    List,
    JavaMap,
    JavaSet,
    JavaString,
}

/// The wrapper that stands for the class `name`, where the support crate has one.
pub open spec fn well_known(name: Seq<char>) -> Option<EJNIType> {
    if name == "java.util.Iterator"@ {
        Some(EJNIType::Iterator)
    } else if name == "java.util.List"@ || name == "java.util.ArrayList"@ {
        Some(EJNIType::List)
    } else if name == "java.util.Map"@ || name == "java.util.HashMap"@ {
        Some(EJNIType::JavaMap)
    } else if name == "java.util.Set"@ || name == "java.util.HashSet"@ {
        Some(EJNIType::JavaSet)
    } else if name == "java.lang.String"@ {
        Some(EJNIType::JavaString)
    } else {
        None
    }
}

/// The path under which the support crate offers the wrapper `ty`.
pub open spec fn wrapper_path(ty: EJNIType) -> Seq<char> {
    match ty {
        EJNIType::Iterator => "ejni::Iterator"@,
        EJNIType::List => "ejni::List"@,
        EJNIType::JavaMap => "ejni::Map"@,
        EJNIType::JavaSet => "ejni::Set"@,
        EJNIType::JavaString => "ejni::JavaString"@,
    }
}

impl EJNIType {
    /// Looks the class `s` up among the well-known ones.
    pub fn from_str(s: &str) -> (r: Option<Self>)
        ensures
            r == well_known(s@),
    {
        if same(s, "java.util.Iterator") {
            Some(Self::Iterator)
        } else if same(s, "java.util.List") || same(s, "java.util.ArrayList") {
            Some(Self::List)
        } else if same(s, "java.util.Map") || same(s, "java.util.HashMap") {
            Some(Self::JavaMap)
        } else if same(s, "java.util.Set") || same(s, "java.util.HashSet") {
            Some(Self::JavaSet)
        } else if same(s, "java.lang.String") {
            Some(Self::JavaString)
        } else {
            None
        }
    }

    /// The path of the wrapper, as it is written in generated code.
    pub fn to_tokens(&self) -> (r: String)
        ensures
            r@ == wrapper_path(*self),
    {
        match self {
            Self::Iterator => "ejni::Iterator".to_owned(),
            Self::List => "ejni::List".to_owned(),
            Self::JavaMap => "ejni::Map".to_owned(),
            Self::JavaSet => "ejni::Set".to_owned(),
            Self::JavaString => "ejni::JavaString".to_owned(),
        }
    }
}

} // verus!
