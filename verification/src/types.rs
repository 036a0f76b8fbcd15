//! The LDPL type model: a recursive sum of scalars and containers.
use vstd::prelude::*;
use crate::text::lower;

verus! {

/// An LDPL type: a scalar (`Number`, `Text`) or a container of a scalar.
#[derive(Debug, PartialEq)]
pub enum LDPLType {
    Number,
    Text,
    List(Box<LDPLType>),
    Vector(Box<LDPLType>),
}

/// The LDPL type a surface name denotes, if any. Names are matched
/// case-insensitively; `vector` is the historical surface name of a map.
pub open spec fn type_from_name(s: Seq<char>) -> Option<LDPLType> {
    let l = lower(s);
    if l == "number"@ {
        Some(LDPLType::Number)
    } else if l == "text"@ {
        Some(LDPLType::Text)
    } else if l == "number list"@ {
        Some(LDPLType::List(Box::new(LDPLType::Number)))
    } else if l == "text list"@ {
        Some(LDPLType::List(Box::new(LDPLType::Text)))
    } else if l == "number map"@ || l == "number vector"@ {
        Some(LDPLType::Vector(Box::new(LDPLType::Number)))
    } else if l == "text map"@ || l == "text vector"@ {
        Some(LDPLType::Vector(Box::new(LDPLType::Text)))
    } else {
        None
    }
}

/// The scalar at the bottom of a type: containers are unwrapped until a
/// `Number` or `Text` remains.
pub open spec fn spec_scalar_of(t: LDPLType) -> LDPLType
    decreases t,
{
    match t {
        LDPLType::List(inner) => spec_scalar_of(*inner),
        LDPLType::Vector(inner) => spec_scalar_of(*inner),
        _ => t,
    }
}

impl Clone for LDPLType {
    /// A structural copy.
    fn clone(&self) -> (r: Self)
        ensures
            r == *self,
        decreases *self,
    {
        match self {
            LDPLType::Number => LDPLType::Number,
            LDPLType::Text => LDPLType::Text,
            LDPLType::List(inner) => LDPLType::List(Box::new((**inner).clone())),
            LDPLType::Vector(inner) => LDPLType::Vector(Box::new((**inner).clone())),
        }
    }
}

impl LDPLType {
    /// The type a surface name such as `NUMBER` or `text list` denotes.
    /// The name must denote a type; `from_name` is the total variant.
    pub fn from(name: &str) -> (r: Self)
        requires
            type_from_name(name@) is Some,
        ensures
            Some(r) == type_from_name(name@),
    {
        match Self::from_name(name) {
            Some(t) => t,
            None => LDPLType::Number,  // unreachable under the precondition
        }
    }

    /// The type a surface name denotes, or `None` for any other name.
    pub fn from_name(name: &str) -> (r: Option<Self>)
        ensures
            r == type_from_name(name@),
    {
        proof {
            reveal_strlit("number");
            reveal_strlit("text");
            reveal_strlit("number list");
            reveal_strlit("text list");
            reveal_strlit("number map");
            reveal_strlit("number vector");
            reveal_strlit("text map");
            reveal_strlit("text vector");
        }
        let l = crate::text::to_lower(name);
        let ls = l.as_str();
        if crate::text::streq(ls, "number") {
            Some(LDPLType::Number)
        } else if crate::text::streq(ls, "text") {
            Some(LDPLType::Text)
        } else if crate::text::streq(ls, "number list") {
            Some(LDPLType::List(Box::new(LDPLType::Number)))
        } else if crate::text::streq(ls, "text list") {
            Some(LDPLType::List(Box::new(LDPLType::Text)))
        } else if crate::text::streq(ls, "number map") || crate::text::streq(ls, "number vector") {
            Some(LDPLType::Vector(Box::new(LDPLType::Number)))
        } else if crate::text::streq(ls, "text map") || crate::text::streq(ls, "text vector") {
            Some(LDPLType::Vector(Box::new(LDPLType::Text)))
        } else {
            None
        }
    }

    /// Structural equality, usable from verified code.
    pub fn same(&self, other: &LDPLType) -> (r: bool)
        ensures
            r == (*self == *other),
        decreases *self,
    {
        match (self, other) {
            (LDPLType::Number, LDPLType::Number) => true,
            (LDPLType::Text, LDPLType::Text) => true,
            (LDPLType::List(a), LDPLType::List(b)) => (**a).same(&**b),
            (LDPLType::Vector(a), LDPLType::Vector(b)) => (**a).same(&**b),
            _ => false,
        }
    }

    pub fn is_number(&self) -> (r: bool)
        ensures
            r == (*self == LDPLType::Number),
    {
        matches!(self, LDPLType::Number)
    }

    pub fn is_text(&self) -> (r: bool)
        ensures
            r == (*self == LDPLType::Text),
    {
        matches!(self, LDPLType::Text)
    }

    pub fn is_list(&self) -> (r: bool)
        ensures
            r == (*self is List),
    {
        matches!(self, LDPLType::List(..))
    }

    pub fn is_map(&self) -> (r: bool)
        ensures
            r == (*self is Vector),
    {
        matches!(self, LDPLType::Vector(..))
    }

    pub fn is_collection(&self) -> (r: bool)
        ensures
            r == (*self is List || *self is Vector),
    {
        self.is_list() || self.is_map()
    }

    pub fn is_text_collection(&self) -> (r: bool)
        ensures
            r == match *self {
                LDPLType::List(inner) => *inner == LDPLType::Text,
                LDPLType::Vector(inner) => *inner == LDPLType::Text,
                _ => false,
            },
    {
        match self {
            LDPLType::List(inner) => matches!(**inner, LDPLType::Text),
            LDPLType::Vector(inner) => matches!(**inner, LDPLType::Text),
            _ => false,
        }
    }

    pub fn is_number_collection(&self) -> (r: bool)
        ensures
            r == match *self {
                LDPLType::List(inner) => *inner == LDPLType::Number,
                LDPLType::Vector(inner) => *inner == LDPLType::Number,
                _ => false,
            },
    {
        match self {
            LDPLType::List(inner) => matches!(**inner, LDPLType::Number),
            LDPLType::Vector(inner) => matches!(**inner, LDPLType::Number),
            _ => false,
        }
    }

    /// The scalar at the bottom of this type.
    pub fn scalar(&self) -> (r: LDPLType)
        ensures
            r == spec_scalar_of(*self),
        decreases *self,
    {
        match self {
            LDPLType::List(inner) => (**inner).scalar(),
            LDPLType::Vector(inner) => (**inner).scalar(),
            LDPLType::Number => LDPLType::Number,
            LDPLType::Text => LDPLType::Text,
        }
    }
}


/// A list or map of texts.
pub open spec fn spec_is_text_collection(t: LDPLType) -> bool {
    match t {
        LDPLType::List(inner) => *inner == LDPLType::Text,
        LDPLType::Vector(inner) => *inner == LDPLType::Text,
        _ => false,
    }
}

/// A list or map of numbers.
pub open spec fn spec_is_number_collection(t: LDPLType) -> bool {
    match t {
        LDPLType::List(inner) => *inner == LDPLType::Number,
        LDPLType::Vector(inner) => *inner == LDPLType::Number,
        _ => false,
    }
}

} // verus!
