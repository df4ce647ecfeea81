use crate::common::text::{decimal, owned, push_decimal};
use crate::common::token::TokenKind;
use vstd::prelude::*;
use vstd::string::StringExecFns;

verus! {

/// The types of the language. The primitives are declared in promotion
/// order: `void < char < int < long`.
#[derive(Debug, PartialEq, PartialOrd)]
pub enum Types {
    Void,
    Char,
    Int,
    Long,
    Pointer(Box<Types>),
    Array { of: Box<Types>, amount: usize },
}

impl Clone for Types {
    fn clone(&self) -> (r: Self)
        ensures
            r == *self,
        decreases self,
    {
        match self {
            Types::Void => Types::Void,
            Types::Char => Types::Char,
            Types::Int => Types::Int,
            Types::Long => Types::Long,
            Types::Pointer(inner) => Types::Pointer(Box::new((**inner).clone())),
            Types::Array { of, amount } => Types::Array {
                of: Box::new((**of).clone()),
                amount: *amount,
            },
        }
    }
}

impl Types {
    /// Size in bytes.
    pub open spec fn spec_size(self) -> nat
        decreases self,
    {
        match self {
            Types::Void => 0,
            Types::Char => 1,
            Types::Int => 4,
            Types::Long => 8,
            Types::Pointer(_) => 8,
            Types::Array { of, amount } => amount as nat * of.spec_size(),
        }
    }

    /// Every array in the type has at least one element and a size that a
    /// `usize` can hold.
    pub open spec fn wf(self) -> bool
        decreases self,
    {
        match self {
            Types::Pointer(inner) => inner.wf(),
            Types::Array { of, amount } => {
                &&& of.wf()
                &&& amount > 0
                &&& amount as nat * of.spec_size() <= usize::MAX
            },
            _ => true,
        }
    }

    /// Alignment in bytes: the size of a scalar, the size of an array's
    /// element.
    pub open spec fn spec_alignment(self) -> nat {
        match self {
            Types::Array { of, .. } => of.spec_size(),
            _ => self.spec_size(),
        }
    }

    pub open spec fn spec_is_integer(self) -> bool {
        self == Types::Char || self == Types::Int || self == Types::Long
    }

    /// Whether a value of type `other` can be converted to `self` without
    /// an explicit cast: integers among each other, pointers if what they
    /// point to is compatible, and otherwise only identical types.
    pub open spec fn compatible(self, other: Types) -> bool
        decreases self,
    {
        match (self, other) {
            (Types::Pointer(a), Types::Pointer(b)) => a.compatible(*b),
            _ => self == other || (self.spec_is_integer() && other.spec_is_integer()),
        }
    }

    /// How the type is written in a diagnostic.
    pub open spec fn text_of(self) -> Seq<char>
        decreases self,
    {
        match self {
            Types::Void => "void"@,
            Types::Char => "char"@,
            Types::Int => "int"@,
            Types::Long => "long"@,
            Types::Pointer(inner) => inner.text_of() + "*"@,
            Types::Array { of, amount } => of.text_of() + "["@ + decimal(amount as nat) + "]"@,
        }
    }

    /// The keywords that start a type.
    pub fn into_vec() -> (r: Vec<TokenKind>)
        ensures
            r@ == seq![TokenKind::Char, TokenKind::Int, TokenKind::Void, TokenKind::Long],
    {
        vec![TokenKind::Char, TokenKind::Int, TokenKind::Void, TokenKind::Long]
    }

    /// Size in bytes.
    pub fn size(&self) -> (r: usize)
        requires
            self.wf(),
        ensures
            r == self.spec_size(),
        decreases self,
    {
        match self {
            Types::Void => 0,
            Types::Char => 1,
            Types::Int => 4,
            Types::Long => 8,
            Types::Pointer(_) => 8,
            Types::Array { of, amount } => *amount * of.size(),
        }
    }

    /// Alignment in bytes.
    pub fn alignment(&self) -> (r: usize)
        requires
            self.wf(),
        ensures
            r == self.spec_alignment(),
    {
        match self {
            Types::Array { of, .. } => of.size(),
            _ => self.size(),
        }
    }

    /// Suffix of the register name that holds a value of this type.
    pub fn reg_suffix(&self) -> (r: &str)
        requires
            *self != Types::Void,
        ensures
            r@ == match *self {
                Types::Char => "b"@,
                Types::Int => "d"@,
                _ => ""@,
            },
    {
        match self {
            Types::Char => "b",
            Types::Int => "d",
            _ => "",
        }
    }

    /// Suffix of an instruction that works on a value of this type.
    pub fn suffix(&self) -> (r: &str)
        requires
            *self != Types::Void,
        ensures
            r@ == match *self {
                Types::Char => "b"@,
                Types::Int => "l"@,
                _ => "q"@,
            },
    {
        match self {
            Types::Char => "b",
            Types::Int => "l",
            _ => "q",
        }
    }

    /// Register in which a function hands back a value of this type.
    pub fn return_reg(&self) -> (r: &str)
        requires
            *self != Types::Void,
        ensures
            r@ == match *self {
                Types::Char => "%al"@,
                Types::Int => "%eax"@,
                _ => "%rax"@,
            },
    {
        match self {
            Types::Char => "%al",
            Types::Int => "%eax",
            _ => "%rax",
        }
    }

    /// Replaces the type by the type of pointers to it.
    pub fn pointer_to(&mut self)
        ensures
            *final(self) == Types::Pointer(Box::new(*old(self))),
    {
        let inner = self.clone();
        *self = Types::Pointer(Box::new(inner));
    }

    /// What a pointer of this type points to; `None` if it is no pointer.
    pub fn deref_at(&self) -> (r: Option<Types>)
        ensures
            r == match *self {
                Types::Pointer(inner) => Some(*inner),
                _ => None,
            },
    {
        match self {
            Types::Pointer(inner) => Some((**inner).clone()),
            _ => None,
        }
    }

    pub fn is_void(&self) -> (r: bool)
        ensures
            r == (*self == Types::Void),
    {
        matches!(self, Types::Void)
    }

    pub fn is_ptr(&self) -> (r: bool)
        ensures
            r == (*self is Pointer),
    {
        matches!(self, Types::Pointer(_))
    }

    pub fn is_array(&self) -> (r: bool)
        ensures
            r == (*self is Array),
    {
        matches!(self, Types::Array { .. })
    }

    pub fn is_integer(&self) -> (r: bool)
        ensures
            r == self.spec_is_integer(),
    {
        matches!(self, Types::Char | Types::Int | Types::Long)
    }

    /// Structural equality.
    pub fn equals(&self, other: &Types) -> (r: bool)
        ensures
            r == (*self == *other),
        decreases self,
    {
        match (self, other) {
            (Types::Void, Types::Void) => true,
            (Types::Char, Types::Char) => true,
            (Types::Int, Types::Int) => true,
            (Types::Long, Types::Long) => true,
            (Types::Pointer(a), Types::Pointer(b)) => a.equals(b),
            (Types::Array { of: a, amount: n }, Types::Array { of: b, amount: m }) => *n == *m
                && a.equals(b),
            _ => false,
        }
    }

    pub fn type_compatible(&self, other: &Types) -> (r: bool)
        ensures
            r == self.compatible(*other),
        decreases self,
    {
        match (self, other) {
            (Types::Pointer(a), Types::Pointer(b)) => a.type_compatible(b),
            _ => self.equals(other) || (self.is_integer() && other.is_integer()),
        }
    }

    /// How the type is written in a diagnostic.
    pub fn to_string(&self) -> (r: String)
        ensures
            r@ == self.text_of(),
        decreases self,
    {
        match self {
            Types::Void => owned("void"),
            Types::Char => owned("char"),
            Types::Int => owned("int"),
            Types::Long => owned("long"),
            Types::Pointer(inner) => {
                let mut out = inner.to_string();
                out.append("*");
                out
            },
            Types::Array { of, amount } => {
                let mut out = of.to_string();
                out.append("[");
                push_decimal(&mut out, *amount);
                out.append("]");
                out
            },
        }
    }
}

} // verus!
