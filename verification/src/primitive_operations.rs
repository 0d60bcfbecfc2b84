//! The primitives that a vocabulary is made of.

use vstd::prelude::*;
use vstd::string::StringExecFns;
use crate::scalar::Scalar;
use crate::text::{decimal, decimal_string};

verus! {

/// A fixed number that an expression can push.
#[derive(Debug, Clone, Copy, PartialEq, Eq, Structural)]
pub enum Constant {
    C1,
    C2,
    C3,
    C10,
    C100,
    C1000,
    CNeg1,
    Pi,
    E,
    Epsilon,
}

impl Constant {
    /// The bit pattern of the double that the constant stands for.
    pub open spec fn spec_value(&self) -> Scalar {
        Scalar {
            bits: match self {
                Constant::C1 => 0x3ff0_0000_0000_0000,
                Constant::C2 => 0x4000_0000_0000_0000,
                Constant::C3 => 0x4008_0000_0000_0000,
                Constant::C10 => 0x4024_0000_0000_0000,
                Constant::C100 => 0x4059_0000_0000_0000,
                Constant::C1000 => 0x408f_4000_0000_0000,
                Constant::CNeg1 => 0xbff0_0000_0000_0000,
                Constant::Pi => 0x4009_21fb_5444_2d18,
                Constant::E => 0x4005_bf0a_8b14_5769,
                Constant::Epsilon => 0x3cb0_0000_0000_0000,
            },
        }
    }

    pub open spec fn display(&self) -> Seq<char> {
        match self {
            Constant::C1 => "C1"@,
            Constant::C2 => "C2"@,
            Constant::C3 => "C3"@,
            Constant::C10 => "C10"@,
            Constant::C100 => "C100"@,
            Constant::C1000 => "C1000"@,
            Constant::CNeg1 => "CNeg1"@,
            Constant::Pi => "Pi"@,
            Constant::E => "E"@,
            Constant::Epsilon => "Epsilon"@,
        }
    }

    #[verifier::when_used_as_spec(spec_value)]
    pub fn value(&self) -> (v: Scalar)
        ensures
            v == self.spec_value(),
    {
        let bits: u64 = match self {
            Constant::C1 => 0x3ff0_0000_0000_0000,
            Constant::C2 => 0x4000_0000_0000_0000,
            Constant::C3 => 0x4008_0000_0000_0000,
            Constant::C10 => 0x4024_0000_0000_0000,
            Constant::C100 => 0x4059_0000_0000_0000,
            Constant::C1000 => 0x408f_4000_0000_0000,
            Constant::CNeg1 => 0xbff0_0000_0000_0000,
            Constant::Pi => 0x4009_21fb_5444_2d18,
            Constant::E => 0x4005_bf0a_8b14_5769,
            Constant::Epsilon => 0x3cb0_0000_0000_0000,
        };
        Scalar::from_bits(bits)
    }

    pub fn to_string(&self) -> (s: String)
        ensures
            s@ == self.display(),
    {
        match self {
            Constant::C1 => String::from_str("C1"),
            Constant::C2 => String::from_str("C2"),
            Constant::C3 => String::from_str("C3"),
            Constant::C10 => String::from_str("C10"),
            Constant::C100 => String::from_str("C100"),
            Constant::C1000 => String::from_str("C1000"),
            Constant::CNeg1 => String::from_str("CNeg1"),
            Constant::Pi => String::from_str("Pi"),
            Constant::E => String::from_str("E"),
            Constant::Epsilon => String::from_str("Epsilon"),
        }
    }
}

/// Every constant is a finite number.
pub proof fn lemma_constants_are_finite(c: Constant)
    ensures
        c.spec_value().spec_is_finite(),
{
    assert(0x3ff0_0000_0000_0000u64 & 0x7ff0_0000_0000_0000 != 0x7ff0_0000_0000_0000)
        by (bit_vector);
    assert(0x4000_0000_0000_0000u64 & 0x7ff0_0000_0000_0000 != 0x7ff0_0000_0000_0000)
        by (bit_vector);
    assert(0x4008_0000_0000_0000u64 & 0x7ff0_0000_0000_0000 != 0x7ff0_0000_0000_0000)
        by (bit_vector);
    assert(0x4024_0000_0000_0000u64 & 0x7ff0_0000_0000_0000 != 0x7ff0_0000_0000_0000)
        by (bit_vector);
    assert(0x4059_0000_0000_0000u64 & 0x7ff0_0000_0000_0000 != 0x7ff0_0000_0000_0000)
        by (bit_vector);
    assert(0x408f_4000_0000_0000u64 & 0x7ff0_0000_0000_0000 != 0x7ff0_0000_0000_0000)
        by (bit_vector);
    assert(0xbff0_0000_0000_0000u64 & 0x7ff0_0000_0000_0000 != 0x7ff0_0000_0000_0000)
        by (bit_vector);
    assert(0x4009_21fb_5444_2d18u64 & 0x7ff0_0000_0000_0000 != 0x7ff0_0000_0000_0000)
        by (bit_vector);
    assert(0x4005_bf0a_8b14_5769u64 & 0x7ff0_0000_0000_0000 != 0x7ff0_0000_0000_0000)
        by (bit_vector);
    assert(0x3cb0_0000_0000_0000u64 & 0x7ff0_0000_0000_0000 != 0x7ff0_0000_0000_0000)
        by (bit_vector);
}

/// A reference to one of the numbers that the caller supplies.
#[derive(Debug, Clone, Copy, PartialEq, Eq, Structural)]
pub enum Argument {
    Arg(u32),
}

impl Argument {
    /// The position of the referenced number among the supplied ones.
    pub open spec fn spec_index(&self) -> u32 {
        match self {
            Argument::Arg(index) => *index,
        }
    }

    pub open spec fn display(&self) -> Seq<char> {
        "Arg("@ + decimal(self.spec_index() as nat) + ")"@
    }

    #[verifier::when_used_as_spec(spec_index)]
    pub fn index(&self) -> (index: u32)
        ensures
            index == self.spec_index(),
    {
        match self {
            Argument::Arg(index) => *index,
        }
    }

    pub fn to_string(&self) -> (s: String)
        ensures
            s@ == self.display(),
    {
        let mut s = String::from_str("Arg(");
        let digits = decimal_string(self.index() as u64);
        s.append(digits.as_str());
        s.append(")");
        s
    }
}

/// A function of one number.
#[derive(Debug, Clone, Copy, PartialEq, Eq, Structural)]
pub enum Modifier {
    Sqr,
    Pow3,
    Sqrt,
    Log2,
    Log10,
    Sin,
    Cos,
    Tanh,
    Sigmoid,
}

impl Modifier {
    pub open spec fn display(&self) -> Seq<char> {
        match self {
            Modifier::Sqr => "Sqr"@,
            Modifier::Pow3 => "Pow3"@,
            Modifier::Sqrt => "Sqrt"@,
            Modifier::Log2 => "Log2"@,
            Modifier::Log10 => "Log10"@,
            Modifier::Sin => "Sin"@,
            Modifier::Cos => "Cos"@,
            Modifier::Tanh => "Tanh"@,
            Modifier::Sigmoid => "Sigmoid"@,
        }
    }

    pub fn to_string(&self) -> (s: String)
        ensures
            s@ == self.display(),
    {
        match self {
            Modifier::Sqr => String::from_str("Sqr"),
            Modifier::Pow3 => String::from_str("Pow3"),
            Modifier::Sqrt => String::from_str("Sqrt"),
            Modifier::Log2 => String::from_str("Log2"),
            Modifier::Log10 => String::from_str("Log10"),
            Modifier::Sin => String::from_str("Sin"),
            Modifier::Cos => String::from_str("Cos"),
            Modifier::Tanh => String::from_str("Tanh"),
            Modifier::Sigmoid => String::from_str("Sigmoid"),
        }
    }
}

/// A function of two numbers.
#[derive(Debug, Clone, Copy, PartialEq, Eq, Structural)]
pub enum Operator {
    Plus,
    Minus,
    Multiply,
    Divide,
    Pow,
    Root,
    Log,
}

impl Operator {
    pub open spec fn display(&self) -> Seq<char> {
        match self {
            Operator::Plus => "Plus"@,
            Operator::Minus => "Minus"@,
            Operator::Multiply => "Multiply"@,
            Operator::Divide => "Divide"@,
            Operator::Pow => "Pow"@,
            Operator::Root => "Root"@,
            Operator::Log => "Log"@,
        }
    }

    pub fn to_string(&self) -> (s: String)
        ensures
            s@ == self.display(),
    {
        match self {
            Operator::Plus => String::from_str("Plus"),
            Operator::Minus => String::from_str("Minus"),
            Operator::Multiply => String::from_str("Multiply"),
            Operator::Divide => String::from_str("Divide"),
            Operator::Pow => String::from_str("Pow"),
            Operator::Root => String::from_str("Root"),
            Operator::Log => String::from_str("Log"),
        }
    }
}

/// One entry of an operation vocabulary.
#[derive(Debug, Clone, Copy, PartialEq, Eq, Structural)]
pub enum PrimitiveOperation {
    Constant(Constant),
    Argument(Argument),
    Modifier(Modifier),
    Operator(Operator),
}

impl PrimitiveOperation {
    /// The text by which the entry is shown and by which a persisted
    /// vocabulary is compared with the one in memory.
    pub open spec fn display(&self) -> Seq<char> {
        match self {
            PrimitiveOperation::Constant(c) => c.display(),
            PrimitiveOperation::Argument(a) => a.display(),
            PrimitiveOperation::Modifier(m) => m.display(),
            PrimitiveOperation::Operator(o) => o.display(),
        }
    }

    pub open spec fn spec_is_argument(&self) -> bool {
        self is Argument
    }

    #[verifier::when_used_as_spec(spec_is_argument)]
    pub fn is_argument(&self) -> (r: bool)
        ensures
            r == self.spec_is_argument(),
    {
        match self {
            PrimitiveOperation::Argument(_) => true,
            _ => false,
        }
    }

    pub fn to_string(&self) -> (s: String)
        ensures
            s@ == self.display(),
    {
        match self {
            PrimitiveOperation::Constant(c) => c.to_string(),
            PrimitiveOperation::Argument(a) => a.to_string(),
            PrimitiveOperation::Modifier(m) => m.to_string(),
            PrimitiveOperation::Operator(o) => o.to_string(),
        }
    }
}

} // verus!
