//! Operators and bit syntax type specifiers, with their Erlang text.
use vstd::prelude::*;

use crate::text::{decimal, seq_join, string_views, write_decimal, write_list_strings};

verus! {

#[derive(Debug, Copy, Clone)]
pub enum BinaryOperator {
    Eq,
    NEq,
    LTE,
    LT,
    GTE,
    GT,
    ExactlyEq,
    ExactlyNEq,
    BinaryPlus,
    BinaryMinus,
    Mult,
    Slash,
    Div,
    Rem,
    BAnd,
    BOr,
    BXor,
    BSl,
    BSr,
    And,
    Or,
    Xor,
    AndAlso,
    OrElse,
    PlusPlus,
    MinusMinus,
}

impl BinaryOperator {
    /// The operator as Erlang writes it.
    pub open spec fn text(self) -> Seq<char> {
        match self {
            BinaryOperator::Eq => "=="@,
            BinaryOperator::NEq => "/="@,
            BinaryOperator::LTE => "=<"@,
            BinaryOperator::LT => "<"@,
            BinaryOperator::GTE => ">="@,
            BinaryOperator::GT => ">"@,
            BinaryOperator::ExactlyEq => "=:="@,
            BinaryOperator::ExactlyNEq => "=/="@,
            BinaryOperator::BinaryPlus => "+"@,
            BinaryOperator::BinaryMinus => "-"@,
            BinaryOperator::Mult => "*"@,
            BinaryOperator::Slash => "/"@,
            BinaryOperator::Div => "div"@,
            BinaryOperator::Rem => "rem"@,
            BinaryOperator::BAnd => "band"@,
            BinaryOperator::BOr => "bor"@,
            BinaryOperator::BXor => "bxor"@,
            BinaryOperator::BSl => "bsl"@,
            BinaryOperator::BSr => "bsr"@,
            BinaryOperator::And => "and"@,
            BinaryOperator::Or => "or"@,
            BinaryOperator::Xor => "xor"@,
            BinaryOperator::AndAlso => "andalso"@,
            BinaryOperator::OrElse => "orelse"@,
            BinaryOperator::PlusPlus => "++"@,
            BinaryOperator::MinusMinus => "--"@,
        }
    }

    /// The operator as Erlang writes it.
    pub fn to_string(&self) -> (r: String)
        ensures
            r@ == self.text(),
    {
        String::from_str(
            match self {
                BinaryOperator::Eq => "==",
                BinaryOperator::NEq => "/=",
                BinaryOperator::LTE => "=<",
                BinaryOperator::LT => "<",
                BinaryOperator::GTE => ">=",
                BinaryOperator::GT => ">",
                BinaryOperator::ExactlyEq => "=:=",
                BinaryOperator::ExactlyNEq => "=/=",
                BinaryOperator::BinaryPlus => "+",
                BinaryOperator::BinaryMinus => "-",
                BinaryOperator::Mult => "*",
                BinaryOperator::Slash => "/",
                BinaryOperator::Div => "div",
                BinaryOperator::Rem => "rem",
                BinaryOperator::BAnd => "band",
                BinaryOperator::BOr => "bor",
                BinaryOperator::BXor => "bxor",
                BinaryOperator::BSl => "bsl",
                BinaryOperator::BSr => "bsr",
                BinaryOperator::And => "and",
                BinaryOperator::Or => "or",
                BinaryOperator::Xor => "xor",
                BinaryOperator::AndAlso => "andalso",
                BinaryOperator::OrElse => "orelse",
                BinaryOperator::PlusPlus => "++",
                BinaryOperator::MinusMinus => "--",
            },
        )
    }
}

#[derive(Debug, Copy, Clone)]
pub enum UnaryOperator {
    UnaryPlus,
    UnaryMinus,
    BooleanNot,
    BitwiseNot,
}

impl UnaryOperator {
    /// The operator as Erlang writes it.
    pub open spec fn text(self) -> Seq<char> {
        match self {
            UnaryOperator::UnaryPlus => "+"@,
            UnaryOperator::UnaryMinus => "-"@,
            UnaryOperator::BooleanNot => "not"@,
            UnaryOperator::BitwiseNot => "bnot"@,
        }
    }

    /// The operator as Erlang writes it.
    pub fn to_string(&self) -> (r: String)
        ensures
            r@ == self.text(),
    {
        String::from_str(
            match self {
                UnaryOperator::UnaryPlus => "+",
                UnaryOperator::UnaryMinus => "-",
                UnaryOperator::BooleanNot => "not",
                UnaryOperator::BitwiseNot => "bnot",
            },
        )
    }
}

/// Only matters for matching.
#[derive(Copy, Clone, Debug)]
pub enum Signedness {
    Signed,
    Unsigned,
}

impl Signedness {
    pub open spec fn text(self) -> Seq<char> {
        match self {
            Signedness::Signed => "signed"@,
            Signedness::Unsigned => "unsigned"@,
        }
    }

    pub fn to_string(&self) -> (r: String)
        ensures
            r@ == self.text(),
    {
        match self {
            Signedness::Signed => String::from_str("signed"),
            Signedness::Unsigned => String::from_str("unsigned"),
        }
    }
}

#[derive(Copy, Clone, Debug)]
pub enum Endianness {
    Big,
    Little,
    Native,
}

impl Endianness {
    pub open spec fn text(self) -> Seq<char> {
        match self {
            Endianness::Big => "big"@,
            Endianness::Little => "little"@,
            Endianness::Native => "native"@,
        }
    }

    pub fn to_string(&self) -> (r: String)
        ensures
            r@ == self.text(),
    {
        match self {
            Endianness::Big => String::from_str("big"),
            Endianness::Little => String::from_str("little"),
            Endianness::Native => String::from_str("native"),
        }
    }
}

#[derive(Copy, Clone, Debug)]
pub enum ComprehensionKind {
    List,
    Bitstring,
}

#[derive(Clone, Copy, Debug)]
pub enum TypeSpecifier {
    /// Same as Integer in practice, but prints nothing.
    Default { signedness: Option<Signedness>, endianness: Option<Endianness>, unit: Option<u8> },
    Integer { signedness: Option<Signedness>, endianness: Option<Endianness>, unit: Option<u8> },
    Float { endianness: Option<Endianness>, unit: Option<u8> },
    Binary,
    /// Alias of Binary.
    Bytes,
    Bitstring,
    /// Alias of Bitstring.
    Bits,
    Utf8,
    Utf16 { endianness: Option<Endianness> },
    Utf32 { endianness: Option<Endianness> },
}

/// One for a present option, zero for an absent one.
pub open spec fn count<T>(o: Option<T>) -> nat {
    if o is Some {
        1
    } else {
        0
    }
}

fn count_exec<T>(o: &Option<T>) -> (r: usize)
    ensures
        r == count(*o),
{
    if o.is_some() {
        1
    } else {
        0
    }
}

/// The text of an optional part: the part itself, or nothing.
pub open spec fn opt_part(o: Option<Seq<char>>) -> Seq<Seq<char>> {
    match o {
        Some(p) => seq![p],
        None => Seq::empty(),
    }
}

impl TypeSpecifier {
    /// The number of nodes: the base type (except for `Default`) and each
    /// qualifier that is present.
    pub open spec fn node_count(self) -> nat {
        match self {
            TypeSpecifier::Default { signedness, endianness, unit } => count(signedness) + count(endianness)
                + count(unit),
            TypeSpecifier::Integer { signedness, endianness, unit } => 1 + count(signedness) + count(
                endianness,
            ) + count(unit),
            TypeSpecifier::Float { endianness, unit } => 1 + count(endianness) + count(unit),
            TypeSpecifier::Binary | TypeSpecifier::Bytes | TypeSpecifier::Bitstring
            | TypeSpecifier::Bits | TypeSpecifier::Utf8 => 1,
            TypeSpecifier::Utf16 { endianness } | TypeSpecifier::Utf32 { endianness } => 1 + count(
                endianness,
            ),
        }
    }

    /// The number of nodes in the specifier (see `node_count`).
    pub fn count_nodes(&self) -> (r: usize)
        ensures
            r == self.node_count(),
    {
        match self {
            TypeSpecifier::Default { signedness, endianness, unit } => count_exec(signedness)
                + count_exec(endianness) + count_exec(unit),
            TypeSpecifier::Integer { signedness, endianness, unit } => 1 + count_exec(signedness)
                + count_exec(endianness) + count_exec(unit),
            TypeSpecifier::Float { endianness, unit } => 1 + count_exec(endianness) + count_exec(unit),
            TypeSpecifier::Binary | TypeSpecifier::Bytes | TypeSpecifier::Bitstring
            | TypeSpecifier::Bits | TypeSpecifier::Utf8 => 1,
            TypeSpecifier::Utf16 { endianness } | TypeSpecifier::Utf32 { endianness } => 1
                + count_exec(endianness),
        }
    }

    /// The base type's name, if it has one to write.
    pub open spec fn base_name(self) -> Option<Seq<char>> {
        match self {
            TypeSpecifier::Default { .. } => None,
            TypeSpecifier::Integer { .. } => Some("integer"@),
            TypeSpecifier::Float { .. } => Some("float"@),
            TypeSpecifier::Binary => Some("binary"@),
            TypeSpecifier::Bytes => Some("bytes"@),
            TypeSpecifier::Bitstring => Some("bitstring"@),
            TypeSpecifier::Bits => Some("bits"@),
            TypeSpecifier::Utf8 => Some("utf8"@),
            TypeSpecifier::Utf16 { .. } => Some("utf16"@),
            TypeSpecifier::Utf32 { .. } => Some("utf32"@),
        }
    }

    /// The signedness written with the specifier, if any.
    pub open spec fn signedness_of(self) -> Option<Signedness> {
        match self {
            TypeSpecifier::Default { signedness, .. } => signedness,
            TypeSpecifier::Integer { signedness, .. } => signedness,
            _ => None,
        }
    }

    /// The endianness written with the specifier, if any.
    pub open spec fn endianness_of(self) -> Option<Endianness> {
        match self {
            TypeSpecifier::Default { endianness, .. } => endianness,
            TypeSpecifier::Integer { endianness, .. } => endianness,
            TypeSpecifier::Float { endianness, .. } => endianness,
            TypeSpecifier::Utf16 { endianness } => endianness,
            TypeSpecifier::Utf32 { endianness } => endianness,
            _ => None,
        }
    }

    /// The unit written with the specifier, if any.
    pub open spec fn unit_of(self) -> Option<u8> {
        match self {
            TypeSpecifier::Default { unit, .. } => unit,
            TypeSpecifier::Integer { unit, .. } => unit,
            TypeSpecifier::Float { unit, .. } => unit,
            _ => None,
        }
    }

    /// The parts joined by `-`: base type, signedness, endianness, and the
    /// unit, written as one more than the stored value (units run from 1 to
    /// 256).
    pub open spec fn parts(self) -> Seq<Seq<char>> {
        opt_part(self.base_name()) + opt_part(
            match self.signedness_of() {
                Some(s) => Some(s.text()),
                None => None,
            },
        ) + opt_part(
            match self.endianness_of() {
                Some(e) => Some(e.text()),
                None => None,
            },
        ) + opt_part(
            match self.unit_of() {
                Some(u) => Some("unit:"@ + decimal(u as nat + 1)),
                None => None,
            },
        )
    }

    /// The specifier as written after a bit syntax segment: nothing for a
    /// default one with no qualifier, else `/` and the parts.
    pub open spec fn text(self) -> Seq<char> {
        match self {
            TypeSpecifier::Default { signedness: None, endianness: None, unit: None } => Seq::empty(),
            _ => "/"@ + seq_join(self.parts(), "-"@),
        }
    }

    /// Appends the specifier's text (see `text`) to `f`.
    pub fn fmt(&self, f: &mut String)
        ensures
            final(f)@ == old(f)@ + self.text(),
    {
        if let TypeSpecifier::Default { signedness: None, endianness: None, unit: None } = self {
            assert(old(f)@ + self.text() =~= old(f)@);
            return ;
        }
        f.append("/");
        let base: Option<&str> = match self {
            TypeSpecifier::Default { .. } => None,
            TypeSpecifier::Integer { .. } => Some("integer"),
            TypeSpecifier::Float { .. } => Some("float"),
            TypeSpecifier::Binary => Some("binary"),
            TypeSpecifier::Bytes => Some("bytes"),
            TypeSpecifier::Bitstring => Some("bitstring"),
            TypeSpecifier::Bits => Some("bits"),
            TypeSpecifier::Utf8 => Some("utf8"),
            TypeSpecifier::Utf16 { .. } => Some("utf16"),
            TypeSpecifier::Utf32 { .. } => Some("utf32"),
        };
        let (signedness, endianness, unit): (Option<Signedness>, Option<Endianness>, Option<u8>) =
            match self {
            TypeSpecifier::Default { signedness, endianness, unit } => (*signedness, *endianness, *unit),
            TypeSpecifier::Integer { signedness, endianness, unit } => (*signedness, *endianness, *unit),
            TypeSpecifier::Float { endianness, unit } => (None, *endianness, *unit),
            TypeSpecifier::Utf16 { endianness } => (None, *endianness, None),
            TypeSpecifier::Utf32 { endianness } => (None, *endianness, None),
            _ => (None, None, None),
        };
        let mut strings: Vec<String> = Vec::new();
        let ghost p0 = opt_part(self.base_name());
        if let Some(b) = base {
            strings.push(String::from_str(b));
        }
        assert(string_views(strings@) =~= p0);
        let ghost p1 = p0 + opt_part(
            match self.signedness_of() {
                Some(s) => Some(s.text()),
                None => None,
            },
        );
        if let Some(s) = signedness {
            strings.push(s.to_string());
        }
        assert(string_views(strings@) =~= p1);
        let ghost p2 = p1 + opt_part(
            match self.endianness_of() {
                Some(e) => Some(e.text()),
                None => None,
            },
        );
        if let Some(e) = endianness {
            strings.push(e.to_string());
        }
        assert(string_views(strings@) =~= p2);
        if let Some(u) = unit {
            let mut s = String::from_str("unit:");
            write_decimal(&mut s, u as u64 + 1);
            strings.push(s);
        }
        assert(string_views(strings@) =~= self.parts());
        write_list_strings(f, strings, "-");
    }
}

} // verus!
