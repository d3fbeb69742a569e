//! The procedure catalogues: closed enumerations of the builtin numeric,
//! string, and generic (control-flow) procedures, with their operator
//! tokens.

use vstd::prelude::*;

use crate::util::str_eq;

verus! {

/// Builtin procedures over numbers.
#[derive(Debug, Clone, Copy, PartialEq, Eq)]
pub enum NumericProcs {
    Sum,
    Subtract,
    Mult,
    Div,
    Modulo,
}

/// Builtin procedures over strings.
#[derive(Debug, Clone, Copy, PartialEq, Eq)]
pub enum StringProcs {
    Append,
}

/// Builtin control-flow procedures and predicates.
#[derive(Debug, Clone, Copy, PartialEq, Eq)]
pub enum GenericProcs {
    And,
    Or,
    If,
    Display,
    Not,
    Cond,
    IsPositive,
    IsZero,
    Define,
}

/// Single-character numeric operators, kept for hosts that classify raw
/// operator characters.
#[derive(Debug, Clone, Copy, PartialEq, Eq)]
pub enum NumericBops {
    Sum,
    Subtract,
    Mult,
    Div,
}

/// Which numeric procedure an operator token names.
pub open spec fn numeric_proc_of(s: Seq<char>) -> Option<NumericProcs> {
    if s == "+"@ {
        Some(NumericProcs::Sum)
    } else if s == "-"@ {
        Some(NumericProcs::Subtract)
    } else if s == "*"@ {
        Some(NumericProcs::Mult)
    } else if s == "/"@ {
        Some(NumericProcs::Div)
    } else if s == "modulo"@ {
        Some(NumericProcs::Modulo)
    } else {
        None
    }
}

/// Which string procedure an operator token names.
pub open spec fn string_proc_of(s: Seq<char>) -> Option<StringProcs> {
    if s == "string-append"@ {
        Some(StringProcs::Append)
    } else {
        None
    }
}

/// Which generic procedure an operator token names.
pub open spec fn generic_proc_of(s: Seq<char>) -> Option<GenericProcs> {
    if s == "and"@ {
        Some(GenericProcs::And)
    } else if s == "or"@ {
        Some(GenericProcs::Or)
    } else if s == "if"@ {
        Some(GenericProcs::If)
    } else if s == "display"@ {
        Some(GenericProcs::Display)
    } else if s == "not"@ {
        Some(GenericProcs::Not)
    } else if s == "cond"@ {
        Some(GenericProcs::Cond)
    } else if s == "positive?"@ {
        Some(GenericProcs::IsPositive)
    } else if s == "zero?"@ {
        Some(GenericProcs::IsZero)
    } else if s == "define"@ {
        Some(GenericProcs::Define)
    } else {
        None
    }
}

impl NumericProcs {
    /// Resolves an operator token to a numeric procedure.
    pub fn try_from(c: &str) -> (r: Option<NumericProcs>)
        ensures
            r == numeric_proc_of(c@),
    {
        if str_eq(c, "+") {
            Some(NumericProcs::Sum)
        } else if str_eq(c, "-") {
            Some(NumericProcs::Subtract)
        } else if str_eq(c, "*") {
            Some(NumericProcs::Mult)
        } else if str_eq(c, "/") {
            Some(NumericProcs::Div)
        } else if str_eq(c, "modulo") {
            Some(NumericProcs::Modulo)
        } else {
            None
        }
    }
}

impl StringProcs {
    /// Resolves an operator token to a string procedure.
    pub fn try_from(c: &str) -> (r: Option<StringProcs>)
        ensures
            r == string_proc_of(c@),
    {
        if str_eq(c, "string-append") {
            Some(StringProcs::Append)
        } else {
            None
        }
    }
}

impl GenericProcs {
    /// Resolves an operator token to a generic procedure.
    pub fn try_from(c: &str) -> (r: Option<GenericProcs>)
        ensures
            r == generic_proc_of(c@),
    {
        if str_eq(c, "and") {
            Some(GenericProcs::And)
        } else if str_eq(c, "or") {
            Some(GenericProcs::Or)
        } else if str_eq(c, "if") {
            Some(GenericProcs::If)
        } else if str_eq(c, "display") {
            Some(GenericProcs::Display)
        } else if str_eq(c, "not") {
            Some(GenericProcs::Not)
        } else if str_eq(c, "cond") {
            Some(GenericProcs::Cond)
        } else if str_eq(c, "positive?") {
            Some(GenericProcs::IsPositive)
        } else if str_eq(c, "zero?") {
            Some(GenericProcs::IsZero)
        } else if str_eq(c, "define") {
            Some(GenericProcs::Define)
        } else {
            None
        }
    }
}

/// Which numeric procedure a single operator character names.
pub open spec fn numeric_bop_of(c: char) -> Option<NumericBops> {
    if c == '+' {
        Some(NumericBops::Sum)
    } else if c == '-' {
        Some(NumericBops::Subtract)
    } else if c == '*' {
        Some(NumericBops::Mult)
    } else if c == '/' {
        Some(NumericBops::Div)
    } else {
        None
    }
}

impl NumericBops {
    /// Resolves an operator character.
    pub fn try_from(c: char) -> (r: Option<NumericBops>)
        ensures
            r == numeric_bop_of(c),
    {
        if c == '+' {
            Some(NumericBops::Sum)
        } else if c == '-' {
            Some(NumericBops::Subtract)
        } else if c == '*' {
            Some(NumericBops::Mult)
        } else if c == '/' {
            Some(NumericBops::Div)
        } else {
            None
        }
    }

    /// The operator character of this procedure.
    pub fn to_char(self) -> (r: char)
        ensures
            numeric_bop_of(r) == Some(self),
    {
        match self {
            NumericBops::Sum => '+',
            NumericBops::Subtract => '-',
            NumericBops::Mult => '*',
            NumericBops::Div => '/',
        }
    }
}

} // verus!
