//! Runtime values.

use vstd::prelude::*;

verus! {

/// The mathematical model of a runtime value: exactly one of a number, a
/// string, a boolean or null. A number is held as its IEEE-754 binary64 bit
/// pattern.
#[verifier::ext_equal]
pub enum Value {
    Str(Seq<char>),
    Num(u64),
    Bool(bool),
    Null,
}

/// A runtime value, as produced by literals and by evaluation and as stored in
/// variable bindings.
#[allow(non_camel_case_types)]
#[derive(Debug, PartialEq)]
pub enum obj {
    Str(String),
    /// The IEEE-754 binary64 bit pattern of the number.
    Num(u64),
    Bool(bool),
    Null,
}

impl View for obj {
    type V = Value;

    open spec fn view(&self) -> Value {
        match self {
            obj::Str(s) => Value::Str(s@),
            obj::Num(n) => Value::Num(*n),
            obj::Bool(b) => Value::Bool(*b),
            obj::Null => Value::Null,
        }
    }
}

impl Clone for obj {
    fn clone(&self) -> (copy: obj)
        ensures
            copy@ == self@,
    {
        match self {
            obj::Str(s) => obj::Str(s.clone()),
            obj::Num(n) => obj::Num(*n),
            obj::Bool(b) => obj::Bool(*b),
            obj::Null => obj::Null,
        }
    }
}

} // verus!
