//! What the operators of the language compute on values.

use crate::error::Fault;
use crate::number::{
    add_numbers, difference_of, divide_numbers, equal, less, multiply_numbers, negate, negated,
    number_equal, number_less, product_of, quotient_of, subtract_numbers, sum_of,
};
use crate::object::{obj, Value};
use crate::text::{chars_of, string_of};
use crate::tokentype::TType;
use vstd::prelude::*;
use vstd::string::StringExecFns;

verus! {

/// True when `part` occurs in `whole` at `at`.
pub open spec fn occurs_at(whole: Seq<char>, part: Seq<char>, at: int) -> bool {
    0 <= at && at + part.len() <= whole.len() && whole.subrange(at, at + part.len()) == part
}

/// The first place at or after `from` at which `part` occurs in `whole`.
pub open spec fn first_occurrence(whole: Seq<char>, part: Seq<char>, from: int) -> Option<int>
    decreases whole.len() - from,
{
    if from < 0 || from + part.len() > whole.len() {
        None
    } else if occurs_at(whole, part, from) {
        Some(from)
    } else if from < whole.len() {
        first_occurrence(whole, part, from + 1)
    } else {
        None
    }
}

/// `whole` without the first occurrence of `part`; `whole` itself where
/// `part` does not occur.
pub open spec fn without_first(whole: Seq<char>, part: Seq<char>) -> Seq<char> {
    match first_occurrence(whole, part, 0) {
        Some(at) => whole.subrange(0, at) + whole.subrange(at + part.len(), whole.len() as int),
        None => whole,
    }
}

/// The result of a prefix operator: `-` negates a number, `!` inverts a
/// boolean. An operand of another type is a type mismatch; any other operator
/// is undefined.
pub open spec fn unary_result(operator: TType, operand: Value) -> Result<Value, Fault> {
    match operator {
        TType::Minus => match operand {
            Value::Num(n) => Ok(Value::Num(negated(n))),
            _ => Err(Fault::TypeMismatch),
        },
        TType::Bang => match operand {
            Value::Bool(b) => Ok(Value::Bool(!b)),
            _ => Err(Fault::TypeMismatch),
        },
        _ => Err(Fault::UndefinedOperator),
    }
}

/// The result of an operator on two numbers.
pub open spec fn number_result(operator: TType, a: u64, b: u64) -> Result<Value, Fault> {
    match operator {
        TType::Plus => Ok(Value::Num(sum_of(a, b))),
        TType::Minus => Ok(Value::Num(difference_of(a, b))),
        TType::Star => Ok(Value::Num(product_of(a, b))),
        TType::Slash => Ok(Value::Num(quotient_of(a, b))),
        TType::Greater => Ok(Value::Bool(number_less(b, a))),
        TType::GreaterEqual => Ok(Value::Bool(number_less(b, a) || number_equal(a, b))),
        TType::Less => Ok(Value::Bool(number_less(a, b))),
        TType::LessEqual => Ok(Value::Bool(number_less(a, b) || number_equal(a, b))),
        TType::EqualEqual => Ok(Value::Bool(number_equal(a, b))),
        TType::BangEqual => Ok(Value::Bool(!number_equal(a, b))),
        _ => Err(Fault::UndefinedOperator),
    }
}

/// The result of an operator on two strings: `+` joins them, `-` removes the
/// first occurrence of the right one from the left one.
pub open spec fn string_result(operator: TType, a: Seq<char>, b: Seq<char>) -> Result<
    Value,
    Fault,
> {
    match operator {
        TType::Plus => Ok(Value::Str(a + b)),
        TType::Minus => Ok(Value::Str(without_first(a, b))),
        _ => Err(Fault::UndefinedOperator),
    }
}

/// The result of an operator on two booleans. Both operands are values
/// already: `and` and `or` do not skip one.
pub open spec fn boolean_result(operator: TType, a: bool, b: bool) -> Result<Value, Fault> {
    match operator {
        TType::EqualEqual => Ok(Value::Bool(a == b)),
        TType::BangEqual => Ok(Value::Bool(a != b)),
        TType::And => Ok(Value::Bool(a && b)),
        TType::Or => Ok(Value::Bool(a || b)),
        _ => Err(Fault::UndefinedOperator),
    }
}

/// The result of a binary operator, chosen by the types of both operands.
/// Operands of two different types are a type mismatch; an operator that the
/// common type does not have is undefined.
pub open spec fn binary_result(operator: TType, left: Value, right: Value) -> Result<
    Value,
    Fault,
> {
    match (left, right) {
        (Value::Num(a), Value::Num(b)) => number_result(operator, a, b),
        (Value::Str(a), Value::Str(b)) => string_result(operator, a, b),
        (Value::Bool(a), Value::Bool(b)) => boolean_result(operator, a, b),
        (Value::Null, Value::Null) => Err(Fault::UndefinedOperator),
        _ => Err(Fault::TypeMismatch),
    }
}

/// Whether `part` occurs in `whole` at `at`.
fn occurs(whole: &Vec<char>, part: &Vec<char>, at: usize) -> (found: bool)
    requires
        at + part.len() <= whole.len(),
    ensures
        found == occurs_at(whole@, part@, at as int),
{
    let mut i: usize = 0;
    while i < part.len()
        invariant
            i <= part.len(),
            at + part.len() <= whole.len(),
            forall|j: int| 0 <= j < i ==> whole@[at + j] == part@[j],
        decreases part.len() - i,
    {
        if whole[at + i] != part[i] {
            assert(whole@.subrange(at as int, at + part.len())[i as int] == whole@[at + i]);
            return false;
        }
        i += 1;
    }
    assert(whole@.subrange(at as int, at + part.len()) =~= part@);
    true
}

/// The first place at which `part` occurs in `whole`.
fn find(whole: &Vec<char>, part: &Vec<char>) -> (found: Option<usize>)
    ensures
        (match found {
            Some(at) => first_occurrence(whole@, part@, 0) == Some(at as int) && at + part.len()
                <= whole.len(),
            None => first_occurrence(whole@, part@, 0) is None,
        }),
{
    if part.len() > whole.len() {
        return None;
    }
    let last: usize = whole.len() - part.len();
    let mut at: usize = 0;
    while at < last
        invariant
            at <= last,
            last == whole.len() - part.len(),
            first_occurrence(whole@, part@, 0) == first_occurrence(whole@, part@, at as int),
        decreases last - at,
    {
        if occurs(whole, part, at) {
            return Some(at);
        }
        at += 1;
    }
    if occurs(whole, part, last) {
        Some(last)
    } else {
        assert(first_occurrence(whole@, part@, last + 1) is None);
        None
    }
}

/// Appends `chars[from..to]` to `text`.
fn append_chars(text: &mut String, chars: &Vec<char>, from: usize, to: usize)
    requires
        from <= to <= chars.len(),
    ensures
        final(text)@ == old(text)@ + chars@.subrange(from as int, to as int),
{
    let mut i: usize = from;
    while i < to
        invariant
            from <= i <= to <= chars.len(),
            text@ == old(text)@ + chars@.subrange(from as int, i as int),
        decreases to - i,
    {
        text.push(chars[i]);
        assert(chars@.subrange(from as int, i + 1) =~= chars@.subrange(from as int, i as int).push(
            chars@[i as int],
        ));
        i += 1;
    }
}

/// `whole` without the first occurrence of `part`.
pub fn remove_first(whole: &String, part: &String) -> (rest: String)
    ensures
        rest@ == without_first(whole@, part@),
{
    let all = chars_of(whole.as_str());
    let gone = chars_of(part.as_str());
    match find(&all, &gone) {
        Some(at) => {
            let mut rest = string_of(&all, 0, at);
            append_chars(&mut rest, &all, at + gone.len(), all.len());
            rest
        },
        None => whole.clone(),
    }
}

/// Applies a prefix operator to the value of its operand.
pub fn apply_unary(operator: TType, operand: &obj) -> (result: Result<obj, Fault>)
    ensures
        (match result {
            Ok(value) => unary_result(operator, operand@) == Ok::<Value, Fault>(value@),
            Err(fault) => unary_result(operator, operand@) == Err::<Value, Fault>(fault),
        }),
{
    match operator {
        TType::Minus => match operand {
            obj::Num(n) => Ok(obj::Num(negate(*n))),
            _ => Err(Fault::TypeMismatch),
        },
        TType::Bang => match operand {
            obj::Bool(b) => Ok(obj::Bool(!*b)),
            _ => Err(Fault::TypeMismatch),
        },
        _ => Err(Fault::UndefinedOperator),
    }
}

/// Applies an operator to two numbers.
fn apply_to_numbers(operator: TType, a: u64, b: u64) -> (result: Result<obj, Fault>)
    ensures
        (match result {
            Ok(value) => number_result(operator, a, b) == Ok::<Value, Fault>(value@),
            Err(fault) => number_result(operator, a, b) == Err::<Value, Fault>(fault),
        }),
{
    match operator {
        TType::Plus => Ok(obj::Num(add_numbers(a, b))),
        TType::Minus => Ok(obj::Num(subtract_numbers(a, b))),
        TType::Star => Ok(obj::Num(multiply_numbers(a, b))),
        TType::Slash => Ok(obj::Num(divide_numbers(a, b))),
        TType::Greater => Ok(obj::Bool(less(b, a))),
        TType::GreaterEqual => Ok(obj::Bool(less(b, a) || equal(a, b))),
        TType::Less => Ok(obj::Bool(less(a, b))),
        TType::LessEqual => Ok(obj::Bool(less(a, b) || equal(a, b))),
        TType::EqualEqual => Ok(obj::Bool(equal(a, b))),
        TType::BangEqual => Ok(obj::Bool(!equal(a, b))),
        _ => Err(Fault::UndefinedOperator),
    }
}

/// Applies an operator to two strings.
fn apply_to_strings(operator: TType, a: &String, b: &String) -> (result: Result<obj, Fault>)
    ensures
        (match result {
            Ok(value) => string_result(operator, a@, b@) == Ok::<Value, Fault>(value@),
            Err(fault) => string_result(operator, a@, b@) == Err::<Value, Fault>(fault),
        }),
{
    match operator {
        TType::Plus => {
            let mut joined = a.clone();
            joined.append(b.as_str());
            Ok(obj::Str(joined))
        },
        TType::Minus => Ok(obj::Str(remove_first(a, b))),
        _ => Err(Fault::UndefinedOperator),
    }
}

/// Applies an operator to two booleans.
fn apply_to_booleans(operator: TType, a: bool, b: bool) -> (result: Result<obj, Fault>)
    ensures
        (match result {
            Ok(value) => boolean_result(operator, a, b) == Ok::<Value, Fault>(value@),
            Err(fault) => boolean_result(operator, a, b) == Err::<Value, Fault>(fault),
        }),
{
    match operator {
        TType::EqualEqual => Ok(obj::Bool(a == b)),
        TType::BangEqual => Ok(obj::Bool(a != b)),
        TType::And => Ok(obj::Bool(a && b)),
        TType::Or => Ok(obj::Bool(a || b)),
        _ => Err(Fault::UndefinedOperator),
    }
}

/// Applies a binary operator to the values of its operands.
pub fn apply_binary(operator: TType, left: &obj, right: &obj) -> (result: Result<obj, Fault>)
    ensures
        (match result {
            Ok(value) => binary_result(operator, left@, right@) == Ok::<Value, Fault>(value@),
            Err(fault) => binary_result(operator, left@, right@) == Err::<Value, Fault>(fault),
        }),
{
    match (left, right) {
        (obj::Num(a), obj::Num(b)) => apply_to_numbers(operator, *a, *b),
        (obj::Str(a), obj::Str(b)) => apply_to_strings(operator, a, b),
        (obj::Bool(a), obj::Bool(b)) => apply_to_booleans(operator, *a, *b),
        (obj::Null, obj::Null) => Err(Fault::UndefinedOperator),
        _ => Err(Fault::TypeMismatch),
    }
}

} // verus!
