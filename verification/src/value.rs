//! Literal values.

use vstd::prelude::*;
use crate::number::Number;

verus! {

/// A literal of the language.
#[derive(Debug)]
pub enum LiteralType {
    Num(Number),
    Str(String),
    True,
    False,
    Null,
}

/// The mathematical value of a [`LiteralType`].
pub enum LiteralView {
    Num(Number),
    Str(Seq<char>),
    True,
    False,
    Null,
}

impl View for LiteralType {
    type V = LiteralView;

    open spec fn view(&self) -> LiteralView {
        match self {
            LiteralType::Num(n) => LiteralView::Num(*n),
            LiteralType::Str(s) => LiteralView::Str(s@),
            LiteralType::True => LiteralView::True,
            LiteralType::False => LiteralView::False,
            LiteralType::Null => LiteralView::Null,
        }
    }
}

impl Clone for LiteralType {
    fn clone(&self) -> (copy: LiteralType)
        ensures
            copy == *self,
    {
        match self {
            LiteralType::Num(n) => LiteralType::Num(*n),
            LiteralType::Str(s) => LiteralType::Str(s.clone()),
            LiteralType::True => LiteralType::True,
            LiteralType::False => LiteralType::False,
            LiteralType::Null => LiteralType::Null,
        }
    }
}

/// A value that a program computes: a literal, a list or a callable. Lists
/// and callables are named by their place in the interpreter's stores, so
/// that every holder of a list sees the changes made to it.
#[derive(Debug)]
pub enum Value {
    Literal(LiteralType),
    List(usize),
    Callable(usize),
}

/// The mathematical value of a [`Value`].
pub enum ValueView {
    Literal(LiteralView),
    List(usize),
    Callable(usize),
}

impl View for Value {
    type V = ValueView;

    open spec fn view(&self) -> ValueView {
        match self {
            Value::Literal(literal) => ValueView::Literal(literal@),
            Value::List(list) => ValueView::List(*list),
            Value::Callable(callable) => ValueView::Callable(*callable),
        }
    }
}

impl Clone for Value {
    fn clone(&self) -> (copy: Value)
        ensures
            copy == *self,
    {
        match self {
            Value::Literal(literal) => Value::Literal(literal.clone()),
            Value::List(list) => Value::List(*list),
            Value::Callable(callable) => Value::Callable(*callable),
        }
    }
}

/// The value that stands for nothing.
pub open spec fn nil() -> ValueView {
    ValueView::Literal(LiteralView::Null)
}

/// The value of a truth value.
pub open spec fn truth(b: bool) -> ValueView {
    if b {
        ValueView::Literal(LiteralView::True)
    } else {
        ValueView::Literal(LiteralView::False)
    }
}

/// The value of a number.
pub open spec fn number(n: Number) -> ValueView {
    ValueView::Literal(LiteralView::Num(n))
}

/// The value of a text.
pub open spec fn text(s: Seq<char>) -> ValueView {
    ValueView::Literal(LiteralView::Str(s))
}

/// Whether a value counts as true: every value does, but `false` and
/// `null`.
pub open spec fn truthy(value: ValueView) -> bool {
    value != truth(false) && value != nil()
}

/// The views of a sequence of values, in order.
pub open spec fn value_views(values: Seq<Value>) -> Seq<ValueView> {
    values.map_values(|v: Value| v@)
}

impl Value {
    /// The value that stands for nothing.
    pub fn nil() -> (value: Value)
        ensures
            value@ == nil(),
    {
        Value::Literal(LiteralType::Null)
    }

    /// The value of a truth value.
    pub fn truth(b: bool) -> (value: Value)
        ensures
            value@ == truth(b),
    {
        if b {
            Value::Literal(LiteralType::True)
        } else {
            Value::Literal(LiteralType::False)
        }
    }

    /// The value of a number.
    pub fn number(n: Number) -> (value: Value)
        ensures
            value@ == number(n),
    {
        Value::Literal(LiteralType::Num(n))
    }

    /// The value of a text.
    pub fn text(s: String) -> (value: Value)
        ensures
            value@ == text(s@),
    {
        Value::Literal(LiteralType::Str(s))
    }

    /// Whether the value counts as true.
    pub fn is_truthy(&self) -> (b: bool)
        ensures
            b == truthy(self@),
    {
        match self {
            Value::Literal(LiteralType::False) => false,
            Value::Literal(LiteralType::Null) => false,
            _ => true,
        }
    }
}

} // verus!
