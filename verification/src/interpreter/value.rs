//! Runtime values and how they are named and shown.

use crate::number::{decimal_text, to_text, Number};
use vstd::prelude::*;
use vstd::string::*;

verus! {

/// A value of the language.
#[derive(Clone, Debug)]
pub enum Value {
    Number(Number),
    String(String),
    Bool(bool),
    Null,
    /// A callable, by its name.
    Function(String),
    /// An instance of a class, by the name of the class.
    Instance(String),
}

/// A value with its strings as sequences of characters and its number as
/// mantissa and scale.
pub ghost enum ValueView {
    Number(int, int),
    String(Seq<char>),
    Bool(bool),
    Null,
    Function(Seq<char>),
    Instance(Seq<char>),
}

impl View for Value {
    type V = ValueView;

    open spec fn view(&self) -> ValueView {
        match self {
            Value::Number(n) => ValueView::Number(n@.0, n@.1),
            Value::String(s) => ValueView::String(s@),
            Value::Bool(b) => ValueView::Bool(*b),
            Value::Null => ValueView::Null,
            Value::Function(name) => ValueView::Function(name@),
            Value::Instance(class) => ValueView::Instance(class@),
        }
    }
}

/// The name of the type of a value.
pub open spec fn name_of_type(v: ValueView) -> Seq<char> {
    match v {
        ValueView::Number(..) => "number"@,
        ValueView::String(_) => "string"@,
        ValueView::Bool(_) => "bool"@,
        ValueView::Null => "null"@,
        ValueView::Function(_) => "function"@,
        ValueView::Instance(_) => "instance"@,
    }
}

/// The text that shows a value.
pub open spec fn value_text(v: ValueView) -> Seq<char> {
    match v {
        ValueView::Number(mantissa, scale) => decimal_text(mantissa, scale),
        ValueView::String(s) => s,
        ValueView::Bool(b) => if b {
            "true"@
        } else {
            "false"@
        },
        ValueView::Null => "null"@,
        ValueView::Function(name) => "<function "@ + name + ">"@,
        ValueView::Instance(class) => "<instance of "@ + class + ">"@,
    }
}

/// The name of the type of `value`.
pub fn type_of(value: &Value) -> (r: &'static str)
    ensures
        r@ == name_of_type(value@),
{
    match value {
        Value::Number(_) => "number",
        Value::String(_) => "string",
        Value::Bool(_) => "bool",
        Value::Null => "null",
        Value::Function(_) => "function",
        Value::Instance(_) => "instance",
    }
}

impl Value {
    /// The text that shows the value.
    pub fn to_string(&self) -> (r: String)
        ensures
            r@ == value_text(self@),
    {
        match self {
            Value::Number(n) => to_text(*n),
            Value::String(s) => s.clone(),
            Value::Bool(b) => if *b {
                String::from_str("true")
            } else {
                String::from_str("false")
            },
            Value::Null => String::from_str("null"),
            Value::Function(name) => {
                let mut r = String::from_str("<function ");
                r.append(name.as_str());
                r.append(">");
                r
            },
            Value::Instance(class) => {
                let mut r = String::from_str("<instance of ");
                r.append(class.as_str());
                r.append(">");
                r
            },
        }
    }
}

} // verus!
