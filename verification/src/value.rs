//! The values that a program computes with.

use vstd::prelude::*;
use vstd::string::StringExecFns;

use crate::number::ieee_equal;

verus! {

/// A runtime value. A number is a double, held as the bits of its IEEE 754
/// encoding.
#[derive(Debug)]
pub enum Value {
    Str(String),
    Num(u64),
    False,
    True,
    Nill,
}

/// The mathematical model of a [`Value`].
pub enum ValueView {
    Str(Seq<char>),
    Num(u64),
    False,
    True,
    Nill,
}

impl View for Value {
    type V = ValueView;

    open spec fn view(&self) -> ValueView {
        match self {
            Value::Str(s) => ValueView::Str(s@),
            Value::Num(n) => ValueView::Num(*n),
            Value::False => ValueView::False,
            Value::True => ValueView::True,
            Value::Nill => ValueView::Nill,
        }
    }
}

impl Clone for Value {
    fn clone(&self) -> (r: Self)
        ensures
            r@ == self@,
    {
        match self {
            Value::Str(s) => Value::Str(s.clone()),
            Value::Num(n) => Value::Num(*n),
            Value::False => Value::False,
            Value::True => Value::True,
            Value::Nill => Value::Nill,
        }
    }
}

/// The text that Rust's `Debug` writes for a string: the text between
/// double quotes, with quotes, backslashes and unprintable characters
/// escaped.
pub uninterp spec fn quoted(text: Seq<char>) -> Seq<char>;

/// Calls the `Debug` formatting of `str`. The contract gives the result its
/// name and claims no more than that it depends on the text alone.
#[verifier::external_body]
pub(crate) fn quote(text: &str) -> (r: String)
    ensures
        r@ == quoted(text@),
{
    format!("{:?}", text)
}

impl ValueView {
    /// The value that stands for a truth value.
    pub open spec fn of_bool(b: bool) -> ValueView {
        if b {
            ValueView::True
        } else {
            ValueView::False
        }
    }

    /// Truthiness: `Nill` and `False` are false, every other value is true.
    pub open spec fn truthy(self) -> bool {
        !(self is Nill) && !(self is False)
    }

    /// Equality of values: values of different kinds are unequal, strings
    /// are equal when their texts are, numbers when the doubles are.
    pub open spec fn equals(self, other: ValueView) -> bool {
        match (self, other) {
            (ValueView::Nill, ValueView::Nill) => true,
            (ValueView::True, ValueView::True) => true,
            (ValueView::False, ValueView::False) => true,
            (ValueView::Str(a), ValueView::Str(b)) => a == b,
            (ValueView::Num(a), ValueView::Num(b)) => ieee_equal(a, b),
            _ => false,
        }
    }

    /// The canonical text of a value, as `print` writes it. For a number,
    /// `number_text` is the text that the host gave for it.
    pub open spec fn canonical(self, number_text: Seq<char>) -> Seq<char> {
        match self {
            ValueView::Nill => "nill"@,
            ValueView::Num(_) => crate::text::without_point_zero(number_text),
            ValueView::Str(s) => s,
            ValueView::True => "true"@,
            ValueView::False => "false"@,
        }
    }

    /// How an error message shows a value that is not a number. With
    /// `tagged`, the value is shown under the name of its kind.
    pub open spec fn shown(self, tagged: bool) -> Seq<char> {
        match self {
            ValueView::Str(s) => if tagged {
                "Str("@ + quoted(s) + ")"@
            } else {
                quoted(s)
            },
            ValueView::False => if tagged {
                "False"@
            } else {
                "false"@
            },
            ValueView::True => if tagged {
                "True"@
            } else {
                "true"@
            },
            ValueView::Nill => if tagged {
                "Nill"@
            } else {
                "nill"@
            },
            ValueView::Num(_) => Seq::empty(),
        }
    }

    /// What an error message writes before the text of a number.
    pub open spec fn number_opening(tagged: bool) -> Seq<char> {
        if tagged {
            "Num("@
        } else {
            Seq::empty()
        }
    }

    /// What an error message writes after the text of a number.
    pub open spec fn number_closing(tagged: bool) -> Seq<char> {
        if tagged {
            ")"@
        } else {
            Seq::empty()
        }
    }
}

impl Value {
    /// The value that stands for a truth value.
    pub fn of_bool(b: bool) -> (r: Value)
        ensures
            r@ == ValueView::of_bool(b),
    {
        if b {
            Value::True
        } else {
            Value::False
        }
    }

    /// How an error message shows a value that is not a number.
    pub fn shown(&self, tagged: bool) -> (r: String)
        ensures
            r@ == self@.shown(tagged),
    {
        match self {
            Value::Str(s) => {
                if tagged {
                    let q = quote(s.as_str());
                    crate::text::join3("Str(", q.as_str(), ")")
                } else {
                    quote(s.as_str())
                }
            },
            Value::False => String::from_str(if tagged { "False" } else { "false" }),
            Value::True => String::from_str(if tagged { "True" } else { "true" }),
            Value::Nill => String::from_str(if tagged { "Nill" } else { "nill" }),
            Value::Num(_) => {
                let r = String::new();
                r
            },
        }
    }

    /// What an error message writes before the text of a number.
    pub fn number_opening(tagged: bool) -> (r: String)
        ensures
            r@ == ValueView::number_opening(tagged),
    {
        if tagged {
            String::from_str("Num(")
        } else {
            String::new()
        }
    }

    /// What an error message writes after the text of a number.
    pub fn number_closing(tagged: bool) -> (r: String)
        ensures
            r@ == ValueView::number_closing(tagged),
    {
        if tagged {
            String::from_str(")")
        } else {
            String::new()
        }
    }
}

} // verus!
