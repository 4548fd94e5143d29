//! The rules of the scene language that do not depend on numeric values:
//! operator and name lookup, the typing of operations, and how the flat,
//! order-independent parameter list of an object constructor is dealt out.
use vstd::prelude::*;
use crate::csg::Operator;
use crate::text::str_eq;

verus! {

/// Why a scene could not be loaded.
#[derive(Clone, Copy, Debug, PartialEq, Eq, Structural)]
pub enum SceneError {
    /// A variable was read that no scope binds.
    UnknownVariable,
    /// A function was called that was never defined.
    UnknownFunction,
    /// A function was called with a number of arguments other than its
    /// number of parameters.
    ArityMismatch,
    /// An operator or a statement got a value of a type it cannot take.
    WrongType,
    /// An operator symbol that the language does not know.
    UnknownOperator,
    /// An operator that the language names but does not evaluate.
    UnsupportedOperator,
    /// An object constructor name that the language does not know.
    UnknownShape,
    /// A CSG operator name other than union, intersection and difference.
    UnknownCsgOperator,
    /// A transformation name other than translate, rotate and scale.
    UnknownTransformation,
    /// A CSG constructor got fewer than two objects.
    MissingObject,
    /// A constructor got arguments that none of its parameters took.
    LeftoverArguments,
    /// A boolean was passed to a constructor.
    UnexpectedBoolean,
    /// `draw` got something other than exactly one object.
    NotAnObject,
}

/// The runtime type of a value of the scene language.
#[derive(Clone, Copy, Debug, PartialEq, Eq, Structural)]
pub enum ValueKind {
    Number,
    Boolean,
    Text,
    Color,
    Vector,
    Object,
    Texture,
}

/// The binary operators of the scene language.
#[derive(Clone, Copy, Debug, PartialEq, Eq, Structural)]
pub enum BinaryOperator {
    Add,
    Subtract,
    Multiply,
    Divide,
    Modulo,
    LessThan,
    GreaterThan,
}

/// The operator that a symbol of the language stands for.
pub open spec fn binary_operator_of(symbol: Seq<char>) -> Option<BinaryOperator> {
    if symbol == seq!['+'] {
        Some(BinaryOperator::Add)
    } else if symbol == seq!['-'] {
        Some(BinaryOperator::Subtract)
    } else if symbol == seq!['*'] {
        Some(BinaryOperator::Multiply)
    } else if symbol == seq!['/'] {
        Some(BinaryOperator::Divide)
    } else if symbol == seq!['%'] {
        Some(BinaryOperator::Modulo)
    } else if symbol == seq!['>'] {
        Some(BinaryOperator::GreaterThan)
    } else if symbol == seq!['<'] {
        Some(BinaryOperator::LessThan)
    } else {
        None
    }
}

/// The type of `a op b`, or why it has none. Sums and differences take two
/// numbers; products and quotients scale a color or a vector by a number on
/// either side, or combine two numbers; comparisons take two numbers and give
/// a boolean.
pub open spec fn binary_result_spec(
    op: BinaryOperator,
    a: ValueKind,
    b: ValueKind,
) -> Result<ValueKind, SceneError> {
    match op {
        BinaryOperator::Add | BinaryOperator::Subtract => {
            if a == ValueKind::Number && b == ValueKind::Number {
                Ok(ValueKind::Number)
            } else {
                Err(SceneError::WrongType)
            }
        },
        BinaryOperator::Multiply | BinaryOperator::Divide => {
            if a == ValueKind::Number && b == ValueKind::Number {
                Ok(ValueKind::Number)
            } else if (a == ValueKind::Color && b == ValueKind::Number) || (a == ValueKind::Number
                && b == ValueKind::Color) {
                Ok(ValueKind::Color)
            } else if (a == ValueKind::Vector && b == ValueKind::Number) || (a == ValueKind::Number
                && b == ValueKind::Vector) {
                Ok(ValueKind::Vector)
            } else {
                Err(SceneError::WrongType)
            }
        },
        BinaryOperator::LessThan | BinaryOperator::GreaterThan => {
            if a == ValueKind::Number && b == ValueKind::Number {
                Ok(ValueKind::Boolean)
            } else {
                Err(SceneError::WrongType)
            }
        },
        BinaryOperator::Modulo => Err(SceneError::UnsupportedOperator),
    }
}

fn is_symbol(s: &str, c: char) -> (r: bool)
    ensures
        r == (s@ == seq![c]),
{
    if s.unicode_len() != 1 {
        proof {
            assert(s@.len() != seq![c].len());
        }
        return false;
    }
    let first = s.get_char(0);
    proof {
        if first == c {
            assert(s@ =~= seq![c]);
        }
    }
    first == c
}

impl BinaryOperator {
    /// The operator written `symbol`.
    pub fn from_symbol(symbol: &str) -> (r: Result<BinaryOperator, SceneError>)
        ensures
            r == (match binary_operator_of(symbol@) {
                Some(op) => Ok(op),
                None => Err(SceneError::UnknownOperator),
            }),
    {
        if is_symbol(symbol, '+') {
            Ok(BinaryOperator::Add)
        } else if is_symbol(symbol, '-') {
            Ok(BinaryOperator::Subtract)
        } else if is_symbol(symbol, '*') {
            Ok(BinaryOperator::Multiply)
        } else if is_symbol(symbol, '/') {
            Ok(BinaryOperator::Divide)
        } else if is_symbol(symbol, '%') {
            Ok(BinaryOperator::Modulo)
        } else if is_symbol(symbol, '>') {
            Ok(BinaryOperator::GreaterThan)
        } else if is_symbol(symbol, '<') {
            Ok(BinaryOperator::LessThan)
        } else {
            Err(SceneError::UnknownOperator)
        }
    }

    /// The type of `a self b`, or the error that evaluating it raises.
    pub fn result_kind(self, a: ValueKind, b: ValueKind) -> (r: Result<ValueKind, SceneError>)
        ensures
            r == binary_result_spec(self, a, b),
    {
        let a_num = a == ValueKind::Number;
        let b_num = b == ValueKind::Number;
        match self {
            BinaryOperator::Add | BinaryOperator::Subtract => {
                if a_num && b_num {
                    Ok(ValueKind::Number)
                } else {
                    Err(SceneError::WrongType)
                }
            },
            BinaryOperator::Multiply | BinaryOperator::Divide => {
                if a_num && b_num {
                    Ok(ValueKind::Number)
                } else if (a == ValueKind::Color && b_num) || (a_num && b == ValueKind::Color) {
                    Ok(ValueKind::Color)
                } else if (a == ValueKind::Vector && b_num) || (a_num && b == ValueKind::Vector) {
                    Ok(ValueKind::Vector)
                } else {
                    Err(SceneError::WrongType)
                }
            },
            BinaryOperator::LessThan | BinaryOperator::GreaterThan => {
                if a_num && b_num {
                    Ok(ValueKind::Boolean)
                } else {
                    Err(SceneError::WrongType)
                }
            },
            BinaryOperator::Modulo => Err(SceneError::UnsupportedOperator),
        }
    }
}

/// The type of `-a`: numbers and vectors can be negated.
pub fn minus_kind(a: ValueKind) -> (r: Result<ValueKind, SceneError>)
    ensures
        r == (if a == ValueKind::Number || a == ValueKind::Vector {
            Ok(a)
        } else {
            Err(SceneError::WrongType)
        }),
{
    match a {
        ValueKind::Number => Ok(ValueKind::Number),
        ValueKind::Vector => Ok(ValueKind::Vector),
        _ => Err(SceneError::WrongType),
    }
}

/// The operator of a CSG constructor, as the scene language names it.
#[derive(Clone, Copy, Debug, PartialEq, Eq, Structural)]
pub enum CSGOperator {
    Intersection,
    Union,
    Difference,
}

/// The CSG operator that a name stands for.
pub open spec fn csg_operator_of(name: Seq<char>) -> Option<CSGOperator> {
    if name == "union"@ {
        Some(CSGOperator::Union)
    } else if name == "intersection"@ {
        Some(CSGOperator::Intersection)
    } else if name == "difference"@ {
        Some(CSGOperator::Difference)
    } else {
        None
    }
}

impl CSGOperator {
    /// The operator named `name`.
    pub fn from_name(name: &str) -> (r: Result<CSGOperator, SceneError>)
        ensures
            r == (match csg_operator_of(name@) {
                Some(op) => Ok(op),
                None => Err(SceneError::UnknownCsgOperator),
            }),
    {
        if str_eq(name, "union") {
            Ok(CSGOperator::Union)
        } else if str_eq(name, "intersection") {
            Ok(CSGOperator::Intersection)
        } else if str_eq(name, "difference") {
            Ok(CSGOperator::Difference)
        } else {
            Err(SceneError::UnknownCsgOperator)
        }
    }

    /// The set operation that the geometry applies.
    pub fn to_operator(self) -> (r: Operator)
        ensures
            r == (match self {
                CSGOperator::Intersection => Operator::Intersection,
                CSGOperator::Union => Operator::Union,
                CSGOperator::Difference => Operator::Difference,
            }),
    {
        match self {
            CSGOperator::Intersection => Operator::Intersection,
            CSGOperator::Union => Operator::Union,
            CSGOperator::Difference => Operator::Difference,
        }
    }
}

/// The transformations that a scoped transformation block can apply.
#[derive(Clone, Copy, Debug, PartialEq, Eq, Structural)]
pub enum TransformationKind {
    Translate,
    Rotate,
    Scale,
}

/// The transformation that a name stands for.
pub open spec fn transformation_of(name: Seq<char>) -> Option<TransformationKind> {
    if name == "translate"@ {
        Some(TransformationKind::Translate)
    } else if name == "scale"@ {
        Some(TransformationKind::Scale)
    } else if name == "rotate"@ {
        Some(TransformationKind::Rotate)
    } else {
        None
    }
}

impl TransformationKind {
    /// The transformation named `name`.
    pub fn from_name(name: &str) -> (r: Result<TransformationKind, SceneError>)
        ensures
            r == (match transformation_of(name@) {
                Some(t) => Ok(t),
                None => Err(SceneError::UnknownTransformation),
            }),
    {
        if str_eq(name, "translate") {
            Ok(TransformationKind::Translate)
        } else if str_eq(name, "scale") {
            Ok(TransformationKind::Scale)
        } else if str_eq(name, "rotate") {
            Ok(TransformationKind::Rotate)
        } else {
            Err(SceneError::UnknownTransformation)
        }
    }
}

} // verus!
