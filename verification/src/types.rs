//! The closed set of builtin types and the compile-time type values that the
//! analysis computes for expressions.

use vstd::prelude::*;

verus! {

/// A scalar builtin: a field element or a 32-bit integer.
#[derive(Clone, Copy, Debug, PartialEq, Eq, Structural)]
pub enum ScalarType {
    Felt,
    I32,
}

/// A builtin type: a scalar, or a fixed-length array of a scalar.
#[derive(Clone, Copy, Debug, PartialEq, Eq, Structural)]
pub enum BuiltinType {
    Scalar(ScalarType),
    Array(ScalarType, usize),
}

/// The type that an expression evaluates to, as far as the analysis knows it.
/// `Nil` is the type of a statement, which carries no value.
#[derive(Clone, Copy, Debug, PartialEq, Eq, Structural)]
pub enum TypeValue {
    Nil,
    I32,
    Felt,
    Array(ScalarType, usize),
}

/// A literal element of an array literal.
#[derive(Clone, Copy, Debug, PartialEq, Eq, Structural)]
pub enum Literal {
    I32(i32),
    Felt(u64),
}

/// What visiting a node yields: one type value, or several (an array-shaped
/// or multi-value result).
#[derive(Clone, Debug, PartialEq, Eq)]
pub enum TraversalResult {
    Single(TypeValue),
    Multiple(Vec<TypeValue>),
}

/// The mathematical model of a `TraversalResult`.
pub enum ResultView {
    Single(TypeValue),
    Multiple(Seq<TypeValue>),
}

impl View for TraversalResult {
    type V = ResultView;

    open spec fn view(&self) -> ResultView {
        match self {
            TraversalResult::Single(t) => ResultView::Single(*t),
            TraversalResult::Multiple(ts) => ResultView::Multiple(ts@),
        }
    }
}

/// The type value of a scalar builtin.
pub open spec fn scalar_value(s: ScalarType) -> TypeValue {
    match s {
        ScalarType::Felt => TypeValue::Felt,
        ScalarType::I32 => TypeValue::I32,
    }
}

/// The type value of a builtin type: the scalar's own value, or the array
/// shape with its element type and length.
pub open spec fn builtin_value(b: BuiltinType) -> TypeValue {
    match b {
        BuiltinType::Scalar(s) => scalar_value(s),
        BuiltinType::Array(s, len) => TypeValue::Array(s, len),
    }
}

/// The type value of a literal element.
pub open spec fn literal_value(l: Literal) -> TypeValue {
    match l {
        Literal::I32(_) => TypeValue::I32,
        Literal::Felt(_) => TypeValue::Felt,
    }
}

/// The type value of a variable: its scalar type, expanded to the declared
/// length where the variable is an array.
pub open spec fn variable_value(ty: ScalarType, array_len: Option<usize>) -> TypeValue {
    match array_len {
        Some(len) => TypeValue::Array(ty, len),
        None => scalar_value(ty),
    }
}

/// The rank of a type value in the promotion order `Nil < I32 < Felt`; an
/// array ranks as its element type.
pub open spec fn rank(t: TypeValue) -> nat {
    match t {
        TypeValue::Nil => 0,
        TypeValue::I32 => 1,
        TypeValue::Felt => 2,
        TypeValue::Array(ScalarType::I32, _) => 1,
        TypeValue::Array(ScalarType::Felt, _) => 2,
    }
}

/// The scalar type value of a given rank.
pub open spec fn of_rank(r: nat) -> TypeValue {
    if r == 0 {
        TypeValue::Nil
    } else if r == 1 {
        TypeValue::I32
    } else {
        TypeValue::Felt
    }
}

/// The promoted result type of a binary operation: the operand of higher rank,
/// reduced to a scalar.
pub open spec fn promoted(a: TypeValue, b: TypeValue) -> TypeValue {
    if rank(a) >= rank(b) {
        of_rank(rank(a))
    } else {
        of_rank(rank(b))
    }
}

/// The type that stands for a whole result where one type is wanted: the
/// single value itself, or the first of several; `Nil` where there is none.
pub open spec fn representative_of(r: ResultView) -> TypeValue {
    match r {
        ResultView::Single(t) => t,
        ResultView::Multiple(ts) => if ts.len() > 0 {
            ts[0]
        } else {
            TypeValue::Nil
        },
    }
}

/// The type of a call argument: the single value itself, or, for several
/// values, the array of the first one's scalar type over their count. Where
/// the first value is no scalar it stands for itself, and no value at all
/// gives `Nil`.
pub open spec fn argument_type_of(r: ResultView) -> TypeValue {
    match r {
        ResultView::Single(t) => t,
        ResultView::Multiple(ts) => match representative_of(r) {
            TypeValue::I32 => TypeValue::Array(ScalarType::I32, ts.len() as usize),
            TypeValue::Felt => TypeValue::Array(ScalarType::Felt, ts.len() as usize),
            other => other,
        },
    }
}

impl TypeValue {
    /// The type value of a scalar builtin.
    pub fn of_scalar(s: ScalarType) -> (t: TypeValue)
        ensures
            t == scalar_value(s),
    {
        match s {
            ScalarType::Felt => TypeValue::Felt,
            ScalarType::I32 => TypeValue::I32,
        }
    }

    /// The type value of a builtin type.
    pub fn of_builtin(b: BuiltinType) -> (t: TypeValue)
        ensures
            t == builtin_value(b),
    {
        match b {
            BuiltinType::Scalar(s) => TypeValue::of_scalar(s),
            BuiltinType::Array(s, len) => TypeValue::Array(s, len),
        }
    }

    /// The type value of a literal element.
    pub fn of_literal(l: Literal) -> (t: TypeValue)
        ensures
            t == literal_value(l),
    {
        match l {
            Literal::I32(_) => TypeValue::I32,
            Literal::Felt(_) => TypeValue::Felt,
        }
    }

    /// The type value of a variable of scalar type `ty`, an array where
    /// `array_len` is present.
    pub fn of_variable(ty: ScalarType, array_len: Option<usize>) -> (t: TypeValue)
        ensures
            t == variable_value(ty, array_len),
    {
        match array_len {
            Some(len) => TypeValue::Array(ty, len),
            None => TypeValue::of_scalar(ty),
        }
    }

    /// The promoted result type of a binary operation on `self` and `other`.
    pub fn promote(self, other: TypeValue) -> (t: TypeValue)
        ensures
            t == promoted(self, other),
    {
        let a: u8 = self.rank_of();
        let b: u8 = other.rank_of();
        let r: u8 = if a >= b {
            a
        } else {
            b
        };
        if r == 0 {
            TypeValue::Nil
        } else if r == 1 {
            TypeValue::I32
        } else {
            TypeValue::Felt
        }
    }

    /// The rank of `self` in the promotion order.
    pub fn rank_of(self) -> (r: u8)
        ensures
            r == rank(self),
    {
        match self {
            TypeValue::Nil => 0,
            TypeValue::I32 => 1,
            TypeValue::Felt => 2,
            TypeValue::Array(ScalarType::I32, _) => 1,
            TypeValue::Array(ScalarType::Felt, _) => 2,
        }
    }
}

impl TraversalResult {
    /// The one type that stands for this result: see `representative_of`.
    pub fn representative(&self) -> (t: TypeValue)
        ensures
            t == representative_of(self@),
    {
        match self {
            TraversalResult::Single(t) => *t,
            TraversalResult::Multiple(ts) => if ts.len() > 0 {
                ts[0]
            } else {
                TypeValue::Nil
            },
        }
    }

    /// The type of this result as a call argument: see `argument_type_of`.
    pub fn argument_type(&self) -> (t: TypeValue)
        ensures
            t == argument_type_of(self@),
    {
        match self {
            TraversalResult::Single(t) => *t,
            TraversalResult::Multiple(ts) => match self.representative() {
                TypeValue::I32 => TypeValue::Array(ScalarType::I32, ts.len()),
                TypeValue::Felt => TypeValue::Array(ScalarType::Felt, ts.len()),
                other => other,
            },
        }
    }
}

/// Promotion does not depend on the order of the operands.
pub proof fn promotion_commutes(a: TypeValue, b: TypeValue)
    ensures
        promoted(a, b) == promoted(b, a),
{
}

/// Promotion yields a scalar or `Nil`, never an array, and the rank of the
/// higher operand.
pub proof fn promotion_is_scalar(a: TypeValue, b: TypeValue)
    ensures
        !(promoted(a, b) is Array),
        rank(promoted(a, b)) == if rank(a) >= rank(b) { rank(a) } else { rank(b) },
{
}

} // verus!
