use vstd::prelude::*;

use crate::errors::{spec_err, spec_ty_res_view, ErrV, Error, ErrorKind};
use crate::floats::{
    f64_add, f64_decimal_of, f64_div, f64_eq, f64_is_nan, f64_is_zero, f64_lt, f64_mul, f64_neg,
    f64_sub, f64_truthy, float_add, float_div, float_mul, float_sub, float_to_decimal,
};
use crate::render::{i64_to_string, spec_i64_decimal};
use vstd::string::StringExecFns;

verus! {

/// The outcome of comparing two values of the same kind.
#[derive(Clone, Copy, Debug, PartialEq, Eq, Structural)]
pub enum CmpResult {
    Equal,
    Less,
    Greater,
}

/// An integer value.
#[derive(Clone, Copy, Debug, PartialEq, Eq, Structural)]
pub struct Integer {
    pub value: i64,
}

impl Integer {
    pub fn new(value: i64) -> (r: Self)
        ensures
            r.value == value,
    {
        Integer { value }
    }
}

/// A floating-point value, held as the bit pattern of an IEEE 754
/// double-precision number.
#[derive(Clone, Copy, Debug, PartialEq, Eq, Structural)]
pub struct Float {
    pub bits: u64,
}

impl Float {
    pub fn new(bits: u64) -> (r: Self)
        ensures
            r.bits == bits,
    {
        Float { bits }
    }
}

/// The null/none sentinel value.
#[derive(Clone, Copy, Debug, PartialEq, Eq, Structural)]
pub struct NoneType {}

impl NoneType {
    pub fn new() -> (r: Self)
        ensures
            r == (NoneType {  }),
    {
        NoneType {  }
    }
}

/// The closed universe of runtime values.
#[derive(Clone, Copy, Debug, PartialEq, Eq, Structural)]
pub enum Type {
    Integer(Integer),
    Float(Float),
    NoneType(NoneType),
}

/// The printed form of a value.
pub open spec fn spec_type_display(t: Type) -> Seq<char> {
    match t {
        Type::Integer(v) => spec_i64_decimal(v.value),
        Type::Float(v) => f64_decimal_of(v.bits),
        Type::NoneType(_) => "None"@,
    }
}

/// The message of the error raised when an operation is applied to a value
/// kind that does not implement it.
pub open spec fn spec_unimpl_msg(op: Seq<char>, t: Type) -> Seq<char> {
    "method '"@ + op + "' is not implemented for "@ + spec_type_display(t)
}

/// The message of the error raised when a value kind has no conversions.
pub open spec fn spec_unconvertible_msg(t: Type) -> Seq<char> {
    "can't convert "@ + spec_type_display(t) + " to int"@
}

/// The message of the error raised when two floats cannot be compared.
pub open spec fn spec_float_cmp_msg(a: u64, b: u64) -> Seq<char> {
    "Invalid float comparison between "@ + f64_decimal_of(a) + " and "@ + f64_decimal_of(b)
}

/// An operation applied across mismatched value kinds.
pub open spec fn spec_type_err() -> ErrV {
    spec_err(ErrorKind::TypeError, "No valid type"@)
}

/// The comparison capability: defined for two integers (by their numeric
/// order) and two floats (by IEEE 754 order, undefined when either is NaN);
/// comparing across kinds is a type error, and the none value compares to
/// nothing.
pub open spec fn spec_cmp(a: Type, b: Type) -> Result<CmpResult, ErrV> {
    match a {
        Type::Integer(x) => match b {
            Type::Integer(y) => Ok(
                if x.value < y.value {
                    CmpResult::Less
                } else if x.value > y.value {
                    CmpResult::Greater
                } else {
                    CmpResult::Equal
                },
            ),
            _ => Err(spec_type_err()),
        },
        Type::Float(x) => match b {
            Type::Float(y) => if f64_is_nan(x.bits) || f64_is_nan(y.bits) {
                Err(spec_err(ErrorKind::Undefined, spec_float_cmp_msg(x.bits, y.bits)))
            } else if f64_eq(x.bits, y.bits) {
                Ok(CmpResult::Equal)
            } else if f64_lt(x.bits, y.bits) {
                Ok(CmpResult::Less)
            } else {
                Ok(CmpResult::Greater)
            },
            _ => Err(spec_type_err()),
        },
        Type::NoneType(_) => Err(spec_err(ErrorKind::Unimplemented, "can't compare None"@)),
    }
}

/// A comparison outcome as a value: integer 1 for true, 0 for false.
pub open spec fn spec_bool_type(b: bool) -> Type {
    if b {
        Type::Integer(Integer { value: 1 })
    } else {
        Type::Integer(Integer { value: 0 })
    }
}

/// Addition: wrap-around on two integers, IEEE 754 on two floats, a type
/// error across kinds, unimplemented for the none value.
pub open spec fn spec_add(a: Type, b: Type) -> Result<Type, ErrV> {
    match a {
        Type::Integer(x) => match b {
            Type::Integer(y) => Ok(
                Type::Integer(Integer { value: x.value.wrapping_add(y.value) }),
            ),
            _ => Err(spec_type_err()),
        },
        Type::Float(x) => match b {
            Type::Float(y) => Ok(Type::Float(Float { bits: f64_add(x.bits, y.bits) })),
            _ => Err(spec_type_err()),
        },
        Type::NoneType(_) => Err(
            spec_err(ErrorKind::Unimplemented, spec_unimpl_msg("add"@, a)),
        ),
    }
}

/// Subtraction, under the same kind rules as addition.
pub open spec fn spec_sub(a: Type, b: Type) -> Result<Type, ErrV> {
    match a {
        Type::Integer(x) => match b {
            Type::Integer(y) => Ok(
                Type::Integer(Integer { value: x.value.wrapping_sub(y.value) }),
            ),
            _ => Err(spec_type_err()),
        },
        Type::Float(x) => match b {
            Type::Float(y) => Ok(Type::Float(Float { bits: f64_sub(x.bits, y.bits) })),
            _ => Err(spec_type_err()),
        },
        Type::NoneType(_) => Err(
            spec_err(ErrorKind::Unimplemented, spec_unimpl_msg("sub"@, a)),
        ),
    }
}

/// Multiplication, under the same kind rules as addition.
pub open spec fn spec_mul(a: Type, b: Type) -> Result<Type, ErrV> {
    match a {
        Type::Integer(x) => match b {
            Type::Integer(y) => Ok(
                Type::Integer(Integer { value: x.value.wrapping_mul(y.value) }),
            ),
            _ => Err(spec_type_err()),
        },
        Type::Float(x) => match b {
            Type::Float(y) => Ok(Type::Float(Float { bits: f64_mul(x.bits, y.bits) })),
            _ => Err(spec_type_err()),
        },
        Type::NoneType(_) => Err(
            spec_err(ErrorKind::Unimplemented, spec_unimpl_msg("mul"@, a)),
        ),
    }
}

/// Integer division truncated toward zero, wrapping on the one overflowing
/// dividend.
pub open spec fn spec_int_div(x: i64, y: i64) -> i64
    recommends
        y != 0,
{
    match x.checked_div(y) {
        Some(q) => q,
        None => i64::MIN,
    }
}

/// Division: dividing by the zero of the same kind raises a zero-division
/// error before the division is attempted; otherwise the kind rules of
/// addition apply. Integer division truncates toward zero; float division
/// follows IEEE 754.
pub open spec fn spec_div(a: Type, b: Type) -> Result<Type, ErrV> {
    match a {
        Type::Integer(x) => match b {
            Type::Integer(y) => if y.value == 0 {
                Err(spec_err(ErrorKind::ZeroDivision, "can't divide by 0"@))
            } else {
                Ok(Type::Integer(Integer { value: spec_int_div(x.value, y.value) }))
            },
            _ => Err(spec_type_err()),
        },
        Type::Float(x) => match b {
            Type::Float(y) => if f64_is_zero(y.bits) {
                Err(spec_err(ErrorKind::ZeroDivision, "can't divide by 0"@))
            } else {
                Ok(Type::Float(Float { bits: f64_div(x.bits, y.bits) }))
            },
            _ => Err(spec_type_err()),
        },
        Type::NoneType(_) => Err(
            spec_err(ErrorKind::Unimplemented, spec_unimpl_msg("div"@, a)),
        ),
    }
}

/// Negation: the number negated (wrap-around on the one overflowing
/// integer); unimplemented for the none value.
pub open spec fn spec_neg(a: Type) -> Result<Type, ErrV> {
    match a {
        Type::Integer(x) => Ok(Type::Integer(Integer { value: (0i64).wrapping_sub(x.value) })),
        Type::Float(x) => Ok(Type::Float(Float { bits: f64_neg(x.bits) })),
        Type::NoneType(_) => Err(
            spec_err(ErrorKind::Unimplemented, spec_unimpl_msg("neg"@, a)),
        ),
    }
}

/// Logical not, defined only for integers: 1 when the operand is zero, else
/// 0.
pub open spec fn spec_not(a: Type) -> Result<Type, ErrV> {
    match a {
        Type::Integer(x) => Ok(spec_bool_type(x.value == 0)),
        _ => Err(spec_err(ErrorKind::Unimplemented, spec_unimpl_msg("not"@, a))),
    }
}

/// Logical and, defined only between integers (non-zero is true); both
/// operands are values already — there is no short-circuiting.
pub open spec fn spec_and(a: Type, b: Type) -> Result<Type, ErrV> {
    match a {
        Type::Integer(x) => match b {
            Type::Integer(y) => Ok(spec_bool_type(x.value != 0 && y.value != 0)),
            _ => Err(spec_type_err()),
        },
        _ => Err(spec_err(ErrorKind::Unimplemented, spec_unimpl_msg("and"@, a))),
    }
}

/// Logical or, defined only between integers (non-zero is true).
pub open spec fn spec_or(a: Type, b: Type) -> Result<Type, ErrV> {
    match a {
        Type::Integer(x) => match b {
            Type::Integer(y) => Ok(spec_bool_type(x.value != 0 || y.value != 0)),
            _ => Err(spec_type_err()),
        },
        _ => Err(spec_err(ErrorKind::Unimplemented, spec_unimpl_msg("or"@, a))),
    }
}

/// The six comparison operators, each defined once in terms of the
/// comparison capability.
pub open spec fn spec_eq_op(a: Type, b: Type) -> Result<Type, ErrV> {
    match spec_cmp(a, b) {
        Ok(c) => Ok(spec_bool_type(c == CmpResult::Equal)),
        Err(e) => Err(e),
    }
}

pub open spec fn spec_neq_op(a: Type, b: Type) -> Result<Type, ErrV> {
    match spec_cmp(a, b) {
        Ok(c) => Ok(spec_bool_type(c != CmpResult::Equal)),
        Err(e) => Err(e),
    }
}

pub open spec fn spec_gt_op(a: Type, b: Type) -> Result<Type, ErrV> {
    match spec_cmp(a, b) {
        Ok(c) => Ok(spec_bool_type(c == CmpResult::Greater)),
        Err(e) => Err(e),
    }
}

pub open spec fn spec_lt_op(a: Type, b: Type) -> Result<Type, ErrV> {
    match spec_cmp(a, b) {
        Ok(c) => Ok(spec_bool_type(c == CmpResult::Less)),
        Err(e) => Err(e),
    }
}

pub open spec fn spec_gte_op(a: Type, b: Type) -> Result<Type, ErrV> {
    match spec_cmp(a, b) {
        Ok(c) => Ok(spec_bool_type(c == CmpResult::Equal || c == CmpResult::Greater)),
        Err(e) => Err(e),
    }
}

pub open spec fn spec_lte_op(a: Type, b: Type) -> Result<Type, ErrV> {
    match spec_cmp(a, b) {
        Ok(c) => Ok(spec_bool_type(c == CmpResult::Equal || c == CmpResult::Less)),
        Err(e) => Err(e),
    }
}

/// Conversion to a boolean, backing `if`/`while` conditions: integers and
/// floats are true when non-zero; the none value has no conversions.
pub open spec fn spec_bool_of(a: Type) -> Result<bool, ErrV> {
    match a {
        Type::Integer(x) => Ok(x.value != 0),
        Type::Float(x) => Ok(f64_truthy(x.bits)),
        Type::NoneType(_) => Err(spec_err(ErrorKind::Unimplemented, spec_unconvertible_msg(a))),
    }
}

impl Type {
    pub fn none() -> (r: Self)
        ensures
            r == Type::NoneType(NoneType {  }),
    {
        Type::NoneType(NoneType {  })
    }

    /// The printed form of this value.
    pub fn display_string(&self) -> (r: String)
        ensures
            r@ == spec_type_display(*self),
    {
        match self {
            Type::Integer(v) => i64_to_string(v.value),
            Type::Float(v) => float_to_decimal(v.bits),
            Type::NoneType(_) => "None".to_owned(),
        }
    }

    fn unimpl_err(&self, op: &str) -> (r: Error)
        ensures
            r@ == spec_err(ErrorKind::Unimplemented, spec_unimpl_msg(op@, *self)),
    {
        let msg = String::from_str("method '").concat(op).concat(
            "' is not implemented for ",
        ).concat(self.display_string().as_str());
        assert(msg@ =~= spec_unimpl_msg(op@, *self));
        Error::new(ErrorKind::Unimplemented, msg.as_str(), None)
    }

    fn type_err(&self) -> (r: Error)
        ensures
            r@ == spec_type_err(),
    {
        Error::new(ErrorKind::TypeError, "No valid type", None)
    }

    /// Comparison of two values of the same kind.
    pub fn cmp(&self, other: Type) -> (r: Result<CmpResult, Error>)
        ensures
            spec_ty_res_view(r) == spec_cmp(*self, other),
    {
        match (*self, other) {
            (Type::Integer(x), Type::Integer(y)) => Ok(
                if x.value < y.value {
                    CmpResult::Less
                } else if x.value > y.value {
                    CmpResult::Greater
                } else {
                    CmpResult::Equal
                },
            ),
            (Type::Float(x), Type::Float(y)) => {
                let a = x.bits;
                let b = y.bits;
                let a_nan = (a >> 52) & 0x7FF == 0x7FF && a & 0xF_FFFF_FFFF_FFFF != 0;
                let b_nan = (b >> 52) & 0x7FF == 0x7FF && b & 0xF_FFFF_FFFF_FFFF != 0;
                if a_nan || b_nan {
                    let msg = String::from_str("Invalid float comparison between ").concat(
                        float_to_decimal(a).as_str(),
                    ).concat(" and ").concat(float_to_decimal(b).as_str());
                    assert(msg@ =~= spec_float_cmp_msg(a, b));
                    Err(Error::new(ErrorKind::Undefined, msg.as_str(), None))
                } else {
                    let a_neg = a >> 63 == 1;
                    let b_neg = b >> 63 == 1;
                    let a_mag = a & 0x7FFF_FFFF_FFFF_FFFF;
                    let b_mag = b & 0x7FFF_FFFF_FFFF_FFFF;
                    if a_mag == 0 && b_mag == 0 {
                        Ok(CmpResult::Equal)
                    } else if a_neg != b_neg {
                        if a_neg {
                            Ok(CmpResult::Less)
                        } else {
                            Ok(CmpResult::Greater)
                        }
                    } else if a_mag == b_mag {
                        Ok(CmpResult::Equal)
                    } else if a_neg {
                        if a_mag > b_mag {
                            Ok(CmpResult::Less)
                        } else {
                            Ok(CmpResult::Greater)
                        }
                    } else {
                        if a_mag < b_mag {
                            Ok(CmpResult::Less)
                        } else {
                            Ok(CmpResult::Greater)
                        }
                    }
                }
            },
            (Type::NoneType(_), _) => Err(
                Error::new(ErrorKind::Unimplemented, "can't compare None", None),
            ),
            _ => Err(self.type_err()),
        }
    }

    pub fn add(&self, other: Type) -> (r: Result<Type, Error>)
        ensures
            spec_ty_res_view(r) == spec_add(*self, other),
    {
        match (*self, other) {
            (Type::Integer(x), Type::Integer(y)) => Ok(
                Type::Integer(Integer::new(x.value.wrapping_add(y.value))),
            ),
            (Type::Float(x), Type::Float(y)) => Ok(
                Type::Float(Float::new(float_add(x.bits, y.bits))),
            ),
            (Type::NoneType(_), _) => Err(self.unimpl_err("add")),
            _ => Err(self.type_err()),
        }
    }

    pub fn sub(&self, other: Type) -> (r: Result<Type, Error>)
        ensures
            spec_ty_res_view(r) == spec_sub(*self, other),
    {
        match (*self, other) {
            (Type::Integer(x), Type::Integer(y)) => Ok(
                Type::Integer(Integer::new(x.value.wrapping_sub(y.value))),
            ),
            (Type::Float(x), Type::Float(y)) => Ok(
                Type::Float(Float::new(float_sub(x.bits, y.bits))),
            ),
            (Type::NoneType(_), _) => Err(self.unimpl_err("sub")),
            _ => Err(self.type_err()),
        }
    }

    pub fn mul(&self, other: Type) -> (r: Result<Type, Error>)
        ensures
            spec_ty_res_view(r) == spec_mul(*self, other),
    {
        match (*self, other) {
            (Type::Integer(x), Type::Integer(y)) => Ok(
                Type::Integer(Integer::new(x.value.wrapping_mul(y.value))),
            ),
            (Type::Float(x), Type::Float(y)) => Ok(
                Type::Float(Float::new(float_mul(x.bits, y.bits))),
            ),
            (Type::NoneType(_), _) => Err(self.unimpl_err("mul")),
            _ => Err(self.type_err()),
        }
    }

    pub fn div(&self, other: Type) -> (r: Result<Type, Error>)
        ensures
            spec_ty_res_view(r) == spec_div(*self, other),
    {
        match (*self, other) {
            (Type::Integer(x), Type::Integer(y)) => {
                if y.value == 0 {
                    Err(Error::new(ErrorKind::ZeroDivision, "can't divide by 0", None))
                } else {
                    let q = match x.value.checked_div(y.value) {
                        Some(q) => q,
                        None => i64::MIN,
                    };
                    Ok(Type::Integer(Integer::new(q)))
                }
            },
            (Type::Float(x), Type::Float(y)) => {
                if y.bits & 0x7FFF_FFFF_FFFF_FFFF == 0 {
                    Err(Error::new(ErrorKind::ZeroDivision, "can't divide by 0", None))
                } else {
                    Ok(Type::Float(Float::new(float_div(x.bits, y.bits))))
                }
            },
            (Type::NoneType(_), _) => Err(self.unimpl_err("div")),
            _ => Err(self.type_err()),
        }
    }

    pub fn neg(&self) -> (r: Result<Type, Error>)
        ensures
            spec_ty_res_view(r) == spec_neg(*self),
    {
        match self {
            Type::Integer(x) => Ok(Type::Integer(Integer::new((0i64).wrapping_sub(x.value)))),
            Type::Float(x) => Ok(Type::Float(Float::new(x.bits ^ 0x8000_0000_0000_0000))),
            Type::NoneType(_) => Err(self.unimpl_err("neg")),
        }
    }

    pub fn not(&self) -> (r: Result<Type, Error>)
        ensures
            spec_ty_res_view(r) == spec_not(*self),
    {
        match self {
            Type::Integer(x) => Ok(Type::from_bool(x.value == 0)),
            _ => Err(self.unimpl_err("not")),
        }
    }

    pub fn and(&self, other: Type) -> (r: Result<Type, Error>)
        ensures
            spec_ty_res_view(r) == spec_and(*self, other),
    {
        match (*self, other) {
            (Type::Integer(x), Type::Integer(y)) => Ok(
                Type::from_bool(x.value != 0 && y.value != 0),
            ),
            (Type::Integer(_), _) => Err(self.type_err()),
            _ => Err(self.unimpl_err("and")),
        }
    }

    pub fn or(&self, other: Type) -> (r: Result<Type, Error>)
        ensures
            spec_ty_res_view(r) == spec_or(*self, other),
    {
        match (*self, other) {
            (Type::Integer(x), Type::Integer(y)) => Ok(
                Type::from_bool(x.value != 0 || y.value != 0),
            ),
            (Type::Integer(_), _) => Err(self.type_err()),
            _ => Err(self.unimpl_err("or")),
        }
    }

    pub fn eq(&self, other: Type) -> (r: Result<Type, Error>)
        ensures
            spec_ty_res_view(r) == spec_eq_op(*self, other),
    {
        match self.cmp(other) {
            Ok(c) => Ok(Type::from_bool(c == CmpResult::Equal)),
            Err(e) => Err(e),
        }
    }

    pub fn neq(&self, other: Type) -> (r: Result<Type, Error>)
        ensures
            spec_ty_res_view(r) == spec_neq_op(*self, other),
    {
        match self.cmp(other) {
            Ok(c) => Ok(Type::from_bool(c != CmpResult::Equal)),
            Err(e) => Err(e),
        }
    }

    pub fn gt(&self, other: Type) -> (r: Result<Type, Error>)
        ensures
            spec_ty_res_view(r) == spec_gt_op(*self, other),
    {
        match self.cmp(other) {
            Ok(c) => Ok(Type::from_bool(c == CmpResult::Greater)),
            Err(e) => Err(e),
        }
    }

    pub fn lt(&self, other: Type) -> (r: Result<Type, Error>)
        ensures
            spec_ty_res_view(r) == spec_lt_op(*self, other),
    {
        match self.cmp(other) {
            Ok(c) => Ok(Type::from_bool(c == CmpResult::Less)),
            Err(e) => Err(e),
        }
    }

    pub fn gte(&self, other: Type) -> (r: Result<Type, Error>)
        ensures
            spec_ty_res_view(r) == spec_gte_op(*self, other),
    {
        match self.cmp(other) {
            Ok(c) => Ok(Type::from_bool(c == CmpResult::Equal || c == CmpResult::Greater)),
            Err(e) => Err(e),
        }
    }

    pub fn lte(&self, other: Type) -> (r: Result<Type, Error>)
        ensures
            spec_ty_res_view(r) == spec_lte_op(*self, other),
    {
        match self.cmp(other) {
            Ok(c) => Ok(Type::from_bool(c == CmpResult::Equal || c == CmpResult::Less)),
            Err(e) => Err(e),
        }
    }

    /// Conversion to a boolean, used by `if` and `while` conditions.
    pub fn to_bool(&self) -> (r: Result<bool, Error>)
        ensures
            spec_ty_res_view(r) == spec_bool_of(*self),
    {
        match self {
            Type::Integer(x) => Ok(x.value != 0),
            Type::Float(x) => Ok(x.bits & 0x7FFF_FFFF_FFFF_FFFF != 0),
            Type::NoneType(_) => {
                let msg = String::from_str("can't convert ").concat(
                    self.display_string().as_str(),
                ).concat(" to int");
                assert(msg@ =~= spec_unconvertible_msg(*self));
                Err(Error::new(ErrorKind::Unimplemented, msg.as_str(), None))
            },
        }
    }

    /// A boolean as a value: integer 1 for true, 0 for false.
    pub fn from_bool(b: bool) -> (r: Self)
        ensures
            r == spec_bool_type(b),
    {
        if b {
            Type::Integer(Integer::new(1))
        } else {
            Type::Integer(Integer::new(0))
        }
    }
}

/// The division law: for any two integer values with a non-zero divisor
/// (and aside from the one overflowing dividend), division succeeds and
/// yields integer division truncated toward zero; for non-negative
/// operands that is plain quotient.
pub proof fn lemma_division_truncates(a: i64, b: i64)
    requires
        b != 0,
        !(a == i64::MIN && b == -1),
    ensures
        spec_div(Type::Integer(Integer { value: a }), Type::Integer(Integer { value: b }))
            == Ok::<Type, ErrV>(Type::Integer(Integer { value: spec_int_div(a, b) })),
        a >= 0 && b > 0 ==> spec_int_div(a, b) == a as int / b as int,
{
    if a >= 0 && b > 0 {
        assert(a as int / b as int <= a as int && a as int / b as int >= 0) by (nonlinear_arith)
            requires
                a >= 0,
                b > 0,
        ;
    }
}

/// The zero-divisor law: dividing any integer by the integer zero raises
/// the zero-division error before any division is attempted.
pub proof fn lemma_division_by_zero(a: i64)
    ensures
        spec_div(Type::Integer(Integer { value: a }), Type::Integer(Integer { value: 0 }))
            == Err::<Type, ErrV>(spec_err(ErrorKind::ZeroDivision, "can't divide by 0"@)),
{
}

} // verus!
