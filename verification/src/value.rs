//! Language values.
//!
//! A [`JsValue`] is one stack or register slot's content. Numbers are exact
//! integers within the safe range: the engine's fast path. Results that only
//! floating point could hold (non-integral quotients, values past the safe
//! range, NaN) are outside this core's number model and surface as range
//! errors instead of silently losing precision. Arbitrary-precision integers
//! and strings are exact at any size.

use vstd::prelude::*;
use crate::bigint::JsBigInt;
use crate::error::{ErrorKind, JsError, JsResult};
use crate::string::{decimal_units_signed, utf16_of, JsString};

verus! {

/// The largest integer the number model holds exactly.
pub open spec fn max_safe_integer() -> int {
    9007199254740991
}

/// A handle naming one heap object.
#[derive(Clone, Copy, Debug, PartialEq, Eq, Structural)]
pub struct JsObject {
    /// The object's index in the heap.
    pub handle: usize,
}

/// One language value.
#[derive(Debug)]
pub enum JsValue {
    /// The `undefined` value.
    Undefined,
    /// The `null` value.
    Null,
    /// A boolean.
    Boolean(bool),
    /// A number held as an exact integer within the safe range.
    Integer(i64),
    /// An arbitrary-precision integer.
    BigInt(JsBigInt),
    /// A string.
    String(JsString),
    /// A reference to a heap object.
    Object(JsObject),
}

/// The mathematical model of one language value.
pub ghost enum ValueModel {
    /// The `undefined` value.
    Undefined,
    /// The `null` value.
    Null,
    /// A boolean.
    Bool(bool),
    /// A number: an exact integer within the safe range.
    Int(int),
    /// An arbitrary-precision integer.
    Big(int),
    /// A string as its UTF-16 code units.
    Str(Seq<u16>),
    /// A heap object by its handle.
    Obj(int),
}

impl View for JsValue {
    type V = ValueModel;

    /// The value's mathematical model.
    open spec fn view(&self) -> ValueModel {
        match *self {
            JsValue::Undefined => ValueModel::Undefined,
            JsValue::Null => ValueModel::Null,
            JsValue::Boolean(b) => ValueModel::Bool(b),
            JsValue::Integer(n) => ValueModel::Int(n as int),
            JsValue::BigInt(ref b) => ValueModel::Big(b.value()),
            JsValue::String(ref s) => ValueModel::Str(s@),
            JsValue::Object(o) => ValueModel::Obj(o.handle as int),
        }
    }
}

impl JsValue {
    /// The representation invariant: numbers stay within the safe range and
    /// big integers are canonical.
    pub open spec fn valid(&self) -> bool {
        match *self {
            JsValue::Integer(n) => -max_safe_integer() <= n <= max_safe_integer(),
            JsValue::BigInt(ref b) => b.wf(),
            _ => true,
        }
    }

    /// The `undefined` value.
    pub fn undefined() -> (r: JsValue)
        ensures
            r@ == ValueModel::Undefined,
            r.valid(),
    {
        JsValue::Undefined
    }

    /// The language type name of this value, as `typeof` reports it for
    /// non-callable values.
    pub fn type_of(&self) -> (r: &'static str)
        ensures
            r@ == type_name_model(self@),
            r@ == match self@ {
                ValueModel::Undefined => "undefined"@,
                ValueModel::Null => "object"@,
                ValueModel::Bool(_) => "boolean"@,
                ValueModel::Int(_) => "number"@,
                ValueModel::Big(_) => "bigint"@,
                ValueModel::Str(_) => "string"@,
                ValueModel::Obj(_) => "object"@,
            },
    {
        match *self {
            JsValue::Undefined => "undefined",
            JsValue::Null => "object",
            JsValue::Boolean(_) => "boolean",
            JsValue::Integer(_) => "number",
            JsValue::BigInt(_) => "bigint",
            JsValue::String(_) => "string",
            JsValue::Object(_) => "object",
        }
    }
}

impl Clone for JsValue {
    /// The clone has the same model and stays valid.
    fn clone(&self) -> (res: Self)
        ensures
            res@ == self@,
            res.valid() == self.valid(),
    {
        match *self {
            JsValue::Undefined => JsValue::Undefined,
            JsValue::Null => JsValue::Null,
            JsValue::Boolean(b) => JsValue::Boolean(b),
            JsValue::Integer(n) => JsValue::Integer(n),
            JsValue::BigInt(ref b) => JsValue::BigInt(b.clone()),
            JsValue::String(ref s) => JsValue::String(s.clone()),
            JsValue::Object(o) => JsValue::Object(o),
        }
    }
}

/// The language type name of a value model, as `typeof` spells it for
/// non-callable values.
pub open spec fn type_name_model(m: ValueModel) -> Seq<char> {
    match m {
        ValueModel::Undefined => "undefined"@,
        ValueModel::Null => "object"@,
        ValueModel::Bool(_) => "boolean"@,
        ValueModel::Int(_) => "number"@,
        ValueModel::Big(_) => "bigint"@,
        ValueModel::Str(_) => "string"@,
        ValueModel::Obj(_) => "object"@,
    }
}

/// Strict (`===`) equality of two value models: same language type, same
/// content; objects compare by identity.
pub open spec fn strict_eq_model(a: ValueModel, b: ValueModel) -> bool {
    match (a, b) {
        (ValueModel::Undefined, ValueModel::Undefined) => true,
        (ValueModel::Null, ValueModel::Null) => true,
        (ValueModel::Bool(x), ValueModel::Bool(y)) => x == y,
        (ValueModel::Int(x), ValueModel::Int(y)) => x == y,
        (ValueModel::Big(x), ValueModel::Big(y)) => x == y,
        (ValueModel::Str(x), ValueModel::Str(y)) => x == y,
        (ValueModel::Obj(x), ValueModel::Obj(y)) => x == y,
        _ => false,
    }
}

/// The number a value coerces to without running user code, when that
/// number is an exact integer: numbers themselves, booleans and `null`.
pub open spec fn as_number_model(a: ValueModel) -> Option<int> {
    match a {
        ValueModel::Int(n) => Some(n),
        ValueModel::Bool(b) => Some(
            if b {
                1int
            } else {
                0int
            },
        ),
        ValueModel::Null => Some(0int),
        _ => None,
    }
}

/// Loose (`==`) equality of two value models, on the pairs this core
/// decides without coercion that runs user code or leaves the number model:
/// same-type pairs, `undefined`/`null` against anything, and numeric and
/// boolean pairs compared mathematically. Strings against numbers and
/// objects against primitives are outside the model.
pub open spec fn loose_eq_model(a: ValueModel, b: ValueModel) -> Option<bool> {
    match (a, b) {
        (ValueModel::Undefined, ValueModel::Undefined)
        | (ValueModel::Undefined, ValueModel::Null)
        | (ValueModel::Null, ValueModel::Undefined)
        | (ValueModel::Null, ValueModel::Null) => Some(true),
        (ValueModel::Undefined, _)
        | (ValueModel::Null, _)
        | (_, ValueModel::Undefined)
        | (_, ValueModel::Null) => Some(false),
        (ValueModel::Bool(x), ValueModel::Bool(y)) => Some(x == y),
        (ValueModel::Bool(x), ValueModel::Int(y)) | (ValueModel::Int(y), ValueModel::Bool(x))
            => Some(if x { 1int } else { 0int } == y),
        (ValueModel::Bool(x), ValueModel::Big(y)) | (ValueModel::Big(y), ValueModel::Bool(x))
            => Some(if x { 1int } else { 0int } == y),
        (ValueModel::Int(x), ValueModel::Int(y)) => Some(x == y),
        (ValueModel::Int(x), ValueModel::Big(y)) | (ValueModel::Big(x), ValueModel::Int(y))
            => Some(x == y),
        (ValueModel::Big(x), ValueModel::Big(y)) => Some(x == y),
        (ValueModel::Str(x), ValueModel::Str(y)) => Some(x == y),
        (ValueModel::Obj(x), ValueModel::Obj(y)) => Some(x == y),
        _ => None,
    }
}

impl JsValue {
    /// Strict (`===`) equality.
    pub fn strict_equals(&self, other: &JsValue) -> (r: bool)
        requires
            self.valid(),
            other.valid(),
        ensures
            r == strict_eq_model(self@, other@),
    {
        match (self, other) {
            (JsValue::Undefined, JsValue::Undefined) => true,
            (JsValue::Null, JsValue::Null) => true,
            (JsValue::Boolean(x), JsValue::Boolean(y)) => x == y,
            (JsValue::Integer(x), JsValue::Integer(y)) => x == y,
            (JsValue::BigInt(x), JsValue::BigInt(y)) => JsBigInt::equal(x, y),
            (JsValue::String(x), JsValue::String(y)) => x.content_eq(y),
            (JsValue::Object(x), JsValue::Object(y)) => x.handle == y.handle,
            _ => false,
        }
    }

    /// Loose (`==`) equality.
    ///
    /// Fails with a type error on pairs whose comparison would need
    /// coercion that runs user code or leaves the number model: strings
    /// against numbers, and objects against primitives.
    pub fn equals(&self, other: &JsValue) -> (r: JsResult<bool>)
        requires
            self.valid(),
            other.valid(),
        ensures
            match r {
                Ok(b) => loose_eq_model(self@, other@) == Some(b),
                Err(e) => loose_eq_model(self@, other@) is None && e.kind_spec()
                    == ErrorKind::Type,
            },
    {
        match (self, other) {
            (JsValue::Undefined, JsValue::Undefined)
            | (JsValue::Undefined, JsValue::Null)
            | (JsValue::Null, JsValue::Undefined)
            | (JsValue::Null, JsValue::Null) => Ok(true),
            (JsValue::Undefined, _)
            | (JsValue::Null, _)
            | (_, JsValue::Undefined)
            | (_, JsValue::Null) => Ok(false),
            (JsValue::Boolean(x), JsValue::Boolean(y)) => Ok(x == y),
            (JsValue::Boolean(x), JsValue::Integer(y))
            | (JsValue::Integer(y), JsValue::Boolean(x)) => {
                let xv: i64 = if *x {
                    1
                } else {
                    0
                };
                Ok(xv == *y)
            }
            (JsValue::Boolean(x), JsValue::BigInt(y))
            | (JsValue::BigInt(y), JsValue::Boolean(x)) => {
                let xb = JsBigInt::from_i64(
                    if *x {
                        1
                    } else {
                        0
                    },
                );
                Ok(JsBigInt::equal(&xb, y))
            }
            (JsValue::Integer(x), JsValue::Integer(y)) => Ok(x == y),
            (JsValue::Integer(x), JsValue::BigInt(y))
            | (JsValue::BigInt(y), JsValue::Integer(x)) => {
                let xb = JsBigInt::from_i64(*x);
                Ok(JsBigInt::equal(&xb, y))
            }
            (JsValue::BigInt(x), JsValue::BigInt(y)) => Ok(JsBigInt::equal(x, y)),
            (JsValue::String(x), JsValue::String(y)) => Ok(x.content_eq(y)),
            (JsValue::Object(x), JsValue::Object(y)) => Ok(x.handle == y.handle),
            _ => Err(
                JsError::type_error(
                    "loose equality between these types needs coercion outside this core",
                ),
            ),
        }
    }
}


/// A numeric value: an exact number or an arbitrary-precision integer.
#[derive(Debug)]
pub enum Numeric {
    /// An exact number within the safe range.
    Number(i64),
    /// An arbitrary-precision integer.
    BigInt(JsBigInt),
}

impl View for Numeric {
    type V = ValueModel;

    /// The numeric value's model.
    open spec fn view(&self) -> ValueModel {
        match *self {
            Numeric::Number(n) => ValueModel::Int(n as int),
            Numeric::BigInt(ref b) => ValueModel::Big(b.value()),
        }
    }
}

/// The numeric a value coerces to, where the coercion neither runs user
/// code nor leaves the number model: numbers and big integers themselves,
/// booleans and `null`. `undefined` and non-numeric strings would coerce to
/// NaN, which the model does not hold; objects would run user code.
pub open spec fn to_numeric_model(a: ValueModel) -> Result<ValueModel, ErrorKind> {
    match a {
        ValueModel::Int(n) => Ok(ValueModel::Int(n)),
        ValueModel::Big(n) => Ok(ValueModel::Big(n)),
        ValueModel::Bool(b) => Ok(
            ValueModel::Int(
                if b {
                    1int
                } else {
                    0int
                },
            ),
        ),
        ValueModel::Null => Ok(ValueModel::Int(0)),
        ValueModel::Undefined => Err(ErrorKind::Range),
        ValueModel::Str(_) => Err(ErrorKind::Range),
        ValueModel::Obj(_) => Err(ErrorKind::Type),
    }
}

impl JsValue {
    /// Coerces this value to a numeric value.
    pub fn to_numeric(&self) -> (r: JsResult<Numeric>)
        requires
            self.valid(),
        ensures
            match r {
                Ok(n) => to_numeric_model(self@) == Ok::<ValueModel, ErrorKind>(n@) && match n {
                    Numeric::Number(v) => -max_safe_integer() <= v <= max_safe_integer(),
                    Numeric::BigInt(ref b) => b.wf(),
                },
                Err(e) => to_numeric_model(self@) == Err::<ValueModel, ErrorKind>(e.kind_spec()),
            },
    {
        match *self {
            JsValue::Integer(n) => Ok(Numeric::Number(n)),
            JsValue::BigInt(ref b) => Ok(Numeric::BigInt(b.clone())),
            JsValue::Boolean(b) => Ok(
                Numeric::Number(
                    if b {
                        1
                    } else {
                        0
                    },
                ),
            ),
            JsValue::Null => Ok(Numeric::Number(0)),
            JsValue::Undefined => Err(
                JsError::range_error("undefined coerces to NaN, which this core's numbers do not hold"),
            ),
            JsValue::String(_) => Err(
                JsError::range_error("string-to-number coercion is outside this core's numbers"),
            ),
            JsValue::Object(_) => Err(
                JsError::type_error("object-to-number coercion runs user code outside this core"),
            ),
        }
    }
}

/// The display units of a value, where no user code runs: primitives other
/// than big integers.
pub open spec fn display_model(a: ValueModel) -> Option<Seq<u16>> {
    match a {
        ValueModel::Undefined => Some(utf16_of("undefined"@)),
        ValueModel::Null => Some(utf16_of("null"@)),
        ValueModel::Bool(b) => Some(
            if b {
                utf16_of("true"@)
            } else {
                utf16_of("false"@)
            },
        ),
        ValueModel::Int(n) => Some(decimal_units_signed(n)),
        ValueModel::Str(s) => Some(s),
        _ => None,
    }
}

impl JsValue {
    /// The value's display string, for values whose conversion runs no
    /// user code.
    pub fn to_display(&self) -> (r: Option<JsString>)
        requires
            self.valid(),
        ensures
            match r {
                Some(s) => display_model(self@) == Some(s@),
                None => display_model(self@) is None,
            },
    {
        match *self {
            JsValue::Undefined => Some(JsString::from_str("undefined")),
            JsValue::Null => Some(JsString::from_str("null")),
            JsValue::Boolean(b) => Some(
                if b {
                    JsString::from_str("true")
                } else {
                    JsString::from_str("false")
                },
            ),
            JsValue::Integer(n) => {
                let units = crate::string::decimal_of_i64(n);
                let mut v: Vec<u16> = units;
                Some(JsString::from_units(v.as_slice()))
            }
            JsValue::String(ref s) => Some(s.clone()),
            _ => None,
        }
    }
}

/// The absolute value.
pub open spec fn abs_int(n: int) -> int {
    if n < 0 {
        -n
    } else {
        n
    }
}

/// The result of `+` on two value models: string concatenation when either
/// side is a string, exact integer addition on numerics, exact
/// arbitrary-precision addition on two big integers.
pub open spec fn add_model(a: ValueModel, b: ValueModel) -> Result<ValueModel, ErrorKind> {
    if a is Str || b is Str {
        match (display_model(a), display_model(b)) {
            (Some(x), Some(y)) => Ok(ValueModel::Str(x + y)),
            _ => Err(ErrorKind::Type),
        }
    } else {
        match (as_number_model(a), as_number_model(b)) {
            (Some(x), Some(y)) => if abs_int(x + y) <= max_safe_integer() {
                Ok(ValueModel::Int(x + y))
            } else {
                Err(ErrorKind::Range)
            },
            _ => match (a, b) {
                (ValueModel::Big(x), ValueModel::Big(y)) => Ok(ValueModel::Big(x + y)),
                _ => Err(ErrorKind::Type),
            },
        }
    }
}

/// The exact number two operands of an arithmetic operator coerce to, when
/// both stay in the number model.
fn pair_numbers(a: &JsValue, b: &JsValue) -> (r: Option<(i64, i64)>)
    requires
        a.valid(),
        b.valid(),
    ensures
        match r {
            Some(p) => as_number_model(a@) == Some(p.0 as int) && as_number_model(b@) == Some(
                p.1 as int,
            ) && -max_safe_integer() <= p.0 <= max_safe_integer() && -max_safe_integer() <= p.1
                <= max_safe_integer(),
            None => as_number_model(a@) is None || as_number_model(b@) is None,
        },
{
    let x: i64 = match *a {
        JsValue::Integer(n) => n,
        JsValue::Boolean(v) => if v {
            1
        } else {
            0
        },
        JsValue::Null => 0,
        _ => {
            return None;
        }
    };
    let y: i64 = match *b {
        JsValue::Integer(n) => n,
        JsValue::Boolean(v) => if v {
            1
        } else {
            0
        },
        JsValue::Null => 0,
        _ => {
            return None;
        }
    };
    Some((x, y))
}

impl JsValue {
    /// Binary `+`.
    pub fn add(&self, other: &JsValue) -> (r: JsResult<JsValue>)
        requires
            self.valid(),
            other.valid(),
        ensures
            match r {
                Ok(v) => add_model(self@, other@) == Ok::<ValueModel, ErrorKind>(v@) && v.valid(),
                Err(e) => add_model(self@, other@) == Err::<ValueModel, ErrorKind>(e.kind_spec()),
            },
    {
        let self_is_str = matches!(*self, JsValue::String(_));
        let other_is_str = matches!(*other, JsValue::String(_));
        if self_is_str || other_is_str {
            let xs = self.to_display();
            let ys = other.to_display();
            match (xs, ys) {
                (Some(x), Some(y)) => {
                    let joined = JsString::concat(x.as_str(), y.as_str());
                    Ok(JsValue::String(joined))
                }
                _ => Err(
                    JsError::type_error(
                        "string concatenation with this operand needs coercion outside this core",
                    ),
                ),
            }
        } else {
            match pair_numbers(self, other) {
                Some((x, y)) => {
                    let sum = x + y;
                    if -9007199254740991 <= sum && sum <= 9007199254740991 {
                        Ok(JsValue::Integer(sum))
                    } else {
                        Err(JsError::range_error("number addition left the safe integer range"))
                    }
                }
                None => match (self, other) {
                    (JsValue::BigInt(x), JsValue::BigInt(y)) => Ok(
                        JsValue::BigInt(JsBigInt::add(x, y)),
                    ),
                    _ => Err(
                        JsError::type_error(
                            "addition between these types needs coercion outside this core",
                        ),
                    ),
                },
            }
        }
    }
}


/// The result of `-` on two value models.
pub open spec fn sub_model(a: ValueModel, b: ValueModel) -> Result<ValueModel, ErrorKind> {
    match (as_number_model(a), as_number_model(b)) {
        (Some(x), Some(y)) => if abs_int(x - y) <= max_safe_integer() {
            Ok(ValueModel::Int(x - y))
        } else {
            Err(ErrorKind::Range)
        },
        _ => match (a, b) {
            (ValueModel::Big(x), ValueModel::Big(y)) => Ok(ValueModel::Big(x - y)),
            _ => Err(ErrorKind::Type),
        },
    }
}

/// The result of `*` on two value models.
pub open spec fn mul_model(a: ValueModel, b: ValueModel) -> Result<ValueModel, ErrorKind> {
    match (as_number_model(a), as_number_model(b)) {
        (Some(x), Some(y)) => if abs_int(x * y) <= max_safe_integer() {
            Ok(ValueModel::Int(x * y))
        } else {
            Err(ErrorKind::Range)
        },
        _ => Err(ErrorKind::Type),
    }
}

/// The result of `/` on two value models: the exact quotient where it is an
/// integer in range, a range error elsewhere (a fraction, an infinity or
/// NaN would leave the number model).
pub open spec fn div_model(a: ValueModel, b: ValueModel) -> Result<ValueModel, ErrorKind> {
    match (as_number_model(a), as_number_model(b)) {
        (Some(x), Some(y)) => if y != 0 && abs_int(x) % abs_int(y) == 0 {
            Ok(
                ValueModel::Int(
                    if (x < 0) == (y < 0) {
                        abs_int(x) / abs_int(y)
                    } else {
                        -(abs_int(x) / abs_int(y))
                    },
                ),
            )
        } else {
            Err(ErrorKind::Range)
        },
        _ => Err(ErrorKind::Type),
    }
}

/// The result of `%` on two value models: the remainder with the sign of
/// the dividend, as the language defines it on integers.
pub open spec fn rem_model(a: ValueModel, b: ValueModel) -> Result<ValueModel, ErrorKind> {
    match (as_number_model(a), as_number_model(b)) {
        (Some(x), Some(y)) => if y != 0 {
            Ok(
                ValueModel::Int(
                    if x < 0 {
                        -(abs_int(x) % abs_int(y))
                    } else {
                        abs_int(x) % abs_int(y)
                    },
                ),
            )
        } else {
            Err(ErrorKind::Range)
        },
        _ => Err(ErrorKind::Type),
    }
}

/// The result of `**` on two value models.
pub open spec fn pow_model(a: ValueModel, b: ValueModel) -> Result<ValueModel, ErrorKind> {
    match (as_number_model(a), as_number_model(b)) {
        (Some(x), Some(e)) => if e < 0 {
            Err(ErrorKind::Range)
        } else if abs_int(vstd::arithmetic::power::pow(x, e as nat)) <= max_safe_integer() {
            Ok(ValueModel::Int(vstd::arithmetic::power::pow(x, e as nat)))
        } else {
            Err(ErrorKind::Range)
        },
        _ => Err(ErrorKind::Type),
    }
}

/// The magnitude of a power is the power of the magnitude.
proof fn lemma_abs_pow(b: int, e: nat)
    ensures
        abs_int(vstd::arithmetic::power::pow(b, e)) == vstd::arithmetic::power::pow(
            abs_int(b),
            e,
        ),
    decreases e,
{
    if e == 0 {
        vstd::arithmetic::power::lemma_pow0(b);
        vstd::arithmetic::power::lemma_pow0(abs_int(b));
    } else {
        lemma_abs_pow(b, (e - 1) as nat);
        let p = vstd::arithmetic::power::pow(b, (e - 1) as nat);
        vstd::arithmetic::power::lemma_pow1(b);
        vstd::arithmetic::power::lemma_pow_adds(b, 1, (e - 1) as nat);
        assert(vstd::arithmetic::power::pow(b, e) == b * p);
        vstd::arithmetic::power::lemma_pow1(abs_int(b));
        vstd::arithmetic::power::lemma_pow_adds(abs_int(b), 1, (e - 1) as nat);
        assert(vstd::arithmetic::power::pow(abs_int(b), e) == abs_int(b) * abs_int(p));
        assert(abs_int(b * p) == abs_int(b) * abs_int(p)) by (nonlinear_arith);
    }
}

/// Powers of a base of magnitude at least one do not shrink as the
/// exponent grows.
proof fn lemma_abs_pow_grows(b: int, e1: nat, e2: nat)
    requires
        abs_int(b) >= 1,
        e1 <= e2,
    ensures
        abs_int(vstd::arithmetic::power::pow(b, e1)) <= abs_int(
            vstd::arithmetic::power::pow(b, e2),
        ),
{
    lemma_abs_pow(b, e1);
    lemma_abs_pow(b, e2);
    vstd::arithmetic::power::lemma_pow_increases(abs_int(b) as nat, e1, e2);
}

/// Powers of negative one alternate between one and negative one.
proof fn lemma_pow_neg_one(e: nat)
    ensures
        vstd::arithmetic::power::pow(-1, e) == if e % 2 == 0 {
            1int
        } else {
            -1int
        },
    decreases e,
{
    if e == 0 {
        vstd::arithmetic::power::lemma_pow0(-1);
    } else {
        lemma_pow_neg_one((e - 1) as nat);
        vstd::arithmetic::power::lemma_pow1(-1);
        vstd::arithmetic::power::lemma_pow_adds(-1, 1, (e - 1) as nat);
    }
}

/// The exact integer power of a number, when it stays in the safe range.
fn pow_numbers(x: i64, e: i64) -> (r: JsResult<i64>)
    requires
        -max_safe_integer() <= x <= max_safe_integer(),
        0 <= e <= max_safe_integer(),
    ensures
        match r {
            Ok(v) => v == vstd::arithmetic::power::pow(x as int, e as nat) && abs_int(v as int)
                <= max_safe_integer(),
            Err(err) => abs_int(vstd::arithmetic::power::pow(x as int, e as nat))
                > max_safe_integer() && err.kind_spec() == ErrorKind::Range,
        },
{
    if x == 0 {
        if e == 0 {
            proof {
                vstd::arithmetic::power::lemma_pow0(0);
            }
            return Ok(1);
        }
        proof {
            vstd::arithmetic::power::lemma0_pow(e as nat);
        }
        return Ok(0);
    }
    if x == 1 {
        proof {
            vstd::arithmetic::power::lemma1_pow(e as nat);
        }
        return Ok(1);
    }
    if x == -1 {
        proof {
            lemma_pow_neg_one(e as nat);
        }
        if e % 2 == 0 {
            return Ok(1);
        } else {
            return Ok(-1);
        }
    }
    let mut acc: i64 = 1;
    let mut i: i64 = 0;
    proof {
        vstd::arithmetic::power::lemma_pow0(x as int);
    }
    while i < e
        invariant
            0 <= i <= e,
            -max_safe_integer() <= x <= max_safe_integer(),
            abs_int(x as int) >= 2,
            acc == vstd::arithmetic::power::pow(x as int, i as nat),
            abs_int(acc as int) <= max_safe_integer(),
        decreases e - i,
    {
        proof {
            assert((acc as int) * (x as int) <= 9007199254740991int * 9007199254740991int && (
            acc as int) * (x as int) >= -(9007199254740991int * 9007199254740991int))
                by (nonlinear_arith)
                requires
                    -9007199254740991 <= acc as int <= 9007199254740991,
                    -9007199254740991 <= x as int <= 9007199254740991,
            ;
        }
        let wide: i128 = (acc as i128) * (x as i128);
        proof {
            vstd::arithmetic::power::lemma_pow1(x as int);
            vstd::arithmetic::power::lemma_pow_adds(x as int, i as nat, 1);
            assert(wide == vstd::arithmetic::power::pow(x as int, (i + 1) as nat));
        }
        if wide < -9007199254740991 || wide > 9007199254740991 {
            proof {
                lemma_abs_pow_grows(x as int, (i + 1) as nat, e as nat);
            }
            return Err(JsError::range_error("number exponentiation left the safe integer range"));
        }
        acc = wide as i64;
        i = i + 1;
    }
    Ok(acc)
}

impl JsValue {
    /// Binary `-`.
    pub fn sub(&self, other: &JsValue) -> (r: JsResult<JsValue>)
        requires
            self.valid(),
            other.valid(),
        ensures
            match r {
                Ok(v) => sub_model(self@, other@) == Ok::<ValueModel, ErrorKind>(v@) && v.valid(),
                Err(e) => sub_model(self@, other@) == Err::<ValueModel, ErrorKind>(e.kind_spec()),
            },
    {
        match pair_numbers(self, other) {
            Some((x, y)) => {
                let diff = x - y;
                if -9007199254740991 <= diff && diff <= 9007199254740991 {
                    Ok(JsValue::Integer(diff))
                } else {
                    Err(JsError::range_error("number subtraction left the safe integer range"))
                }
            }
            None => match (self, other) {
                (JsValue::BigInt(x), JsValue::BigInt(y)) => {
                    let neg = JsBigInt::sub(x, y);
                    Ok(JsValue::BigInt(neg))
                }
                _ => Err(
                    JsError::type_error(
                        "subtraction between these types needs coercion outside this core",
                    ),
                ),
            },
        }
    }

    /// Binary `*`.
    pub fn mul(&self, other: &JsValue) -> (r: JsResult<JsValue>)
        requires
            self.valid(),
            other.valid(),
        ensures
            match r {
                Ok(v) => mul_model(self@, other@) == Ok::<ValueModel, ErrorKind>(v@) && v.valid(),
                Err(e) => mul_model(self@, other@) == Err::<ValueModel, ErrorKind>(e.kind_spec()),
            },
    {
        match pair_numbers(self, other) {
            Some((x, y)) => {
                proof {
                    assert((x as int) * (y as int) <= 9007199254740991int * 9007199254740991int
                        && (x as int) * (y as int) >= -(9007199254740991int
                        * 9007199254740991int)) by (nonlinear_arith)
                        requires
                            -9007199254740991 <= x as int <= 9007199254740991,
                            -9007199254740991 <= y as int <= 9007199254740991,
                    ;
                }
                let wide: i128 = (x as i128) * (y as i128);
                if -9007199254740991 <= wide && wide <= 9007199254740991 {
                    Ok(JsValue::Integer(wide as i64))
                } else {
                    Err(JsError::range_error("number multiplication left the safe integer range"))
                }
            }
            None => Err(
                JsError::type_error(
                    "multiplication between these types needs coercion outside this core",
                ),
            ),
        }
    }

    /// Binary `/`.
    pub fn div(&self, other: &JsValue) -> (r: JsResult<JsValue>)
        requires
            self.valid(),
            other.valid(),
        ensures
            match r {
                Ok(v) => div_model(self@, other@) == Ok::<ValueModel, ErrorKind>(v@) && v.valid(),
                Err(e) => div_model(self@, other@) == Err::<ValueModel, ErrorKind>(e.kind_spec()),
            },
    {
        match pair_numbers(self, other) {
            Some((x, y)) => {
                if y == 0 {
                    return Err(
                        JsError::range_error("division by zero leaves this core's number model"),
                    );
                }
                let ax: u64 = if x >= 0 {
                    x as u64
                } else {
                    (-x) as u64
                };
                let ay: u64 = if y >= 0 {
                    y as u64
                } else {
                    (-y) as u64
                };
                if ax % ay != 0 {
                    return Err(
                        JsError::range_error(
                            "a non-integral quotient leaves this core's number model",
                        ),
                    );
                }
                let q = ax / ay;
                proof {
                    assert(ay >= 1);
                    vstd::arithmetic::div_mod::lemma_div_is_ordered_by_denominator(
                        ax as int,
                        1,
                        ay as int,
                    );
                    vstd::arithmetic::div_mod::lemma_div_basics(ax as int);
                }
                if (x < 0) == (y < 0) {
                    Ok(JsValue::Integer(q as i64))
                } else {
                    Ok(JsValue::Integer(-(q as i64)))
                }
            }
            None => Err(
                JsError::type_error(
                    "division between these types needs coercion outside this core",
                ),
            ),
        }
    }

    /// Binary `%`.
    pub fn rem(&self, other: &JsValue) -> (r: JsResult<JsValue>)
        requires
            self.valid(),
            other.valid(),
        ensures
            match r {
                Ok(v) => rem_model(self@, other@) == Ok::<ValueModel, ErrorKind>(v@) && v.valid(),
                Err(e) => rem_model(self@, other@) == Err::<ValueModel, ErrorKind>(e.kind_spec()),
            },
    {
        match pair_numbers(self, other) {
            Some((x, y)) => {
                if y == 0 {
                    return Err(
                        JsError::range_error("a zero modulus leaves this core's number model"),
                    );
                }
                let ax: u64 = if x >= 0 {
                    x as u64
                } else {
                    (-x) as u64
                };
                let ay: u64 = if y >= 0 {
                    y as u64
                } else {
                    (-y) as u64
                };
                let m = ax % ay;
                proof {
                    assert(m < ay);
                }
                if x < 0 {
                    Ok(JsValue::Integer(-(m as i64)))
                } else {
                    Ok(JsValue::Integer(m as i64))
                }
            }
            None => Err(
                JsError::type_error(
                    "remainder between these types needs coercion outside this core",
                ),
            ),
        }
    }

    /// Binary `**`.
    pub fn pow(&self, other: &JsValue) -> (r: JsResult<JsValue>)
        requires
            self.valid(),
            other.valid(),
        ensures
            match r {
                Ok(v) => pow_model(self@, other@) == Ok::<ValueModel, ErrorKind>(v@) && v.valid(),
                Err(e) => pow_model(self@, other@) == Err::<ValueModel, ErrorKind>(e.kind_spec()),
            },
    {
        match pair_numbers(self, other) {
            Some((x, e)) => {
                if e < 0 {
                    return Err(
                        JsError::range_error(
                            "a negative exponent's fractional result leaves this core's numbers",
                        ),
                    );
                }
                match pow_numbers(x, e) {
                    Ok(v) => Ok(JsValue::Integer(v)),
                    Err(err) => Err(err),
                }
            }
            None => Err(
                JsError::type_error(
                    "exponentiation between these types needs coercion outside this core",
                ),
            ),
        }
    }
}


/// The low 32 bits of an integer, as the language's `ToUint32`.
pub open spec fn to_uint32_model(n: int) -> u32 {
    (n % 4294967296) as u32
}

/// The signed value of 32 bits, as the language's `ToInt32` reads them.
pub open spec fn i32_val(u: u32) -> int {
    if u < 0x80000000 {
        u as int
    } else {
        u - 0x100000000
    }
}

/// A negative integer's remainder by a positive modulus, from its
/// magnitude's remainder.
proof fn lemma_neg_mod(n: int, d: int, m: int)
    requires
        n < 0,
        d > 0,
        m == (-n) % d,
    ensures
        n % d == if m == 0 {
            0int
        } else {
            d - m
        },
{
    let q = (-n) / d;
    vstd::arithmetic::div_mod::lemma_fundamental_div_mod(-n, d);
    if m == 0 {
        assert(n == (-q) * d + 0) by (nonlinear_arith)
            requires -n == q * d + m, m == 0,
        ;
        vstd::arithmetic::div_mod::lemma_fundamental_div_mod_converse(n, d, -q, 0);
    } else {
        assert(n == (-q - 1) * d + (d - m)) by (nonlinear_arith)
            requires -n == q * d + m,
        ;
        vstd::arithmetic::div_mod::lemma_fundamental_div_mod_converse(n, d, -q - 1, d - m);
    }
}

/// The low 32 bits of a number.
fn to_uint32(n: i64) -> (r: u32)
    requires
        -max_safe_integer() <= n <= max_safe_integer(),
    ensures
        r == to_uint32_model(n as int),
{
    if n >= 0 {
        ((n as u64) % 4294967296) as u32
    } else {
        let m = ((-n) as u64) % 4294967296;
        proof {
            lemma_neg_mod(n as int, 4294967296, m as int);
        }
        if m == 0 {
            0
        } else {
            (4294967296 - m) as u32
        }
    }
}

/// The signed value of 32 bits.
fn from_i32_bits(u: u32) -> (r: i64)
    ensures
        r == i32_val(u),
        -max_safe_integer() <= r <= max_safe_integer(),
{
    if u < 0x80000000 {
        u as i64
    } else {
        (u as i64) - 0x100000000
    }
}

/// The result of a bitwise operator on two value models: both operands
/// coerce to 32-bit integers; big-integer bitwise work is outside this
/// core.
pub open spec fn bitwise_model(a: ValueModel, b: ValueModel, bits: u32) -> Result<
    ValueModel,
    ErrorKind,
> {
    match (as_number_model(a), as_number_model(b)) {
        (Some(_), Some(_)) => Ok(ValueModel::Int(i32_val(bits))),
        _ => Err(ErrorKind::Type),
    }
}

impl JsValue {
    /// Binary `&`.
    pub fn bitand(&self, other: &JsValue) -> (r: JsResult<JsValue>)
        requires
            self.valid(),
            other.valid(),
        ensures
            match (r, as_number_model(self@), as_number_model(other@)) {
                (Ok(v), Some(x), Some(y)) => v@ == ValueModel::Int(
                    i32_val(to_uint32_model(x) & to_uint32_model(y)),
                ) && v.valid(),
                (Err(e), _, _) => (as_number_model(self@) is None || as_number_model(other@)
                    is None) && e.kind_spec() == ErrorKind::Type,
                _ => false,
            },
    {
        match pair_numbers(self, other) {
            Some((x, y)) => {
                let ux = to_uint32(x);
                let uy = to_uint32(y);
                Ok(JsValue::Integer(from_i32_bits(ux & uy)))
            }
            None => Err(
                JsError::type_error(
                    "bitwise work between these types needs coercion outside this core",
                ),
            ),
        }
    }

    /// Binary `|`.
    pub fn bitor(&self, other: &JsValue) -> (r: JsResult<JsValue>)
        requires
            self.valid(),
            other.valid(),
        ensures
            match (r, as_number_model(self@), as_number_model(other@)) {
                (Ok(v), Some(x), Some(y)) => v@ == ValueModel::Int(
                    i32_val(to_uint32_model(x) | to_uint32_model(y)),
                ) && v.valid(),
                (Err(e), _, _) => (as_number_model(self@) is None || as_number_model(other@)
                    is None) && e.kind_spec() == ErrorKind::Type,
                _ => false,
            },
    {
        match pair_numbers(self, other) {
            Some((x, y)) => {
                let ux = to_uint32(x);
                let uy = to_uint32(y);
                Ok(JsValue::Integer(from_i32_bits(ux | uy)))
            }
            None => Err(
                JsError::type_error(
                    "bitwise work between these types needs coercion outside this core",
                ),
            ),
        }
    }

    /// Binary `^`.
    pub fn bitxor(&self, other: &JsValue) -> (r: JsResult<JsValue>)
        requires
            self.valid(),
            other.valid(),
        ensures
            match (r, as_number_model(self@), as_number_model(other@)) {
                (Ok(v), Some(x), Some(y)) => v@ == ValueModel::Int(
                    i32_val(to_uint32_model(x) ^ to_uint32_model(y)),
                ) && v.valid(),
                (Err(e), _, _) => (as_number_model(self@) is None || as_number_model(other@)
                    is None) && e.kind_spec() == ErrorKind::Type,
                _ => false,
            },
    {
        match pair_numbers(self, other) {
            Some((x, y)) => {
                let ux = to_uint32(x);
                let uy = to_uint32(y);
                Ok(JsValue::Integer(from_i32_bits(ux ^ uy)))
            }
            None => Err(
                JsError::type_error(
                    "bitwise work between these types needs coercion outside this core",
                ),
            ),
        }
    }

    /// Binary `<<`.
    pub fn shl(&self, other: &JsValue) -> (r: JsResult<JsValue>)
        requires
            self.valid(),
            other.valid(),
        ensures
            match (r, as_number_model(self@), as_number_model(other@)) {
                (Ok(v), Some(x), Some(y)) => v@ == ValueModel::Int(
                    i32_val(to_uint32_model(x) << (to_uint32_model(y) & 31)),
                ) && v.valid(),
                (Err(e), _, _) => (as_number_model(self@) is None || as_number_model(other@)
                    is None) && e.kind_spec() == ErrorKind::Type,
                _ => false,
            },
    {
        match pair_numbers(self, other) {
            Some((x, y)) => {
                let ux = to_uint32(x);
                let sh = to_uint32(y) & 31;
                assert(sh < 32) by (bit_vector)
                    requires sh == to_uint32_model(y as int) & 31,
                ;
                Ok(JsValue::Integer(from_i32_bits(ux << sh)))
            }
            None => Err(
                JsError::type_error(
                    "shifts between these types need coercion outside this core",
                ),
            ),
        }
    }

    /// Binary `>>>`.
    pub fn ushr(&self, other: &JsValue) -> (r: JsResult<JsValue>)
        requires
            self.valid(),
            other.valid(),
        ensures
            match (r, as_number_model(self@), as_number_model(other@)) {
                (Ok(v), Some(x), Some(y)) => v@ == ValueModel::Int(
                    (to_uint32_model(x) >> (to_uint32_model(y) & 31)) as int,
                ) && v.valid(),
                (Err(e), _, _) => (as_number_model(self@) is None || as_number_model(other@)
                    is None) && e.kind_spec() == ErrorKind::Type,
                _ => false,
            },
    {
        match pair_numbers(self, other) {
            Some((x, y)) => {
                let ux = to_uint32(x);
                let sh = to_uint32(y) & 31;
                assert(sh < 32) by (bit_vector)
                    requires sh == to_uint32_model(y as int) & 31,
                ;
                let bits = ux >> sh;
                Ok(JsValue::Integer(bits as i64))
            }
            None => Err(
                JsError::type_error(
                    "shifts between these types need coercion outside this core",
                ),
            ),
        }
    }

    /// Binary `>>`: an arithmetic shift, which is flooring division by a
    /// power of two of the signed 32-bit reading.
    pub fn shr(&self, other: &JsValue) -> (r: JsResult<JsValue>)
        requires
            self.valid(),
            other.valid(),
        ensures
            match (r, as_number_model(self@), as_number_model(other@)) {
                (Ok(v), Some(x), Some(y)) => v@ == ValueModel::Int(
                    i32_val(to_uint32_model(x)) / vstd::arithmetic::power2::pow2(
                        (to_uint32_model(y) & 31) as nat,
                    ) as int,
                ) && v.valid(),
                (Err(e), _, _) => (as_number_model(self@) is None || as_number_model(other@)
                    is None) && e.kind_spec() == ErrorKind::Type,
                _ => false,
            },
    {
        match pair_numbers(self, other) {
            Some((x, y)) => {
                let xv = from_i32_bits(to_uint32(x));
                let sh = to_uint32(y) & 31;
                assert(sh < 32) by (bit_vector)
                    requires sh == to_uint32_model(y as int) & 31,
                ;
                let p = pow2_u64(sh);
                let q: i64 = if xv >= 0 {
                    (xv as u64 / p) as i64
                } else {
                    let m = (-xv) as u64;
                    let c = (m + p - 1) / p;
                    proof {
                        lemma_ceil_div_neg(m as int, p as int, c as int);
                    }
                    -(c as i64)
                };
                proof {
                    vstd::arithmetic::div_mod::lemma_div_is_ordered_by_denominator(
                        abs_int(xv as int),
                        1,
                        p as int,
                    );
                    vstd::arithmetic::div_mod::lemma_div_basics(abs_int(xv as int));
                }
                Ok(JsValue::Integer(q))
            }
            None => Err(
                JsError::type_error(
                    "shifts between these types need coercion outside this core",
                ),
            ),
        }
    }
}

/// Two to a small power.
fn pow2_u64(sh: u32) -> (r: u64)
    requires
        sh < 32,
    ensures
        r == vstd::arithmetic::power2::pow2(sh as nat),
        1 <= r <= 0x80000000,
{
    proof {
        vstd::arithmetic::power2::lemma_pow2_pos(sh as nat);
        vstd::arithmetic::power2::lemma_pow2_strictly_increases(sh as nat, 32);
        vstd::arithmetic::power2::lemma2_to64();
        assert(vstd::arithmetic::power2::pow2(32) == 0x100000000);
        if sh < 31 {
            vstd::arithmetic::power2::lemma_pow2_strictly_increases(sh as nat, 31);
        }
        assert(vstd::arithmetic::power2::pow2(31) == 0x80000000);
    }
    let mut r: u64 = 1;
    let mut i: u32 = 0;
    proof {
        vstd::arithmetic::power2::lemma_pow2(0);
        vstd::arithmetic::power::lemma_pow0(2);
    }
    while i < sh
        invariant
            i <= sh < 32,
            r == vstd::arithmetic::power2::pow2(i as nat),
            r <= 0x80000000,
        decreases sh - i,
    {
        proof {
            vstd::arithmetic::power2::lemma_pow2_adds(i as nat, 1);
            vstd::arithmetic::power2::lemma_pow2(1);
            vstd::arithmetic::power2::lemma_pow2(i as nat);
            vstd::arithmetic::power2::lemma_pow2((i + 1) as nat);
            if i + 1 < 31 {
                vstd::arithmetic::power2::lemma_pow2_strictly_increases((i + 1) as nat, 31);
            }
            if i + 1 <= 31 {
                vstd::arithmetic::power2::lemma_pow2_strictly_increases((i + 1) as nat, 32);
            }
            vstd::arithmetic::power2::lemma2_to64();
        }
        r = r * 2;
        i = i + 1;
    }
    r
}

/// The negated ceiling of a magnitude's quotient is the flooring quotient
/// of the negated magnitude.
proof fn lemma_ceil_div_neg(m: int, p: int, c: int)
    requires
        m > 0,
        p > 0,
        c == (m + p - 1) / p,
    ensures
        -m / p == -c,
{
    vstd::arithmetic::div_mod::lemma_fundamental_div_mod(m + p - 1, p);
    let rr = (m + p - 1) % p;
    assert(c * p == m + p - 1 - rr);
    assert(c * p - m >= 0 && c * p - m < p);
    assert(-m == (-c) * p + (c * p - m)) by (nonlinear_arith);
    vstd::arithmetic::div_mod::lemma_fundamental_div_mod_converse(-m, p, -c, c * p - m);
}


/// Lexicographic comparison of two unit runs: negative, zero or positive
/// as the first is below, equal to, or above the second.
pub open spec fn units_cmp(a: Seq<u16>, b: Seq<u16>) -> int
    decreases a.len(),
{
    if a.len() == 0 && b.len() == 0 {
        0
    } else if a.len() == 0 {
        -1
    } else if b.len() == 0 {
        1
    } else if a[0] < b[0] {
        -1
    } else if a[0] > b[0] {
        1
    } else {
        units_cmp(a.drop_first(), b.drop_first())
    }
}

/// The mathematical integer a value stands for, where one exists without
/// running user code: numbers, big integers, booleans and `null`.
pub open spec fn math_value_model(a: ValueModel) -> Option<int> {
    match a {
        ValueModel::Big(n) => Some(n),
        _ => as_number_model(a),
    }
}

/// The ordering of two value models under the relational operators:
/// numeric values (numbers, big integers, booleans, `null`) compare
/// mathematically, strings compare by their code units. Other pairs need
/// coercion outside this core; `undefined` would compare as NaN.
pub open spec fn compare_model(a: ValueModel, b: ValueModel) -> Option<int> {
    match (math_value_model(a), math_value_model(b)) {
        (Some(x), Some(y)) => Some(
            if x < y {
                -1int
            } else if x == y {
                0int
            } else {
                1int
            },
        ),
        _ => match (a, b) {
            (ValueModel::Str(x), ValueModel::Str(y)) => Some(units_cmp(x, y)),
            _ => None,
        },
    }
}

/// Compares two strings' units lexicographically.
fn units_compare(a: &JsString, b: &JsString) -> (c: i8)
    ensures
        c == units_cmp(a@, b@),
{
    let an = a.len();
    let bn = b.len();
    let n = if an < bn {
        an
    } else {
        bn
    };
    let mut i: usize = 0;
    proof {
        assert(a@.skip(0) =~= a@);
        assert(b@.skip(0) =~= b@);
    }
    while i < n
        invariant
            i <= n,
            an == a@.len(),
            bn == b@.len(),
            n == if an < bn { an as int } else { bn as int },
            units_cmp(a@, b@) == units_cmp(a@.skip(i as int), b@.skip(i as int)),
        decreases n - i,
    {
        let x = a.unit_at(i);
        let y = b.unit_at(i);
        proof {
            assert(a@.skip(i as int)[0] == a@[i as int]);
            assert(b@.skip(i as int)[0] == b@[i as int]);
            assert(a@.skip(i as int).drop_first() =~= a@.skip(i + 1));
            assert(b@.skip(i as int).drop_first() =~= b@.skip(i + 1));
        }
        if x < y {
            return -1;
        }
        if x > y {
            return 1;
        }
        i = i + 1;
    }
    proof {
        assert(a@.skip(n as int).len() == a@.len() - n);
        assert(b@.skip(n as int).len() == b@.len() - n);
    }
    if an == bn {
        0
    } else if an < bn {
        -1
    } else {
        1
    }
}

/// Compares two values under the relational operators.
fn compare_values(a: &JsValue, b: &JsValue) -> (r: JsResult<i8>)
    requires
        a.valid(),
        b.valid(),
    ensures
        match r {
            Ok(c) => compare_model(a@, b@) == Some(c as int),
            Err(e) => compare_model(a@, b@) is None && e.kind_spec() == ErrorKind::Type,
        },
{
    match (a, b) {
        (JsValue::String(x), JsValue::String(y)) => Ok(units_compare(x, y)),
        _ => {
            let xb: JsBigInt = match a {
                JsValue::BigInt(n) => n.clone(),
                _ => match pair_numbers(a, &JsValue::Integer(0)) {
                    Some((x, _)) => JsBigInt::from_i64(x),
                    None => {
                        return Err(
                            JsError::type_error(
                                "ordering between these types needs coercion outside this core",
                            ),
                        );
                    }
                },
            };
            let yb: JsBigInt = match b {
                JsValue::BigInt(n) => n.clone(),
                _ => match pair_numbers(b, &JsValue::Integer(0)) {
                    Some((y, _)) => JsBigInt::from_i64(y),
                    None => {
                        return Err(
                            JsError::type_error(
                                "ordering between these types needs coercion outside this core",
                            ),
                        );
                    }
                },
            };
            Ok(JsBigInt::compare(&xb, &yb))
        }
    }
}

impl JsValue {
    /// Binary `<`.
    pub fn lt(&self, other: &JsValue) -> (r: JsResult<bool>)
        requires
            self.valid(),
            other.valid(),
        ensures
            match r {
                Ok(v) => compare_model(self@, other@) matches Some(c) && v == (c < 0),
                Err(e) => compare_model(self@, other@) is None && e.kind_spec()
                    == ErrorKind::Type,
            },
    {
        let c = compare_values(self, other)?;
        Ok(c < 0)
    }

    /// Binary `<=`.
    pub fn le(&self, other: &JsValue) -> (r: JsResult<bool>)
        requires
            self.valid(),
            other.valid(),
        ensures
            match r {
                Ok(v) => compare_model(self@, other@) matches Some(c) && v == (c <= 0),
                Err(e) => compare_model(self@, other@) is None && e.kind_spec()
                    == ErrorKind::Type,
            },
    {
        let c = compare_values(self, other)?;
        Ok(c <= 0)
    }

    /// Binary `>`.
    pub fn gt(&self, other: &JsValue) -> (r: JsResult<bool>)
        requires
            self.valid(),
            other.valid(),
        ensures
            match r {
                Ok(v) => compare_model(self@, other@) matches Some(c) && v == (c > 0),
                Err(e) => compare_model(self@, other@) is None && e.kind_spec()
                    == ErrorKind::Type,
            },
    {
        let c = compare_values(self, other)?;
        Ok(c > 0)
    }

    /// Binary `>=`.
    pub fn ge(&self, other: &JsValue) -> (r: JsResult<bool>)
        requires
            self.valid(),
            other.valid(),
        ensures
            match r {
                Ok(v) => compare_model(self@, other@) matches Some(c) && v == (c >= 0),
                Err(e) => compare_model(self@, other@) is None && e.kind_spec()
                    == ErrorKind::Type,
            },
    {
        let c = compare_values(self, other)?;
        Ok(c >= 0)
    }

    /// Whether this value is truthy: everything but `undefined`, `null`,
    /// `false`, zero and the empty string.
    pub fn to_boolean(&self) -> (r: bool)
        requires
            self.valid(),
        ensures
            r == truthy_model(self@),
    {
        match *self {
            JsValue::Undefined => false,
            JsValue::Null => false,
            JsValue::Boolean(b) => b,
            JsValue::Integer(n) => n != 0,
            JsValue::BigInt(ref b) => !b.is_zero(),
            JsValue::String(ref s) => s.len() != 0,
            JsValue::Object(_) => true,
        }
    }

    /// Whether this value is `undefined` or `null`.
    pub fn is_null_or_undefined(&self) -> (r: bool)
        ensures
            r == (self@ is Undefined || self@ is Null),
    {
        match *self {
            JsValue::Undefined | JsValue::Null => true,
            _ => false,
        }
    }
}

/// Whether a value model's object handle, if it is one, stays below a
/// heap bound.
pub open spec fn handle_ok(m: ValueModel, n: int) -> bool {
    match m {
        ValueModel::Obj(h) => 0 <= h < n,
        _ => true,
    }
}

/// Whether a value model is truthy.
pub open spec fn truthy_model(a: ValueModel) -> bool {
    match a {
        ValueModel::Undefined => false,
        ValueModel::Null => false,
        ValueModel::Bool(b) => b,
        ValueModel::Int(n) => n != 0,
        ValueModel::Big(n) => n != 0,
        ValueModel::Str(s) => s.len() != 0,
        ValueModel::Obj(_) => true,
    }
}

} // verus!
