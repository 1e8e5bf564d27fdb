//! Runtime values of Lox programs.
//!
//! A number is held as the bits of its IEEE-754 double, so that equality,
//! ordering, negation and the test for zero are stated and proved on integers.
use vstd::prelude::*;

verus! {

/// The sign bit of a double.
pub const SIGN_BIT: u64 = 0x8000_0000_0000_0000;

/// The exponent bits of a double.
pub const EXPONENT_BITS: u64 = 0x7ff0_0000_0000_0000;

/// The fraction bits of a double.
pub const FRACTION_BITS: u64 = 0x000f_ffff_ffff_ffff;

/// All bits of a double but its sign.
pub const MAGNITUDE_BITS: u64 = 0x7fff_ffff_ffff_ffff;

/// The double with these bits is not a number.
pub open spec fn number_is_nan(b: u64) -> bool {
    b & EXPONENT_BITS == EXPONENT_BITS && b & FRACTION_BITS != 0
}

/// The double with these bits is `0.0` or `-0.0`.
pub open spec fn number_is_zero(b: u64) -> bool {
    b & MAGNITUDE_BITS == 0
}

/// The double with these bits has its sign bit set.
pub open spec fn number_is_negative(b: u64) -> bool {
    b & SIGN_BIT != 0
}

/// IEEE equality of two doubles: no NaN equals anything, and `0.0 == -0.0`.
pub open spec fn number_eq(a: u64, b: u64) -> bool {
    !number_is_nan(a) && !number_is_nan(b) && (a == b || (number_is_zero(a) && number_is_zero(b)))
}

/// IEEE `<` of two doubles. Below the sign bit the bits of a double grow with
/// its magnitude, so among non-negative doubles the bits order the values and
/// among negative ones they order them the other way round.
pub open spec fn number_lt(a: u64, b: u64) -> bool {
    &&& !number_is_nan(a)
    &&& !number_is_nan(b)
    &&& !(number_is_zero(a) && number_is_zero(b))
    &&& if !number_is_negative(a) && !number_is_negative(b) {
        a < b
    } else if number_is_negative(a) && number_is_negative(b) {
        a > b
    } else {
        number_is_negative(a)
    }
}

/// IEEE `<=` of two doubles.
pub open spec fn number_le(a: u64, b: u64) -> bool {
    number_lt(a, b) || number_eq(a, b)
}

/// Whether the double with bits `b` is not a number.
pub fn is_nan(b: u64) -> (r: bool)
    ensures
        r == number_is_nan(b),
{
    b & EXPONENT_BITS == EXPONENT_BITS && b & FRACTION_BITS != 0
}

/// Whether the double with bits `b` is `0.0` or `-0.0`.
pub fn is_zero(b: u64) -> (r: bool)
    ensures
        r == number_is_zero(b),
{
    b & MAGNITUDE_BITS == 0
}

/// IEEE equality of the doubles with bits `a` and `b`.
pub fn number_equals(a: u64, b: u64) -> (r: bool)
    ensures
        r == number_eq(a, b),
{
    !is_nan(a) && !is_nan(b) && (a == b || (is_zero(a) && is_zero(b)))
}

/// IEEE `<` of the doubles with bits `a` and `b`.
pub fn number_less(a: u64, b: u64) -> (r: bool)
    ensures
        r == number_lt(a, b),
{
    if is_nan(a) || is_nan(b) || (is_zero(a) && is_zero(b)) {
        return false;
    }
    let neg_a = a & SIGN_BIT != 0;
    let neg_b = b & SIGN_BIT != 0;
    if !neg_a && !neg_b {
        a < b
    } else if neg_a && neg_b {
        a > b
    } else {
        neg_a
    }
}

/// IEEE `<=` of the doubles with bits `a` and `b`.
pub fn number_less_equal(a: u64, b: u64) -> (r: bool)
    ensures
        r == number_le(a, b),
{
    number_less(a, b) || number_equals(a, b)
}

/// The bits of the negated double: negation flips the sign bit.
pub fn number_negate(b: u64) -> (r: u64)
    ensures
        r == b ^ SIGN_BIT,
{
    b ^ SIGN_BIT
}

// ---------------------------------------------------------------------------
// Objects
// ---------------------------------------------------------------------------

/// A function or class as a value: the identity that it was given when it was
/// made, the text that shows it (`<fn name>`, `<native fn>`, or the class's
/// name), and whether it is a class.
#[derive(Debug, Clone)]
pub struct CallableRef {
    pub id: usize,
    pub text: String,
    pub is_class: bool,
}

/// An instance as a value: its identity and the name of its class.
#[derive(Debug, Clone)]
pub struct InstanceRef {
    pub id: usize,
    pub class_name: String,
}

/// A runtime value.
#[derive(Debug, Clone)]
pub enum Object {
    Null,
    String(String),
    /// The bits of an IEEE-754 double.
    Number(u64),
    Boolean(bool),
    Callable(CallableRef),
    Instance(InstanceRef),
}

/// The abstract value of a runtime value.
pub enum ObjectView {
    Null,
    String(Seq<char>),
    Number(u64),
    Boolean(bool),
    Callable { id: nat, text: Seq<char>, is_class: bool },
    Instance { id: nat, class_name: Seq<char> },
}

impl View for Object {
    type V = ObjectView;

    open spec fn view(&self) -> ObjectView {
        match self {
            Object::Null => ObjectView::Null,
            Object::String(s) => ObjectView::String(s@),
            Object::Number(n) => ObjectView::Number(*n),
            Object::Boolean(b) => ObjectView::Boolean(*b),
            Object::Callable(c) => ObjectView::Callable {
                id: c.id as nat,
                text: c.text@,
                is_class: c.is_class,
            },
            Object::Instance(i) => ObjectView::Instance { id: i.id as nat, class_name: i.class_name@ },
        }
    }
}

/// The truth value of a runtime value: `nil` and `false` are false, all else is true.
pub open spec fn truthy(o: ObjectView) -> bool {
    match o {
        ObjectView::Null => false,
        ObjectView::Boolean(b) => b,
        _ => true,
    }
}

/// Equality of runtime values: numbers by IEEE equality, strings and booleans by
/// value, functions and instances by identity, and values of different kinds never.
pub open spec fn objects_equal(a: ObjectView, b: ObjectView) -> bool {
    match (a, b) {
        (ObjectView::Null, ObjectView::Null) => true,
        (ObjectView::String(x), ObjectView::String(y)) => x == y,
        (ObjectView::Number(x), ObjectView::Number(y)) => number_eq(x, y),
        (ObjectView::Boolean(x), ObjectView::Boolean(y)) => x == y,
        (ObjectView::Callable { id: x, .. }, ObjectView::Callable { id: y, .. }) => x == y,
        (ObjectView::Instance { id: x, .. }, ObjectView::Instance { id: y, .. }) => x == y,
        _ => false,
    }
}

/// The text that shows a value other than a number; a number's text is a matter
/// of floating point and is not given here.
pub open spec fn object_text(o: ObjectView) -> Option<Seq<char>> {
    match o {
        ObjectView::Null => Some("nil"@),
        ObjectView::String(s) => Some(s),
        ObjectView::Number(_) => None,
        ObjectView::Boolean(b) => Some(
            if b {
                "true"@
            } else {
                "false"@
            },
        ),
        ObjectView::Callable { text, .. } => Some(text),
        ObjectView::Instance { class_name, .. } => Some(class_name + " instance"@),
    }
}

impl Object {
    /// A copy of this value.
    pub fn copy(&self) -> (o: Object)
        ensures
            o@ == self@,
    {
        match self {
            Object::Null => Object::Null,
            Object::String(s) => Object::String(s.clone()),
            Object::Number(n) => Object::Number(*n),
            Object::Boolean(b) => Object::Boolean(*b),
            Object::Callable(c) => Object::Callable(
                CallableRef { id: c.id, text: c.text.clone(), is_class: c.is_class },
            ),
            Object::Instance(i) => Object::Instance(
                InstanceRef { id: i.id, class_name: i.class_name.clone() },
            ),
        }
    }

    /// The truth value of this value: `nil` and `false` are false, all else is true.
    pub fn is_truthy(&self) -> (b: bool)
        ensures
            b == truthy(self@),
    {
        match self {
            Object::Null => false,
            Object::Boolean(b) => *b,
            _ => true,
        }
    }

    /// Whether this value equals `other` as Lox's `==` sees it.
    pub fn equals(&self, other: &Object) -> (b: bool)
        ensures
            b == objects_equal(self@, other@),
    {
        match (self, other) {
            (Object::Null, Object::Null) => true,
            (Object::String(x), Object::String(y)) => *x == *y,
            (Object::Number(x), Object::Number(y)) => number_equals(*x, *y),
            (Object::Boolean(x), Object::Boolean(y)) => *x == *y,
            (Object::Callable(x), Object::Callable(y)) => x.id == y.id,
            (Object::Instance(x), Object::Instance(y)) => x.id == y.id,
            _ => false,
        }
    }

    /// The text that shows this value as `print` shows it, for every value but a
    /// number, whose text is a matter of floating point (`None`).
    pub fn runtime_display(&self) -> (s: Option<String>)
        ensures
            match s {
                Some(t) => object_text(self@) == Some(t@),
                None => object_text(self@) is None,
            },
    {
        match self {
            Object::Null => Some(String::from_str("nil")),
            Object::String(s) => Some(s.clone()),
            Object::Number(_) => None,
            Object::Boolean(b) => if *b {
                Some(String::from_str("true"))
            } else {
                Some(String::from_str("false"))
            },
            Object::Callable(c) => Some(c.text.clone()),
            Object::Instance(i) => {
                let mut s = i.class_name.clone();
                s.append(" instance");
                Some(s)
            },
        }
    }
}

// ---------------------------------------------------------------------------
// Laws
// ---------------------------------------------------------------------------

/// Equality of values is symmetric.
pub proof fn law_equality_symmetric(a: ObjectView, b: ObjectView)
    ensures
        objects_equal(a, b) == objects_equal(b, a),
{
}

/// Every value equals itself, but a number that is not a number.
pub proof fn law_equality_reflexive(a: ObjectView)
    ensures
        objects_equal(a, a) == !(a matches ObjectView::Number(n) && number_is_nan(n)),
{
}

/// No double is less than itself, and of two doubles that are not NaN and not
/// equal, exactly one is less than the other.
pub proof fn law_number_order_total(a: u64, b: u64)
    ensures
        !number_lt(a, a),
        !number_is_nan(a) && !number_is_nan(b) && !number_eq(a, b) ==> (number_lt(a, b) != number_lt(
            b,
            a,
        )),
{
}

/// Negating a double twice gives it back.
pub proof fn law_negation_involutive(b: u64)
    ensures
        (b ^ SIGN_BIT) ^ SIGN_BIT == b,
{
    assert((b ^ 0x8000_0000_0000_0000u64) ^ 0x8000_0000_0000_0000u64 == b) by (bit_vector);
}

/// A value that is neither a number, a function nor an instance: `nil`, a
/// boolean or a string.
pub open spec fn is_plain(v: ObjectView) -> bool {
    v is Null || v is Boolean || v is String
}

/// Among `nil`, booleans and strings, two values are equal exactly when they
/// are the same value: `true == false` is false, `"a" == "a"` is true, and
/// values of different kinds are never equal.
pub proof fn law_plain_equality_is_identity(a: ObjectView, b: ObjectView)
    requires
        is_plain(a),
        is_plain(b),
    ensures
        objects_equal(a, b) == (a == b),
{
}

/// Two booleans are equal exactly when they are the same boolean.
pub proof fn law_boolean_equality(x: bool, y: bool)
    ensures
        objects_equal(ObjectView::Boolean(x), ObjectView::Boolean(y)) == (x == y),
        !objects_equal(ObjectView::Boolean(true), ObjectView::Boolean(false)),
{
}

/// A value is false exactly when it is `nil` or the boolean false.
pub proof fn law_falsey_values(v: ObjectView)
    ensures
        truthy(v) == !(v == ObjectView::Null || v == ObjectView::Boolean(false)),
{
}

/// How the sign and zero tests sit in the bits of a double.
proof fn lemma_sign_bits(x: u64)
    ensures
        number_is_negative(x) == (x >= SIGN_BIT),
        number_is_zero(x) && !number_is_negative(x) ==> x == 0,
        number_is_zero(x) && number_is_negative(x) ==> x == SIGN_BIT,
{
    assert((x & 0x8000_0000_0000_0000u64 != 0) == (x >= 0x8000_0000_0000_0000u64)) by (bit_vector);
    assert((x & 0x7fff_ffff_ffff_ffffu64 == 0 && x & 0x8000_0000_0000_0000u64 == 0) ==> x == 0)
        by (bit_vector);
    assert((x & 0x7fff_ffff_ffff_ffffu64 == 0 && x & 0x8000_0000_0000_0000u64 != 0) ==> x
        == 0x8000_0000_0000_0000u64) by (bit_vector);
}

/// The order on doubles is transitive.
pub proof fn law_number_order_transitive(a: u64, b: u64, c: u64)
    requires
        number_lt(a, b),
        number_lt(b, c),
    ensures
        number_lt(a, c),
{
    lemma_sign_bits(a);
    lemma_sign_bits(b);
    lemma_sign_bits(c);
}

/// A double is zero exactly when it equals `0.0`.
pub proof fn law_zero_is_equal_to_zero(b: u64)
    ensures
        number_is_zero(b) == number_eq(b, 0),
{
    assert(0u64 & EXPONENT_BITS == 0) by (bit_vector);
    assert(0u64 & MAGNITUDE_BITS == 0) by (bit_vector);
    assert(b & MAGNITUDE_BITS == 0 ==> b & EXPONENT_BITS != EXPONENT_BITS) by (bit_vector);
}

} // verus!
