use crate::scalar::is_one;
use crate::scalar::is_zero;
use crate::scalar::Numeric;
use vstd::prelude::*;
use vstd::std_specs::ops::AddSpec;
use vstd::std_specs::ops::DivSpec;
use vstd::std_specs::ops::MulSpec;
use vstd::std_specs::ops::SubSpec;

verus! {

/// Quotient of `a` by `b` rounded toward zero, as machine division rounds.
pub open spec fn truncated_quotient(a: int, b: int) -> int {
    if a >= 0 {
        a / b
    } else {
        -((-a) / b)
    }
}

/// Bounds on the truncated quotient: dividing by one or minus one keeps the
/// magnitude, any other divisor strictly shrinks a nonzero dividend.
pub proof fn lemma_truncated_quotient_bounds(a: int, b: int)
    by (nonlinear_arith)
    requires
        b != 0,
    ensures
        b == 1 ==> truncated_quotient(a, b) == a,
        b == -1 ==> truncated_quotient(a, b) == -a,
        a >= 0 ==> -a <= truncated_quotient(a, b) <= a,
        a < 0 ==> a <= truncated_quotient(a, b) <= -a,
        a < 0 && b != 1 ==> a < truncated_quotient(a, b),
        a < 0 && b != -1 ==> truncated_quotient(a, b) < -a,
{
}

/// A scalar that stands for a mathematical integer, its `value`, and whose
/// operators are integer arithmetic on values: an operation is defined
/// exactly when its exact result is representable, and then yields the
/// scalar of that result.
pub trait Integral: Numeric {
    /// The integer this scalar stands for.
    spec fn value(self) -> int;

    /// Whether some scalar of this type stands for `v`.
    spec fn representable(v: int) -> bool;

    /// Distinct scalars stand for distinct integers, all of them representable.
    proof fn lemma_value_is_faithful(a: Self, b: Self)
        ensures
            Self::representable(a.value()),
            a.value() == b.value() ==> a == b,
    ;

    /// Zero and one are scalars of the type.
    proof fn lemma_units_are_representable()
        ensures
            Self::representable(0),
            Self::representable(1),
    ;

    /// A zero of the type stands for zero, its one for one.
    proof fn lemma_units(a: Self)
        ensures
            is_zero(a) ==> a.value() == 0,
            is_one(a) ==> a.value() == 1,
    ;

    /// `+` is defined when the exact sum is representable, and yields it.
    proof fn lemma_add(a: Self, b: Self)
        ensures
            Self::obeys_add_spec(),
            a.add_req(b) <==> Self::representable(a.value() + b.value()),
            a.add_req(b) ==> a.add_spec(b).value() == a.value() + b.value(),
    ;

    /// `-` is defined when the exact difference is representable, and yields it.
    proof fn lemma_sub(a: Self, b: Self)
        ensures
            Self::obeys_sub_spec(),
            a.sub_req(b) <==> Self::representable(a.value() - b.value()),
            a.sub_req(b) ==> a.sub_spec(b).value() == a.value() - b.value(),
    ;

    /// `*` is defined when the exact product is representable, and yields it.
    proof fn lemma_mul(a: Self, b: Self)
        ensures
            Self::obeys_mul_spec(),
            a.mul_req(b) <==> Self::representable(a.value() * b.value()),
            a.mul_req(b) ==> a.mul_spec(b).value() == a.value() * b.value(),
    ;

    /// `/` is defined for a nonzero divisor when the truncated quotient is
    /// representable, and yields it.
    proof fn lemma_div(a: Self, b: Self)
        ensures
            Self::obeys_div_spec(),
            a.div_req(b) <==> b.value() != 0 && Self::representable(
                truncated_quotient(a.value(), b.value()),
            ),
            a.div_req(b) ==> a.div_spec(b).value() == truncated_quotient(a.value(), b.value()),
    ;
}

impl Integral for u8 {
    open spec fn value(self) -> int {
        self as int
    }

    open spec fn representable(v: int) -> bool {
        u8::MIN <= v <= u8::MAX
    }

    proof fn lemma_value_is_faithful(a: Self, b: Self) {
    }

    proof fn lemma_units_are_representable() {
    }

    proof fn lemma_units(a: Self) {
    }

    proof fn lemma_add(a: Self, b: Self) {
    }

    proof fn lemma_sub(a: Self, b: Self) {
    }

    proof fn lemma_mul(a: Self, b: Self) {
    }

    proof fn lemma_div(a: Self, b: Self) {
    }
}

impl Integral for u16 {
    open spec fn value(self) -> int {
        self as int
    }

    open spec fn representable(v: int) -> bool {
        u16::MIN <= v <= u16::MAX
    }

    proof fn lemma_value_is_faithful(a: Self, b: Self) {
    }

    proof fn lemma_units_are_representable() {
    }

    proof fn lemma_units(a: Self) {
    }

    proof fn lemma_add(a: Self, b: Self) {
    }

    proof fn lemma_sub(a: Self, b: Self) {
    }

    proof fn lemma_mul(a: Self, b: Self) {
    }

    proof fn lemma_div(a: Self, b: Self) {
    }
}

impl Integral for u32 {
    open spec fn value(self) -> int {
        self as int
    }

    open spec fn representable(v: int) -> bool {
        u32::MIN <= v <= u32::MAX
    }

    proof fn lemma_value_is_faithful(a: Self, b: Self) {
    }

    proof fn lemma_units_are_representable() {
    }

    proof fn lemma_units(a: Self) {
    }

    proof fn lemma_add(a: Self, b: Self) {
    }

    proof fn lemma_sub(a: Self, b: Self) {
    }

    proof fn lemma_mul(a: Self, b: Self) {
    }

    proof fn lemma_div(a: Self, b: Self) {
    }
}

impl Integral for u64 {
    open spec fn value(self) -> int {
        self as int
    }

    open spec fn representable(v: int) -> bool {
        u64::MIN <= v <= u64::MAX
    }

    proof fn lemma_value_is_faithful(a: Self, b: Self) {
    }

    proof fn lemma_units_are_representable() {
    }

    proof fn lemma_units(a: Self) {
    }

    proof fn lemma_add(a: Self, b: Self) {
    }

    proof fn lemma_sub(a: Self, b: Self) {
    }

    proof fn lemma_mul(a: Self, b: Self) {
    }

    proof fn lemma_div(a: Self, b: Self) {
    }
}

impl Integral for u128 {
    open spec fn value(self) -> int {
        self as int
    }

    open spec fn representable(v: int) -> bool {
        u128::MIN <= v <= u128::MAX
    }

    proof fn lemma_value_is_faithful(a: Self, b: Self) {
    }

    proof fn lemma_units_are_representable() {
    }

    proof fn lemma_units(a: Self) {
    }

    proof fn lemma_add(a: Self, b: Self) {
    }

    proof fn lemma_sub(a: Self, b: Self) {
    }

    proof fn lemma_mul(a: Self, b: Self) {
    }

    proof fn lemma_div(a: Self, b: Self) {
    }
}

impl Integral for i8 {
    open spec fn value(self) -> int {
        self as int
    }

    open spec fn representable(v: int) -> bool {
        i8::MIN <= v <= i8::MAX
    }

    proof fn lemma_value_is_faithful(a: Self, b: Self) {
    }

    proof fn lemma_units_are_representable() {
    }

    proof fn lemma_units(a: Self) {
    }

    proof fn lemma_add(a: Self, b: Self) {
    }

    proof fn lemma_sub(a: Self, b: Self) {
    }

    proof fn lemma_mul(a: Self, b: Self) {
    }

    proof fn lemma_div(a: Self, b: Self) {
        if b != 0 {
            lemma_truncated_quotient_bounds(a as int, b as int);
        }
    }
}

impl Integral for i16 {
    open spec fn value(self) -> int {
        self as int
    }

    open spec fn representable(v: int) -> bool {
        i16::MIN <= v <= i16::MAX
    }

    proof fn lemma_value_is_faithful(a: Self, b: Self) {
    }

    proof fn lemma_units_are_representable() {
    }

    proof fn lemma_units(a: Self) {
    }

    proof fn lemma_add(a: Self, b: Self) {
    }

    proof fn lemma_sub(a: Self, b: Self) {
    }

    proof fn lemma_mul(a: Self, b: Self) {
    }

    proof fn lemma_div(a: Self, b: Self) {
        if b != 0 {
            lemma_truncated_quotient_bounds(a as int, b as int);
        }
    }
}

impl Integral for i32 {
    open spec fn value(self) -> int {
        self as int
    }

    open spec fn representable(v: int) -> bool {
        i32::MIN <= v <= i32::MAX
    }

    proof fn lemma_value_is_faithful(a: Self, b: Self) {
    }

    proof fn lemma_units_are_representable() {
    }

    proof fn lemma_units(a: Self) {
    }

    proof fn lemma_add(a: Self, b: Self) {
    }

    proof fn lemma_sub(a: Self, b: Self) {
    }

    proof fn lemma_mul(a: Self, b: Self) {
    }

    proof fn lemma_div(a: Self, b: Self) {
        if b != 0 {
            lemma_truncated_quotient_bounds(a as int, b as int);
        }
    }
}

impl Integral for i64 {
    open spec fn value(self) -> int {
        self as int
    }

    open spec fn representable(v: int) -> bool {
        i64::MIN <= v <= i64::MAX
    }

    proof fn lemma_value_is_faithful(a: Self, b: Self) {
    }

    proof fn lemma_units_are_representable() {
    }

    proof fn lemma_units(a: Self) {
    }

    proof fn lemma_add(a: Self, b: Self) {
    }

    proof fn lemma_sub(a: Self, b: Self) {
    }

    proof fn lemma_mul(a: Self, b: Self) {
    }

    proof fn lemma_div(a: Self, b: Self) {
        if b != 0 {
            lemma_truncated_quotient_bounds(a as int, b as int);
        }
    }
}

impl Integral for i128 {
    open spec fn value(self) -> int {
        self as int
    }

    open spec fn representable(v: int) -> bool {
        i128::MIN <= v <= i128::MAX
    }

    proof fn lemma_value_is_faithful(a: Self, b: Self) {
    }

    proof fn lemma_units_are_representable() {
    }

    proof fn lemma_units(a: Self) {
    }

    proof fn lemma_add(a: Self, b: Self) {
    }

    proof fn lemma_sub(a: Self, b: Self) {
    }

    proof fn lemma_mul(a: Self, b: Self) {
    }

    proof fn lemma_div(a: Self, b: Self) {
        if b != 0 {
            lemma_truncated_quotient_bounds(a as int, b as int);
        }
    }
}

} // verus!
