use vstd::prelude::*;

verus! {

/// A scalar that a matrix can hold: a copyable value closed under the four
/// arithmetic operators, with a default that serves as zero and a
/// distinguished one.
///
/// What the operators compute is each type's own business; contracts speak
/// of it through the operators' own specifications.
pub trait Numeric: Copy + core::ops::Add<Output = Self> + core::ops::Sub<Output = Self> + core::ops::Mul<
    Output = Self,
> + core::ops::Div<Output = Self> + Default {
    /// The multiplicative identity.
    fn one() -> Self;
}

/// `z` is a value that the type's `default` may return: a zero of the type.
pub open spec fn is_zero<T: Numeric>(z: T) -> bool {
    call_ensures(T::default, (), z)
}

/// `u` is a value that the type's `one` may return.
pub open spec fn is_one<T: Numeric>(u: T) -> bool {
    call_ensures(T::one, (), u)
}

impl Numeric for u8 {
    fn one() -> (r: Self)
        ensures
            r == 1,
    {
        1
    }
}

impl Numeric for u16 {
    fn one() -> (r: Self)
        ensures
            r == 1,
    {
        1
    }
}

impl Numeric for u32 {
    fn one() -> (r: Self)
        ensures
            r == 1,
    {
        1
    }
}

impl Numeric for u64 {
    fn one() -> (r: Self)
        ensures
            r == 1,
    {
        1
    }
}

impl Numeric for u128 {
    fn one() -> (r: Self)
        ensures
            r == 1,
    {
        1
    }
}

impl Numeric for i8 {
    fn one() -> (r: Self)
        ensures
            r == 1,
    {
        1
    }
}

impl Numeric for i16 {
    fn one() -> (r: Self)
        ensures
            r == 1,
    {
        1
    }
}

impl Numeric for i32 {
    fn one() -> (r: Self)
        ensures
            r == 1,
    {
        1
    }
}

impl Numeric for i64 {
    fn one() -> (r: Self)
        ensures
            r == 1,
    {
        1
    }
}

impl Numeric for i128 {
    fn one() -> (r: Self)
        ensures
            r == 1,
    {
        1
    }
}

} // verus!
