use vstd::prelude::*;

verus! {

/// One variant of an enum: its name, and its value where the variant has no fields.
#[derive(Debug, Eq, PartialEq, Copy, Clone)]
pub struct EnumVariant<T> {
    pub name: &'static str,
    pub value: Option<T>,
}

impl<T> EnumVariant<T> {
    pub fn new(name: &'static str, value: Option<T>) -> (variant: Self)
        ensures
            variant.name == name,
            variant.value == value,
    {
        EnumVariant { name, value }
    }
}

/// An enum that can list its variants.
pub trait ReflectEnum: Sized {
    /// The integer type that the enum is represented by.
    type Type;

    /// The variants in the order of their declaration.
    fn variants() -> &'static [EnumVariant<Self>];

    /// The number of variants.
    fn count() -> usize;

    /// The name of the variant that `self` is.
    fn name(&self) -> &'static str;
}

/// The number that `E::count` returns.
pub open spec fn variant_total<E: ReflectEnum>() -> usize {
    choose|n: usize| call_ensures(E::count, (), n)
}

/// Whether `E::count` returns one number at every call.
pub open spec fn counted<E: ReflectEnum>() -> bool {
    forall|n: usize| call_ensures(E::count, (), n) ==> n == variant_total::<E>()
}

} // verus!
