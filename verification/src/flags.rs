use crate::reflect::{counted, variant_total, EnumVariant, ReflectEnum};
use std::marker::PhantomData;
use vstd::prelude::*;
use vstd::std_specs::convert::FromSpec;

verus! {

/// An enum whose variants each stand for one or more bits.
pub trait FlagEnum: ReflectEnum + Copy {
    /// The bits that the variant stands for.
    fn bits(self) -> u64;
}

/// The bits that `value.bits()` returns.
pub open spec fn mask<E: FlagEnum>(value: E) -> u64 {
    choose|bits: u64| call_ensures(E::bits, (value,), bits)
}

/// Whether each variant of `E` stands for the same bits at every call of `bits`.
pub open spec fn steady<E: FlagEnum>() -> bool {
    forall|value: E, bits: u64| call_ensures(E::bits, (value,), bits) ==> bits == mask(value)
}

/// The number of ones in the binary form of `bits`.
pub open spec fn ones(bits: u64) -> nat
    decreases bits,
{
    if bits == 0 {
        0
    } else {
        (bits % 2) as nat + ones(bits / 2)
    }
}

/// The `n` lowest bits, all set; every bit where `n` is 64 or more.
pub open spec fn low_bits(n: nat) -> u64 {
    if n >= 64 {
        u64::MAX
    } else {
        ((1u64 << (n as u64)) - 1) as u64
    }
}

/// `PrimInt::count_ones` of num-traits, on `u64`. The contract claims what its
/// documentation says: the result is the number of ones in the binary form of the
/// argument.
#[verifier::external_body]
fn count_ones(bits: u64) -> (n: u32)
    ensures
        n == ones(bits),
{
    num_traits::PrimInt::count_ones(bits)
}

/// `String::push_str` of the standard library. The contract claims what its
/// documentation says: `tail` is appended to `text`.
#[verifier::external_body]
fn push_str(text: &mut String, tail: &str)
    ensures
        final(text)@ == old(text)@ + tail@,
{
    text.push_str(tail)
}

/// A set of flags of the enum `E`, kept as bits.
#[derive(Debug)]
pub struct Flags<E: ReflectEnum> {
    bits: u64,
    marker: PhantomData<E>,
}

impl<E: ReflectEnum> Clone for Flags<E> {
    fn clone(&self) -> (copy: Self)
        ensures
            copy == *self,
    {
        Flags { bits: self.bits, marker: PhantomData }
    }
}

impl<E: ReflectEnum> Copy for Flags<E> {

}

impl<E: ReflectEnum> View for Flags<E> {
    type V = u64;

    /// The bits that are set.
    closed spec fn view(&self) -> u64 {
        self.bits
    }
}

impl<E: FlagEnum> From<E> for Flags<E> {
    fn from(value: E) -> (flags: Self) {
        Flags { bits: value.bits(), marker: PhantomData }
    }
}

impl<E: FlagEnum> vstd::std_specs::convert::FromSpecImpl<E> for Flags<E> {
    open spec fn obeys_from_spec() -> bool {
        steady::<E>()
    }

    closed spec fn from_spec(value: E) -> Self {
        Flags { bits: mask(value), marker: PhantomData }
    }
}

impl<E: FlagEnum> From<()> for Flags<E> {
    fn from(unit: ()) -> (flags: Self) {
        Flags { bits: 0, marker: PhantomData }
    }
}

impl<E: FlagEnum> vstd::std_specs::convert::FromSpecImpl<()> for Flags<E> {
    open spec fn obeys_from_spec() -> bool {
        true
    }

    closed spec fn from_spec(unit: ()) -> Self {
        Flags { bits: 0, marker: PhantomData }
    }
}

/// What can be handed to the operations on flags: one flag, a set of flags, or the
/// unit value for no flag.
pub trait IntoFlags<E: FlagEnum>: Sized {
    /// The flags that `self` stands for.
    spec fn flags(self) -> Flags<E>;

    fn into_flags(self) -> (flags: Flags<E>)
        ensures
            steady::<E>() ==> flags == self.flags(),
    ;
}

impl<E: FlagEnum> IntoFlags<E> for E {
    closed spec fn flags(self) -> Flags<E> {
        Flags { bits: mask(self), marker: PhantomData }
    }

    fn into_flags(self) -> (flags: Flags<E>) {
        Flags { bits: self.bits(), marker: PhantomData }
    }
}

impl<E: FlagEnum> IntoFlags<E> for Flags<E> {
    open spec fn flags(self) -> Flags<E> {
        self
    }

    fn into_flags(self) -> (flags: Flags<E>) {
        self
    }
}

impl<E: FlagEnum> IntoFlags<E> for () {
    closed spec fn flags(self) -> Flags<E> {
        Flags { bits: 0, marker: PhantomData }
    }

    fn into_flags(self) -> (flags: Flags<E>) {
        Flags { bits: 0, marker: PhantomData }
    }
}

impl<E: FlagEnum> Default for Flags<E> {
    fn default() -> (flags: Self)
        ensures
            flags@ == 0,
    {
        Flags { bits: 0, marker: PhantomData }
    }
}

impl<E: FlagEnum> std::ops::BitOr<E> for Flags<E> {
    type Output = Self;

    fn bitor(self, rhs: E) -> (flags: Self)
        ensures
            steady::<E>() ==> flags@ == self@ | mask(rhs),
    {
        Flags { bits: self.bits | rhs.bits(), marker: PhantomData }
    }
}

impl<E: FlagEnum> vstd::std_specs::ops::BitOrSpecImpl<E> for Flags<E> {
    open spec fn obeys_bitor_spec() -> bool {
        steady::<E>()
    }

    open spec fn bitor_req(self, rhs: E) -> bool {
        true
    }

    closed spec fn bitor_spec(self, rhs: E) -> Self {
        Flags { bits: self.bits | mask(rhs), marker: PhantomData }
    }
}

impl<E: FlagEnum, T: IntoFlags<E> + Copy> PartialEq<T> for Flags<E> {
    fn eq(&self, other: &T) -> (equal: bool) {
        let other: Flags<E> = (*other).into_flags();
        self.bits == other.bits
    }
}

impl<E: FlagEnum, T: IntoFlags<E> + Copy> vstd::std_specs::cmp::PartialEqSpecImpl<T> for Flags<E> {
    open spec fn obeys_eq_spec() -> bool {
        steady::<E>()
    }

    open spec fn eq_spec(&self, other: &T) -> bool {
        self@ == (*other).flags()@
    }
}

/// Whether `variant` is a flag that is set in `bits`.
pub open spec fn selected<E: FlagEnum>(variant: EnumVariant<E>, bits: u64) -> bool {
    match variant.value {
        Some(value) => bits & mask(value) != 0,
        None => false,
    }
}

impl<E: FlagEnum> Flags<E> {
    /// What converting a single flag gives: the bits of that flag.
    pub proof fn from_flag(value: E)
        ensures
            <Flags<E> as FromSpec<E>>::from_spec(value)@ == mask(value),
    {
    }

    /// The flags that one flag stands for: the bits of that flag.
    pub proof fn flags_of_flag(value: E)
        ensures
            value.flags()@ == mask(value),
    {
    }

    /// The flags that the unit value stands for: none.
    pub proof fn flags_of_unit()
        ensures
            <() as IntoFlags<E>>::flags(())@ == 0,
    {
    }

    pub fn empty() -> (flags: Self)
        ensures
            flags@ == 0,
    {
        Flags { bits: 0, marker: PhantomData }
    }

    pub fn single(value: E) -> (flags: Self)
        ensures
            steady::<E>() ==> flags@ == mask(value),
    {
        Flags { bits: value.bits(), marker: PhantomData }
    }

    /// One bit for each variant of `E`, the lowest first.
    pub fn full() -> (flags: Self)
        ensures
            counted::<E>() ==> flags@ == low_bits(variant_total::<E>() as nat),
    {
        let n: usize = E::count();
        if n >= 64 {
            Flags { bits: u64::MAX, marker: PhantomData }
        } else {
            let shift: u64 = n as u64;
            assert((1u64 << shift) >= 1) by (bit_vector)
                requires
                    shift < 64,
            ;
            Flags { bits: (1u64 << shift) - 1, marker: PhantomData }
        }
    }

    pub fn set<F: IntoFlags<E>>(&mut self, flags: F)
        ensures
            steady::<E>() ==> final(self)@ == old(self)@ | flags.flags()@,
    {
        let other: Flags<E> = flags.into_flags();
        self.bits = self.bits | other.bits;
    }

    pub fn reset<F: IntoFlags<E>>(&mut self, flags: F)
        ensures
            steady::<E>() ==> final(self)@ == old(self)@ & !flags.flags()@,
    {
        let other: Flags<E> = flags.into_flags();
        self.bits = self.bits & !other.bits;
    }

    pub fn toggle<F: IntoFlags<E>>(&mut self, flags: F)
        ensures
            steady::<E>() ==> final(self)@ == old(self)@ ^ flags.flags()@,
    {
        let other: Flags<E> = flags.into_flags();
        self.bits = self.bits ^ other.bits;
    }

    /// Whether every one of `flags` is set.
    pub fn all<F: IntoFlags<E>>(&self, flags: F) -> (b: bool)
        ensures
            steady::<E>() ==> b == (self@ & flags.flags()@ == flags.flags()@),
    {
        let other: Flags<E> = flags.into_flags();
        self.bits & other.bits == other.bits
    }

    /// Whether one of `flags` is set.
    pub fn any<F: IntoFlags<E>>(&self, flags: F) -> (b: bool)
        ensures
            steady::<E>() ==> b == (self@ & flags.flags()@ != 0),
    {
        let other: Flags<E> = flags.into_flags();
        self.bits & other.bits != 0
    }

    pub fn union<F: IntoFlags<E>>(&self, flags: F) -> (both: Flags<E>)
        ensures
            steady::<E>() ==> both@ == self@ | flags.flags()@,
    {
        let other: Flags<E> = flags.into_flags();
        Flags { bits: self.bits | other.bits, marker: PhantomData }
    }

    pub fn intersect<F: IntoFlags<E>>(&self, flags: F) -> (common: Flags<E>)
        ensures
            steady::<E>() ==> common@ == self@ & flags.flags()@,
    {
        let other: Flags<E> = flags.into_flags();
        Flags { bits: self.bits & other.bits, marker: PhantomData }
    }

    /// The number of bits that are set.
    pub fn len(self) -> (n: u32)
        ensures
            n == ones(self@),
    {
        count_ones(self.bits)
    }

    /// The variants of `E` that are set, in the order of their declaration.
    pub fn iter<'a>(&'a self) -> (iter: FlagsIterator<'a, E>)
        ensures
            iter.position() == 0,
            iter.bits() == self@,
            exists|all: &'static [EnumVariant<E>]|
                call_ensures(E::variants, (), all) && iter.list() == all@,
    {
        let all = E::variants();
        let iter = FlagsIterator { variants: all, index: 0, flags: self };
        assert(call_ensures(E::variants, (), all) && iter.list() == all@);
        iter
    }

    pub fn is_empty(&self) -> (b: bool)
        ensures
            b == (self@ == 0),
    {
        self.bits == 0
    }

    /// The flags whose bits are `raw`, unless `raw` has a bit that stands for no
    /// variant of `E`.
    pub fn try_from_raw(raw: u64) -> (flags: Option<Self>)
        ensures
            counted::<E>() ==> (flags is Some <==> raw & low_bits(variant_total::<E>() as nat)
                == raw),
            flags is Some ==> flags->0@ == raw,
    {
        let full = Self::full();
        if raw & full.bits != raw {
            None
        } else {
            Some(Flags { bits: raw, marker: PhantomData })
        }
    }

    pub fn into_raw(self) -> (raw: u64)
        ensures
            raw == self@,
    {
        self.bits
    }

    /// The flags in words: the names of the variants that are set, in the order of
    /// their declaration, in round brackets and with commas between them.
    pub fn to_text(&self) -> (text: String) where E: 'static
        ensures
            steady::<E>() ==> exists|list: &'static [EnumVariant<E>]|
                call_ensures(E::variants, (), list) && text@ == rendered(list@, self@),
    {
        let list = E::variants();
        let mut text = String::new();
        proof {
            reveal_strlit("(");
            reveal_strlit(")");
        }
        push_str(&mut text, "(");
        let mut first = true;
        let mut i: usize = 0;
        while i < list.len()
            invariant
                i <= list@.len(),
                steady::<E>() ==> text@ == seq!['('] + names(list@, self@, i as int),
                steady::<E>() ==> first == (chosen(list@, self@, i as int) == 0),
            decreases list@.len() - i,
        {
            let variant = &list[i];
            match variant.value {
                Some(value) => {
                    if self.bits & value.bits() != 0 {
                        let ghost before = text@;
                        if !first {
                            push_str(&mut text, ",");
                        }
                        push_str(&mut text, variant.name);
                        first = false;
                        proof {
                            reveal_strlit(",");
                            if steady::<E>() {
                                if chosen(list@, self@, i as int) > 0 {
                                    assert(text@ =~= seq!['('] + (names(list@, self@, i as int)
                                        + seq![','] + variant.name@));
                                } else {
                                    assert(text@ =~= seq!['('] + (names(list@, self@, i as int)
                                        + variant.name@));
                                }
                            }
                        }
                    }
                },
                None => {},
            }
            i = i + 1;
        }
        push_str(&mut text, ")");
        text
    }

    /// The flags that are listed in `items`.
    pub fn from_iter(items: &[E]) -> (flags: Self)
        ensures
            steady::<E>() ==> flags@ == joined(items@, items@.len() as int),
    {
        let mut bits: u64 = 0;
        let mut i: usize = 0;
        while i < items.len()
            invariant
                i <= items@.len(),
                steady::<E>() ==> bits == joined::<E>(items@, i as int),
            decreases items@.len() - i,
        {
            bits = bits | items[i].bits();
            i = i + 1;
        }
        Flags { bits, marker: PhantomData }
    }
}

/// How many of the first `n` of `list` are set in `bits`.
pub open spec fn chosen<E: FlagEnum>(list: Seq<EnumVariant<E>>, bits: u64, n: int) -> nat
    decreases n,
{
    if n <= 0 {
        0
    } else if selected(list[n - 1], bits) {
        chosen(list, bits, n - 1) + 1
    } else {
        chosen(list, bits, n - 1)
    }
}

/// The names of those of the first `n` of `list` that are set in `bits`, with a comma
/// between one name and the next.
pub open spec fn names<E: FlagEnum>(list: Seq<EnumVariant<E>>, bits: u64, n: int) -> Seq<char>
    decreases n,
{
    if n <= 0 {
        Seq::empty()
    } else if selected(list[n - 1], bits) {
        if chosen(list, bits, n - 1) > 0 {
            names(list, bits, n - 1) + seq![','] + list[n - 1].name@
        } else {
            names(list, bits, n - 1) + list[n - 1].name@
        }
    } else {
        names(list, bits, n - 1)
    }
}

/// The flags of `list` that are set in `bits`, in words: their names in round
/// brackets, with commas between them.
pub open spec fn rendered<E: FlagEnum>(list: Seq<EnumVariant<E>>, bits: u64) -> Seq<char> {
    seq!['('] + names(list, bits, list.len() as int) + seq![')']
}

/// The bits of the first `n` of `items`, taken together.
pub open spec fn joined<E: FlagEnum>(items: Seq<E>, n: int) -> u64
    decreases n,
{
    if n <= 0 {
        0
    } else {
        joined(items, n - 1) | mask(items[n - 1])
    }
}

/// Walks the variants of `E` and stops at those that are set.
pub struct FlagsIterator<'a, E: ReflectEnum + 'static> {
    variants: &'static [EnumVariant<E>],
    index: usize,
    flags: &'a Flags<E>,
}

impl<'a, E: FlagEnum> FlagsIterator<'a, E> {
    /// How many variants have been passed.
    pub closed spec fn position(&self) -> int {
        self.index as int
    }

    /// The variants that are walked.
    pub closed spec fn list(&self) -> Seq<EnumVariant<E>> {
        self.variants@
    }

    /// The flags that are looked for.
    pub closed spec fn bits(&self) -> u64 {
        self.flags@
    }

    /// The next variant that is set, or `None` when no variant is left.
    pub fn next(&mut self) -> (found: Option<&'static EnumVariant<E>>)
        ensures
            final(self).list() == old(self).list(),
            final(self).bits() == old(self).bits(),
            old(self).position() <= final(self).position(),
            steady::<E>() ==> forall|i: int|
                old(self).position() <= i < final(self).position() - 1 && i < old(
                    self,
                ).list().len() ==> !selected(#[trigger] old(self).list()[i], old(self).bits()),
            match found {
                Some(variant) => 0 < final(self).position() <= old(self).list().len() && *variant
                    == old(self).list()[final(self).position() - 1] && old(self).position()
                    < final(self).position() && (steady::<E>() ==> selected(
                    *variant,
                    old(self).bits(),
                )),
                None => final(self).position() >= old(self).list().len() && (steady::<E>()
                    ==> forall|i: int|
                    old(self).position() <= i < old(self).list().len() ==> !selected(
                        #[trigger] old(self).list()[i],
                        old(self).bits(),
                    )),
            },
    {
        while self.index < self.variants.len()
            invariant
                self.variants == old(self).variants,
                self.flags == old(self).flags,
                old(self).index <= self.index,
                steady::<E>() ==> forall|i: int|
                    old(self).index <= i < self.index && i < self.variants@.len() ==> !selected(
                        #[trigger] self.variants@[i],
                        self.flags@,
                    ),
            decreases self.variants@.len() - self.index,
        {
            let variant = &self.variants[self.index];
            self.index = self.index + 1;
            match variant.value {
                Some(value) => {
                    if self.flags.bits & value.bits() != 0 {
                        return Some(variant);
                    }
                },
                None => {},
            }
        }
        None
    }
}

} // verus!
