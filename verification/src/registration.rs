//! Registering a sum type: the declaration of its variants is checked once,
//! and what comes out says which variant is the default and how its value
//! is made.
//!
//! A sum has between 1 and 256 variants, each with no field or one. Exactly
//! one variant is marked as the default. The mark may bring an explicit
//! default for the field; then the variant must have a field.

use vstd::prelude::*;

verus! {

/// How a variant is marked in the declaration of a sum.
#[derive(Debug, Clone, Copy, PartialEq, Eq)]
pub enum DefaultMark {
    /// The variant is not the default.
    Unmarked,
    /// The variant is the default; what it carries defaults as its type does.
    Marked,
    /// The variant is the default and carries an explicit default.
    Literal,
}

/// One variant in the declaration of a sum: how many fields it has, and
/// how it is marked.
#[derive(Debug, Clone, Copy, PartialEq, Eq)]
pub struct VariantDecl {
    pub fields: usize,
    pub mark: DefaultMark,
}

/// How the default value of a sum is made.
#[derive(Debug, Clone, Copy, PartialEq, Eq)]
pub enum DefaultKind {
    /// The default variant carries nothing.
    Bare,
    /// The default variant carries the default of its field's type.
    FieldDefault,
    /// The default variant carries the explicit default.
    Explicit,
}

/// What registration settles for a sum: the index of the default variant,
/// and how the default value is made.
#[derive(Debug, Clone, Copy, PartialEq, Eq)]
pub struct SumLayout {
    pub default_index: u8,
    pub kind: DefaultKind,
}

/// Why a declaration is rejected.
#[derive(Debug, Clone, Copy, PartialEq, Eq)]
pub enum RegistrationError {
    /// The sum has no variant.
    NoVariants,
    /// The sum has more variants than one byte can number.
    TooManyVariants,
    /// A variant has more than one field.
    TooManyFields,
    /// A variant without a field is marked with an explicit default.
    ExplicitWithoutField,
    /// More than one variant is marked as the default.
    SeveralDefaults,
    /// No variant is marked as the default.
    NoDefault,
}

/// Whether a variant is marked as the default, in either way.
pub open spec fn is_marked(v: VariantDecl) -> bool {
    !(v.mark is Unmarked)
}

/// Whether the declaration has a shape to look at: between 1 and 256
/// variants, none with more than one field.
pub open spec fn well_shaped(variants: Seq<VariantDecl>) -> bool {
    &&& 1 <= variants.len() <= 256
    &&& forall|i: int| 0 <= i < variants.len() ==> (#[trigger] variants[i]).fields <= 1
}

/// Whether the mark of variant `i` breaks a rule: it brings an explicit
/// default to a variant without a field, or it follows another mark.
pub open spec fn offends(variants: Seq<VariantDecl>, i: int) -> bool {
    &&& 0 <= i < variants.len()
    &&& is_marked(variants[i])
    &&& (variants[i].mark is Literal && variants[i].fields == 0 || exists|j: int|
        0 <= j < i && is_marked(#[trigger] variants[j]))
}

/// Whether variant `i` is the first whose mark breaks a rule.
pub open spec fn first_offender(variants: Seq<VariantDecl>, i: int) -> bool {
    offends(variants, i) && forall|j: int| 0 <= j < i ==> !offends(variants, j)
}

/// How the default value is made for a default variant.
pub open spec fn kind_of(v: VariantDecl) -> DefaultKind {
    if v.mark is Literal {
        DefaultKind::Explicit
    } else if v.fields == 0 {
        DefaultKind::Bare
    } else {
        DefaultKind::FieldDefault
    }
}

/// Whether `layout` is what a rightly declared sum registers as: its
/// default is the one marked variant.
pub open spec fn registers_as(variants: Seq<VariantDecl>, layout: SumLayout) -> bool {
    &&& well_shaped(variants)
    &&& layout.default_index < variants.len()
    &&& is_marked(variants[layout.default_index as int])
    &&& forall|j: int|
        0 <= j < variants.len() && j != layout.default_index ==> !is_marked(
            #[trigger] variants[j],
        )
    &&& variants[layout.default_index as int].mark is Literal
        ==> variants[layout.default_index as int].fields == 1
    &&& layout.kind == kind_of(variants[layout.default_index as int])
}

/// Why a wrongly declared sum is rejected. The shape is looked at first,
/// then the marks in the order of the variants.
pub open spec fn rejected_as(variants: Seq<VariantDecl>, e: RegistrationError) -> bool {
    match e {
        RegistrationError::NoVariants => variants.len() == 0,
        RegistrationError::TooManyVariants => variants.len() > 256,
        RegistrationError::TooManyFields => 1 <= variants.len() <= 256 && !well_shaped(variants),
        RegistrationError::ExplicitWithoutField => well_shaped(variants) && exists|i: int|
            first_offender(variants, i) && variants[i].mark is Literal && variants[i].fields == 0,
        RegistrationError::SeveralDefaults => well_shaped(variants) && exists|i: int|
            first_offender(variants, i) && !(variants[i].mark is Literal && variants[i].fields
                == 0),
        RegistrationError::NoDefault => well_shaped(variants) && forall|i: int|
            0 <= i < variants.len() ==> !is_marked(#[trigger] variants[i]),
    }
}

/// Whether `outcome` is what registration owes on `variants`.
pub open spec fn outcome_of(
    variants: Seq<VariantDecl>,
    outcome: Result<SumLayout, RegistrationError>,
) -> bool {
    match outcome {
        Ok(layout) => registers_as(variants, layout),
        Err(e) => rejected_as(variants, e),
    }
}

/// Registration has one outcome on each declaration.
pub proof fn lemma_outcome_unique(
    variants: Seq<VariantDecl>,
    a: Result<SumLayout, RegistrationError>,
    b: Result<SumLayout, RegistrationError>,
)
    requires
        outcome_of(variants, a),
        outcome_of(variants, b),
    ensures
        a == b,
{
    if well_shaped(variants) {
        if exists|i: int| first_offender(variants, i) {
            let i = choose|i: int| first_offender(variants, i);
            assert forall|j: int| first_offender(variants, j) implies j == i by {
                if j < i {
                    assert(!offends(variants, j));
                } else if i < j {
                    assert(!offends(variants, i));
                }
            }
            if let Ok(layout) = a {
                lemma_no_offender(variants, layout, i);
            }
            if let Ok(layout) = b {
                lemma_no_offender(variants, layout, i);
            }
        } else {
            if let Ok(la) = a {
                if let Ok(lb) = b {
                    lemma_one_default(
                        variants,
                        la,
                        la.default_index as int,
                        lb.default_index as int,
                    );
                }
            }
        }
    }
}

/// In a declaration that registers no mark breaks a rule.
proof fn lemma_no_offender(variants: Seq<VariantDecl>, layout: SumLayout, i: int)
    requires
        registers_as(variants, layout),
    ensures
        !offends(variants, i),
{
    if offends(variants, i) {
        assert(i == layout.default_index);
        if !(variants[i].mark is Literal && variants[i].fields == 0) {
            let j = choose|j: int| 0 <= j < i && is_marked(#[trigger] variants[j]);
            assert(j != layout.default_index);
        }
    }
}

/// In a declaration that registers, the default is the only marked
/// variant: a declaration with no marked variant, or with more than one,
/// does not register.
pub proof fn lemma_one_default(variants: Seq<VariantDecl>, layout: SumLayout, i: int, j: int)
    requires
        registers_as(variants, layout),
        0 <= i < variants.len(),
        0 <= j < variants.len(),
        is_marked(variants[i]),
        is_marked(variants[j]),
    ensures
        i == j,
        i == layout.default_index,
{
}

/// Checks the declaration of a sum and settles its default.
pub fn register_sum(variants: &Vec<VariantDecl>) -> (r: Result<SumLayout, RegistrationError>)
    ensures
        outcome_of(variants@, r),
{
    let n = variants.len();
    if n == 0 {
        return Err(RegistrationError::NoVariants);
    }
    if n > 256 {
        return Err(RegistrationError::TooManyVariants);
    }
    let mut i: usize = 0;
    while i < n
        invariant
            i <= n,
            1 <= n <= 256,
            n == variants.len(),
            forall|j: int| 0 <= j < i ==> (#[trigger] variants@[j]).fields <= 1,
        decreases n - i,
    {
        if variants[i].fields > 1 {
            proof {
                assert(variants@[i as int].fields > 1);
            }
            return Err(RegistrationError::TooManyFields);
        }
        i = i + 1;
    }
    let mut chosen: Option<usize> = None;
    let mut k: usize = 0;
    while k < n
        invariant
            k <= n,
            1 <= n <= 256,
            n == variants.len(),
            well_shaped(variants@),
            forall|j: int| 0 <= j < k ==> !offends(variants@, j),
            match chosen {
                Some(c) => c < k && is_marked(variants@[c as int]) && forall|j: int|
                    0 <= j < k && j != c ==> !is_marked(#[trigger] variants@[j]),
                None => forall|j: int| 0 <= j < k ==> !is_marked(#[trigger] variants@[j]),
            },
        decreases n - k,
    {
        let v = variants[k];
        match v.mark {
            DefaultMark::Unmarked => {},
            DefaultMark::Literal => {
                if v.fields == 0 {
                    proof {
                        assert(first_offender(variants@, k as int));
                    }
                    return Err(RegistrationError::ExplicitWithoutField);
                }
                if chosen.is_some() {
                    proof {
                        assert(is_marked(variants@[chosen.unwrap() as int]));
                        assert(first_offender(variants@, k as int));
                    }
                    return Err(RegistrationError::SeveralDefaults);
                }
                chosen = Some(k);
            },
            DefaultMark::Marked => {
                if chosen.is_some() {
                    proof {
                        assert(is_marked(variants@[chosen.unwrap() as int]));
                        assert(first_offender(variants@, k as int));
                    }
                    return Err(RegistrationError::SeveralDefaults);
                }
                chosen = Some(k);
            },
        }
        k = k + 1;
    }
    match chosen {
        None => Err(RegistrationError::NoDefault),
        Some(c) => {
            let v = variants[c];
            let kind = match v.mark {
                DefaultMark::Literal => DefaultKind::Explicit,
                _ => if v.fields == 0 {
                    DefaultKind::Bare
                } else {
                    DefaultKind::FieldDefault
                },
            };
            proof {
                assert(!offends(variants@, c as int));
            }
            Ok(SumLayout { default_index: c as u8, kind })
        },
    }
}

} // verus!
