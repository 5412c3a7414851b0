#![allow(non_camel_case_types)]

use transitive::driver::{transitive_impl, TransitiveInput};
use transitive::model::TypeRef;
use transitive::synth::{ConversionStep, ErrorType, GeneratedImplementation};

struct A;
struct B;
struct C;
struct D;

struct ErrD_C;
struct ErrC_B;
struct ErrB_A;

impl From<ErrD_C> for ErrC_B {
    fn from(_value: ErrD_C) -> Self {
        Self
    }
}

impl From<ErrC_B> for ErrB_A {
    fn from(_value: ErrC_B) -> Self {
        Self
    }
}

impl TryFrom<B> for A {
    type Error = ErrB_A;

    fn try_from(_val: B) -> Result<Self, Self::Error> {
        Ok(A)
    }
}

impl TryFrom<C> for B {
    type Error = ErrC_B;

    fn try_from(_val: C) -> Result<Self, Self::Error> {
        Ok(B)
    }
}

impl TryFrom<D> for C {
    type Error = ErrD_C;

    fn try_from(_val: D) -> Result<Self, Self::Error> {
        Ok(C)
    }
}

// What `from(ErrD_C, ErrC_B)` on `ErrB_A` generates.
impl core::convert::From<ErrD_C> for ErrB_A {
    fn from(val: ErrD_C) -> Self {
        let val: ErrC_B = core::convert::From::from(val);
        let val: ErrB_A = core::convert::From::from(val);
        val
    }
}

// What `try_from(D, C, B)` on `A` generates.
impl core::convert::TryFrom<D> for A {
    type Error = <A as core::convert::TryFrom<B>>::Error;

    fn try_from(val: D) -> core::result::Result<Self, Self::Error> {
        let val: C = core::convert::TryFrom::try_from(val)?;
        let val: B = core::convert::TryFrom::try_from(val)?;
        let val: A = core::convert::TryFrom::try_from(val)?;
        core::result::Result::Ok(val)
    }
}

// What `try_from(D, C)` on `B` generates.
impl core::convert::TryFrom<D> for B {
    type Error = <B as core::convert::TryFrom<C>>::Error;

    fn try_from(val: D) -> core::result::Result<Self, Self::Error> {
        let val: C = core::convert::TryFrom::try_from(val)?;
        let val: B = core::convert::TryFrom::try_from(val)?;
        core::result::Result::Ok(val)
    }
}

fn ty(text: &str) -> TypeRef {
    TypeRef::new(text)
}

fn try_step(source: &str, target: &str) -> ConversionStep {
    ConversionStep { source: ty(source), target: ty(target), fallible: true }
}

#[test]
fn main_test_try_from() {
    let a = TransitiveInput::parse("#[transitive(try_from(D, C, B))] struct A;").unwrap();
    let expansion = transitive_impl(&a);
    assert!(expansion.diagnostics.is_empty());
    assert_eq!(
        expansion.implementations,
        vec![GeneratedImplementation {
            source_type: ty("D"),
            target_type: ty("A"),
            error_type: Some(ErrorType::OfStep { source: ty("B"), target: ty("A") }),
            call_chain: vec![try_step("D", "C"), try_step("C", "B"), try_step("B", "A")],
        }]
    );
    assert_eq!(
        a.to_tokens(),
        "impl core::convert::TryFrom<D> for A  { \
         type Error = <A as core::convert::TryFrom<B>>::Error; \
         fn try_from(val: D) -> core::result::Result<Self, Self::Error> { \
         let val: C = core::convert::TryFrom::try_from(val)?; \
         let val: B = core::convert::TryFrom::try_from(val)?; \
         let val: A = core::convert::TryFrom::try_from(val)?; \
         core::result::Result::Ok(val) } }\n"
    );

    let b = TransitiveInput::parse("#[transitive(try_from(D, C))] struct B;").unwrap();
    let expansion = transitive_impl(&b);
    assert!(expansion.diagnostics.is_empty());
    assert_eq!(
        expansion.implementations,
        vec![GeneratedImplementation {
            source_type: ty("D"),
            target_type: ty("B"),
            error_type: Some(ErrorType::OfStep { source: ty("C"), target: ty("B") }),
            call_chain: vec![try_step("D", "C"), try_step("C", "B")],
        }]
    );

    let errors =
        TransitiveInput::parse("#[transitive(from(ErrD_C, ErrC_B))] struct ErrB_A;").unwrap();
    let expansion = transitive_impl(&errors);
    assert!(expansion.diagnostics.is_empty());
    assert_eq!(expansion.implementations.len(), 1);
    assert_eq!(expansion.implementations[0].source_type, ty("ErrD_C"));
    assert_eq!(expansion.implementations[0].target_type, ty("ErrB_A"));

    assert!(A::try_from(D).is_ok());
    assert!(B::try_from(D).is_ok());
}
