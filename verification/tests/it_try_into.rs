#![allow(non_camel_case_types)]

use transitive::driver::{transitive_impl, TransitiveInput};
use transitive::model::TypeRef;
use transitive::synth::{ConversionStep, ErrorType, GeneratedImplementation};

struct A;
struct B;
struct C;
struct D;

struct ErrA_B;
struct ErrB_C;
struct ErrC_D;

impl From<ErrA_B> for ErrB_C {
    fn from(_value: ErrA_B) -> Self {
        Self
    }
}

impl From<ErrB_C> for ErrC_D {
    fn from(_value: ErrB_C) -> Self {
        Self
    }
}

impl TryFrom<A> for B {
    type Error = ErrA_B;

    fn try_from(_val: A) -> Result<Self, Self::Error> {
        Ok(B)
    }
}

impl TryFrom<B> for C {
    type Error = ErrB_C;

    fn try_from(_val: B) -> Result<Self, Self::Error> {
        Ok(C)
    }
}

impl TryFrom<C> for D {
    type Error = ErrC_D;

    fn try_from(_val: C) -> Result<Self, Self::Error> {
        Ok(D)
    }
}

// What `from(ErrA_B, ErrB_C)` on `ErrC_D` generates.
impl core::convert::From<ErrA_B> for ErrC_D {
    fn from(val: ErrA_B) -> Self {
        let val: ErrB_C = core::convert::From::from(val);
        let val: ErrC_D = core::convert::From::from(val);
        val
    }
}

// What `try_into(B, C, D)` on `A` generates.
impl core::convert::TryFrom<A> for D {
    type Error = <D as core::convert::TryFrom<C>>::Error;

    fn try_from(val: A) -> core::result::Result<Self, Self::Error> {
        let val: B = core::convert::TryFrom::try_from(val)?;
        let val: C = core::convert::TryFrom::try_from(val)?;
        let val: D = core::convert::TryFrom::try_from(val)?;
        core::result::Result::Ok(val)
    }
}

// What `try_into(C, D)` on `B` generates.
impl core::convert::TryFrom<B> for D {
    type Error = <D as core::convert::TryFrom<C>>::Error;

    fn try_from(val: B) -> core::result::Result<Self, Self::Error> {
        let val: C = core::convert::TryFrom::try_from(val)?;
        let val: D = core::convert::TryFrom::try_from(val)?;
        core::result::Result::Ok(val)
    }
}

fn ty(text: &str) -> TypeRef {
    TypeRef::new(text)
}

fn try_step(source: &str, target: &str) -> ConversionStep {
    ConversionStep { source: ty(source), target: ty(target), fallible: true }
}

fn step(source: &str, target: &str) -> ConversionStep {
    ConversionStep { source: ty(source), target: ty(target), fallible: false }
}

#[test]
fn main_test_try_into() {
    let a = TransitiveInput::parse("#[transitive(try_into(B, C, D))] struct A;").unwrap();
    let expansion = transitive_impl(&a);
    assert!(expansion.diagnostics.is_empty());
    assert_eq!(
        expansion.implementations,
        vec![GeneratedImplementation {
            source_type: ty("A"),
            target_type: ty("D"),
            error_type: Some(ErrorType::OfStep { source: ty("C"), target: ty("D") }),
            call_chain: vec![try_step("A", "B"), try_step("B", "C"), try_step("C", "D")],
        }]
    );
    assert_eq!(
        a.to_tokens(),
        "impl core::convert::TryFrom<A> for D  { \
         type Error = <D as core::convert::TryFrom<C>>::Error; \
         fn try_from(val: A) -> core::result::Result<Self, Self::Error> { \
         let val: B = core::convert::TryFrom::try_from(val)?; \
         let val: C = core::convert::TryFrom::try_from(val)?; \
         let val: D = core::convert::TryFrom::try_from(val)?; \
         core::result::Result::Ok(val) } }\n"
    );

    let b = TransitiveInput::parse("#[transitive(try_into(C, D))] struct B;").unwrap();
    let expansion = transitive_impl(&b);
    assert!(expansion.diagnostics.is_empty());
    assert_eq!(
        expansion.implementations,
        vec![GeneratedImplementation {
            source_type: ty("B"),
            target_type: ty("D"),
            error_type: Some(ErrorType::OfStep { source: ty("C"), target: ty("D") }),
            call_chain: vec![try_step("B", "C"), try_step("C", "D")],
        }]
    );
    assert!(syn::parse_str::<syn::ItemImpl>(&b.to_tokens()).is_ok());

    let errors =
        TransitiveInput::parse("#[transitive(from(ErrA_B, ErrB_C))] struct ErrC_D;").unwrap();
    let expansion = transitive_impl(&errors);
    assert!(expansion.diagnostics.is_empty());
    assert_eq!(
        expansion.implementations,
        vec![GeneratedImplementation {
            source_type: ty("ErrA_B"),
            target_type: ty("ErrC_D"),
            error_type: None,
            call_chain: vec![step("ErrA_B", "ErrB_C"), step("ErrB_C", "ErrC_D")],
        }]
    );

    assert!(D::try_from(A).is_ok());
    assert!(D::try_from(B).is_ok());
}
