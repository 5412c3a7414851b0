#![allow(non_camel_case_types)]

use std::num::ParseIntError;

use transitive::driver::{transitive_impl, TransitiveInput};
use transitive::model::TypeRef;
use transitive::synth::{ConversionStep, ErrorType, GeneratedImplementation};

struct A;
struct B;
struct C;

struct ErrC_B;
struct ErrB_A;

impl From<ParseIntError> for ErrC_B {
    fn from(_value: ParseIntError) -> Self {
        Self
    }
}

impl From<ErrC_B> for ErrB_A {
    fn from(_value: ErrC_B) -> Self {
        Self
    }
}

impl TryFrom<B> for A {
    type Error = ErrB_A;

    fn try_from(_val: B) -> Result<Self, Self::Error> {
        Ok(A)
    }
}

impl TryFrom<C> for B {
    type Error = ErrC_B;

    fn try_from(_val: C) -> Result<Self, Self::Error> {
        Ok(B)
    }
}

impl TryFrom<u8> for C {
    type Error = ParseIntError;

    fn try_from(_val: u8) -> Result<Self, Self::Error> {
        Ok(C)
    }
}

// What `from(ParseIntError, ErrC_B)` on `ErrB_A` generates.
impl core::convert::From<ParseIntError> for ErrB_A {
    fn from(val: ParseIntError) -> Self {
        let val: ErrC_B = core::convert::From::from(val);
        let val: ErrB_A = core::convert::From::from(val);
        val
    }
}

// What `try_from(u8, C, B)` on `A` generates.
impl core::convert::TryFrom<u8> for A {
    type Error = <A as core::convert::TryFrom<B>>::Error;

    fn try_from(val: u8) -> core::result::Result<Self, Self::Error> {
        let val: C = core::convert::TryFrom::try_from(val)?;
        let val: B = core::convert::TryFrom::try_from(val)?;
        let val: A = core::convert::TryFrom::try_from(val)?;
        core::result::Result::Ok(val)
    }
}

// What `try_from(u8, C)` on `B` generates.
impl core::convert::TryFrom<u8> for B {
    type Error = <B as core::convert::TryFrom<C>>::Error;

    fn try_from(val: u8) -> core::result::Result<Self, Self::Error> {
        let val: C = core::convert::TryFrom::try_from(val)?;
        let val: B = core::convert::TryFrom::try_from(val)?;
        core::result::Result::Ok(val)
    }
}

fn ty(text: &str) -> TypeRef {
    TypeRef::new(text)
}

fn try_step(source: &str, target: &str) -> ConversionStep {
    ConversionStep { source: ty(source), target: ty(target), fallible: true }
}

#[test]
fn main_test_foreign_types() {
    let a = TransitiveInput::parse("#[transitive(try_from(u8, C, B))] struct A;").unwrap();
    let expansion = transitive_impl(&a);
    assert!(expansion.diagnostics.is_empty());
    assert_eq!(
        expansion.implementations,
        vec![GeneratedImplementation {
            source_type: ty("u8"),
            target_type: ty("A"),
            error_type: Some(ErrorType::OfStep { source: ty("B"), target: ty("A") }),
            call_chain: vec![try_step("u8", "C"), try_step("C", "B"), try_step("B", "A")],
        }]
    );

    let b = TransitiveInput::parse("#[transitive(try_from(u8, C))] struct B;").unwrap();
    let expansion = transitive_impl(&b);
    assert!(expansion.diagnostics.is_empty());
    assert_eq!(expansion.implementations[0].source_type, ty("u8"));
    assert_eq!(expansion.implementations[0].target_type, ty("B"));

    let errors =
        TransitiveInput::parse("#[transitive(from(ParseIntError, ErrC_B))] struct ErrB_A;")
            .unwrap();
    let expansion = transitive_impl(&errors);
    assert!(expansion.diagnostics.is_empty());
    assert_eq!(expansion.implementations[0].source_type, ty("ParseIntError"));
    assert_eq!(expansion.implementations[0].target_type, ty("ErrB_A"));

    assert!(A::try_from(1).is_ok());
    assert!(B::try_from(1).is_ok());
}
