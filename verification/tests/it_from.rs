use std::marker::PhantomData;

use transitive::driver::{transitive_impl, TransitiveInput};
use transitive::model::TypeRef;
use transitive::synth::{ConversionStep, GeneratedImplementation};

struct A;
struct B;
struct C;
struct D;
struct Z<T>(PhantomData<T>);

impl From<B> for A {
    fn from(_val: B) -> A {
        A
    }
}

impl From<C> for B {
    fn from(_val: C) -> B {
        B
    }
}

impl From<D> for C {
    fn from(_val: D) -> C {
        C
    }
}

impl<T> From<A> for Z<T> {
    fn from(_value: A) -> Self {
        Self(PhantomData)
    }
}

// What `from(D, C, B)` on `A` generates.
impl core::convert::From<D> for A {
    fn from(val: D) -> Self {
        let val: C = core::convert::From::from(val);
        let val: B = core::convert::From::from(val);
        let val: A = core::convert::From::from(val);
        val
    }
}

// What `from(D, C)` on `B` generates.
impl core::convert::From<D> for B {
    fn from(val: D) -> Self {
        let val: C = core::convert::From::from(val);
        let val: B = core::convert::From::from(val);
        val
    }
}

// What `from(D, C, B, A)` on `Z<T>` generates.
impl<T> core::convert::From<D> for Z<T> {
    fn from(val: D) -> Self {
        let val: C = core::convert::From::from(val);
        let val: B = core::convert::From::from(val);
        let val: A = core::convert::From::from(val);
        let val: Z<T> = core::convert::From::from(val);
        val
    }
}

/// The text without its blanks: how the printer sets them is not the point.
fn tokens(source: &str) -> String {
    source.chars().filter(|c| !c.is_whitespace()).collect()
}

fn step(source: &str, target: &str) -> ConversionStep {
    ConversionStep { source: TypeRef::new(source), target: TypeRef::new(target), fallible: false }
}

#[test]
fn main_test_from() {
    let a = TransitiveInput::parse("#[transitive(from(D, C, B))] struct A;").unwrap();
    let expansion = transitive_impl(&a);
    assert!(expansion.diagnostics.is_empty());
    assert_eq!(
        expansion.implementations,
        vec![GeneratedImplementation {
            source_type: TypeRef::new("D"),
            target_type: TypeRef::new("A"),
            error_type: None,
            call_chain: vec![step("D", "C"), step("C", "B"), step("B", "A")],
        }]
    );
    assert_eq!(
        a.to_tokens(),
        "impl core::convert::From<D> for A  { fn from(val: D) -> Self { \
         let val: C = core::convert::From::from(val); \
         let val: B = core::convert::From::from(val); \
         let val: A = core::convert::From::from(val); \
         val } }\n"
    );

    let b = TransitiveInput::parse("#[transitive(from(D, C))] struct B;").unwrap();
    assert_eq!(
        transitive_impl(&b).implementations,
        vec![GeneratedImplementation {
            source_type: TypeRef::new("D"),
            target_type: TypeRef::new("B"),
            error_type: None,
            call_chain: vec![step("D", "C"), step("C", "B")],
        }]
    );

    let z = TransitiveInput::parse(
        "#[transitive(from(D, C, B, A))] struct Z<T>(PhantomData<T>);",
    )
    .unwrap();
    assert!(transitive_impl(&z).diagnostics.is_empty());
    assert_eq!(
        tokens(&z.to_tokens()),
        tokens(
            "impl<T> core::convert::From<D> for Z<T> {
                fn from(val: D) -> Self {
                    let val: C = core::convert::From::from(val);
                    let val: B = core::convert::From::from(val);
                    let val: A = core::convert::From::from(val);
                    let val: Z<T> = core::convert::From::from(val);
                    val
                }
            }"
        )
    );

    let _ = A::from(D);
    let _ = B::from(D);
    let _ = Z::<()>::from(D);
}
