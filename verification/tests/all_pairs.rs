use transitive::driver::{transitive_impl, RawAttribute, TransitiveInput};
use transitive::error::ParseError;
use transitive::model::TypeRef;
use transitive::process::{
    from_process_attr, into_process_attr, try_from_process_attr, try_into_process_attr,
};
use transitive::synth::{ConversionStep, ErrorType, GeneratedImplementation};

struct A;
struct B;
struct C;
struct D;

impl From<A> for B {
    fn from(_val: A) -> B {
        B
    }
}

impl From<B> for C {
    fn from(_val: B) -> C {
        C
    }
}

impl From<C> for D {
    fn from(_val: C) -> D {
        D
    }
}

// What `into(all(B, C, D))` on `A` generates.
impl core::convert::From<A> for C {
    fn from(val: A) -> Self {
        let val: B = core::convert::From::from(val);
        let val: C = core::convert::From::from(val);
        val
    }
}

impl core::convert::From<A> for D {
    fn from(val: A) -> Self {
        let val: C = core::convert::From::from(val);
        let val: D = core::convert::From::from(val);
        val
    }
}

fn ty(text: &str) -> TypeRef {
    TypeRef::new(text)
}

fn attribute(arguments: &str) -> RawAttribute {
    RawAttribute { name: Some("transitive".to_string()), arguments: Some(arguments.to_string()) }
}

fn pair(route: [&str; 3], fallible: bool) -> GeneratedImplementation {
    GeneratedImplementation {
        source_type: ty(route[0]),
        target_type: ty(route[2]),
        error_type: if fallible {
            Some(ErrorType::OfStep { source: ty(route[1]), target: ty(route[2]) })
        } else {
            None
        },
        call_chain: vec![
            ConversionStep { source: ty(route[0]), target: ty(route[1]), fallible },
            ConversionStep { source: ty(route[1]), target: ty(route[2]), fallible },
        ],
    }
}

#[test]
fn into_all() {
    let generated = into_process_attr(&ty("A"), &attribute("all(B, C, D)"));
    assert_eq!(generated, Some(Ok(vec![pair(["A", "B", "C"], false), pair(["A", "C", "D"], false)])));

    let a = TransitiveInput::parse("#[transitive(into(all(B, C, D)))] struct A;").unwrap();
    assert_eq!(
        a.to_tokens(),
        "impl core::convert::From<A> for C  { fn from(val: A) -> Self { \
         let val: B = core::convert::From::from(val); \
         let val: C = core::convert::From::from(val); \
         val } }\n\
         impl core::convert::From<A> for D  { fn from(val: A) -> Self { \
         let val: C = core::convert::From::from(val); \
         let val: D = core::convert::From::from(val); \
         val } }\n"
    );

    let _ = D::from(A);
    let _ = C::from(A);
}

#[test]
fn from_all() {
    let generated = from_process_attr(&ty("A"), &attribute("all(D, C, B)"));
    assert_eq!(generated, Some(Ok(vec![pair(["D", "C", "A"], false), pair(["C", "B", "A"], false)])));
}

#[test]
fn try_into_all() {
    let generated = try_into_process_attr(&ty("A"), &attribute("all(B, C, D)"));
    assert_eq!(generated, Some(Ok(vec![pair(["A", "B", "C"], true), pair(["A", "C", "D"], true)])));
}

#[test]
fn try_from_all() {
    let expected = vec![pair(["D", "C", "A"], true), pair(["C", "B", "A"], true)];
    let a = TransitiveInput::parse("#[transitive(try_from(all(D, C, B)))] struct A;").unwrap();
    let expansion = transitive_impl(&a);
    assert!(expansion.diagnostics.is_empty());
    assert_eq!(expansion.implementations, expected);
    assert_eq!(try_from_process_attr(&ty("A"), &attribute("all(D, C, B)")), Some(Ok(expected)));

    let errors = from_process_attr(&ty("ErrB_A"), &attribute("ErrD_C, ErrC_B"));
    assert_eq!(
        errors,
        Some(Ok(vec![GeneratedImplementation {
            source_type: ty("ErrD_C"),
            target_type: ty("ErrB_A"),
            error_type: None,
            call_chain: vec![
                ConversionStep { source: ty("ErrD_C"), target: ty("ErrC_B"), fallible: false },
                ConversionStep { source: ty("ErrC_B"), target: ty("ErrB_A"), fallible: false },
            ],
        }]))
    );
}

#[test]
fn four_types_give_three_pairs() {
    let generated = into_process_attr(&ty("S"), &attribute("all(A, B, C, D)")).unwrap().unwrap();
    assert_eq!(
        generated,
        vec![
            pair(["S", "A", "B"], false),
            pair(["S", "B", "C"], false),
            pair(["S", "C", "D"], false)
        ]
    );
    let generated = from_process_attr(&ty("S"), &attribute("all(A, B, C, D)")).unwrap().unwrap();
    assert_eq!(
        generated,
        vec![
            pair(["A", "B", "S"], false),
            pair(["B", "C", "S"], false),
            pair(["C", "D", "S"], false)
        ]
    );
}

#[test]
fn two_types_give_one_pair() {
    let generated = try_into_process_attr(&ty("S"), &attribute("all(A, B)")).unwrap().unwrap();
    assert_eq!(generated, vec![pair(["S", "A", "B"], true)]);
}

#[test]
fn all_takes_no_custom_error() {
    let generated = try_into_process_attr(&ty("S"), &attribute("all(A, B, error = E)"));
    assert_eq!(generated, Some(Err(ParseError::InvalidItem { index: 2 })));
}

#[test]
fn all_with_one_type_is_rejected() {
    let generated = into_process_attr(&ty("S"), &attribute("all(A)"));
    assert_eq!(generated, Some(Err(ParseError::TooFewTypes { found: 1 })));
}

#[test]
fn other_attributes_are_passed_over() {
    let other = RawAttribute { name: Some("derive".to_string()), arguments: Some("Debug".to_string()) };
    assert_eq!(into_process_attr(&ty("S"), &other), None);
    let path = RawAttribute { name: None, arguments: Some("A, B".to_string()) };
    assert_eq!(from_process_attr(&ty("S"), &path), None);
}

#[test]
fn attribute_without_a_list_is_rejected() {
    let bare = RawAttribute { name: Some("transitive".to_string()), arguments: None };
    assert_eq!(try_from_process_attr(&ty("S"), &bare), Some(Err(ParseError::UnsupportedShape)));
}
