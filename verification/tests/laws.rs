use transitive::annotation::parse_path;
use transitive::direction::Direction;
use transitive::driver::{transitive_impl, Diagnostic, Generics, TransitiveInput};
use transitive::error::ParseError;
use transitive::model::{ConversionSpec, TypeRef};
use transitive::pairs::{
    create_from_impl, create_into_impl, create_pair_impl, create_try_from_impl,
    create_try_into_impl, make_impl, pair_route, process_transitive_all_attr,
};
use transitive::synth::{
    backward_route, forward_route, implement_route, process_transitive_attr, transition_from,
    transition_into, try_transition_from, try_transition_into, ConversionStep, ErrorType,
    GeneratedImplementation,
};

fn ty(text: &str) -> TypeRef {
    TypeRef::new(text)
}

fn types(names: &[&str]) -> Vec<TypeRef> {
    names.iter().map(|name| ty(name)).collect()
}

fn chain(route: &[&str], error_type: Option<ErrorType>) -> GeneratedImplementation {
    let fallible = error_type.is_some();
    GeneratedImplementation {
        source_type: ty(route[0]),
        target_type: ty(route[route.len() - 1]),
        error_type,
        call_chain: route
            .windows(2)
            .map(|pair| ConversionStep { source: ty(pair[0]), target: ty(pair[1]), fallible })
            .collect(),
    }
}

fn of_step(source: &str, target: &str) -> Option<ErrorType> {
    Some(ErrorType::OfStep { source: ty(source), target: ty(target) })
}

fn custom(name: &str) -> Option<ErrorType> {
    Some(ErrorType::Custom(ty(name)))
}

fn path(direction: Direction, list: &str) -> ConversionSpec {
    parse_path(direction, list).unwrap()
}

fn input(paths: &[&str]) -> TransitiveInput {
    TransitiveInput {
        ident: "S".to_string(),
        generics: Generics {
            impl_generics: String::new(),
            ty_generics: String::new(),
            where_clause: String::new(),
        },
        paths: paths.iter().map(|path| Some(path.to_string())).collect(),
    }
}

#[test]
fn the_calls_follow_the_list() {
    let s = ty("S");
    assert_eq!(
        process_transitive_attr(&path(Direction::Into, "T1, T2, T3, T4"), &s),
        chain(&["S", "T1", "T2", "T3", "T4"], None)
    );
    assert_eq!(
        process_transitive_attr(&path(Direction::From, "T1, T2, T3, T4"), &s),
        chain(&["T1", "T2", "T3", "T4", "S"], None)
    );
    assert_eq!(
        process_transitive_attr(&path(Direction::TryInto, "T1, T2, T3, T4"), &s),
        chain(&["S", "T1", "T2", "T3", "T4"], of_step("T3", "T4"))
    );
    assert_eq!(
        process_transitive_attr(&path(Direction::TryFrom, "T1, T2, T3, T4"), &s),
        chain(&["T1", "T2", "T3", "T4", "S"], of_step("T4", "S"))
    );
}

#[test]
fn each_call_takes_what_the_one_before_gave() {
    for direction in [Direction::Into, Direction::From, Direction::TryInto, Direction::TryFrom] {
        let generated = process_transitive_attr(&path(direction, "T1, T2, T3, T4, T5"), &ty("S"));
        let calls = &generated.call_chain;
        assert_eq!(calls.len(), 5);
        assert_eq!(calls[0].source, generated.source_type);
        assert_eq!(calls[4].target, generated.target_type);
        for i in 1..calls.len() {
            assert_eq!(calls[i].source, calls[i - 1].target);
        }
    }
}

#[test]
fn the_shortest_chain_has_two_calls() {
    assert_eq!(
        process_transitive_attr(&path(Direction::Into, "X, Y"), &ty("S")),
        chain(&["S", "X", "Y"], None)
    );
    assert_eq!(
        process_transitive_attr(&path(Direction::TryFrom, "X, Y"), &ty("S")),
        chain(&["X", "Y", "S"], of_step("Y", "S"))
    );
}

#[test]
fn the_four_strategies_agree_with_the_dispatcher() {
    let s = ty("S");
    let list = "A, B, C, error = E";
    let try_into = path(Direction::TryInto, list);
    let try_from = path(Direction::TryFrom, list);
    assert_eq!(try_transition_into(&try_into, &s), process_transitive_attr(&try_into, &s));
    assert_eq!(try_transition_from(&try_from, &s), process_transitive_attr(&try_from, &s));
    let into = path(Direction::Into, "A, B, C");
    let from = path(Direction::From, "A, B, C");
    assert_eq!(transition_into(&into, &s), process_transitive_attr(&into, &s));
    assert_eq!(transition_from(&from, &s), process_transitive_attr(&from, &s));
    assert_eq!(transition_into(&try_into, &s), chain(&["S", "A", "B", "C"], None));
    assert_eq!(transition_from(&try_from, &s), chain(&["A", "B", "C", "S"], None));
}

#[test]
fn forward_and_backward_swap_the_ends() {
    let s = ty("S");
    let forward = process_transitive_attr(&path(Direction::Into, "X, Y, Z"), &s);
    let backward = process_transitive_attr(&path(Direction::From, "X, Y, Z"), &s);
    assert_eq!((&forward.source_type, &forward.target_type), (&ty("S"), &ty("Z")));
    assert_eq!((&backward.source_type, &backward.target_type), (&ty("X"), &ty("S")));

    let returning = process_transitive_attr(&path(Direction::From, "Z, Y, X"), &s);
    assert_eq!(returning.source_type, forward.target_type);
    assert_eq!(returning.target_type, forward.source_type);
    let n = forward.call_chain.len();
    assert_eq!(returning.call_chain.len(), n);
    for i in 0..n {
        assert_eq!(returning.call_chain[i].source, forward.call_chain[n - 1 - i].target);
        assert_eq!(returning.call_chain[i].target, forward.call_chain[n - 1 - i].source);
    }
}

#[test]
fn routes_start_or_end_at_the_derived_type() {
    let list = types(&["X", "Y", "Z"]);
    assert_eq!(forward_route(&list, &ty("S")), types(&["S", "X", "Y", "Z"]));
    assert_eq!(backward_route(&list, &ty("S")), types(&["X", "Y", "Z", "S"]));
    assert_eq!(forward_route(&Vec::new(), &ty("S")), types(&["S"]));
    assert_eq!(pair_route(true, &ty("X"), &ty("Y"), &ty("S")), types(&["S", "X", "Y"]));
    assert_eq!(pair_route(false, &ty("X"), &ty("Y"), &ty("S")), types(&["X", "Y", "S"]));
}

#[test]
fn a_route_of_two_types_is_one_call() {
    assert_eq!(implement_route(&types(&["X", "Y"]), false, None), chain(&["X", "Y"], None));
    assert_eq!(
        implement_route(&types(&["X", "Y"]), true, None),
        chain(&["X", "Y"], of_step("X", "Y"))
    );
    assert_eq!(
        implement_route(&types(&["X", "Y"]), true, Some(&ty("E"))),
        chain(&["X", "Y"], custom("E"))
    );
    assert_eq!(
        implement_route(&types(&["X", "Y"]), false, Some(&ty("E"))),
        chain(&["X", "Y"], None)
    );
}

#[test]
fn the_default_error_is_that_of_the_last_step() {
    let s = ty("S");
    let forward = process_transitive_attr(&path(Direction::TryInto, "B, C, D"), &s);
    assert_eq!(forward.error_type, of_step("C", "D"));
    assert_ne!(forward.error_type, of_step("S", "B"));
    assert_ne!(forward.error_type, of_step("B", "C"));
    let backward = process_transitive_attr(&path(Direction::TryFrom, "D, C, B"), &s);
    assert_eq!(backward.error_type, of_step("B", "S"));
    let shortest = process_transitive_attr(&path(Direction::TryInto, "B, C"), &s);
    assert_eq!(shortest.error_type, of_step("B", "C"));
}

#[test]
fn a_custom_error_replaces_the_default() {
    let s = ty("S");
    for direction in [Direction::TryInto, Direction::TryFrom] {
        let generated = process_transitive_attr(&path(direction, "B, C, D, error = E"), &s);
        assert_eq!(generated.error_type, custom("E"));
        assert!(generated.call_chain.iter().all(|call| call.fallible));
        let text = generated.render("", "");
        assert_eq!(text.matches("core::convert::TryFrom::try_from(val)?;").count(), 3);
        assert!(text.contains("type Error = E;"));
    }
    let plain = process_transitive_attr(&path(Direction::Into, "B, C, D"), &s);
    assert_eq!(plain.error_type, None);
    assert!(plain.call_chain.iter().all(|call| !call.fallible));
}

#[test]
fn all_of_four_types_gives_three_implementations() {
    let s = ty("S");
    for direction in [Direction::Into, Direction::From, Direction::TryInto, Direction::TryFrom] {
        let generated = process_transitive_all_attr(&path(direction, "all(A, B, C, D)"), &s);
        assert_eq!(generated.len(), 3);
        for one in &generated {
            assert_eq!(one.call_chain.len(), 2);
            assert_eq!(one.call_chain[0].source, one.source_type);
            assert_eq!(one.call_chain[0].target, one.call_chain[1].source);
            assert_eq!(one.call_chain[1].target, one.target_type);
            assert_eq!(one.error_type.is_some(), direction.fallible());
            assert!(syn::parse_str::<syn::ItemImpl>(&one.render("", "")).is_ok());
        }
        assert_eq!(generated, make_impl(&path(direction, "all(A, B, C, D)"), &s));
    }
    assert_eq!(
        process_transitive_all_attr(&path(Direction::TryInto, "all(A, B, C, D)"), &s),
        vec![
            chain(&["S", "A", "B"], of_step("A", "B")),
            chain(&["S", "B", "C"], of_step("B", "C")),
            chain(&["S", "C", "D"], of_step("C", "D")),
        ]
    );
    assert_eq!(
        process_transitive_all_attr(&path(Direction::TryFrom, "all(A, B, C, D)"), &s),
        vec![
            chain(&["A", "B", "S"], of_step("B", "S")),
            chain(&["B", "C", "S"], of_step("C", "S")),
            chain(&["C", "D", "S"], of_step("D", "S")),
        ]
    );
}

#[test]
fn a_pair_is_a_conversion_in_two_steps() {
    let (s, x, y) = (ty("S"), ty("X"), ty("Y"));
    assert_eq!(create_into_impl(&s, &x, &y), chain(&["S", "X", "Y"], None));
    assert_eq!(create_from_impl(&s, &x, &y), chain(&["X", "Y", "S"], None));
    assert_eq!(create_try_into_impl(&s, &x, &y), chain(&["S", "X", "Y"], of_step("X", "Y")));
    assert_eq!(create_try_from_impl(&s, &x, &y), chain(&["X", "Y", "S"], of_step("Y", "S")));
    assert_eq!(create_pair_impl(Direction::Into, &s, &x, &y), create_into_impl(&s, &x, &y));
    assert_eq!(create_pair_impl(Direction::From, &s, &x, &y), create_from_impl(&s, &x, &y));
    assert_eq!(create_pair_impl(Direction::TryInto, &s, &x, &y), create_try_into_impl(&s, &x, &y));
    assert_eq!(create_pair_impl(Direction::TryFrom, &s, &x, &y), create_try_from_impl(&s, &x, &y));
}

#[test]
fn a_chain_is_one_implementation() {
    let generated = make_impl(&path(Direction::From, "A, B, C, D"), &ty("S"));
    assert_eq!(generated, vec![chain(&["A", "B", "C", "D", "S"], None)]);
}

#[test]
fn a_rejected_annotation_takes_nothing_from_the_others() {
    let good = chain(&["S", "B", "C"], None);
    let rejected = ParseError::TooFewTypes { found: 1 };

    let expansion = transitive_impl(&input(&["into(A)", "into(B, C)"]));
    assert_eq!(expansion.implementations, vec![chain(&["S", "B", "C"], None)]);
    assert_eq!(expansion.diagnostics, vec![Diagnostic { annotation: 0, error: rejected }]);

    let expansion = transitive_impl(&input(&["into(B, C)", "into(A)"]));
    assert_eq!(expansion.implementations, vec![chain(&["S", "B", "C"], None)]);
    assert_eq!(expansion.diagnostics, vec![Diagnostic { annotation: 1, error: rejected }]);

    let expansion = transitive_impl(&input(&["into(A), into(B, C)"]));
    assert_eq!(expansion.implementations, vec![chain(&["S", "B", "C"], None)]);
    assert_eq!(expansion.diagnostics, vec![Diagnostic { annotation: 0, error: rejected }]);

    let alone = transitive_impl(&input(&["into(B, C)"]));
    assert_eq!(alone.implementations, vec![good]);
    assert!(alone.diagnostics.is_empty());
}

#[test]
fn annotations_add_up_in_the_order_written() {
    let front = ["from(A, B)", "bad", "try_into(C, D)"];
    let rest = ["into(all(E, F, G))", "from(H)"];
    let whole: Vec<&str> = front.iter().chain(rest.iter()).copied().collect();

    let first = transitive_impl(&input(&front));
    let second = transitive_impl(&input(&rest));
    let both = transitive_impl(&input(&whole));

    let mut implementations = first.implementations;
    implementations.extend(second.implementations);
    assert_eq!(both.implementations, implementations);
    assert_eq!(both.implementations.len(), 4);
    assert_eq!(
        both.diagnostics,
        vec![
            Diagnostic { annotation: 1, error: ParseError::UnsupportedShape },
            Diagnostic { annotation: 4, error: ParseError::TooFewTypes { found: 1 } },
        ]
    );
    assert_eq!(first.diagnostics, vec![both.diagnostics[0]]);
    assert_eq!(
        second.diagnostics,
        vec![Diagnostic { annotation: 1, error: ParseError::TooFewTypes { found: 1 } }]
    );
}
