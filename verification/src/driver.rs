//! The driver: every annotation of a declaration is parsed and expanded by
//! itself, and what they generate is put together in the order written.

use vstd::prelude::*;
use vstd::string::*;
use crate::annotation::{
    instance_model, instances_of, outcome, parse_instance, raw_models, split_annotations,
    RawAnnotation, RawModel,
};
use crate::error::ParseError;
use crate::model::TypeRef;
use crate::pairs::make_impl;
use crate::render::render_spec;
use crate::syntax::{
    declared_attributes, declared_generics, declared_ident, is_declaration_syntax,
    read_attributes, read_declaration,
};
use crate::synth::{generate_spec, impl_models, GeneratedImplementation, ImplModel};
use crate::text::{decimal, decimal_text, same_text};

verus! {

/// The generic parameters of the annotated declaration, as they are written
/// in an impl header, after the type's name, and in a `where` clause.
#[derive(Debug, PartialEq, Eq)]
pub struct Generics {
    pub impl_generics: String,
    pub ty_generics: String,
    pub where_clause: String,
}

/// The annotated declaration: its name, its generic parameters, and the
/// arguments of each of its `transitive` attributes; `None` stands for an
/// attribute without a parenthesized list of arguments.
#[derive(Debug, PartialEq, Eq)]
pub struct TransitiveInput {
    pub ident: String,
    pub generics: Generics,
    pub paths: Vec<Option<String>>,
}

/// One attribute of a declaration: its name, where it has a plain one, and
/// the text of its parenthesized arguments, where it has them.
#[derive(Debug, PartialEq, Eq)]
pub struct RawAttribute {
    pub name: Option<String>,
    pub arguments: Option<String>,
}

/// What a [`RawAttribute`] stands for.
pub struct AttributeModel {
    pub name: Option<Seq<char>>,
    pub arguments: Option<Seq<char>>,
}

impl View for RawAttribute {
    type V = AttributeModel;

    open spec fn view(&self) -> AttributeModel {
        AttributeModel {
            name: match self.name {
                Some(name) => Some(name@),
                None => None,
            },
            arguments: path_model(self.arguments),
        }
    }
}

/// What a sequence of attributes stands for.
pub open spec fn attribute_models(attributes: Seq<RawAttribute>) -> Seq<AttributeModel> {
    attributes.map_values(|attribute: RawAttribute| attribute@)
}

/// Whether an attribute is one of this library's.
pub open spec fn is_transitive(attribute: AttributeModel) -> bool {
    attribute.name == Some("transitive"@)
}

impl RawAttribute {
    /// Whether the attribute is named `transitive`.
    pub fn is_ours(&self) -> (ours: bool)
        ensures
            ours == is_transitive(self@),
    {
        match &self.name {
            Some(name) => same_text(name.as_str(), "transitive"),
            None => false,
        }
    }
}

/// The arguments of the attributes that are this library's, in the order
/// written.
pub open spec fn selected_paths(attributes: Seq<AttributeModel>) -> Seq<Option<Seq<char>>>
    decreases attributes.len(),
{
    if attributes.len() == 0 {
        seq![]
    } else if is_transitive(attributes.last()) {
        selected_paths(attributes.drop_last()).push(attributes.last().arguments)
    } else {
        selected_paths(attributes.drop_last())
    }
}

/// The declaration that a text holds, where it holds one: what `syn` reads
/// in it, and of its attributes those named `transitive`.
pub open spec fn declared_input(source: Seq<char>) -> InputModel {
    InputModel {
        ident: declared_ident(source),
        impl_generics: declared_generics(source).0,
        ty_generics: declared_generics(source).1,
        where_clause: declared_generics(source).2,
        paths: selected_paths(declared_attributes(source)),
    }
}

/// What a [`TransitiveInput`] stands for.
pub struct InputModel {
    pub ident: Seq<char>,
    pub impl_generics: Seq<char>,
    pub ty_generics: Seq<char>,
    pub where_clause: Seq<char>,
    pub paths: Seq<Option<Seq<char>>>,
}

/// What the arguments of one attribute stand for.
pub open spec fn path_model(path: Option<String>) -> Option<Seq<char>> {
    match path {
        Some(text) => Some(text@),
        None => None,
    }
}

impl View for TransitiveInput {
    type V = InputModel;

    open spec fn view(&self) -> InputModel {
        InputModel {
            ident: self.ident@,
            impl_generics: self.generics.impl_generics@,
            ty_generics: self.generics.ty_generics@,
            where_clause: self.generics.where_clause@,
            paths: self.paths@.map_values(|path: Option<String>| path_model(path)),
        }
    }
}

/// One rejected annotation: its position among the annotations of the
/// declaration, counted from zero, and the reason.
#[derive(Clone, Copy, Debug, PartialEq, Eq, Structural)]
pub struct Diagnostic {
    pub annotation: usize,
    pub error: ParseError,
}

/// What a declaration expands to: the implementations of its well-formed
/// annotations and one diagnostic for each of the others.
#[derive(Debug, PartialEq, Eq)]
pub struct Expansion {
    pub implementations: Vec<GeneratedImplementation>,
    pub diagnostics: Vec<Diagnostic>,
}

/// What an [`Expansion`] stands for.
pub struct ExpansionModel {
    pub implementations: Seq<ImplModel>,
    pub diagnostics: Seq<Diagnostic>,
}

impl View for Expansion {
    type V = ExpansionModel;

    open spec fn view(&self) -> ExpansionModel {
        ExpansionModel {
            implementations: impl_models(self.implementations@),
            diagnostics: self.diagnostics@,
        }
    }
}

/// The annotations that one attribute holds.
pub open spec fn attribute_instances(path: Option<Seq<char>>) -> Seq<Option<RawModel>> {
    match path {
        Some(text) => instances_of(text),
        None => seq![None],
    }
}

/// The annotations of a declaration, attribute after attribute.
pub open spec fn declared_instances(paths: Seq<Option<Seq<char>>>) -> Seq<Option<RawModel>>
    decreases paths.len(),
{
    if paths.len() == 0 {
        seq![]
    } else {
        declared_instances(paths.drop_last()) + attribute_instances(paths.last())
    }
}

/// The type that carries the annotations, as it is written in an impl.
pub open spec fn derived_type(ident: Seq<char>, ty_generics: Seq<char>) -> Seq<char> {
    ident + ty_generics
}

/// What a sequence of annotations expands to, the first of them being
/// number `first` of the declaration. Each annotation adds what it alone
/// generates, or its own diagnostic.
pub open spec fn expand_instances(
    instances: Seq<Option<RawModel>>,
    derived: Seq<char>,
    first: int,
) -> ExpansionModel
    decreases instances.len(),
{
    if instances.len() == 0 {
        ExpansionModel { implementations: seq![], diagnostics: seq![] }
    } else {
        let before = expand_instances(instances.drop_last(), derived, first);
        match outcome(instances.last()) {
            Ok(path) => ExpansionModel {
                implementations: before.implementations + generate_spec(path, derived),
                diagnostics: before.diagnostics,
            },
            Err(error) => ExpansionModel {
                implementations: before.implementations,
                diagnostics: before.diagnostics.push(
                    Diagnostic { annotation: (first + instances.len() - 1) as usize, error },
                ),
            },
        }
    }
}

/// What a declaration expands to.
pub open spec fn expand_spec(input: InputModel) -> ExpansionModel {
    expand_instances(
        declared_instances(input.paths),
        derived_type(input.ident, input.ty_generics),
        0,
    )
}

/// The text of a sequence of implementations, one after the other.
pub open spec fn impls_text(
    impls: Seq<ImplModel>,
    impl_generics: Seq<char>,
    where_clause: Seq<char>,
) -> Seq<char>
    decreases impls.len(),
{
    if impls.len() == 0 {
        Seq::<char>::empty()
    } else {
        impls_text(impls.drop_last(), impl_generics, where_clause) + render_spec(
            impls.last(),
            impl_generics,
            where_clause,
        ) + "\n"@
    }
}

/// Where a diagnostic belongs: the number of its annotation and, for an
/// error that has one, the number of the offending item, both counted from
/// zero.
pub open spec fn place_text(diagnostic: Diagnostic) -> Seq<char> {
    match diagnostic.error.item_index() {
        Some(index) => "annotation "@ + decimal(diagnostic.annotation as nat) + ", item "@
            + decimal(index as nat),
        None => "annotation "@ + decimal(diagnostic.annotation as nat),
    }
}

/// The text that reports one diagnostic when it is compiled: the place, then
/// the message.
pub open spec fn diagnostic_text(diagnostic: Diagnostic) -> Seq<char> {
    "::core::compile_error! { \""@ + place_text(diagnostic) + ": "@
        + diagnostic.error.message_text() + "\" }\n"@
}

/// The text of a sequence of diagnostics, one after the other.
pub open spec fn diagnostics_text(diagnostics: Seq<Diagnostic>) -> Seq<char>
    decreases diagnostics.len(),
{
    if diagnostics.len() == 0 {
        Seq::<char>::empty()
    } else {
        diagnostics_text(diagnostics.drop_last()) + diagnostic_text(diagnostics.last())
    }
}

/// The whole output for a declaration: its implementations, then its
/// diagnostics.
pub open spec fn output_text(input: InputModel) -> Seq<char> {
    let expansion = expand_spec(input);
    impls_text(expansion.implementations, input.impl_generics, input.where_clause)
        + diagnostics_text(expansion.diagnostics)
}

impl Diagnostic {
    /// Writes where the diagnostic belongs.
    pub fn place(&self) -> (text: String)
        ensures
            text@ == place_text(*self),
    {
        let mut text = String::from_str("annotation ");
        text.append(decimal_text(self.annotation).as_str());
        if let Some(index) = self.error.position() {
            text.append(", item ");
            text.append(decimal_text(index).as_str());
        }
        text
    }

    /// Writes the item that makes the compiler report this diagnostic.
    pub fn render(&self) -> (text: String)
        ensures
            text@ == diagnostic_text(*self),
    {
        let mut text = String::from_str("::core::compile_error! { \"");
        text.append(self.place().as_str());
        text.append(": ");
        text.append(self.error.message().as_str());
        text.append("\" }\n");
        text
    }
}

impl Expansion {
    /// Writes the implementations, then the diagnostics.
    pub fn render(&self, impl_generics: &str, where_clause: &str) -> (text: String)
        ensures
            text@ == impls_text(self@.implementations, impl_generics@, where_clause@)
                + diagnostics_text(self@.diagnostics),
    {
        let ghost impls = self@.implementations;
        let ghost diagnostics = self@.diagnostics;
        let mut text = String::new();
        let n = self.implementations.len();
        let mut i: usize = 0;
        assert(impls.take(0) =~= Seq::<ImplModel>::empty());
        while i < n
            invariant
                n == self.implementations.len(),
                impls == impl_models(self.implementations@),
                i <= n,
                text@ == impls_text(impls.take(i as int), impl_generics@, where_clause@),
            decreases n - i,
        {
            let one = self.implementations[i].render(impl_generics, where_clause);
            assert(impls.take(i + 1).drop_last() =~= impls.take(i as int));
            assert(impls.take(i + 1).last() == self.implementations@[i as int]@);
            text.append(one.as_str());
            text.append("\n");
            i += 1;
        }
        assert(impls.take(n as int) =~= impls);
        let ghost head = text@;
        let m = self.diagnostics.len();
        let mut k: usize = 0;
        assert(diagnostics.take(0) =~= Seq::<Diagnostic>::empty());
        assert(head + Seq::<char>::empty() =~= head);
        while k < m
            invariant
                m == self.diagnostics.len(),
                diagnostics == self.diagnostics@,
                k <= m,
                text@ == head + diagnostics_text(diagnostics.take(k as int)),
            decreases m - k,
        {
            let one = self.diagnostics[k].render();
            assert(diagnostics.take(k + 1).drop_last() =~= diagnostics.take(k as int));
            assert(diagnostics.take(k + 1).last() == self.diagnostics@[k as int]);
            let ghost before = diagnostics_text(diagnostics.take(k as int));
            text.append(one.as_str());
            assert(text@ =~= head + (before + one@));
            k += 1;
        }
        assert(diagnostics.take(m as int) =~= diagnostics);
        text
    }
}

/// Expands a sequence of annotations for the derived type: each one by
/// itself, whatever the others are.
pub fn expand(instances: &Vec<Option<RawAnnotation>>, derived: &TypeRef) -> (expansion: Expansion)
    ensures
        expansion@ == expand_instances(raw_models(instances@), derived@, 0),
{
    let n = instances.len();
    let ghost models = raw_models(instances@);
    let mut implementations: Vec<GeneratedImplementation> = Vec::new();
    let mut diagnostics: Vec<Diagnostic> = Vec::new();
    let mut i: usize = 0;
    assert(models.take(0) =~= Seq::<Option<RawModel>>::empty());
    assert(impl_models(implementations@) =~= Seq::<ImplModel>::empty());
    while i < n
        invariant
            n == instances.len(),
            models == raw_models(instances@),
            i <= n,
            expand_instances(models.take(i as int), derived@, 0) == (ExpansionModel {
                implementations: impl_models(implementations@),
                diagnostics: diagnostics@,
            }),
        decreases n - i,
    {
        assert(models.take(i + 1).drop_last() =~= models.take(i as int));
        assert(models.take(i + 1).last() == instance_model(instances@[i as int]));
        let ghost before = impl_models(implementations@);
        match parse_instance(&instances[i]) {
            Ok(spec) => {
                let mut generated = make_impl(&spec, derived);
                let ghost added = impl_models(generated@);
                implementations.append(&mut generated);
                assert(impl_models(implementations@) =~= before + added);
            },
            Err(error) => {
                diagnostics.push(Diagnostic { annotation: i, error });
            },
        }
        i += 1;
    }
    assert(models.take(n as int) =~= models);
    Expansion { implementations, diagnostics }
}

impl TransitiveInput {
    /// The declaration with the given name and generic parameters; of its
    /// attributes, those named `transitive` are kept.
    pub fn new(ident: String, generics: Generics, attributes: &Vec<RawAttribute>) -> (input:
        TransitiveInput)
        ensures
            input@.ident == ident@,
            input@.impl_generics == generics.impl_generics@,
            input@.ty_generics == generics.ty_generics@,
            input@.where_clause == generics.where_clause@,
            input@.paths == selected_paths(attribute_models(attributes@)),
    {
        let n = attributes.len();
        let ghost models = attribute_models(attributes@);
        let mut paths: Vec<Option<String>> = Vec::new();
        let mut i: usize = 0;
        assert(models.take(0) =~= Seq::<AttributeModel>::empty());
        assert(paths@.map_values(|path: Option<String>| path_model(path)) =~= Seq::<
            Option<Seq<char>>,
        >::empty());
        while i < n
            invariant
                n == attributes.len(),
                models == attribute_models(attributes@),
                i <= n,
                paths@.map_values(|path: Option<String>| path_model(path)) == selected_paths(
                    models.take(i as int),
                ),
            decreases n - i,
        {
            assert(models.take(i + 1).drop_last() =~= models.take(i as int));
            assert(models.take(i + 1).last() == attributes@[i as int]@);
            let ghost before = paths@.map_values(|path: Option<String>| path_model(path));
            if attributes[i].is_ours() {
                let arguments = attributes[i].arguments.clone();
                assert(path_model(arguments) == path_model(attributes@[i as int].arguments));
                paths.push(arguments);
                assert(paths@.map_values(|path: Option<String>| path_model(path)) =~= before.push(
                    path_model(attributes@[i as int].arguments),
                ));
            }
            i += 1;
        }
        assert(models.take(n as int) =~= models);
        TransitiveInput { ident, generics, paths }
    }

    /// Reads a declaration from its source text: `None` where the text is no
    /// struct, enum or union declaration.
    pub fn parse(source: &str) -> (input: Option<TransitiveInput>)
        ensures
            input is Some <==> is_declaration_syntax(source@),
            input matches Some(read) ==> read@ == declared_input(source@),
    {
        match (read_declaration(source), read_attributes(source)) {
            (Some(declaration), Some(attributes)) => Some(
                TransitiveInput::new(declaration.0, declaration.1, &attributes),
            ),
            _ => None,
        }
    }

    /// The text to compile beside the declaration: the implementations that
    /// its annotations generate and, for each rejected annotation, an item
    /// that makes the compiler report why.
    pub fn to_tokens(&self) -> (text: String)
        ensures
            text@ == output_text(self@),
    {
        let expansion = transitive_impl(self);
        expansion.render(self.generics.impl_generics.as_str(), self.generics.where_clause.as_str())
    }

    /// The annotated type as it is written in an impl: its name and its
    /// generic arguments.
    pub fn derived(&self) -> (ty: TypeRef)
        ensures
            ty@ == derived_type(self@.ident, self@.ty_generics),
    {
        let mut text = self.ident.clone();
        text.append(self.generics.ty_generics.as_str());
        TypeRef { text }
    }

    /// The annotations of the declaration, in the order written.
    pub fn instances(&self) -> (instances: Vec<Option<RawAnnotation>>)
        ensures
            raw_models(instances@) == declared_instances(self@.paths),
    {
        let n = self.paths.len();
        let ghost paths = self@.paths;
        let mut instances: Vec<Option<RawAnnotation>> = Vec::new();
        let mut i: usize = 0;
        assert(paths.take(0) =~= Seq::<Option<Seq<char>>>::empty());
        assert(raw_models(instances@) =~= Seq::<Option<RawModel>>::empty());
        while i < n
            invariant
                n == self.paths.len(),
                paths == self@.paths,
                i <= n,
                raw_models(instances@) == declared_instances(paths.take(i as int)),
            decreases n - i,
        {
            assert(paths.take(i + 1).drop_last() =~= paths.take(i as int));
            assert(paths.take(i + 1).last() == path_model(self.paths@[i as int]));
            let ghost before = raw_models(instances@);
            match &self.paths[i] {
                Some(text) => {
                    let mut found = split_annotations(text.as_str());
                    let ghost added = raw_models(found@);
                    instances.append(&mut found);
                    assert(raw_models(instances@) =~= before + added);
                },
                None => {
                    instances.push(None);
                    assert(raw_models(instances@) =~= before + seq![None::<RawModel>]);
                },
            }
            i += 1;
        }
        assert(paths.take(n as int) =~= paths);
        instances
    }
}

/// Expands a declaration: every annotation is parsed and expanded by itself;
/// a rejected one leaves a diagnostic and takes nothing from the others.
pub fn transitive_impl(input: &TransitiveInput) -> (expansion: Expansion)
    ensures
        expansion@ == expand_spec(input@),
{
    let derived = input.derived();
    let instances = input.instances();
    expand(&instances, &derived)
}

/// What is written for a text that is no declaration.
pub open spec fn not_a_declaration_text() -> Seq<char> {
    "::core::compile_error! { \"expected a struct, enum or union\" }\n"@
}

/// The derive, from text to text: reads the declaration and writes what is
/// to be compiled beside it. A text that is no declaration is answered with
/// an item that makes the compiler say so.
pub fn transitive(source: &str) -> (text: String)
    ensures
        !is_declaration_syntax(source@) ==> text@ == not_a_declaration_text(),
        is_declaration_syntax(source@) ==> text@ == output_text(declared_input(source@)),
{
    match TransitiveInput::parse(source) {
        Some(input) => input.to_tokens(),
        None => String::from_str("::core::compile_error! { \"expected a struct, enum or union\" }\n"),
    }
}

} // verus!
