//! From an implementation to its source text: a `From` or `TryFrom` impl
//! whose function rebinds `val` once for each step of the chain.

use vstd::prelude::*;
use vstd::string::*;
use crate::model::TypeRef;
use crate::synth::{
    step_models, ConversionStep, ErrorModel, ErrorType, GeneratedImplementation, ImplModel,
    StepModel,
};

verus! {

/// The statement of one step: `val` is rebound to its conversion into the
/// step's target; a fallible step hands its error on with `?`.
pub open spec fn step_text(step: StepModel) -> Seq<char> {
    if step.fallible {
        "let val: "@ + step.target + " = core::convert::TryFrom::try_from(val)?; "@
    } else {
        "let val: "@ + step.target + " = core::convert::From::from(val); "@
    }
}

/// The statements of a chain, in order.
pub open spec fn chain_text(chain: Seq<StepModel>) -> Seq<char>
    decreases chain.len(),
{
    if chain.len() == 0 {
        Seq::<char>::empty()
    } else {
        chain_text(chain.drop_last()) + step_text(chain.last())
    }
}

/// The error type as written in the impl.
pub open spec fn error_type_text(error: ErrorModel) -> Seq<char> {
    match error {
        ErrorModel::Custom(ty) => ty,
        ErrorModel::OfStep { source, target } => "<"@ + target + " as core::convert::TryFrom<"@
            + source + ">>::Error"@,
    }
}

/// The text of an infallible impl around the given statements.
pub open spec fn infallible_text(
    stmts: Seq<char>,
    source: Seq<char>,
    target: Seq<char>,
    impl_generics: Seq<char>,
    where_clause: Seq<char>,
) -> Seq<char> {
    "impl"@ + impl_generics + " core::convert::From<"@ + source + "> for "@ + target + " "@
        + where_clause + " { fn from(val: "@ + source + ") -> Self { "@ + stmts + "val } }"@
}

/// The text of a fallible impl around the given statements.
pub open spec fn fallible_text(
    stmts: Seq<char>,
    source: Seq<char>,
    target: Seq<char>,
    error: Seq<char>,
    impl_generics: Seq<char>,
    where_clause: Seq<char>,
) -> Seq<char> {
    "impl"@ + impl_generics + " core::convert::TryFrom<"@ + source + "> for "@ + target + " "@
        + where_clause + " { type Error = "@ + error + "; fn try_from(val: "@ + source
        + ") -> core::result::Result<Self, Self::Error> { "@ + stmts
        + "core::result::Result::Ok(val) } }"@
}

/// The text of an implementation, for a derived type with the given generic
/// parameters and `where` clause.
pub open spec fn render_spec(
    generated: ImplModel,
    impl_generics: Seq<char>,
    where_clause: Seq<char>,
) -> Seq<char> {
    match generated.error {
        Some(error) => fallible_text(
            chain_text(generated.chain),
            generated.source,
            generated.target,
            error_type_text(error),
            impl_generics,
            where_clause,
        ),
        None => infallible_text(
            chain_text(generated.chain),
            generated.source,
            generated.target,
            impl_generics,
            where_clause,
        ),
    }
}

/// Writes the statement of one step.
pub fn render_step(step: &ConversionStep) -> (text: String)
    ensures
        text@ == step_text(step@),
{
    let mut text = String::from_str("let val: ");
    text.append(step.target.as_str());
    if step.fallible {
        text.append(" = core::convert::TryFrom::try_from(val)?; ");
    } else {
        text.append(" = core::convert::From::from(val); ");
    }
    text
}

/// Writes the statements of a chain.
pub fn render_chain(chain: &Vec<ConversionStep>) -> (text: String)
    ensures
        text@ == chain_text(step_models(chain@)),
{
    let n = chain.len();
    let ghost steps = step_models(chain@);
    let mut text = String::new();
    let mut i: usize = 0;
    assert(steps.take(0) =~= Seq::<StepModel>::empty());
    while i < n
        invariant
            n == chain.len(),
            steps == step_models(chain@),
            i <= n,
            text@ == chain_text(steps.take(i as int)),
        decreases n - i,
    {
        let one = render_step(&chain[i]);
        assert(steps.take(i + 1).drop_last() =~= steps.take(i as int));
        assert(steps.take(i + 1).last() == chain@[i as int]@);
        text.append(one.as_str());
        i += 1;
    }
    assert(steps.take(n as int) =~= steps);
    text
}

/// Writes an error type.
pub fn render_error_type(error: &ErrorType) -> (text: String)
    ensures
        text@ == error_type_text(error@),
{
    match error {
        ErrorType::Custom(ty) => ty.text.clone(),
        ErrorType::OfStep { source, target } => {
            let mut text = String::from_str("<");
            text.append(target.as_str());
            text.append(" as core::convert::TryFrom<");
            text.append(source.as_str());
            text.append(">>::Error");
            text
        },
    }
}

/// Writes an infallible impl around the given statements.
pub fn ts_maker(
    stmts: &str,
    source: &TypeRef,
    target: &TypeRef,
    impl_generics: &str,
    where_clause: &str,
) -> (text: String)
    ensures
        text@ == infallible_text(stmts@, source@, target@, impl_generics@, where_clause@),
{
    let mut text = String::from_str("impl");
    text.append(impl_generics);
    text.append(" core::convert::From<");
    text.append(source.as_str());
    text.append("> for ");
    text.append(target.as_str());
    text.append(" ");
    text.append(where_clause);
    text.append(" { fn from(val: ");
    text.append(source.as_str());
    text.append(") -> Self { ");
    text.append(stmts);
    text.append("val } }");
    text
}

/// Writes a fallible impl around the given statements.
pub fn try_ts_maker(
    stmts: &str,
    source: &TypeRef,
    target: &TypeRef,
    error: &str,
    impl_generics: &str,
    where_clause: &str,
) -> (text: String)
    ensures
        text@ == fallible_text(stmts@, source@, target@, error@, impl_generics@, where_clause@),
{
    let mut text = String::from_str("impl");
    text.append(impl_generics);
    text.append(" core::convert::TryFrom<");
    text.append(source.as_str());
    text.append("> for ");
    text.append(target.as_str());
    text.append(" ");
    text.append(where_clause);
    text.append(" { type Error = ");
    text.append(error);
    text.append("; fn try_from(val: ");
    text.append(source.as_str());
    text.append(") -> core::result::Result<Self, Self::Error> { ");
    text.append(stmts);
    text.append("core::result::Result::Ok(val) } }");
    text
}

impl GeneratedImplementation {
    /// Writes the impl for a derived type with the given generic parameters
    /// and `where` clause.
    pub fn render(&self, impl_generics: &str, where_clause: &str) -> (text: String)
        ensures
            text@ == render_spec(self@, impl_generics@, where_clause@),
    {
        let stmts = render_chain(&self.call_chain);
        match &self.error_type {
            Some(error) => {
                let error = render_error_type(error);
                try_ts_maker(
                    stmts.as_str(),
                    &self.source_type,
                    &self.target_type,
                    error.as_str(),
                    impl_generics,
                    where_clause,
                )
            },
            None => ts_maker(
                stmts.as_str(),
                &self.source_type,
                &self.target_type,
                impl_generics,
                where_clause,
            ),
        }
    }
}

} // verus!
