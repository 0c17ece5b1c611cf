//! A JSONPath (RFC 9535) query engine: lexer, recursive-descent parser,
//! filter-expression type checker, and an evaluator that applies a compiled
//! query to an in-memory JSON-like document, yielding an ordered list of
//! located nodes.

use vstd::prelude::*;

pub mod environment;
pub mod errors;
pub mod filter;
pub mod laws;
pub mod lexer;
pub mod node;
pub mod num;
pub mod parser;
pub mod printer;
pub mod query;
pub mod regexp;
pub mod segment;
pub mod selector;
pub mod semantics;
pub mod strutil;
pub mod token;
pub mod typecheck;
pub mod value;

pub use errors::JSONPathError;
pub use errors::JSONPathErrorType;
pub use node::Node;
pub use node::NodeList;
pub use parser::JSONPathParser;
pub use query::Query;
pub use token::Token;
pub use token::TokenType;
pub use value::JsonValue;

use environment::Env;

verus! {

/// What evaluation reads along the way: the engine and the document root.
pub struct QueryContext<'a> {
    pub env: &'a Env,
    pub root: &'a JsonValue,
}

/// The type system of RFC 9535 filter function extensions.
#[derive(Debug, Clone, Copy, PartialEq, Eq, Structural)]
pub enum ExpressionType {
    Logical,
    Nodes,
    Value,
}

/// Declared parameter and return types of a filter function extension.
#[derive(Debug)]
pub struct FunctionSignature {
    pub param_types: Vec<ExpressionType>,
    pub return_type: ExpressionType,
}

/// Whether `sigs` begins with the five standard filter functions of RFC
/// 9535, under their canonical names and signatures, in canonical order.
pub open spec fn std_sigs_prefix(sigs: Seq<(String, FunctionSignature)>) -> bool {
    &&& sigs.len() >= 5
    &&& sigs[0].0@ == "count"@ && sigs[0].1.param_types@ == seq![ExpressionType::Nodes]
        && sigs[0].1.return_type == ExpressionType::Value
    &&& sigs[1].0@ == "length"@ && sigs[1].1.param_types@ == seq![ExpressionType::Value]
        && sigs[1].1.return_type == ExpressionType::Value
    &&& sigs[2].0@ == "match"@ && sigs[2].1.param_types@ == seq![
        ExpressionType::Value,
        ExpressionType::Value,
    ] && sigs[2].1.return_type == ExpressionType::Logical
    &&& sigs[3].0@ == "search"@ && sigs[3].1.param_types@ == seq![
        ExpressionType::Value,
        ExpressionType::Value,
    ] && sigs[3].1.return_type == ExpressionType::Logical
    &&& sigs[4].0@ == "value"@ && sigs[4].1.param_types@ == seq![ExpressionType::Nodes]
        && sigs[4].1.return_type == ExpressionType::Value
}

/// The five standard filter functions of RFC 9535, with their signatures.
pub fn standard_functions() -> (r: Vec<(String, FunctionSignature)>)
    ensures
        r@.len() == 5,
        std_sigs_prefix(r@),
        r@[0].0@ == "count"@ && r@[0].1.param_types@ == seq![ExpressionType::Nodes]
            && r@[0].1.return_type == ExpressionType::Value,
        r@[1].0@ == "length"@ && r@[1].1.param_types@ == seq![ExpressionType::Value]
            && r@[1].1.return_type == ExpressionType::Value,
        r@[2].0@ == "match"@ && r@[2].1.param_types@ == seq![
            ExpressionType::Value,
            ExpressionType::Value,
        ] && r@[2].1.return_type == ExpressionType::Logical,
        r@[3].0@ == "search"@ && r@[3].1.param_types@ == seq![
            ExpressionType::Value,
            ExpressionType::Value,
        ] && r@[3].1.return_type == ExpressionType::Logical,
        r@[4].0@ == "value"@ && r@[4].1.param_types@ == seq![ExpressionType::Nodes]
            && r@[4].1.return_type == ExpressionType::Value,
{
    let mut functions: Vec<(String, FunctionSignature)> = Vec::new();

    let mut count_params: Vec<ExpressionType> = Vec::new();
    count_params.push(ExpressionType::Nodes);
    functions.push(
        (
            "count".to_owned(),
            FunctionSignature { param_types: count_params, return_type: ExpressionType::Value },
        ),
    );

    let mut length_params: Vec<ExpressionType> = Vec::new();
    length_params.push(ExpressionType::Value);
    functions.push(
        (
            "length".to_owned(),
            FunctionSignature { param_types: length_params, return_type: ExpressionType::Value },
        ),
    );

    let mut match_params: Vec<ExpressionType> = Vec::new();
    match_params.push(ExpressionType::Value);
    match_params.push(ExpressionType::Value);
    functions.push(
        (
            "match".to_owned(),
            FunctionSignature { param_types: match_params, return_type: ExpressionType::Logical },
        ),
    );

    let mut search_params: Vec<ExpressionType> = Vec::new();
    search_params.push(ExpressionType::Value);
    search_params.push(ExpressionType::Value);
    functions.push(
        (
            "search".to_owned(),
            FunctionSignature { param_types: search_params, return_type: ExpressionType::Logical },
        ),
    );

    let mut value_params: Vec<ExpressionType> = Vec::new();
    value_params.push(ExpressionType::Nodes);
    functions.push(
        (
            "value".to_owned(),
            FunctionSignature { param_types: value_params, return_type: ExpressionType::Value },
        ),
    );

    proof {
        assert(functions@[0].1.param_types@ =~= seq![ExpressionType::Nodes]);
        assert(functions@[1].1.param_types@ =~= seq![ExpressionType::Value]);
        assert(functions@[2].1.param_types@ =~= seq![
            ExpressionType::Value,
            ExpressionType::Value,
        ]);
        assert(functions@[3].1.param_types@ =~= seq![
            ExpressionType::Value,
            ExpressionType::Value,
        ]);
        assert(functions@[4].1.param_types@ =~= seq![ExpressionType::Nodes]);
    }
    functions
}

} // verus!
