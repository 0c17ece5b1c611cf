//! The engine: a configured parser plus the registered filter function
//! signatures, shared by every query it compiles or runs.

use crate::node::NodeList;
use crate::parser::JSONPathParser;
use crate::query::Query;
use crate::value::JsonValue;
use crate::{standard_functions, FunctionSignature, JSONPathError};
use vstd::prelude::*;

verus! {

/// A JSONPath engine. Once constructed it is immutable: the same compiled
/// queries and function signatures serve every document.
pub struct Env {
    pub parser: JSONPathParser,
}

impl Env {
    /// An engine with the standard functions pre-registered, the given
    /// extension signatures added after them, and strict mode as asked.
    ///
    /// An added signature only extends the type checker: a query calling the
    /// name compiles when its arguments fit, but evaluating it yields an
    /// `ExtError`, since the engine evaluates the five standard functions
    /// only and carries no host callables.
    #[verifier::loop_isolation(false)]
    pub fn new(functions: Vec<(String, FunctionSignature)>, strict: bool) -> (env: Env)
        ensures
            env.parser.strict == strict,
            env.parser.index_min == -9007199254740991i64,
            env.parser.index_max == 9007199254740991i64,
            env.parser.function_signatures@.len() == 5 + functions@.len(),
            crate::std_sigs_prefix(env.parser.function_signatures@),
            forall|i: int|
                0 <= i < functions@.len() ==> env.parser.function_signatures@[5 + i]
                    == functions@[i],
    {
        let mut signatures = standard_functions();
        let ghost base = signatures@;
        let ghost all = functions@;
        let mut extras = functions;
        while extras.len() > 0
            invariant
                base.len() == 5,
                crate::std_sigs_prefix(base),
                extras@.len() <= all.len(),
                signatures@ =~= base + all.take(all.len() - extras@.len()),
                extras@ =~= all.skip(all.len() - extras@.len()),
            decreases extras@.len(),
        {
            let ghost k = all.len() - extras@.len();
            proof {
                assert(extras@[0] == all.skip(k)[0]);
                assert(all.skip(k)[0] == all[k]);
            }
            let (name, sig) = extras.remove(0);
            signatures.push((name, sig));
            proof {
                assert(extras@ =~= all.skip(k + 1));
                assert(all.take(k).push(all[k]) =~= all.take(k + 1));
                assert(signatures@ =~= base + all.take(k + 1));
            }
        }
        proof {
            assert(all.take(all.len() as int) =~= all);
            assert(signatures@ =~= base + all);
            assert(crate::std_sigs_prefix(signatures@));
            assert(forall|i: int| 0 <= i < all.len() ==> signatures@[5 + i] == all[i]);
        }
        Env {
            parser: JSONPathParser {
                index_min: -9007199254740991i64,
                index_max: 9007199254740991i64,
                function_signatures: signatures,
                strict,
            },
        }
    }

    /// Compiles a query string. A rejection carries the offending span as
    /// byte offsets into `query`.
    pub fn compile(&self, query: &str) -> (r: Result<Query, JSONPathError>)
        ensures
            r is Ok ==> crate::typecheck::wt_query(r->Ok_0, self.parser.function_signatures@),
            r is Err ==> (r->Err_0.kind == crate::errors::JSONPathErrorType::LexerError
                || r->Err_0.kind == crate::errors::JSONPathErrorType::SyntaxError
                || r->Err_0.kind == crate::errors::JSONPathErrorType::TypeError
                || r->Err_0.kind == crate::errors::JSONPathErrorType::NameError),
            r is Err ==> r->Err_0.start <= r->Err_0.end && r->Err_0.end as nat
                <= crate::strutil::utf8_len(query@),
    {
        self.parser.parse(query)
    }

    /// Compiles a query string and applies it to a document. The nodes of a
    /// successful search are the evaluation, under this engine's semantics,
    /// of some query that is well-typed for this engine's registry; an
    /// evaluation error carries the empty span.
    pub fn find(&self, query: &str, value: &JsonValue) -> (r: Result<NodeList, JSONPathError>)
        ensures
            r is Ok ==> exists|q: Query|
                #[trigger] crate::typecheck::wt_query(q, self.parser.function_signatures@)
                    && crate::semantics::query_nodes(q, value@) == Some(
                    crate::node::nodes_model(r->Ok_0@),
                ),
            r is Err ==> (r->Err_0.kind == crate::errors::JSONPathErrorType::LexerError
                || r->Err_0.kind == crate::errors::JSONPathErrorType::SyntaxError
                || r->Err_0.kind == crate::errors::JSONPathErrorType::TypeError
                || r->Err_0.kind == crate::errors::JSONPathErrorType::NameError
                || r->Err_0.kind == crate::errors::JSONPathErrorType::ExtError),
            r is Err ==> r->Err_0.start <= r->Err_0.end && r->Err_0.end as nat
                <= crate::strutil::utf8_len(query@),
    {
        let q = self.parser.parse(query)?;
        match q.resolve(value, self) {
            Result::Ok(nodes) => {
                proof {
                    assert(crate::typecheck::wt_query(q, self.parser.function_signatures@)
                        && crate::semantics::query_nodes(q, value@) == Some(
                        crate::node::nodes_model(nodes@),
                    ));
                }
                Ok(nodes)
            },
            Result::Err(e) => Err(
                JSONPathError { kind: e.kind, msg: e.msg, start: 0, end: 0 },
            ),
        }
    }

    /// Applies a compiled query to a document.
    pub fn query(&self, query: Query, value: &JsonValue) -> (r: Result<NodeList, JSONPathError>)
        ensures
            match crate::semantics::query_nodes(query, value@) {
                Option::Some(ns) => r is Ok && crate::node::nodes_model(r->Ok_0@) == ns,
                Option::None => r is Err && r->Err_0.kind
                    == crate::errors::JSONPathErrorType::ExtError,
            },
    {
        query.resolve(value, self)
    }
}

} // verus!
