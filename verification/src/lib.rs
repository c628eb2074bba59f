//! An expression-oriented scripting language: lexer, recursive-descent
//! parser, abstract syntax tree, and a tree-walking evaluator with a
//! mutable variable environment that persists across runs.

pub mod position;
pub mod ident;
pub mod keyword;
pub mod strutil;
pub mod render;
pub mod floats;
pub mod types;
pub mod errors;
pub mod stack;
pub mod context;
pub mod token;
pub mod lexer;
pub mod nodes;
pub mod ast;
pub mod visit;

use vstd::prelude::*;

use crate::ast::spec_parse;
use crate::context::{Context, CtxV};
use crate::errors::{spec_err, Error, ErrorKind};
use crate::ident::Ident;
use crate::lexer::spec_tokens;
use crate::position::{PosV, Position};
use crate::stack::{spec_set, Stack, StackV};
use crate::types::{Integer, Type};
use crate::visit::evals_to;

verus! {

/// The outcome of one run: the resulting value or the first error, together
/// with the environment as it stood at the end, so the next run can reuse
/// it.
pub struct InterpretionResult {
    pub res: Result<Type, Error>,
    pub stack: Stack,
}

impl InterpretionResult {
    fn new(res: Result<Type, Error>, stack: Stack) -> (r: Self)
        ensures
            r.res == res,
            r.stack@ == stack@,
    {
        Self { res, stack }
    }
}

/// A fresh top-level environment with no parent.
pub fn new_stack() -> (r: Stack)
    ensures
        r@.symbols =~= Seq::<(Seq<char>, Type)>::empty(),
        r@.parent is None,
{
    Stack::new(None)
}

/// An environment with the three built-ins seeded: `null` and `false` are
/// the integer zero, `true` the integer one.
pub open spec fn spec_seeded(s: StackV) -> StackV {
    spec_set(
        spec_set(
            spec_set(s, "null"@, Type::Integer(Integer { value: 0 })),
            "true"@,
            Type::Integer(Integer { value: 1 }),
        ),
        "false"@,
        Type::Integer(Integer { value: 0 }),
    )
}

/// The position the lexer starts from.
pub open spec fn spec_start_pos(file_name: Seq<char>) -> PosV {
    PosV { index: 0, filename: file_name, line: 0, column: 0, len: 1 }
}

/// The context evaluation starts in: a zero-length position at the start of
/// the file, the seeded environment, and no parent.
pub open spec fn spec_run_ctx(file_name: Seq<char>, s: StackV) -> CtxV {
    CtxV {
        pos: PosV { index: 0, filename: file_name, line: 0, column: 0, len: 0 },
        stack: s,
        parent: None,
    }
}

/// What one run returns, as a function of the source text, the file name
/// and the environment handed in: a lexer or parser error verbatim with the
/// seeded environment, or the converged evaluation outcome of the parsed
/// tree, whose resulting environment is handed back.
pub open spec fn spec_run_post(
    text: Seq<char>,
    file_name: Seq<char>,
    s0: StackV,
    r: InterpretionResult,
) -> bool {
    let seeded = spec_seeded(s0);
    match spec_tokens(text, spec_start_pos(file_name)) {
        Err(le) => r.res matches Err(e) && e@ == le && r.stack@ == seeded,
        Ok(toks) => if toks.len() + 10 >= usize::MAX {
            r.res matches Err(e) && e@ == spec_err(ErrorKind::SyntaxError, "input too long"@)
                && r.stack@ == seeded
        } else {
            match spec_parse(toks) {
                Err(pe) => r.res matches Err(e) && e@ == pe && r.stack@ == seeded,
                Ok(tree) => {
                    let c0 = spec_run_ctx(file_name, seeded);
                    match r.res {
                        Ok(v) => exists|c: CtxV|
                            (evals_to(tree, c0, Ok((v, c))) && r.stack@ == c.stack),
                        Err(e) => exists|c: CtxV|
                            (evals_to(tree, c0, Err((e@, c))) && r.stack@ == c.stack),
                    }
                },
            }
        },
    }
}

/// One top-level run: the built-ins `null`, `true` and `false` are
/// (re-)seeded into the environment, the text is lexed, parsed and
/// evaluated, and the environment is handed back alongside the result so a
/// session keeps its variables across lines. A lexer or parser error is
/// returned unchanged with the seeded environment; an evaluation error is
/// returned with the environment as it stood going into the failing step,
/// so completed assignments are kept.
#[verifier::spinoff_prover]
#[verifier::rlimit(100)]
pub fn run(text: String, file_name: String, stack: Option<Stack>) -> (r: InterpretionResult)
    requires
        text@.len() + 2 < i64::MAX,
    ensures
        spec_run_post(
            text@,
            file_name@,
            match stack {
                Some(s) => s@,
                None => StackV { symbols: Seq::<(Seq<char>, Type)>::empty(), parent: None },
            },
            r,
        ),
{
    let ghost s0: StackV = match stack {
        Some(ref s) => s@,
        None => StackV { symbols: Seq::<(Seq<char>, Type)>::empty(), parent: None },
    };
    let mut env = match stack {
        Some(s) => s,
        None => new_stack(),
    };
    proof {
        assert(env@.symbols =~= s0.symbols);
        assert(env@ == s0);
    }
    env.set(Ident::new("null".to_owned()), Type::Integer(Integer::new(0)));
    env.set(Ident::new("true".to_owned()), Type::Integer(Integer::new(1)));
    env.set(Ident::new("false".to_owned()), Type::Integer(Integer::new(0)));
    proof {
        assert(env@ == spec_seeded(s0));
    }
    let ghost textv = text@;
    let ghost fnv = file_name@;
    let mut lexer = lexer::Lexer::new(text, file_name.clone());
    let tokens = match lexer.make_tokens() {
        Ok(t) => t,
        Err(e) => {
            return InterpretionResult::new(Err(e), env);
        },
    };
    if usize::MAX - 10 <= tokens.len() {
        let e = Error::new(ErrorKind::SyntaxError, "input too long", None);
        return InterpretionResult::new(Err(e), env);
    }
    let ghost tokensv = tokens@;
    let mut parser = ast::Parser::new(tokens);
    let tree = match parser.parse() {
        Ok(n) => n,
        Err(e) => {
            return InterpretionResult::new(Err(e), env);
        },
    };
    let ghost treev = tree@;
    let pos = Position::new(0, file_name, 0, 0, 0);
    let context = Context::new(pos, env.clone(), None);
    let ghost c0 = context@;
    proof {
        assert(c0 == spec_run_ctx(file_name@, spec_seeded(s0)));
    }
    match visit::visit_ctx(tree, context) {
        Ok((ty, end_context)) => {
            let ghost cend = end_context@;
            let final_stack = end_context.stack;
            let r = InterpretionResult::new(Ok(ty), final_stack);
            proof {
                let toks = lexer::toks_view(tokensv);
                assert(toks.len() == tokensv.len());
                assert(spec_tokens(textv, spec_start_pos(fnv)) == Ok::<
                    Seq<(crate::token::TokenV, PosV)>,
                    crate::errors::ErrV,
                >(toks));
                assert(spec_parse(toks) == Ok::<crate::nodes::NodeV, crate::errors::ErrV>(
                    treev,
                ));
                assert(c0 == spec_run_ctx(fnv, spec_seeded(s0)));
                assert(evals_to(treev, c0, Ok((ty, cend))) && r.stack@ == cend.stack);
                assert(exists|c: CtxV|
                    (evals_to(treev, c0, Ok((ty, c))) && r.stack@ == c.stack));
                assert(spec_run_post(textv, fnv, s0, r));
            }
            r
        },
        Err((e, err_context)) => {
            let ghost cerr = err_context@;
            let ghost ev = e@;
            let r = InterpretionResult::new(Err(e), err_context.stack);
            proof {
                let toks = lexer::toks_view(tokensv);
                assert(toks.len() == tokensv.len());
                assert(spec_tokens(textv, spec_start_pos(fnv)) == Ok::<
                    Seq<(crate::token::TokenV, PosV)>,
                    crate::errors::ErrV,
                >(toks));
                assert(spec_parse(toks) == Ok::<crate::nodes::NodeV, crate::errors::ErrV>(
                    treev,
                ));
                assert(c0 == spec_run_ctx(fnv, spec_seeded(s0)));
                assert(evals_to(treev, c0, Err((ev, cerr))) && r.stack@ == cerr.stack);
                assert(exists|c: CtxV|
                    (evals_to(treev, c0, Err((ev, c))) && r.stack@ == c.stack));
                assert(spec_run_post(textv, fnv, s0, r));
            }
            r
        },
    }
}

} // verus!
