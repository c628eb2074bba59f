use vstd::prelude::*;

use crate::position::{spec_combine, PosV, Position};
use crate::stack::{combine_in, Stack, StackV};

verus! {

/// Mathematical model of an evaluation context: the position being
/// evaluated, the live environment, and an optional parent context used to
/// build a traceback chain on error.
pub ghost struct CtxV {
    pub pos: PosV,
    pub stack: StackV,
    pub parent: Option<Box<CtxV>>,
}

/// The evaluator's threaded bundle of current position, environment and
/// optional parent context.
pub struct Context {
    pub pos: Position,
    pub stack: Stack,
    pub context: Option<Box<Context>>,
}

impl View for Context {
    type V = CtxV;

    open spec fn view(&self) -> CtxV
        decreases self,
    {
        CtxV {
            pos: self.pos@,
            stack: self.stack@,
            parent: match self.context {
                Some(ref b) => Some(Box::new((**b)@)),
                None => None,
            },
        }
    }
}

/// Two contexts combined: the covering span of both positions, the union of
/// the environments with right-hand bindings overriding, and the left
/// context's parent link when it has one, else the right's.
pub open spec fn spec_ctx_combine(a: CtxV, b: CtxV) -> CtxV {
    CtxV {
        pos: spec_combine(a.pos, b.pos),
        stack: StackV {
            symbols: combine_in(a.stack.symbols, b.stack.symbols),
            parent: a.stack.parent,
        },
        parent: if a.parent is Some {
            a.parent
        } else {
            b.parent
        },
    }
}

impl Clone for Context {
    fn clone(&self) -> (r: Self)
        ensures
            r@ == self@,
        decreases self,
    {
        let r = Context {
            pos: self.pos.clone(),
            stack: self.stack.clone(),
            context: match &self.context {
                Some(b) => Some(Box::new((**b).clone())),
                None => None,
            },
        };
        assert(r@ =~= self@);
        r
    }
}

impl Context {
    pub fn new(pos: Position, stack: Stack, context: Option<Context>) -> (r: Self)
        ensures
            r@ == (CtxV {
                pos: pos@,
                stack: stack@,
                parent: match context {
                    Some(c) => Some(Box::new(c@)),
                    None => None,
                },
            }),
    {
        Self {
            pos,
            stack,
            context: match context {
                Some(ctx) => Some(Box::new(ctx)),
                None => None,
            },
        }
    }

    /// The parent context, if any.
    pub fn context(&self) -> (r: Option<Box<Context>>)
        ensures
            match (r, self@.parent) {
                (Some(c), Some(p)) => c@ == *p,
                (None, None) => true,
                _ => false,
            },
    {
        match &self.context {
            Some(b) => Some(Box::new((**b).clone())),
            None => None,
        }
    }

    pub fn get_position(&self) -> (r: Position)
        ensures
            r@ == self@.pos,
    {
        self.pos.clone()
    }

    pub fn combine(&self, other: Self) -> (r: Self)
        ensures
            r@ == spec_ctx_combine(self@, other@),
    {
        let mut stack = self.stack.clone();
        stack.combine(other.stack);
        let pos = self.pos.combine(other.pos);
        let context = if self.context.is_some() {
            match &self.context {
                Some(b) => Some((**b).clone()),
                None => None,
            }
        } else {
            match other.context {
                Some(b) => Some(*b),
                None => None,
            }
        };
        let r = Context::new(pos, stack, context);
        assert(r@ =~= spec_ctx_combine(self@, other@));
        r
    }
}

} // verus!
