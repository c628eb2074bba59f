use vstd::prelude::*;

use crate::errors::{spec_err, spec_err_at, ErrV, Error, ErrorKind};
use crate::ident::Ident;
use crate::keyword::Keyword;
use crate::nodes::{
    spec_unary_from_token, Assignment, AssignmentV, BinaryOperationNode, BinaryOperationNodeV,
    ForNode, ForNodeV, IfNode, IfNodeV, Node, NodeType, NodeTypeV, NodeV, OperationType,
    OperationTypeV, UnaryOperation, UnaryOperationNode, UnaryOperationNodeV, WhileNode, WhileNodeV,
};
use crate::position::{spec_combine, PosV, Position};
use crate::token::{spec_token_display, token_display_string, Token, TokenV};
use vstd::string::StringExecFns;

verus! {

/// The token under a cursor index, if the index is inside the stream.
pub open spec fn tok_at(toks: Seq<(TokenV, PosV)>, i: int) -> Option<(TokenV, PosV)> {
    if 0 <= i < toks.len() {
        Some(toks[i])
    } else {
        None
    }
}

/// A continuation index, kept strictly ahead of the position a production
/// started at; a well-behaved sub-parse always moves forward, so this is the
/// sub-parse's own index wherever one was produced.
pub open spec fn step(toks: Seq<(TokenV, PosV)>, i: int, j: int) -> int {
    if i < j <= toks.len() + 1 {
        j
    } else {
        i + 1
    }
}

/// Whether a token is one of the logical operators of the lowest binding
/// level.
pub open spec fn spec_is_or_op(t: TokenV) -> bool {
    t == TokenV::DoubleAnd || t == TokenV::DoubleOr
}

/// Whether a token is one of the six comparison operators.
pub open spec fn spec_is_cmp_op(t: TokenV) -> bool {
    ||| t == TokenV::DoubleEqual
    ||| t == TokenV::NonEqual
    ||| t == TokenV::LessThan
    ||| t == TokenV::GreaterThan
    ||| t == TokenV::LessThanEq
    ||| t == TokenV::GreaterThanEq
}

/// Whether a token is an additive operator.
pub open spec fn spec_is_add_op(t: TokenV) -> bool {
    t == TokenV::Plus || t == TokenV::Minus
}

/// Whether a token is a multiplicative operator.
pub open spec fn spec_is_mul_op(t: TokenV) -> bool {
    t == TokenV::Star || t == TokenV::Slash
}

/// A left-associative fold step: the combined node covers both operands.
pub open spec fn fold_node(left: NodeV, op: TokenV, right: NodeV) -> NodeV {
    NodeV {
        ty: NodeTypeV::Operation(
            OperationTypeV::BinaryOperationNode(
                Box::new(BinaryOperationNodeV { left, operation: op, right }),
            ),
        ),
        pos: spec_combine(left.pos, right.pos),
    }
}

/// The bounds under which the parser works.
pub open spec fn parse_bounds(toks: Seq<(TokenV, PosV)>, i: int) -> bool {
    &&& 0 <= i <= toks.len() + 1
    &&& toks.len() + 10 < usize::MAX
}

/// An expression: `let <ident> = <expr>`, or the logical level.
#[verifier::opaque]
pub open spec fn spec_parse_expr(toks: Seq<(TokenV, PosV)>, i: int) -> Result<(NodeV, int), ErrV>
    decreases toks.len() + 2 - i, 1int, 6int
        when parse_bounds(toks, i)
{
    if tok_at(toks, i) matches Some((TokenV::Keyword(Keyword::Let), _)) {
        match tok_at(toks, i + 1) {
            Some((t1, pos)) => match t1 {
                TokenV::Ident(name) => {
                    if tok_at(toks, i + 2) matches Some((TokenV::Equal, _)) {
                        match spec_parse_expr(toks, i + 3) {
                            Ok((expr, j)) => Ok(
                                (
                                    NodeV {
                                        ty: NodeTypeV::Assign(
                                            AssignmentV { name, expr: Box::new(expr) },
                                        ),
                                        pos,
                                    },
                                    j,
                                ),
                            ),
                            Err(e) => Err(e),
                        }
                    } else {
                        Err(spec_err_at(ErrorKind::SyntaxError, "expected ="@, pos))
                    }
                },
                _ => Err(spec_err_at(ErrorKind::SyntaxError, "expected identifier"@, pos)),
            },
            None => Err(spec_err(ErrorKind::SyntaxError, "expected expression"@)),
        }
    } else {
        match spec_comp_expr(toks, i) {
            Ok((left, j)) => spec_or_more(toks, step(toks, i, j), left),
            Err(e) => Err(e),
        }
    }
}

/// The left-associative fold over `&&` and `||`.
pub open spec fn spec_or_more(toks: Seq<(TokenV, PosV)>, i: int, left: NodeV) -> Result<
    (NodeV, int),
    ErrV,
>
    decreases toks.len() + 2 - i, 1int, 5int
        when parse_bounds(toks, i)
{
    match tok_at(toks, i) {
        Some((t, pos)) => if spec_is_or_op(t) {
            match spec_comp_expr(toks, i + 1) {
                Ok((right, j)) => spec_or_more(
                    toks,
                    step(toks, i + 1, j),
                    fold_node(left, t, right),
                ),
                Err(e) => Err(e),
            }
        } else {
            Ok((left, i))
        },
        None => Ok((left, i)),
    }
}

/// The comparison level: prefix `!` recursing into itself, else the
/// left-associative fold over the comparison operators.
pub open spec fn spec_comp_expr(toks: Seq<(TokenV, PosV)>, i: int) -> Result<(NodeV, int), ErrV>
    decreases toks.len() + 2 - i, 1int, 4int
        when parse_bounds(toks, i)
{
    match tok_at(toks, i) {
        Some((TokenV::Bang, pos)) => match spec_comp_expr(toks, i + 1) {
            Ok((node, j)) => Ok(
                (
                    NodeV {
                        ty: NodeTypeV::Operation(
                            OperationTypeV::UnaryOperationNode(
                                Box::new(
                                    UnaryOperationNodeV { operation: UnaryOperation::Not, node },
                                ),
                            ),
                        ),
                        pos,
                    },
                    j,
                ),
            ),
            Err(e) => Err(e),
        },
        _ => match spec_arith_expr(toks, i) {
            Ok((left, j)) => spec_cmp_more(toks, step(toks, i, j), left),
            Err(e) => Err(e),
        },
    }
}

/// The left-associative fold over the comparison operators.
pub open spec fn spec_cmp_more(toks: Seq<(TokenV, PosV)>, i: int, left: NodeV) -> Result<
    (NodeV, int),
    ErrV,
>
    decreases toks.len() + 2 - i, 1int, 3int
        when parse_bounds(toks, i)
{
    match tok_at(toks, i) {
        Some((t, pos)) => if spec_is_cmp_op(t) {
            match spec_arith_expr(toks, i + 1) {
                Ok((right, j)) => spec_cmp_more(
                    toks,
                    step(toks, i + 1, j),
                    fold_node(left, t, right),
                ),
                Err(e) => Err(e),
            }
        } else {
            Ok((left, i))
        },
        None => Ok((left, i)),
    }
}

/// The additive level.
pub open spec fn spec_arith_expr(toks: Seq<(TokenV, PosV)>, i: int) -> Result<(NodeV, int), ErrV>
    decreases toks.len() + 2 - i, 1int, 2int
        when parse_bounds(toks, i)
{
    match spec_term(toks, i) {
        Ok((left, j)) => spec_arith_more(toks, step(toks, i, j), left),
        Err(e) => Err(e),
    }
}

/// The left-associative fold over `+` and `-`.
pub open spec fn spec_arith_more(toks: Seq<(TokenV, PosV)>, i: int, left: NodeV) -> Result<
    (NodeV, int),
    ErrV,
>
    decreases toks.len() + 2 - i, 1int, 1int
        when parse_bounds(toks, i)
{
    match tok_at(toks, i) {
        Some((t, pos)) => if spec_is_add_op(t) {
            match spec_term(toks, i + 1) {
                Ok((right, j)) => spec_arith_more(
                    toks,
                    step(toks, i + 1, j),
                    fold_node(left, t, right),
                ),
                Err(e) => Err(e),
            }
        } else {
            Ok((left, i))
        },
        None => Ok((left, i)),
    }
}

/// The multiplicative level.
pub open spec fn spec_term(toks: Seq<(TokenV, PosV)>, i: int) -> Result<(NodeV, int), ErrV>
    decreases toks.len() + 2 - i, 0int, 2int
        when parse_bounds(toks, i)
{
    match spec_atom(toks, i) {
        Ok((left, j)) => spec_term_more(toks, step(toks, i, j), left),
        Err(e) => Err(e),
    }
}

/// The left-associative fold over `*` and `/`.
pub open spec fn spec_term_more(toks: Seq<(TokenV, PosV)>, i: int, left: NodeV) -> Result<
    (NodeV, int),
    ErrV,
>
    decreases toks.len() + 2 - i, 0int, 1int
        when parse_bounds(toks, i)
{
    match tok_at(toks, i) {
        Some((t, pos)) => if spec_is_mul_op(t) {
            match spec_atom(toks, i + 1) {
                Ok((right, j)) => spec_term_more(
                    toks,
                    step(toks, i + 1, j),
                    fold_node(left, t, right),
                ),
                Err(e) => Err(e),
            }
        } else {
            Ok((left, i))
        },
        None => Ok((left, i)),
    }
}

/// An atom: a literal, a variable, a signed atom, a parenthesized or braced
/// sub-expression, or one of the control-flow forms; reaching the terminal
/// EOF token here is an end-of-file error, not a syntax error.
pub open spec fn spec_atom(toks: Seq<(TokenV, PosV)>, i: int) -> Result<(NodeV, int), ErrV>
    decreases toks.len() + 2 - i, 0int, 0int
        when parse_bounds(toks, i)
{
    match tok_at(toks, i) {
        Some((tok, pos)) => match tok {
            TokenV::Type(ty) => Ok((NodeV { ty: NodeTypeV::Node(ty), pos }, i + 1)),
            TokenV::Ident(name) => Ok((NodeV { ty: NodeTypeV::Var(name), pos }, i + 1)),
            TokenV::Minus => spec_signed_atom(toks, i, UnaryOperation::Minus, pos),
            TokenV::Plus => spec_signed_atom(toks, i, UnaryOperation::Plus, pos),
            TokenV::EOF => Err(
                spec_err_at(
                    ErrorKind::EndOfFile,
                    "expected something but reached the end of file"@,
                    pos,
                ),
            ),
            TokenV::LeftParenthesis => match spec_parse_expr(toks, i + 1) {
                Ok((expr, j0)) => {
                    let j = step(toks, i + 1, j0);
                    if tok_at(toks, j) matches Some((TokenV::RightParenthesis, _)) {
                        Ok((expr, j + 1))
                    } else {
                        Err(spec_err_at(ErrorKind::SyntaxError, "expected )"@, pos))
                    }
                },
                Err(e) => Err(e),
            },
            TokenV::LeftCurlyBrackets => match spec_parse_expr(toks, i + 1) {
                Ok((expr, j0)) => {
                    let j = step(toks, i + 1, j0);
                    if tok_at(toks, j) matches Some((TokenV::RightCurlyBrackets, _)) {
                        Ok((expr, j + 1))
                    } else {
                        Err(spec_err_at(ErrorKind::SyntaxError, "expected }"@, pos))
                    }
                },
                Err(e) => Err(e),
            },
            TokenV::Keyword(Keyword::If) => spec_if_expr(toks, i, pos),
            TokenV::Keyword(Keyword::While) => spec_while_expr(toks, i, pos),
            TokenV::Keyword(Keyword::For) => spec_for_expr(toks, i, pos),
            _ => Err(
                spec_err_at(
                    ErrorKind::SyntaxError,
                    spec_token_display(tok) + " is not valid in this context"@,
                    pos,
                ),
            ),
        },
        None => Err(spec_err(ErrorKind::SyntaxError, "can't parse empty token"@)),
    }
}

/// A `+` or `-` prefix recursing into the atom it signs.
pub open spec fn spec_signed_atom(
    toks: Seq<(TokenV, PosV)>,
    i: int,
    op: UnaryOperation,
    pos: PosV,
) -> Result<(NodeV, int), ErrV>
    decreases toks.len() + 1 - i, 0int, 1int
        when parse_bounds(toks, i)
{
    match spec_atom(toks, i + 1) {
        Ok((node, j)) => Ok(
            (
                NodeV {
                    ty: NodeTypeV::Operation(
                        OperationTypeV::UnaryOperationNode(
                            Box::new(UnaryOperationNodeV { operation: op, node }),
                        ),
                    ),
                    pos,
                },
                j,
            ),
        ),
        Err(e) => Err(e),
    }
}

/// `if <expr> then <expr>`, then the elif chain.
pub open spec fn spec_if_expr(toks: Seq<(TokenV, PosV)>, i: int, position: PosV) -> Result<
    (NodeV, int),
    ErrV,
>
    decreases toks.len() + 1 - i, 2int, 0int
        when parse_bounds(toks, i)
{
    match spec_parse_expr(toks, i + 1) {
        Ok((cond, j0)) => {
            let j = step(toks, i + 1, j0);
            match tok_at(toks, j) {
                Some((TokenV::Keyword(Keyword::Then), _)) => match spec_parse_expr(toks, j + 1) {
                    Ok((body, k0)) => {
                        let k = step(toks, j + 1, k0);
                        spec_if_cases(toks, k, seq![(cond, body)], position)
                    },
                    Err(e) => Err(e),
                },
                Some((_, pos)) => Err(spec_err_at(ErrorKind::SyntaxError, "expected then"@, pos)),
                None => Err(spec_err(ErrorKind::SyntaxError, "expected then"@)),
            }
        },
        Err(e) => Err(e),
    }
}

/// The elif chain, then the optional else body; the first true condition
/// wins at evaluation time, and a missing else defaults to the none value.
pub open spec fn spec_if_cases(
    toks: Seq<(TokenV, PosV)>,
    i: int,
    cases: Seq<(NodeV, NodeV)>,
    position: PosV,
) -> Result<(NodeV, int), ErrV>
    decreases toks.len() + 2 - i, 2int, 0int
        when parse_bounds(toks, i)
{
    if tok_at(toks, i) matches Some((TokenV::Keyword(Keyword::Elif), _)) {
        match spec_parse_expr(toks, i + 1) {
            Ok((cond, j0)) => {
                let j = step(toks, i + 1, j0);
                match tok_at(toks, j) {
                    Some((TokenV::Keyword(Keyword::Then), _)) => match spec_parse_expr(
                        toks,
                        j + 1,
                    ) {
                        Ok((body, k0)) => {
                            let k = step(toks, j + 1, k0);
                            spec_if_cases(toks, k, cases.push((cond, body)), position)
                        },
                        Err(e) => Err(e),
                    },
                    Some((_, pos)) => Err(
                        spec_err_at(ErrorKind::SyntaxError, "expected then"@, pos),
                    ),
                    None => Err(spec_err(ErrorKind::SyntaxError, "expected then"@)),
                }
            },
            Err(e) => Err(e),
        }
    } else if tok_at(toks, i) matches Some((TokenV::Keyword(Keyword::Else), _)) {
        match spec_parse_expr(toks, i + 1) {
            Ok((else_body, j0)) => {
                let j = step(toks, i + 1, j0);
                Ok((spec_if_node(toks, cases, Some(else_body), j, position), j))
            },
            Err(e) => Err(e),
        }
    } else {
        Ok((spec_if_node(toks, cases, None, i, position), i))
    }
}

/// The finished if-node: its span runs from the `if` keyword through the
/// token that follows the construct, when there is one.
pub open spec fn spec_if_node(
    toks: Seq<(TokenV, PosV)>,
    cases: Seq<(NodeV, NodeV)>,
    else_case: Option<NodeV>,
    i: int,
    position: PosV,
) -> NodeV {
    let pos = match tok_at(toks, i) {
        Some((_, p)) => spec_combine(position, p),
        None => position,
    };
    NodeV {
        ty: NodeTypeV::IfNode(
            IfNodeV {
                cases,
                else_case: match else_case {
                    Some(e) => Some(Box::new(e)),
                    None => None,
                },
            },
        ),
        pos,
    }
}

/// `while <expr> then <expr>`.
pub open spec fn spec_while_expr(toks: Seq<(TokenV, PosV)>, i: int, position: PosV) -> Result<
    (NodeV, int),
    ErrV,
>
    decreases toks.len() + 1 - i, 2int, 0int
        when parse_bounds(toks, i)
{
    match spec_parse_expr(toks, i + 1) {
        Ok((cond, j0)) => {
            let j = step(toks, i + 1, j0);
            if tok_at(toks, j) matches Some((TokenV::Keyword(Keyword::Then), _)) {
                match spec_parse_expr(toks, j + 1) {
                    Ok((body, k0)) => {
                        let k = step(toks, j + 1, k0);
                        Ok(
                            (
                                NodeV {
                                    ty: NodeTypeV::WhileNode(
                                        WhileNodeV {
                                            condition: Box::new(cond),
                                            body: Box::new(body),
                                        },
                                    ),
                                    pos: spec_combine(position, body.pos),
                                },
                                k,
                            ),
                        )
                    },
                    Err(e) => Err(e),
                }
            } else {
                Err(spec_err_at(ErrorKind::SyntaxError, "expected 'then'"@, position))
            }
        },
        Err(e) => Err(e),
    }
}

/// `for <ident> in <expr> to <expr> then <expr>`.
pub open spec fn spec_for_expr(toks: Seq<(TokenV, PosV)>, i: int, position: PosV) -> Result<
    (NodeV, int),
    ErrV,
>
    decreases toks.len() + 1 - i, 2int, 0int
        when parse_bounds(toks, i)
{
    match tok_at(toks, i + 1) {
        Some((TokenV::Ident(var_name), _)) => {
            if tok_at(toks, i + 2) matches Some((TokenV::Keyword(Keyword::In), _)) {
                match spec_parse_expr(toks, i + 3) {
                    Ok((start, j0)) => {
                        let j = step(toks, i + 3, j0);
                        if tok_at(toks, j) matches Some((TokenV::Keyword(Keyword::To), _)) {
                            match spec_parse_expr(toks, j + 1) {
                                Ok((end, k0)) => {
                                    let k = step(toks, j + 1, k0);
                                    if tok_at(toks, k) matches Some(
                                        (TokenV::Keyword(Keyword::Then), _),
                                    ) {
                                        match spec_parse_expr(toks, k + 1) {
                                            Ok((body, m0)) => {
                                                let m = step(toks, k + 1, m0);
                                                Ok(
                                                    (
                                                        NodeV {
                                                            ty: NodeTypeV::ForNode(
                                                                ForNodeV {
                                                                    var_name,
                                                                    start: Box::new(start),
                                                                    end: Box::new(end),
                                                                    body: Box::new(body),
                                                                },
                                                            ),
                                                            pos: spec_combine(position, end.pos),
                                                        },
                                                        m,
                                                    ),
                                                )
                                            },
                                            Err(e) => Err(e),
                                        }
                                    } else {
                                        Err(
                                            spec_err_at(
                                                ErrorKind::SyntaxError,
                                                "expected 'then'"@,
                                                position,
                                            ),
                                        )
                                    }
                                },
                                Err(e) => Err(e),
                            }
                        } else {
                            Err(spec_err_at(ErrorKind::SyntaxError, "expected 'to'"@, position))
                        }
                    },
                    Err(e) => Err(e),
                }
            } else {
                Err(spec_err_at(ErrorKind::SyntaxError, "expected 'in'"@, position))
            }
        },
        _ => Err(spec_err_at(ErrorKind::SyntaxError, "expected ident"@, position)),
    }
}

/// A whole program: one expression that must consume every token up to the
/// terminal EOF; any trailing token is a syntax error with a fixed message.
pub open spec fn spec_parse(toks: Seq<(TokenV, PosV)>) -> Result<NodeV, ErrV> {
    match spec_parse_expr(toks, 0) {
        Ok((node, j0)) => {
            let j = step(toks, 0, j0);
            match tok_at(toks, j) {
                Some((t, pos)) => if t == TokenV::EOF {
                    Ok(node)
                } else {
                    Err(
                        spec_err_at(
                            ErrorKind::SyntaxError,
                            "Expected one of the following: '+' '-' '*' or '/'"@,
                            pos,
                        ),
                    )
                },
                None => Ok(node),
            }
        },
        Err(e) => Err(e),
    }
}

/// Mathematical model of the parser state: the token stream and the cursor.
pub ghost struct ParserV {
    pub tokens: Seq<(TokenV, PosV)>,
    pub index: int,
}

/// The recursive-descent parser over a lexed token stream.
pub struct Parser {
    tokens: Vec<(Token, Position)>,
    index: usize,
}

impl View for Parser {
    type V = ParserV;

    closed spec fn view(&self) -> ParserV {
        ParserV { tokens: crate::lexer::toks_view(self.tokens@), index: self.index as int }
    }
}

/// Whether the parser state is consistent: the cursor sits inside the
/// stream or just past it, and the stream is clear of the index limits.
pub closed spec fn parser_wf(p: &Parser) -> bool {
    &&& p.index <= p.tokens@.len()
    &&& p.tokens@.len() + 10 < usize::MAX
    &&& crate::lexer::toks_view(p.tokens@).len() == p.tokens@.len()
}

impl Parser {
    pub fn new(tokens: Vec<(Token, Position)>) -> (r: Self)
        requires
            tokens@.len() + 10 < usize::MAX,
        ensures
            parser_wf(&r),
            r@.tokens == crate::lexer::toks_view(tokens@),
            r@.index == 0,
    {
        proof {
            assert(crate::lexer::toks_view(tokens@).len() == tokens@.len());
        }
        Self { tokens, index: 0 }
    }

    fn current_token(&self) -> (r: Option<(Token, Position)>)
        ensures
            match (r, tok_at(self@.tokens, self@.index)) {
                (Some(tp), Some(tv)) => tp.0@ == tv.0 && tp.1@ == tv.1,
                (None, None) => true,
                _ => false,
            },
    {
        if self.index < self.tokens.len() {
            let tp = (self.tokens[self.index].0.clone(), self.tokens[self.index].1.clone());
            proof {
                assert(self@.tokens[self.index as int] == (
                    self.tokens@[self.index as int].0@,
                    self.tokens@[self.index as int].1@,
                ));
            }
            Some(tp)
        } else {
            proof {
                assert(self@.tokens.len() == self.tokens@.len());
            }
            None
        }
    }

    fn advance(&mut self)
        requires
            parser_wf(old(self)),
            old(self)@.index < old(self)@.tokens.len(),
        ensures
            parser_wf(final(self)),
            final(self)@.tokens == old(self)@.tokens,
            final(self)@.index == old(self)@.index + 1,
    {
        proof {
            assert(self@.tokens.len() == self.tokens@.len());
        }
        self.index = self.index + 1;
    }

    /// An expression: `let <ident> = <expr>` or the logical level, as
    /// `spec_parse_expr` describes it.
    #[verifier::loop_isolation(false)]
    #[verifier::rlimit(100)]
    pub fn expr(&mut self) -> (r: Result<Node, Error>)
        requires
            parser_wf(old(self)),
        ensures
            parser_wf(final(self)),
            final(self)@.tokens == old(self)@.tokens,
            r is Ok ==> old(self)@.index < final(self)@.index <= old(self)@.tokens.len(),
            match r {
                Ok(n) => spec_parse_expr(old(self)@.tokens, old(self)@.index) == Ok::<
                    (NodeV, int),
                    ErrV,
                >((n@, final(self)@.index)),
                Err(e) => spec_parse_expr(old(self)@.tokens, old(self)@.index) == Err::<
                    (NodeV, int),
                    ErrV,
                >(e@),
            },
        decreases self@.tokens.len() + 2 - self@.index, 1int, 6int,
    {
        
        let ghost tv = self@.tokens;
        let ghost i0 = self@.index;
        let is_let = match self.current_token() {
            Some((Token::Keyword(Keyword::Let), _)) => true,
            _ => false,
        };
        if is_let {
            self.advance();
            match self.current_token() {
                Some(c) => {
                    let pos = c.1;
                    match c.0 {
                        Token::Ident(name) => {
                            let ghost namev = name@;
                            self.advance();
                            let is_eq = match self.current_token() {
                                Some((Token::Equal, _)) => true,
                                _ => false,
                            };
                            if is_eq {
                                self.advance();
                                match self.expr() {
                                    Ok(expr) => {
                                        let ghost ev = expr@;
                                        let node = Node::new(
                                            NodeType::Assign(Assignment::new(name, expr)),
                                            pos,
                                        );
                                        proof {
                                            reveal(spec_parse_expr);
                                            assert(node@ == NodeV {
                                                ty: NodeTypeV::Assign(
                                                    AssignmentV { name: namev, expr: Box::new(ev) },
                                                ),
                                                pos: pos@,
                                            });
                                            assert(spec_parse_expr(tv, i0) == Ok::<
                                                (NodeV, int),
                                                ErrV,
                                            >((node@, self@.index)));
                                        }
                                        Ok(node)
                                    },
                                    Err(e) => {
                                        proof {
                                            reveal(spec_parse_expr);
                                            assert(spec_parse_expr(tv, i0) == Err::<
                                                (NodeV, int),
                                                ErrV,
                                            >(e@));
                                        }
                                        Err(e)
                                    },
                                }
                            } else {
                                let e = Error::new(
                                    ErrorKind::SyntaxError,
                                    "expected =",
                                    Some(pos),
                                );
                                proof {
                                    reveal(spec_parse_expr);
                                    assert(spec_parse_expr(tv, i0) == Err::<(NodeV, int), ErrV>(
                                        e@,
                                    ));
                                }
                                Err(e)
                            }
                        },
                        _ => {
                            let e = Error::new(
                                ErrorKind::SyntaxError,
                                "expected identifier",
                                Some(pos),
                            );
                            proof {
                                reveal(spec_parse_expr);
                                assert(spec_parse_expr(tv, i0) == Err::<(NodeV, int), ErrV>(e@));
                            }
                            Err(e)
                        },
                    }
                },
                None => {
                    let e = Error::new(ErrorKind::SyntaxError, "expected expression", None);
                    proof {
                        reveal(spec_parse_expr);
                        assert(spec_parse_expr(tv, i0) == Err::<(NodeV, int), ErrV>(e@));
                    }
                    Err(e)
                },
            }
        } else {
            let mut left = match self.comp_expr() {
                Ok(n) => n,
                Err(e) => {
                    proof {
                        reveal(spec_parse_expr);
                        assert(spec_parse_expr(tv, i0) == Err::<(NodeV, int), ErrV>(e@));
                    }
                    return Err(e);
                },
            };
            let ghost i1 = self@.index;
            let ghost left0 = left@;
            proof {
                reveal(spec_parse_expr);
                assert(spec_parse_expr(tv, i0) == spec_or_more(tv, i1, left0));
            }
            let mut cont = self.next_is_or_op();
            while cont
                invariant
                    parser_wf(self),
                    self@.tokens == tv,
                    i1 <= self@.index <= tv.len(),
                    spec_or_more(tv, self@.index, left@) == spec_or_more(tv, i1, left0),
                    cont == (match tok_at(tv, self@.index) {
                        Some((t, _)) => spec_is_or_op(t),
                        None => false,
                    }),
                decreases tv.len() - self@.index,
            {
                let op = self.current_token().unwrap();
                let ghost opv = op.0@;
                let ghost cur = self@.index;
                let ghost lv = left@;
                self.advance();
                let right = match self.comp_expr() {
                    Ok(n) => n,
                    Err(e) => {
                        proof {
                            assert(spec_or_more(tv, cur, lv) == Err::<(NodeV, int), ErrV>(e@));
                        }
                        return Err(e);
                    },
                };
                let ghost rv = right@;
                let left_pos = left.get_pos();
                let right_pos = right.get_pos();
                let node_pos = left_pos.combine(right_pos);
                left = Node::new(
                    NodeType::Operation(
                        OperationType::BinaryOperationNode(
                            Box::new(BinaryOperationNode::new(left, op.0, right)),
                        ),
                    ),
                    node_pos,
                );
                proof {
                    assert(left@ == fold_node(lv, opv, rv));
                    assert(spec_or_more(tv, cur, lv) == spec_or_more(tv, self@.index, left@));
                }
                cont = self.next_is_or_op();
            }
            proof {
                assert(spec_or_more(tv, self@.index, left@) == Ok::<(NodeV, int), ErrV>(
                    (left@, self@.index),
                ));
            }
            Ok(left)
        }
    }

    fn next_is_or_op(&self) -> (r: bool)
        ensures
            r == (match tok_at(self@.tokens, self@.index) {
                Some((t, _)) => spec_is_or_op(t),
                None => false,
            }),
    {
        match self.current_token() {
            Some((Token::DoubleAnd, _)) => true,
            Some((Token::DoubleOr, _)) => true,
            _ => false,
        }
    }

    fn next_is_cmp_op(&self) -> (r: bool)
        ensures
            r == (match tok_at(self@.tokens, self@.index) {
                Some((t, _)) => spec_is_cmp_op(t),
                None => false,
            }),
    {
        match self.current_token() {
            Some((Token::DoubleEqual, _)) => true,
            Some((Token::NonEqual, _)) => true,
            Some((Token::LessThan, _)) => true,
            Some((Token::GreaterThan, _)) => true,
            Some((Token::LessThanEq, _)) => true,
            Some((Token::GreaterThanEq, _)) => true,
            _ => false,
        }
    }

    fn next_is_add_op(&self) -> (r: bool)
        ensures
            r == (match tok_at(self@.tokens, self@.index) {
                Some((t, _)) => spec_is_add_op(t),
                None => false,
            }),
    {
        match self.current_token() {
            Some((Token::Plus, _)) => true,
            Some((Token::Minus, _)) => true,
            _ => false,
        }
    }

    fn next_is_mul_op(&self) -> (r: bool)
        ensures
            r == (match tok_at(self@.tokens, self@.index) {
                Some((t, _)) => spec_is_mul_op(t),
                None => false,
            }),
    {
        match self.current_token() {
            Some((Token::Star, _)) => true,
            Some((Token::Slash, _)) => true,
            _ => false,
        }
    }

    #[verifier::loop_isolation(false)]
    #[verifier::rlimit(100)]
    fn comp_expr(&mut self) -> (r: Result<Node, Error>)
        requires
            parser_wf(old(self)),
        ensures
            parser_wf(final(self)),
            final(self)@.tokens == old(self)@.tokens,
            r is Ok ==> old(self)@.index < final(self)@.index <= old(self)@.tokens.len(),
            match r {
                Ok(n) => spec_comp_expr(old(self)@.tokens, old(self)@.index) == Ok::<
                    (NodeV, int),
                    ErrV,
                >((n@, final(self)@.index)),
                Err(e) => spec_comp_expr(old(self)@.tokens, old(self)@.index) == Err::<
                    (NodeV, int),
                    ErrV,
                >(e@),
            },
        decreases self@.tokens.len() + 2 - self@.index, 1int, 4int,
    {
        
        let ghost tv = self@.tokens;
        let ghost i0 = self@.index;
        let bang = match self.current_token() {
            Some((Token::Bang, pos)) => Some(pos),
            _ => None,
        };
        match bang {
            Some(pos) => {
                self.advance();
                match self.comp_expr() {
                    Ok(node) => {
                        let ghost nv = node@;
                        let r = Node::new(
                            NodeType::Operation(
                                OperationType::UnaryOperationNode(
                                    Box::new(
                                        UnaryOperationNode::from_token(
                                            Token::Bang,
                                            node,
                                        ).unwrap(),
                                    ),
                                ),
                            ),
                            pos,
                        );
                        proof {
                            assert(r@ == NodeV {
                                ty: NodeTypeV::Operation(
                                    OperationTypeV::UnaryOperationNode(
                                        Box::new(
                                            UnaryOperationNodeV {
                                                operation: UnaryOperation::Not,
                                                node: nv,
                                            },
                                        ),
                                    ),
                                ),
                                pos: pos@,
                            });
                        }
                        Ok(r)
                    },
                    Err(e) => Err(e),
                }
            },
            None => {
                let mut left = match self.arith_expr() {
                    Ok(n) => n,
                    Err(e) => {
                        return Err(e);
                    },
                };
                let ghost i1 = self@.index;
                let ghost left0 = left@;
                proof {
                    assert(spec_comp_expr(tv, i0) == spec_cmp_more(tv, i1, left0));
                }
                let mut cont = self.next_is_cmp_op();
                while cont
                    invariant
                        parser_wf(self),
                        self@.tokens == tv,
                        i1 <= self@.index <= tv.len(),
                        spec_cmp_more(tv, self@.index, left@) == spec_cmp_more(tv, i1, left0),
                        cont == (match tok_at(tv, self@.index) {
                            Some((t, _)) => spec_is_cmp_op(t),
                            None => false,
                        }),
                    decreases tv.len() - self@.index,
                {
                    let op = self.current_token().unwrap();
                    let ghost opv = op.0@;
                    let ghost cur = self@.index;
                    let ghost lv = left@;
                    self.advance();
                    let right = match self.arith_expr() {
                        Ok(n) => n,
                        Err(e) => {
                            proof {
                                assert(spec_cmp_more(tv, cur, lv) == Err::<(NodeV, int), ErrV>(
                                    e@,
                                ));
                            }
                            return Err(e);
                        },
                    };
                    let ghost rv = right@;
                    let left_pos = left.get_pos();
                    let right_pos = right.get_pos();
                    let node_pos = left_pos.combine(right_pos);
                    left = Node::new(
                        NodeType::Operation(
                            OperationType::BinaryOperationNode(
                                Box::new(BinaryOperationNode::new(left, op.0, right)),
                            ),
                        ),
                        node_pos,
                    );
                    proof {
                        assert(left@ == fold_node(lv, opv, rv));
                        assert(spec_cmp_more(tv, cur, lv) == spec_cmp_more(
                            tv,
                            self@.index,
                            left@,
                        ));
                    }
                    cont = self.next_is_cmp_op();
                }
                proof {
                    assert(spec_cmp_more(tv, self@.index, left@) == Ok::<(NodeV, int), ErrV>(
                        (left@, self@.index),
                    ));
                }
                Ok(left)
            },
        }
    }

    #[verifier::loop_isolation(false)]
    #[verifier::rlimit(100)]
    fn arith_expr(&mut self) -> (r: Result<Node, Error>)
        requires
            parser_wf(old(self)),
        ensures
            parser_wf(final(self)),
            final(self)@.tokens == old(self)@.tokens,
            r is Ok ==> old(self)@.index < final(self)@.index <= old(self)@.tokens.len(),
            match r {
                Ok(n) => spec_arith_expr(old(self)@.tokens, old(self)@.index) == Ok::<
                    (NodeV, int),
                    ErrV,
                >((n@, final(self)@.index)),
                Err(e) => spec_arith_expr(old(self)@.tokens, old(self)@.index) == Err::<
                    (NodeV, int),
                    ErrV,
                >(e@),
            },
        decreases self@.tokens.len() + 2 - self@.index, 1int, 2int,
    {
        
        let ghost tv = self@.tokens;
        let ghost i0 = self@.index;
        let mut left = match self.term() {
            Ok(n) => n,
            Err(e) => {
                return Err(e);
            },
        };
        let ghost i1 = self@.index;
        let ghost left0 = left@;
        proof {
            assert(spec_arith_expr(tv, i0) == spec_arith_more(tv, i1, left0));
        }
        let mut cont = self.next_is_add_op();
        while cont
            invariant
                parser_wf(self),
                self@.tokens == tv,
                i1 <= self@.index <= tv.len(),
                spec_arith_more(tv, self@.index, left@) == spec_arith_more(tv, i1, left0),
                cont == (match tok_at(tv, self@.index) {
                    Some((t, _)) => spec_is_add_op(t),
                    None => false,
                }),
            decreases tv.len() - self@.index,
        {
            let op = self.current_token().unwrap();
            let ghost opv = op.0@;
            let ghost cur = self@.index;
            let ghost lv = left@;
            self.advance();
            let right = match self.term() {
                Ok(n) => n,
                Err(e) => {
                    proof {
                        assert(spec_arith_more(tv, cur, lv) == Err::<(NodeV, int), ErrV>(e@));
                    }
                    return Err(e);
                },
            };
            let ghost rv = right@;
            let left_pos = left.get_pos();
            let right_pos = right.get_pos();
            let node_pos = left_pos.combine(right_pos);
            left = Node::new(
                NodeType::Operation(
                    OperationType::BinaryOperationNode(
                        Box::new(BinaryOperationNode::new(left, op.0, right)),
                    ),
                ),
                node_pos,
            );
            proof {
                assert(left@ == fold_node(lv, opv, rv));
                assert(spec_arith_more(tv, cur, lv) == spec_arith_more(tv, self@.index, left@));
            }
            cont = self.next_is_add_op();
        }
        proof {
            assert(spec_arith_more(tv, self@.index, left@) == Ok::<(NodeV, int), ErrV>(
                (left@, self@.index),
            ));
        }
        Ok(left)
    }

    #[verifier::loop_isolation(false)]
    #[verifier::rlimit(100)]
    fn term(&mut self) -> (r: Result<Node, Error>)
        requires
            parser_wf(old(self)),
        ensures
            parser_wf(final(self)),
            final(self)@.tokens == old(self)@.tokens,
            r is Ok ==> old(self)@.index < final(self)@.index <= old(self)@.tokens.len(),
            match r {
                Ok(n) => spec_term(old(self)@.tokens, old(self)@.index) == Ok::<
                    (NodeV, int),
                    ErrV,
                >((n@, final(self)@.index)),
                Err(e) => spec_term(old(self)@.tokens, old(self)@.index) == Err::<
                    (NodeV, int),
                    ErrV,
                >(e@),
            },
        decreases self@.tokens.len() + 2 - self@.index, 0int, 2int,
    {
        
        let ghost tv = self@.tokens;
        let ghost i0 = self@.index;
        let mut left = match self.atom() {
            Ok(n) => n,
            Err(e) => {
                return Err(e);
            },
        };
        let ghost i1 = self@.index;
        let ghost left0 = left@;
        proof {
            assert(spec_term(tv, i0) == spec_term_more(tv, i1, left0));
        }
        let mut cont = self.next_is_mul_op();
        while cont
            invariant
                parser_wf(self),
                self@.tokens == tv,
                i1 <= self@.index <= tv.len(),
                spec_term_more(tv, self@.index, left@) == spec_term_more(tv, i1, left0),
                cont == (match tok_at(tv, self@.index) {
                    Some((t, _)) => spec_is_mul_op(t),
                    None => false,
                }),
            decreases tv.len() - self@.index,
        {
            let op = self.current_token().unwrap();
            let ghost opv = op.0@;
            let ghost cur = self@.index;
            let ghost lv = left@;
            self.advance();
            let right = match self.atom() {
                Ok(n) => n,
                Err(e) => {
                    proof {
                        assert(spec_term_more(tv, cur, lv) == Err::<(NodeV, int), ErrV>(e@));
                    }
                    return Err(e);
                },
            };
            let ghost rv = right@;
            let left_pos = left.get_pos();
            let right_pos = right.get_pos();
            let node_pos = left_pos.combine(right_pos);
            left = Node::new(
                NodeType::Operation(
                    OperationType::BinaryOperationNode(
                        Box::new(BinaryOperationNode::new(left, op.0, right)),
                    ),
                ),
                node_pos,
            );
            proof {
                assert(left@ == fold_node(lv, opv, rv));
                assert(spec_term_more(tv, cur, lv) == spec_term_more(tv, self@.index, left@));
            }
            cont = self.next_is_mul_op();
        }
        proof {
            assert(spec_term_more(tv, self@.index, left@) == Ok::<(NodeV, int), ErrV>(
                (left@, self@.index),
            ));
        }
        Ok(left)
    }

    #[verifier::loop_isolation(false)]
    #[verifier::rlimit(100)]
    #[verifier::spinoff_prover]
    fn atom(&mut self) -> (r: Result<Node, Error>)
        requires
            parser_wf(old(self)),
        ensures
            parser_wf(final(self)),
            final(self)@.tokens == old(self)@.tokens,
            r is Ok ==> old(self)@.index < final(self)@.index <= old(self)@.tokens.len(),
            match r {
                Ok(n) => spec_atom(old(self)@.tokens, old(self)@.index) == Ok::<
                    (NodeV, int),
                    ErrV,
                >((n@, final(self)@.index)),
                Err(e) => spec_atom(old(self)@.tokens, old(self)@.index) == Err::<
                    (NodeV, int),
                    ErrV,
                >(e@),
            },
        decreases self@.tokens.len() + 2 - self@.index, 0int, 0int,
    {
        
        let ghost tv = self@.tokens;
        let ghost i0 = self@.index;
        match self.current_token() {
            Some((Token::Type(ty), pos)) => {
                self.advance();
                Ok(Node::new(NodeType::Node(ty), pos))
            },
            Some((Token::Ident(ident), pos)) => {
                let ghost identv = ident@;
                self.advance();
                let node = Node::new(NodeType::Var(ident), pos);
                proof {
                    assert(node@ == NodeV { ty: NodeTypeV::Var(identv), pos: pos@ });
                }
                Ok(node)
            },
            Some((Token::Minus, pos)) => self.signed_atom(Token::Minus, pos),
            Some((Token::Plus, pos)) => self.signed_atom(Token::Plus, pos),
            Some((Token::EOF, position)) => Err(
                Error::new(
                    ErrorKind::EndOfFile,
                    "expected something but reached the end of file",
                    Some(position),
                ),
            ),
            Some((Token::LeftParenthesis, position)) => {
                self.advance();
                match self.expr() {
                    Ok(expr) => {
                        let closes = match self.current_token() {
                            Some((Token::RightParenthesis, _)) => true,
                            _ => false,
                        };
                        if closes {
                            self.advance();
                            Ok(expr)
                        } else {
                            Err(Error::new(ErrorKind::SyntaxError, "expected )", Some(position)))
                        }
                    },
                    Err(e) => Err(e),
                }
            },
            Some((Token::LeftCurlyBrackets, position)) => {
                self.advance();
                match self.expr() {
                    Ok(expr) => {
                        let closes = match self.current_token() {
                            Some((Token::RightCurlyBrackets, _)) => true,
                            _ => false,
                        };
                        if closes {
                            self.advance();
                            Ok(expr)
                        } else {
                            Err(Error::new(ErrorKind::SyntaxError, "expected }", Some(position)))
                        }
                    },
                    Err(e) => Err(e),
                }
            },
            Some((Token::Keyword(Keyword::If), position)) => self.if_expr(position),
            Some((Token::Keyword(Keyword::While), position)) => self.while_expr(position),
            Some((Token::Keyword(Keyword::For), position)) => self.for_expr(position),
            Some((token, position)) => {
                let ghost tokv = token@;
                let msg = token_display_string(&token).concat(" is not valid in this context");
                proof {
                    assert(msg@ =~= spec_token_display(tokv) + " is not valid in this context"@);
                }
                Err(Error::new(ErrorKind::SyntaxError, msg.as_str(), Some(position)))
            },
            None => Err(Error::new(ErrorKind::SyntaxError, "can't parse empty token", None)),
        }
    }

    #[verifier::rlimit(100)]
    fn signed_atom(&mut self, sign: Token, pos: Position) -> (r: Result<Node, Error>)
        requires
            parser_wf(old(self)),
            old(self)@.index < old(self)@.tokens.len(),
            tok_at(old(self)@.tokens, old(self)@.index) matches Some((t, _)) && t == sign@,
            pos@ == tok_at(old(self)@.tokens, old(self)@.index)->Some_0.1,
            sign@ == TokenV::Minus || sign@ == TokenV::Plus,
        ensures
            parser_wf(final(self)),
            final(self)@.tokens == old(self)@.tokens,
            r is Ok ==> old(self)@.index < final(self)@.index <= old(self)@.tokens.len(),
            match r {
                Ok(n) => spec_signed_atom(
                    old(self)@.tokens,
                    old(self)@.index,
                    spec_unary_from_token(sign@)->Some_0,
                    pos@,
                ) == Ok::<(NodeV, int), ErrV>((n@, final(self)@.index)),
                Err(e) => spec_signed_atom(
                    old(self)@.tokens,
                    old(self)@.index,
                    spec_unary_from_token(sign@)->Some_0,
                    pos@,
                ) == Err::<(NodeV, int), ErrV>(e@),
            },
        decreases self@.tokens.len() + 1 - self@.index, 0int, 1int,
    {
        
        let ghost tv = self@.tokens;
        let ghost i0 = self@.index;
        let ghost opv = spec_unary_from_token(sign@)->Some_0;
        let ghost posv = tok_at(self@.tokens, self@.index)->Some_0.1;
        self.advance();
        match self.atom() {
            Ok(node) => {
                let ghost nv = node@;
                let r = Node::new(
                    NodeType::Operation(
                        OperationType::UnaryOperationNode(
                            Box::new(UnaryOperationNode::from_token(sign, node).unwrap()),
                        ),
                    ),
                    pos,
                );
                proof {
                    assert(r@ == NodeV {
                        ty: NodeTypeV::Operation(
                            OperationTypeV::UnaryOperationNode(
                                Box::new(UnaryOperationNodeV { operation: opv, node: nv }),
                            ),
                        ),
                        pos: pos@,
                    });
                }
                Ok(r)
            },
            Err(e) => {
                Err(e)
            },
        }
    }
}


impl Parser {
    /// `if <expr> then <expr> (elif <expr> then <expr>)* (else <expr>)?`.
    #[verifier::loop_isolation(false)]
    #[verifier::spinoff_prover]
    #[verifier::rlimit(100)]
    pub fn if_expr(&mut self, position: Position) -> (r: Result<Node, Error>)
        requires
            parser_wf(old(self)),
            old(self)@.index < old(self)@.tokens.len(),
        ensures
            parser_wf(final(self)),
            final(self)@.tokens == old(self)@.tokens,
            r is Ok ==> old(self)@.index < final(self)@.index <= old(self)@.tokens.len(),
            match r {
                Ok(n) => spec_if_expr(old(self)@.tokens, old(self)@.index, position@) == Ok::<
                    (NodeV, int),
                    ErrV,
                >((n@, final(self)@.index)),
                Err(e) => spec_if_expr(old(self)@.tokens, old(self)@.index, position@) == Err::<
                    (NodeV, int),
                    ErrV,
                >(e@),
            },
        decreases self@.tokens.len() + 1 - self@.index, 2int, 0int,
    {
        
        let ghost tv = self@.tokens;
        let ghost i0 = self@.index;
        self.advance();
        let condition = match self.expr() {
            Ok(n) => n,
            Err(e) => {
                return Err(e);
            },
        };
        let then_here = match self.current_token() {
            Some((Token::Keyword(Keyword::Then), _)) => true,
            _ => false,
        };
        if !then_here {
            let pos = match self.current_token() {
                Some((_, pos)) => Some(pos),
                None => None,
            };
            return Err(Error::new(ErrorKind::SyntaxError, "expected then", pos));
        }
        self.advance();
        let body = match self.expr() {
            Ok(n) => n,
            Err(e) => {
                return Err(e);
            },
        };
        let mut cases: Vec<(Node, Node)> = Vec::new();
        let ghost cv = condition@;
        let ghost bv = body@;
        cases.push((condition, body));
        let ghost k0 = self@.index;
        let ghost cases0 = crate::nodes::view_cases(cases@);
        proof {
            crate::nodes::lemma_view_cases_push(Seq::<(Node, Node)>::empty(), cases@[0]);
            assert(crate::nodes::view_cases(Seq::<(Node, Node)>::empty())
                =~= Seq::<(NodeV, NodeV)>::empty());
            assert(cases@ =~= Seq::<(Node, Node)>::empty().push(cases@[0]));
            assert(cases0 =~= seq![(cv, bv)]);
            assert(spec_if_expr(tv, i0, position@) == spec_if_cases(tv, k0, cases0, position@));
        }
        let mut elif_here = match self.current_token() {
            Some((Token::Keyword(Keyword::Elif), _)) => true,
            _ => false,
        };
        while elif_here
            invariant
                parser_wf(self),
                self@.tokens == tv,
                k0 <= self@.index <= tv.len(),
                spec_if_cases(tv, self@.index, crate::nodes::view_cases(cases@), position@)
                    == spec_if_cases(tv, k0, cases0, position@),
                elif_here == (match tok_at(tv, self@.index) {
                    Some((t, _)) => t == TokenV::Keyword(Keyword::Elif),
                    None => false,
                }),
            decreases tv.len() - self@.index,
        {
            let ghost cur = self@.index;
            let ghost csv = crate::nodes::view_cases(cases@);
            self.advance();
            let cond2 = match self.expr() {
                Ok(n) => n,
                Err(e) => {
                    proof {
                        assert(spec_if_cases(tv, cur, csv, position@) == Err::<
                            (NodeV, int),
                            ErrV,
                        >(e@));
                    }
                    return Err(e);
                },
            };
            let then2 = match self.current_token() {
                Some((Token::Keyword(Keyword::Then), _)) => true,
                _ => false,
            };
            if !then2 {
                let pos = match self.current_token() {
                    Some((_, pos)) => Some(pos),
                    None => None,
                };
                let e = Error::new(ErrorKind::SyntaxError, "expected then", pos);
                proof {
                    assert(spec_if_cases(tv, cur, csv, position@) == Err::<(NodeV, int), ErrV>(
                        e@,
                    ));
                }
                return Err(e);
            }
            self.advance();
            let body2 = match self.expr() {
                Ok(n) => n,
                Err(e) => {
                    proof {
                        assert(spec_if_cases(tv, cur, csv, position@) == Err::<
                            (NodeV, int),
                            ErrV,
                        >(e@));
                    }
                    return Err(e);
                },
            };
            let ghost c2 = cond2@;
            let ghost b2 = body2@;
            let ghost prev = cases@;
            cases.push((cond2, body2));
            proof {
                crate::nodes::lemma_view_cases_push(prev, cases@.last());
                assert(prev.push(cases@.last()) =~= cases@);
                assert(crate::nodes::view_cases(cases@) =~= csv.push((c2, b2)));
                assert(spec_if_cases(tv, cur, csv, position@) == spec_if_cases(
                    tv,
                    self@.index,
                    crate::nodes::view_cases(cases@),
                    position@,
                ));
            }
            elif_here = match self.current_token() {
                Some((Token::Keyword(Keyword::Elif), _)) => true,
                _ => false,
            };
        }
        let else_here = match self.current_token() {
            Some((Token::Keyword(Keyword::Else), _)) => true,
            _ => false,
        };
        let ghost cur = self@.index;
        let ghost csv = crate::nodes::view_cases(cases@);
        let else_case: Option<Node> = if else_here {
            self.advance();
            match self.expr() {
                Ok(n) => Some(n),
                Err(e) => {
                    proof {
                        assert(spec_if_cases(tv, cur, csv, position@) == Err::<
                            (NodeV, int),
                            ErrV,
                        >(e@));
                    }
                    return Err(e);
                },
            }
        } else {
            None
        };
        let ghost ecv: Option<NodeV> = match else_case {
            Some(ref n) => Some(n@),
            None => None,
        };
        let pos = match self.current_token() {
            Some((_, pos)) => position.combine(pos),
            None => position,
        };
        let node = Node::new(NodeType::IfNode(IfNode::new(cases, else_case)), pos);
        proof {
            assert(node@ == spec_if_node(tv, csv, ecv, self@.index, position@));
            assert(spec_if_cases(tv, cur, csv, position@) == Ok::<(NodeV, int), ErrV>(
                (node@, self@.index),
            ));
        }
        Ok(node)
    }

    /// `while <expr> then <expr>`.
    #[verifier::loop_isolation(false)]
    #[verifier::spinoff_prover]
    #[verifier::rlimit(100)]
    pub fn while_expr(&mut self, position: Position) -> (r: Result<Node, Error>)
        requires
            parser_wf(old(self)),
            old(self)@.index < old(self)@.tokens.len(),
        ensures
            parser_wf(final(self)),
            final(self)@.tokens == old(self)@.tokens,
            r is Ok ==> old(self)@.index < final(self)@.index <= old(self)@.tokens.len(),
            match r {
                Ok(n) => spec_while_expr(old(self)@.tokens, old(self)@.index, position@)
                    == Ok::<(NodeV, int), ErrV>((n@, final(self)@.index)),
                Err(e) => spec_while_expr(old(self)@.tokens, old(self)@.index, position@)
                    == Err::<(NodeV, int), ErrV>(e@),
            },
        decreases self@.tokens.len() + 1 - self@.index, 2int, 0int,
    {
        
        let ghost tv = self@.tokens;
        let ghost i0 = self@.index;
        self.advance();
        let cond = match self.expr() {
            Ok(n) => n,
            Err(e) => {
                return Err(e);
            },
        };
        let then_here = match self.current_token() {
            Some((Token::Keyword(Keyword::Then), _)) => true,
            _ => false,
        };
        if then_here {
            self.advance();
            let body = match self.expr() {
                Ok(n) => n,
                Err(e) => {
                    return Err(e);
                },
            };
            let ghost cv = cond@;
            let ghost bv = body@;
            let pos = position.combine(body.get_pos());
            let node = Node::new(NodeType::WhileNode(WhileNode::new(cond, body)), pos);
            proof {
                assert(node@ == NodeV {
                    ty: NodeTypeV::WhileNode(
                        WhileNodeV { condition: Box::new(cv), body: Box::new(bv) },
                    ),
                    pos: spec_combine(position@, bv.pos),
                });
            }
            Ok(node)
        } else {
            Err(Error::new(ErrorKind::SyntaxError, "expected 'then'", Some(position)))
        }
    }

    /// `for <ident> in <expr> to <expr> then <expr>`.
    #[verifier::loop_isolation(false)]
    #[verifier::spinoff_prover]
    #[verifier::rlimit(100)]
    pub fn for_expr(&mut self, position: Position) -> (r: Result<Node, Error>)
        requires
            parser_wf(old(self)),
            old(self)@.index < old(self)@.tokens.len(),
        ensures
            parser_wf(final(self)),
            final(self)@.tokens == old(self)@.tokens,
            r is Ok ==> old(self)@.index < final(self)@.index <= old(self)@.tokens.len(),
            match r {
                Ok(n) => spec_for_expr(old(self)@.tokens, old(self)@.index, position@) == Ok::<
                    (NodeV, int),
                    ErrV,
                >((n@, final(self)@.index)),
                Err(e) => spec_for_expr(old(self)@.tokens, old(self)@.index, position@)
                    == Err::<(NodeV, int), ErrV>(e@),
            },
        decreases self@.tokens.len() + 1 - self@.index, 2int, 0int,
    {
        
        let ghost tv = self@.tokens;
        let ghost i0 = self@.index;
        self.advance();
        let var_name = match self.current_token() {
            Some((Token::Ident(var_name), _)) => var_name,
            _ => {
                return Err(Error::new(ErrorKind::SyntaxError, "expected ident", Some(position)));
            },
        };
        self.advance();
        let in_here = match self.current_token() {
            Some((Token::Keyword(Keyword::In), _)) => true,
            _ => false,
        };
        if !in_here {
            return Err(Error::new(ErrorKind::SyntaxError, "expected 'in'", Some(position)));
        }
        self.advance();
        let start = match self.expr() {
            Ok(n) => n,
            Err(e) => {
                return Err(e);
            },
        };
        let to_here = match self.current_token() {
            Some((Token::Keyword(Keyword::To), _)) => true,
            _ => false,
        };
        if !to_here {
            return Err(Error::new(ErrorKind::SyntaxError, "expected 'to'", Some(position)));
        }
        let ghost j = self@.index;
        self.advance();
        let end = match self.expr() {
            Ok(n) => n,
            Err(e) => {
                return Err(e);
            },
        };
        let then_here = match self.current_token() {
            Some((Token::Keyword(Keyword::Then), _)) => true,
            _ => false,
        };
        if !then_here {
            return Err(Error::new(ErrorKind::SyntaxError, "expected 'then'", Some(position)));
        }
        let ghost k = self@.index;
        self.advance();
        let end_pos = end.get_pos();
        let body = match self.expr() {
            Ok(n) => n,
            Err(e) => {
                return Err(e);
            },
        };
        let ghost vnv = var_name@;
        let ghost sv = start@;
        let ghost ev = end@;
        let ghost bv = body@;
        let pos = position.combine(end_pos);
        let node = Node::new(
            NodeType::ForNode(ForNode::new(var_name, start, end, body)),
            pos,
        );
        proof {
            assert(node@ == NodeV {
                ty: NodeTypeV::ForNode(
                    ForNodeV {
                        var_name: vnv,
                        start: Box::new(sv),
                        end: Box::new(ev),
                        body: Box::new(bv),
                    },
                ),
                pos: spec_combine(position@, ev.pos),
            });
        }
        Ok(node)
    }

    /// A whole program: one expression, then nothing but the terminal EOF.
    #[verifier::loop_isolation(false)]
    #[verifier::rlimit(100)]
    pub fn parse(&mut self) -> (r: Result<Node, Error>)
        requires
            parser_wf(old(self)),
            old(self)@.index == 0,
        ensures
            parser_wf(final(self)),
            final(self)@.tokens == old(self)@.tokens,
            r is Ok ==> old(self)@.index < final(self)@.index <= old(self)@.tokens.len(),
            match r {
                Ok(n) => spec_parse(old(self)@.tokens) == Ok::<NodeV, ErrV>(n@),
                Err(e) => spec_parse(old(self)@.tokens) == Err::<NodeV, ErrV>(e@),
            },
    {
        
        let ghost tv = self@.tokens;
        match self.expr() {
            Ok(res) => {
                match self.current_token() {
                    Some(current_token) => {
                        let is_eof = match current_token.0 {
                            Token::EOF => true,
                            _ => false,
                        };
                        if !is_eof {
                            return Err(
                                Error::new(
                                    ErrorKind::SyntaxError,
                                    "Expected one of the following: '+' '-' '*' or '/'",
                                    Some(current_token.1),
                                ),
                            );
                        }
                        Ok(res)
                    },
                    None => Ok(res),
                }
            },
            Err(e) => Err(e),
        }
    }
}


} // verus!
