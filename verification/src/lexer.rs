use vstd::prelude::*;

use crate::errors::{spec_err_at, ErrV, Error, ErrorKind};
use crate::floats::{f64_of_decimal, float_from_decimal, spec_decimal_literal};
use crate::ident::Ident;
use crate::keyword::{from_str, spec_keyword_of};
use crate::position::{spec_advance, spec_combine, PosV, Position};
use crate::strutil::{chars_to_string, string_to_chars};
use crate::token::{Token, TokenV};
use crate::types::{Float, Integer, Type};

verus! {

/// The character under a cursor index, if the index is inside the text.
pub open spec fn char_at(chars: Seq<char>, i: int) -> Option<char> {
    if 0 <= i < chars.len() {
        Some(chars[i])
    } else {
        None
    }
}

/// One lexer step: the position advanced over the character it stands on.
pub open spec fn adv(chars: Seq<char>, p: PosV) -> PosV {
    spec_advance(p, char_at(chars, p.index as int))
}

/// Whether a character is a decimal digit.
pub open spec fn spec_is_digit(c: char) -> bool {
    48 <= c as int <= 57
}

/// Whether a character is an ASCII letter.
pub open spec fn spec_is_alpha(c: char) -> bool {
    (65 <= c as int <= 90) || (97 <= c as int <= 122)
}

/// Whether a character may continue an identifier.
pub open spec fn spec_is_ident_char(c: char) -> bool {
    spec_is_alpha(c) || spec_is_digit(c) || c == '_'
}

/// The integer a string of decimal digits denotes.
pub open spec fn spec_int_of_digits(s: Seq<char>) -> int
    decreases s.len(),
{
    if s.len() == 0 {
        0
    } else {
        10 * spec_int_of_digits(s.drop_last()) + (s.last() as int - 48)
    }
}

/// The bounds under which the lexer works: the cursor stays between the
/// start marker and one past the end, and the text is far from the integer
/// limits.
pub open spec fn lex_bounds(chars: Seq<char>, p: PosV) -> bool {
    &&& -1 <= p.index <= chars.len()
    &&& chars.len() + 2 < i64::MAX
}

/// The two-character lookahead shared by `=`, `<` and `>`: consume a second
/// `=` and produce the two-character token with the covering span, else the
/// one-character token.
pub open spec fn spec_check_eq(
    chars: Seq<char>,
    p0: PosV,
    p: PosV,
    t1: TokenV,
    t2: TokenV,
) -> ((TokenV, PosV), PosV) {
    if char_at(chars, p.index as int) == Some('=') {
        let p2 = adv(chars, p);
        ((t1, spec_combine(p0, p2)), p2)
    } else {
        ((t2, p0), p)
    }
}

pub open spec fn spec_make_eq(chars: Seq<char>, p: PosV) -> ((TokenV, PosV), PosV) {
    spec_check_eq(chars, p, adv(chars, p), TokenV::DoubleEqual, TokenV::Equal)
}

pub open spec fn spec_make_less_than(chars: Seq<char>, p: PosV) -> ((TokenV, PosV), PosV) {
    spec_check_eq(chars, p, adv(chars, p), TokenV::LessThanEq, TokenV::LessThan)
}

pub open spec fn spec_make_greater_than(chars: Seq<char>, p: PosV) -> ((TokenV, PosV), PosV) {
    spec_check_eq(chars, p, adv(chars, p), TokenV::GreaterThanEq, TokenV::GreaterThan)
}

/// `!` followed by `=` is the inequality operator; alone it is logical not.
pub open spec fn spec_make_not(chars: Seq<char>, p: PosV) -> ((TokenV, PosV), PosV) {
    let p1 = adv(chars, p);
    if char_at(chars, p1.index as int) == Some('=') {
        let p2 = adv(chars, p1);
        ((TokenV::NonEqual, spec_combine(p, p2)), p2)
    } else {
        ((TokenV::Bang, p), p1)
    }
}

/// `&` must be followed by `&`; there is no one-character `&` token.
pub open spec fn spec_make_and(chars: Seq<char>, p: PosV) -> Result<
    ((TokenV, PosV), PosV),
    ErrV,
> {
    let p1 = adv(chars, p);
    if char_at(chars, p1.index as int) == Some('&') {
        let p2 = adv(chars, p1);
        Ok(((TokenV::DoubleAnd, spec_combine(p, p2)), p2))
    } else {
        Err(spec_err_at(ErrorKind::SyntaxError, "expected &"@, p1))
    }
}

/// `|` must be followed by `|`; there is no one-character `|` token.
pub open spec fn spec_make_or(chars: Seq<char>, p: PosV) -> Result<
    ((TokenV, PosV), PosV),
    ErrV,
> {
    let p1 = adv(chars, p);
    if char_at(chars, p1.index as int) == Some('|') {
        let p2 = adv(chars, p1);
        Ok(((TokenV::DoubleOr, spec_combine(p, p2)), p2))
    } else {
        Err(spec_err_at(ErrorKind::SyntaxError, "expected |"@, p1))
    }
}

/// The identifier scan: consume letters, digits and underscores.
pub open spec fn spec_scan_ident(chars: Seq<char>, p: PosV, acc: Seq<char>) -> (Seq<char>, PosV)
    decreases chars.len() - p.index
        when lex_bounds(chars, p)
{
    match char_at(chars, p.index as int) {
        Some(c) => if spec_is_ident_char(c) {
            spec_scan_ident(chars, adv(chars, p), acc.push(c))
        } else {
            (acc, p)
        },
        None => (acc, p),
    }
}

/// The word scanned is a keyword token when it matches the keyword list
/// exactly, else an identifier token; its span covers the word.
pub open spec fn spec_make_ident(chars: Seq<char>, p: PosV) -> ((TokenV, PosV), PosV) {
    let (word, p2) = spec_scan_ident(chars, p, Seq::empty());
    let tok = match spec_keyword_of(word) {
        Some(k) => TokenV::Keyword(k),
        None => TokenV::Ident(word),
    };
    ((tok, spec_combine(p, p2)), p2)
}

/// The numeric-literal scan: consume digits and at most one dot; a second
/// dot ends the literal early. The count tracks digits alone, giving the
/// span length.
pub open spec fn spec_scan_number(
    chars: Seq<char>,
    p: PosV,
    acc: Seq<char>,
    dots: int,
    count: int,
) -> (Seq<char>, int, int, PosV)
    decreases chars.len() - p.index
        when lex_bounds(chars, p)
{
    match char_at(chars, p.index as int) {
        Some(c) => if c == '.' {
            if dots == 1 {
                (acc, dots, count, p)
            } else {
                spec_scan_number(chars, adv(chars, p), acc.push('.'), 1, count)
            }
        } else if spec_is_digit(c) {
            spec_scan_number(chars, adv(chars, p), acc.push(c), dots, count + 1)
        } else {
            (acc, dots, count, p)
        },
        None => (acc, dots, count, p),
    }
}

/// A scanned literal as a token: zero dots give an integer literal (a
/// literal too large for the integer type is a syntax error), one dot gives
/// a float literal; the span starts where the literal starts and its length
/// counts the digits.
pub open spec fn spec_make_number(chars: Seq<char>, p: PosV) -> Result<
    ((TokenV, PosV), PosV),
    ErrV,
> {
    let (digits, dots, count, p2) = spec_scan_number(chars, p, Seq::empty(), 0, 0);
    let npos = PosV {
        index: p.index,
        filename: p.filename,
        line: p.line,
        column: p.column,
        len: count as u64,
    };
    if dots == 0 {
        if spec_int_of_digits(digits) <= i64::MAX {
            Ok(
                (
                    (
                        TokenV::Type(
                            Type::Integer(Integer { value: spec_int_of_digits(digits) as i64 }),
                        ),
                        npos,
                    ),
                    p2,
                ),
            )
        } else {
            Err(spec_err_at(ErrorKind::SyntaxError, "invalid number literal"@, npos))
        }
    } else {
        Ok(((TokenV::Type(Type::Float(Float { bits: f64_of_decimal(digits) })), npos), p2))
    }
}

/// One token consed onto the rest of a lexing outcome.
pub open spec fn cons_tok(
    head: (TokenV, PosV),
    rest: Result<Seq<(TokenV, PosV)>, ErrV>,
) -> Result<Seq<(TokenV, PosV)>, ErrV> {
    match rest {
        Ok(ts) => Ok(seq![head] + ts),
        Err(e) => Err(e),
    }
}

/// The lexer, left to right: whitespace is skipped, single characters map
/// to their tokens, `= ! < > & |` look one character ahead, a digit starts
/// a numeric literal, a letter starts an identifier or keyword, anything
/// else is an illegal character; successful lexing ends with a terminal EOF
/// token, and the first error aborts the rest.
pub open spec fn spec_tokens(chars: Seq<char>, p: PosV) -> Result<Seq<(TokenV, PosV)>, ErrV>
    decreases chars.len() - p.index
        when lex_bounds(chars, p)
        via spec_tokens_dec
{
    match char_at(chars, p.index as int) {
        None => Ok(seq![(TokenV::EOF, p)]),
        Some(c) => if c == ' ' || c == '\t' {
            spec_tokens(chars, adv(chars, p))
        } else if c == '+' {
            cons_tok((TokenV::Plus, p), spec_tokens(chars, adv(chars, p)))
        } else if c == '-' {
            cons_tok((TokenV::Minus, p), spec_tokens(chars, adv(chars, p)))
        } else if c == '*' {
            cons_tok((TokenV::Star, p), spec_tokens(chars, adv(chars, p)))
        } else if c == '/' {
            cons_tok((TokenV::Slash, p), spec_tokens(chars, adv(chars, p)))
        } else if c == '(' {
            cons_tok((TokenV::LeftParenthesis, p), spec_tokens(chars, adv(chars, p)))
        } else if c == ')' {
            cons_tok((TokenV::RightParenthesis, p), spec_tokens(chars, adv(chars, p)))
        } else if c == '{' {
            cons_tok((TokenV::LeftCurlyBrackets, p), spec_tokens(chars, adv(chars, p)))
        } else if c == '}' {
            cons_tok((TokenV::RightCurlyBrackets, p), spec_tokens(chars, adv(chars, p)))
        } else if c == '!' {
            let ((t, tp), p2) = spec_make_not(chars, p);
            cons_tok((t, tp), spec_tokens(chars, p2))
        } else if c == '&' {
            match spec_make_and(chars, p) {
                Ok(((t, tp), p2)) => cons_tok((t, tp), spec_tokens(chars, p2)),
                Err(e) => Err(e),
            }
        } else if c == '|' {
            match spec_make_or(chars, p) {
                Ok(((t, tp), p2)) => cons_tok((t, tp), spec_tokens(chars, p2)),
                Err(e) => Err(e),
            }
        } else if c == '=' {
            let ((t, tp), p2) = spec_make_eq(chars, p);
            cons_tok((t, tp), spec_tokens(chars, p2))
        } else if c == '<' {
            let ((t, tp), p2) = spec_make_less_than(chars, p);
            cons_tok((t, tp), spec_tokens(chars, p2))
        } else if c == '>' {
            let ((t, tp), p2) = spec_make_greater_than(chars, p);
            cons_tok((t, tp), spec_tokens(chars, p2))
        } else if spec_is_digit(c) {
            match spec_make_number(chars, p) {
                Ok(((t, tp), p2)) => cons_tok((t, tp), spec_tokens(chars, p2)),
                Err(e) => Err(e),
            }
        } else if spec_is_alpha(c) {
            let ((t, tp), p2) = spec_make_ident(chars, p);
            cons_tok((t, tp), spec_tokens(chars, p2))
        } else {
            Err(spec_err_at(ErrorKind::SyntaxError, "Illegal character: "@ + seq![c], p))
        },
    }
}

/// The cursor only moves forward, one character at a time.
proof fn lemma_adv_index(chars: Seq<char>, p: PosV)
    requires
        lex_bounds(chars, p),
        p.index < i64::MAX - 1,
    ensures
        adv(chars, p).index == p.index + 1,
        adv(chars, p).filename == p.filename,
        adv(chars, p).len == p.len,
{
}

/// The identifier scan moves the cursor forward and never past the end.
proof fn lemma_scan_ident_bounds(chars: Seq<char>, p: PosV, acc: Seq<char>)
    requires
        lex_bounds(chars, p),
    ensures
        p.index <= spec_scan_ident(chars, p, acc).1.index <= chars.len(),
        lex_bounds(chars, spec_scan_ident(chars, p, acc).1),
        (match char_at(chars, p.index as int) {
            Some(c) => spec_is_ident_char(c),
            None => false,
        }) ==> spec_scan_ident(chars, p, acc).1.index > p.index,
    decreases chars.len() - p.index,
{
    match char_at(chars, p.index as int) {
        Some(c) => if spec_is_ident_char(c) {
            lemma_adv_index(chars, p);
            lemma_scan_ident_bounds(chars, adv(chars, p), acc.push(c));
        } else {
        },
        None => {},
    }
}

/// The numeric scan moves the cursor forward and never past the end.
proof fn lemma_scan_number_bounds(
    chars: Seq<char>,
    p: PosV,
    acc: Seq<char>,
    dots: int,
    count: int,
)
    requires
        lex_bounds(chars, p),
    ensures
        p.index <= spec_scan_number(chars, p, acc, dots, count).3.index <= chars.len(),
        lex_bounds(chars, spec_scan_number(chars, p, acc, dots, count).3),
        (match char_at(chars, p.index as int) {
            Some(c) => spec_is_digit(c),
            None => false,
        }) ==> spec_scan_number(chars, p, acc, dots, count).3.index > p.index,
    decreases chars.len() - p.index,
{
    match char_at(chars, p.index as int) {
        Some(c) => if c == '.' {
            if dots != 1 {
                lemma_adv_index(chars, p);
                lemma_scan_number_bounds(chars, adv(chars, p), acc.push('.'), 1, count);
            }
        } else if spec_is_digit(c) {
            lemma_adv_index(chars, p);
            lemma_scan_number_bounds(chars, adv(chars, p), acc.push(c), dots, count + 1);
        } else {
        },
        None => {},
    }
}

#[via_fn]
proof fn spec_tokens_dec(chars: Seq<char>, p: PosV) {
    match char_at(chars, p.index as int) {
        None => {},
        Some(c) => {
            lemma_adv_index(chars, p);
            let p1 = adv(chars, p);
            if c == '!' || c == '&' || c == '|' || c == '=' || c == '<' || c == '>' {
                if char_at(chars, p1.index as int) is Some {
                    lemma_adv_index(chars, p1);
                }
            } else if spec_is_digit(c) {
                lemma_scan_number_bounds(chars, p, Seq::empty(), 0, 0);
            } else if spec_is_alpha(c) {
                lemma_scan_ident_bounds(chars, p, Seq::empty());
            }
        },
    }
}

/// The view of a produced token list.
pub open spec fn toks_view(s: Seq<(Token, Position)>) -> Seq<(TokenV, PosV)> {
    s.map_values(|tp: (Token, Position)| (tp.0@, tp.1@))
}

proof fn lemma_toks_view_push(s: Seq<(Token, Position)>, x: (Token, Position))
    ensures
        toks_view(s.push(x)) == toks_view(s).push((x.0@, x.1@)),
{
    assert forall|j: int| 0 <= j < s.len() + 1 implies toks_view(s.push(x))[j] == toks_view(
        s,
    ).push((x.0@, x.1@))[j] by {
        if j < s.len() {
            assert(s.push(x)[j] == s[j]);
        } else {
            assert(s.push(x)[j] == x);
        }
    }
    assert(toks_view(s.push(x)) =~= toks_view(s).push((x.0@, x.1@)));
}

/// Digits accumulate left to right: each digit multiplies the value by ten.
proof fn lemma_digits_take_succ(s: Seq<char>, i: int)
    requires
        0 <= i < s.len(),
    ensures
        spec_int_of_digits(s.take(i + 1)) == 10 * spec_int_of_digits(s.take(i)) + (
        s[i] as int - 48),
{
    assert(s.take(i + 1).drop_last() =~= s.take(i));
    assert(s.take(i + 1).last() == s[i]);
}

/// A digit string denotes a non-negative number.
proof fn lemma_digits_nonneg(s: Seq<char>)
    requires
        forall|i: int| 0 <= i < s.len() ==> spec_is_digit(#[trigger] s[i]),
    ensures
        spec_int_of_digits(s) >= 0,
    decreases s.len(),
{
    if s.len() > 0 {
        assert(forall|i: int|
            0 <= i < s.drop_last().len() ==> spec_is_digit(#[trigger] s.drop_last()[i]));
        lemma_digits_nonneg(s.drop_last());
    }
}

/// A prefix of a digit string denotes no more than the whole string.
proof fn lemma_digits_prefix_le(s: Seq<char>, i: int)
    requires
        forall|j: int| 0 <= j < s.len() ==> spec_is_digit(#[trigger] s[j]),
        0 <= i <= s.len(),
    ensures
        spec_int_of_digits(s.take(i)) <= spec_int_of_digits(s),
    decreases s.len() - i,
{
    if i == s.len() {
        assert(s.take(i) =~= s);
    } else {
        lemma_digits_take_succ(s, i);
        assert(forall|j: int|
            0 <= j < s.take(i).len() ==> spec_is_digit(#[trigger] s.take(i)[j]));
        lemma_digits_nonneg(s.take(i));
        lemma_digits_prefix_le(s, i + 1);
    }
}

fn is_digit_char(c: char) -> (r: bool)
    ensures
        r == spec_is_digit(c),
{
    let u = c as u32;
    48 <= u && u <= 57
}

fn is_alpha_char(c: char) -> (r: bool)
    ensures
        r == spec_is_alpha(c),
{
    let u = c as u32;
    (65 <= u && u <= 90) || (97 <= u && u <= 122)
}

fn is_ident_char(c: char) -> (r: bool)
    ensures
        r == spec_is_ident_char(c),
{
    is_alpha_char(c) || is_digit_char(c) || c == '_'
}

/// The digits of an integer literal as a value; `None` when the literal
/// does not fit the integer type.
fn parse_digits(v: &Vec<char>) -> (r: Option<i64>)
    requires
        forall|i: int| 0 <= i < v@.len() ==> spec_is_digit(#[trigger] v@[i]),
    ensures
        match r {
            Some(x) => x == spec_int_of_digits(v@) && spec_int_of_digits(v@) <= i64::MAX,
            None => spec_int_of_digits(v@) > i64::MAX,
        },
{
    let mut acc: i64 = 0;
    let mut i: usize = 0;
    proof {
        assert(v@.take(0) =~= Seq::<char>::empty());
    }
    while i < v.len()
        invariant
            i <= v@.len(),
            forall|j: int| 0 <= j < v@.len() ==> spec_is_digit(#[trigger] v@[j]),
            acc == spec_int_of_digits(v@.take(i as int)),
            0 <= acc,
        decreases v@.len() - i,
    {
        let c = v[i];
        let d: i64 = (c as u32 as i64) - 48;
        proof {
            lemma_digits_take_succ(v@, i as int);
        }
        if acc > (i64::MAX - d) / 10 {
            proof {
                lemma_digits_prefix_le(v@, i + 1);
            }
            return None;
        }
        acc = acc * 10 + d;
        i = i + 1;
    }
    proof {
        assert(v@.take(v@.len() as int) =~= v@);
    }
    Some(acc)
}

/// Whether the numeric scan continues at a position: a first dot or a
/// digit stands under the cursor.
pub open spec fn scan_num_cont(chars: Seq<char>, p: PosV, dots: int) -> bool {
    match char_at(chars, p.index as int) {
        Some(c) => (c == '.' && dots == 0) || spec_is_digit(c),
        None => false,
    }
}

/// Whether the lexer state is consistent: the cursor sits between the start
/// marker and one past the end of the text, the tracked character is the one
/// under the cursor, and the counters stay clear of their limits.
pub closed spec fn lexer_wf(l: &Lexer) -> bool {
    &&& l.text@.len() + 2 < i64::MAX
    &&& -1 <= l.pos@.index <= l.text@.len()
    &&& -1 <= l.pos@.column <= l.pos@.index
    &&& l.pos@.line <= l.pos@.index + 1
    &&& l.current_char == char_at(l.text@, l.pos@.index as int)
}

/// The lexer: consumes the source text character by character and produces
/// the token sequence with a span for each token.
pub struct Lexer {
    text: Vec<char>,
    pos: Position,
    current_char: Option<char>,
}

/// Mathematical model of the lexer state: the text and the cursor.
pub ghost struct LexV {
    pub text: Seq<char>,
    pub pos: PosV,
}

impl View for Lexer {
    type V = LexV;

    closed spec fn view(&self) -> LexV {
        LexV { text: self.text@, pos: self.pos@ }
    }
}

impl Lexer {
    pub fn new(text: String, file_name: String) -> (r: Self)
        requires
            text@.len() + 2 < i64::MAX,
        ensures
            lexer_wf(&r),
            r@.text == text@,
            r@.pos == (PosV {
                index: 0,
                filename: file_name@,
                line: 0,
                column: 0,
                len: 1,
            }),
    {
        let chars = string_to_chars(text.as_str());
        let mut lexer = Self {
            text: chars,
            pos: Position::new(-1, file_name, 0, -1, 1),
            current_char: None,
        };
        lexer.advance();
        lexer
    }

    fn advance(&mut self)
        requires
            lexer_wf(old(self)),
            old(self).pos@.index < old(self).text@.len(),
        ensures
            lexer_wf(final(self)),
            final(self).text@ == old(self).text@,
            final(self).pos@ == adv(old(self).text@, old(self).pos@),
    {
        self.pos.advance(self.current_char);
        if self.pos.index >= 0 && self.pos.index < self.text.len() as i64 {
            self.current_char = Some(self.text[self.pos.index as usize]);
        } else {
            self.current_char = None;
        }
    }

    fn check_eq(&mut self, t1: Token, t2: Token, pos: Position) -> (r: (Token, Position))
        requires
            lexer_wf(old(self)),
        ensures
            lexer_wf(final(self)),
            final(self).text@ == old(self).text@,
            (r.0@, r.1@) == spec_check_eq(
                old(self).text@,
                pos@,
                old(self).pos@,
                t1@,
                t2@,
            ).0,
            final(self).pos@ == spec_check_eq(old(self).text@, pos@, old(self).pos@, t1@, t2@).1,
    {
        let is_eq = match self.current_char {
            Some(c) => c == '=',
            None => false,
        };
        if is_eq {
            self.advance();
            let p = pos.combine(self.pos.clone());
            (t1, p)
        } else {
            (t2, pos)
        }
    }

    fn make_less_than(&mut self) -> (r: (Token, Position))
        requires
            lexer_wf(old(self)),
            old(self).pos@.index < old(self).text@.len(),
        ensures
            lexer_wf(final(self)),
            final(self).text@ == old(self).text@,
            (r.0@, r.1@) == spec_make_less_than(old(self).text@, old(self).pos@).0,
            final(self).pos@ == spec_make_less_than(old(self).text@, old(self).pos@).1,
    {
        let pos = self.pos.clone();
        self.advance();
        self.check_eq(Token::LessThanEq, Token::LessThan, pos)
    }

    fn make_greater_than(&mut self) -> (r: (Token, Position))
        requires
            lexer_wf(old(self)),
            old(self).pos@.index < old(self).text@.len(),
        ensures
            lexer_wf(final(self)),
            final(self).text@ == old(self).text@,
            (r.0@, r.1@) == spec_make_greater_than(old(self).text@, old(self).pos@).0,
            final(self).pos@ == spec_make_greater_than(old(self).text@, old(self).pos@).1,
    {
        let pos = self.pos.clone();
        self.advance();
        self.check_eq(Token::GreaterThanEq, Token::GreaterThan, pos)
    }

    fn make_eq(&mut self) -> (r: (Token, Position))
        requires
            lexer_wf(old(self)),
            old(self).pos@.index < old(self).text@.len(),
        ensures
            lexer_wf(final(self)),
            final(self).text@ == old(self).text@,
            (r.0@, r.1@) == spec_make_eq(old(self).text@, old(self).pos@).0,
            final(self).pos@ == spec_make_eq(old(self).text@, old(self).pos@).1,
    {
        let pos = self.pos.clone();
        self.advance();
        self.check_eq(Token::DoubleEqual, Token::Equal, pos)
    }

    fn make_not(&mut self) -> (r: (Token, Position))
        requires
            lexer_wf(old(self)),
            old(self).pos@.index < old(self).text@.len(),
        ensures
            lexer_wf(final(self)),
            final(self).text@ == old(self).text@,
            (r.0@, r.1@) == spec_make_not(old(self).text@, old(self).pos@).0,
            final(self).pos@ == spec_make_not(old(self).text@, old(self).pos@).1,
    {
        let pos = self.pos.clone();
        self.advance();
        let is_eq = match self.current_char {
            Some(c) => c == '=',
            None => false,
        };
        if is_eq {
            self.advance();
            let p = pos.combine(self.pos.clone());
            (Token::NonEqual, p)
        } else {
            (Token::Bang, pos)
        }
    }

    fn make_and(&mut self) -> (r: Result<(Token, Position), Error>)
        requires
            lexer_wf(old(self)),
            old(self).pos@.index < old(self).text@.len(),
        ensures
            lexer_wf(final(self)),
            final(self).text@ == old(self).text@,
            match r {
                Ok(tp) => spec_make_and(old(self).text@, old(self).pos@) == Ok::<((TokenV, PosV), PosV), ErrV>(
                    ((tp.0@, tp.1@), final(self).pos@),
                ),
                Err(e) => spec_make_and(old(self).text@, old(self).pos@) == Err::<
                    ((TokenV, PosV), PosV),
                    ErrV,
                >(e@),
            },
    {
        let pos = self.pos.clone();
        self.advance();
        let is_amp = match self.current_char {
            Some(c) => c == '&',
            None => false,
        };
        if is_amp {
            self.advance();
            let p = pos.combine(self.pos.clone());
            Ok((Token::DoubleAnd, p))
        } else {
            Err(Error::new(ErrorKind::SyntaxError, "expected &", Some(self.pos.clone())))
        }
    }

    fn make_or(&mut self) -> (r: Result<(Token, Position), Error>)
        requires
            lexer_wf(old(self)),
            old(self).pos@.index < old(self).text@.len(),
        ensures
            lexer_wf(final(self)),
            final(self).text@ == old(self).text@,
            match r {
                Ok(tp) => spec_make_or(old(self).text@, old(self).pos@) == Ok::<((TokenV, PosV), PosV), ErrV>(
                    ((tp.0@, tp.1@), final(self).pos@),
                ),
                Err(e) => spec_make_or(old(self).text@, old(self).pos@) == Err::<
                    ((TokenV, PosV), PosV),
                    ErrV,
                >(e@),
            },
    {
        let pos = self.pos.clone();
        self.advance();
        let is_bar = match self.current_char {
            Some(c) => c == '|',
            None => false,
        };
        if is_bar {
            self.advance();
            let p = pos.combine(self.pos.clone());
            Ok((Token::DoubleOr, p))
        } else {
            Err(Error::new(ErrorKind::SyntaxError, "expected |", Some(self.pos.clone())))
        }
    }

    #[verifier::loop_isolation(false)]
    fn make_ident(&mut self) -> (r: (Token, Position))
        requires
            lexer_wf(old(self)),
            old(self).pos@.index < old(self).text@.len(),
        ensures
            lexer_wf(final(self)),
            final(self).text@ == old(self).text@,
            (r.0@, r.1@) == spec_make_ident(old(self).text@, old(self).pos@).0,
            final(self).pos@ == spec_make_ident(old(self).text@, old(self).pos@).1,
    {
        let ghost chars = self.text@;
        let ghost p0 = self.pos@;
        let mut ident: Vec<char> = Vec::new();
        let pos_start = self.pos.clone();
        let mut cont = match self.current_char {
            Some(c0) => is_ident_char(c0),
            None => false,
        };
        while cont
            invariant
                lexer_wf(self),
                self.text@ == chars,
                cont == (match char_at(chars, self.pos@.index as int) {
                    Some(c0) => spec_is_ident_char(c0),
                    None => false,
                }),
                spec_scan_ident(chars, p0, Seq::empty()) == spec_scan_ident(
                    chars,
                    self.pos@,
                    ident@,
                ),
            decreases chars.len() - self.pos@.index,
        {
            let c = self.current_char.unwrap();
            let ghost sp = self.pos@;
            let ghost sid = ident@;
            ident.push(c);
            self.advance();
            proof {
                assert(spec_scan_ident(chars, sp, sid) == spec_scan_ident(
                    chars,
                    self.pos@,
                    ident@,
                ));
            }
            cont = match self.current_char {
                Some(c2) => is_ident_char(c2),
                None => false,
            };
        }
        proof {
            assert(spec_scan_ident(chars, p0, Seq::empty()) == (ident@, self.pos@));
        }
        let word = chars_to_string(&ident);
        let tok = match from_str(word.as_str()) {
            Some(k) => Token::Keyword(k),
            None => Token::Ident(Ident::new(word)),
        };
        let p = pos_start.combine(self.pos.clone());
        (tok, p)
    }

    #[verifier::loop_isolation(false)]
    fn make_number(&mut self) -> (r: Result<(Token, Position), Error>)
        requires
            lexer_wf(old(self)),
            match char_at(old(self).text@, old(self).pos@.index as int) {
                Some(c) => spec_is_digit(c),
                None => false,
            },
        ensures
            lexer_wf(final(self)),
            final(self).text@ == old(self).text@,
            match r {
                Ok(tp) => spec_make_number(old(self).text@, old(self).pos@) == Ok::<((TokenV, PosV), PosV), ErrV>(
                    ((tp.0@, tp.1@), final(self).pos@),
                ),
                Err(e) => spec_make_number(old(self).text@, old(self).pos@) == Err::<
                    ((TokenV, PosV), PosV),
                    ErrV,
                >(e@),
            },
    {
        let ghost chars = self.text@;
        let ghost p0 = self.pos@;
        let mut number: Vec<char> = Vec::new();
        let mut dots: u8 = 0;
        let mut pos = self.pos.clone();
        pos.set_len(0);
        let mut cont = match self.current_char {
            Some(c0) => c0 == '.' || is_digit_char(c0),
            None => false,
        };
        while cont
            invariant
                lexer_wf(self),
                self.text@ == chars,
                dots == 0 || dots == 1,
                cont == scan_num_cont(chars, self.pos@, dots as int),
                pos@.index == p0.index,
                pos@.filename == p0.filename,
                pos@.line == p0.line,
                pos@.column == p0.column,
                pos@.len <= self.pos@.index - p0.index,
                spec_scan_number(chars, p0, Seq::empty(), 0, 0) == spec_scan_number(
                    chars,
                    self.pos@,
                    number@,
                    dots as int,
                    pos@.len as int,
                ),
                number@.len() == 0 ==> self.pos@ == p0 && dots == 0,
                number@.len() > 0 ==> spec_is_digit(number@[0]),
                forall|i: int|
                    0 <= i < number@.len() ==> (spec_is_digit(#[trigger] number@[i]) || number@[i]
                        == '.'),
                dots == 0 ==> forall|i: int| 0 <= i < number@.len() ==> number@[i] != '.',
                forall|i: int, j: int|
                    0 <= i < j < number@.len() && #[trigger] number@[i] == '.'
                        ==> #[trigger] number@[j] != '.',
            decreases chars.len() - self.pos@.index,
        {
            let c = self.current_char.unwrap();
            let ghost sp = self.pos@;
            let ghost snum = number@;
            let ghost sdots = dots as int;
            let ghost slen = pos@.len as int;
            if c == '.' {
                proof {
                    if number@.len() == 0 {
                        assert(self.pos@ == p0);
                        assert(false);
                    }
                }
                dots = 1;
                number.push('.');
            } else {
                let len = pos.len();
                pos.set_len(len + 1);
                number.push(c);
            }
            self.advance();
            proof {
                assert(spec_scan_number(chars, sp, snum, sdots, slen) == spec_scan_number(
                    chars,
                    self.pos@,
                    number@,
                    dots as int,
                    pos@.len as int,
                ));
            }
            cont = match self.current_char {
                Some(c2) => (c2 == '.' && dots == 0) || is_digit_char(c2),
                None => false,
            };
        }
        proof {
            assert(spec_scan_number(chars, p0, Seq::empty(), 0, 0) == (
                number@,
                dots as int,
                pos@.len as int,
                self.pos@,
            ));
        }
        if dots == 0 {
            match parse_digits(&number) {
                Some(value) => Ok((Token::Type(Type::Integer(Integer::new(value))), pos)),
                None => Err(
                    Error::new(ErrorKind::SyntaxError, "invalid number literal", Some(pos)),
                ),
            }
        } else {
            let s = chars_to_string(&number);
            match float_from_decimal(s.as_str()) {
                Some(bits) => Ok((Token::Type(Type::Float(Float::new(bits))), pos)),
                None => Err(
                    Error::new(ErrorKind::SyntaxError, "invalid number literal", Some(pos)),
                ),
            }
        }
    }

    /// Lexing, left to right, as `spec_tokens` describes it: the token
    /// sequence with a terminal EOF token, or the first error.
    #[verifier::loop_isolation(false)]
    pub fn make_tokens(&mut self) -> (r: Result<Vec<(Token, Position)>, Error>)
        requires
            lexer_wf(old(self)),
        ensures
            match r {
                Ok(v) => spec_tokens(old(self)@.text, old(self)@.pos) == Ok::<
                    Seq<(TokenV, PosV)>,
                    ErrV,
                >(toks_view(v@)),
                Err(e) => spec_tokens(old(self)@.text, old(self)@.pos) == Err::<
                    Seq<(TokenV, PosV)>,
                    ErrV,
                >(e@),
            },
    {
        let ghost chars = self.text@;
        let ghost p0 = self.pos@;
        let mut tokens: Vec<(Token, Position)> = Vec::new();
        while self.current_char.is_some()
            invariant
                lexer_wf(self),
                self.text@ == chars,
                lex_continues(chars, p0, toks_view(tokens@), self.pos@),
            decreases chars.len() - self.pos@.index,
        {
            let c = self.current_char.unwrap();
            let ghost pc = self.pos@;
            let ghost done = tokens@;
            proof {
                lemma_adv_index(chars, pc);
                if c == '!' || c == '&' || c == '|' || c == '=' || c == '<' || c == '>' {
                    let p1 = adv(chars, pc);
                    if char_at(chars, p1.index as int) is Some {
                        lemma_adv_index(chars, p1);
                    }
                } else if spec_is_digit(c) {
                    lemma_scan_number_bounds(chars, pc, Seq::empty(), 0, 0);
                } else if spec_is_alpha(c) {
                    lemma_scan_ident_bounds(chars, pc, Seq::empty());
                }
            }
            if c == ' ' || c == '\t' {
                self.advance();
                proof {
                    assert(spec_tokens(chars, pc) == spec_tokens(chars, self.pos@));
                }
            } else if c == '+' {
                tokens.push((Token::Plus, self.pos.clone()));
                self.advance();
                proof {
                    lemma_step(chars, pc, p0, done, tokens@, (TokenV::Plus, pc), self.pos@);
                }
            } else if c == '-' {
                tokens.push((Token::Minus, self.pos.clone()));
                self.advance();
                proof {
                    lemma_step(chars, pc, p0, done, tokens@, (TokenV::Minus, pc), self.pos@);
                }
            } else if c == '*' {
                tokens.push((Token::Star, self.pos.clone()));
                self.advance();
                proof {
                    lemma_step(chars, pc, p0, done, tokens@, (TokenV::Star, pc), self.pos@);
                }
            } else if c == '/' {
                tokens.push((Token::Slash, self.pos.clone()));
                self.advance();
                proof {
                    lemma_step(chars, pc, p0, done, tokens@, (TokenV::Slash, pc), self.pos@);
                }
            } else if c == '(' {
                tokens.push((Token::LeftParenthesis, self.pos.clone()));
                self.advance();
                proof {
                    lemma_step(
                        chars,
                        pc,
                        p0,
                        done,
                        tokens@,
                        (TokenV::LeftParenthesis, pc),
                        self.pos@,
                    );
                }
            } else if c == ')' {
                tokens.push((Token::RightParenthesis, self.pos.clone()));
                self.advance();
                proof {
                    lemma_step(
                        chars,
                        pc,
                        p0,
                        done,
                        tokens@,
                        (TokenV::RightParenthesis, pc),
                        self.pos@,
                    );
                }
            } else if c == '{' {
                tokens.push((Token::LeftCurlyBrackets, self.pos.clone()));
                self.advance();
                proof {
                    lemma_step(
                        chars,
                        pc,
                        p0,
                        done,
                        tokens@,
                        (TokenV::LeftCurlyBrackets, pc),
                        self.pos@,
                    );
                }
            } else if c == '}' {
                tokens.push((Token::RightCurlyBrackets, self.pos.clone()));
                self.advance();
                proof {
                    lemma_step(
                        chars,
                        pc,
                        p0,
                        done,
                        tokens@,
                        (TokenV::RightCurlyBrackets, pc),
                        self.pos@,
                    );
                }
            } else if c == '!' {
                let tp = self.make_not();
                tokens.push(tp);
                proof {
                    lemma_step(
                        chars,
                        pc,
                        p0,
                        done,
                        tokens@,
                        spec_make_not(chars, pc).0,
                        self.pos@,
                    );
                }
            } else if c == '&' {
                match self.make_and() {
                    Ok(tp) => {
                        tokens.push(tp);
                        proof {
                            lemma_step(
                                chars,
                                pc,
                                p0,
                                done,
                                tokens@,
                                spec_make_and(chars, pc)->Ok_0.0,
                                self.pos@,
                            );
                        }
                    },
                    Err(e) => {
                        return Err(e);
                    },
                }
            } else if c == '|' {
                match self.make_or() {
                    Ok(tp) => {
                        tokens.push(tp);
                        proof {
                            lemma_step(
                                chars,
                                pc,
                                p0,
                                done,
                                tokens@,
                                spec_make_or(chars, pc)->Ok_0.0,
                                self.pos@,
                            );
                        }
                    },
                    Err(e) => {
                        return Err(e);
                    },
                }
            } else if c == '=' {
                let tp = self.make_eq();
                tokens.push(tp);
                proof {
                    lemma_step(chars, pc, p0, done, tokens@, spec_make_eq(chars, pc).0, self.pos@);
                }
            } else if c == '<' {
                let tp = self.make_less_than();
                tokens.push(tp);
                proof {
                    lemma_step(
                        chars,
                        pc,
                        p0,
                        done,
                        tokens@,
                        spec_make_less_than(chars, pc).0,
                        self.pos@,
                    );
                }
            } else if c == '>' {
                let tp = self.make_greater_than();
                tokens.push(tp);
                proof {
                    lemma_step(
                        chars,
                        pc,
                        p0,
                        done,
                        tokens@,
                        spec_make_greater_than(chars, pc).0,
                        self.pos@,
                    );
                }
            } else if is_digit_char(c) {
                match self.make_number() {
                    Ok(tp) => {
                        tokens.push(tp);
                        proof {
                            lemma_step(
                                chars,
                                pc,
                                p0,
                                done,
                                tokens@,
                                spec_make_number(chars, pc)->Ok_0.0,
                                self.pos@,
                            );
                        }
                    },
                    Err(e) => {
                        return Err(e);
                    },
                }
            } else if is_alpha_char(c) {
                let tp = self.make_ident();
                tokens.push(tp);
                proof {
                    lemma_step(
                        chars,
                        pc,
                        p0,
                        done,
                        tokens@,
                        spec_make_ident(chars, pc).0,
                        self.pos@,
                    );
                }
            } else {
                let position = self.pos.clone();
                let mut msg_chars = string_to_chars("Illegal character: ");
                msg_chars.push(c);
                let msg = chars_to_string(&msg_chars);
                proof {
                    assert(msg@ =~= "Illegal character: "@ + seq![c]);
                    assert(spec_tokens(chars, pc) == Err::<Seq<(TokenV, PosV)>, ErrV>(
                        spec_err_at(
                            ErrorKind::SyntaxError,
                            "Illegal character: "@ + seq![c],
                            pc,
                        ),
                    ));
                }
                return Err(Error::new(ErrorKind::SyntaxError, msg.as_str(), Some(position)));
            }
        }
        let ghost done = tokens@;
        let eof_pos = self.pos.clone();
        tokens.push((Token::EOF, eof_pos));
        proof {
            assert(spec_tokens(chars, self.pos@) == Ok::<Seq<(TokenV, PosV)>, ErrV>(
                seq![(TokenV::EOF, self.pos@)],
            ));
            lemma_toks_view_push(done, tokens@.last());
            assert(toks_view(done) + seq![(TokenV::EOF, self.pos@)] =~= toks_view(tokens@));
        }
        Ok(tokens)
    }
}

/// The tokens finished so far, continued from the cursor, give the same
/// outcome as lexing from the start.
pub open spec fn lex_continues(
    chars: Seq<char>,
    p0: PosV,
    done: Seq<(TokenV, PosV)>,
    p: PosV,
) -> bool {
    spec_tokens(chars, p0) == (match spec_tokens(chars, p) {
        Ok(ts) => Ok::<Seq<(TokenV, PosV)>, ErrV>(done + ts),
        Err(e) => Err(e),
    })
}

/// One produced token and the cursor after it extend the finished prefix.
proof fn lemma_step(
    chars: Seq<char>,
    pc: PosV,
    p0: PosV,
    done: Seq<(Token, Position)>,
    done2: Seq<(Token, Position)>,
    head: (TokenV, PosV),
    pnext: PosV,
)
    requires
        spec_tokens(chars, pc) == cons_tok(head, spec_tokens(chars, pnext)),
        done2 == done.push(done2.last()),
        (done2.last().0@, done2.last().1@) == head,
        lex_continues(chars, p0, toks_view(done), pc),
    ensures
        lex_continues(chars, p0, toks_view(done2), pnext),
{
    lemma_toks_view_push(done, done2.last());
    match spec_tokens(chars, pnext) {
        Ok(ts) => {
            assert(spec_tokens(chars, pc) == Ok::<Seq<(TokenV, PosV)>, ErrV>(seq![head] + ts));
            assert(toks_view(done) + (seq![head] + ts) =~= toks_view(done2) + ts);
        },
        Err(e) => {
            assert(spec_tokens(chars, pc) == Err::<Seq<(TokenV, PosV)>, ErrV>(e));
        },
    }
}


} // verus!
