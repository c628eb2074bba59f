use vstd::prelude::*;

verus! {

/// Mathematical model of a source position: a cursor into the source text
/// (character index, 0-based line, column) together with the span length of
/// the construct it marks and the name of the source file.
pub ghost struct PosV {
    pub index: i64,
    pub filename: Seq<char>,
    pub line: u64,
    pub column: i64,
    pub len: u64,
}

/// A position in the source text, advanced one character at a time by the
/// lexer and combined into covering spans for diagnostics.
#[derive(Debug)]
pub struct Position {
    pub index: i64,
    pub filename: String,
    pub line: u64,
    pub column: i64,
    pub len: u64,
}

impl View for Position {
    type V = PosV;

    open spec fn view(&self) -> PosV {
        PosV {
            index: self.index,
            filename: self.filename@,
            line: self.line,
            column: self.column,
            len: self.len,
        }
    }
}

/// One step of the cursor: the index and column advance by one; stepping
/// over a newline moves to the start of the next line.
pub open spec fn spec_advance(p: PosV, current_char: Option<char>) -> PosV {
    if current_char == Some('\n') {
        PosV {
            index: (p.index + 1) as i64,
            filename: p.filename,
            line: (p.line + 1) as u64,
            column: 0,
            len: p.len,
        }
    } else {
        PosV {
            index: (p.index + 1) as i64,
            filename: p.filename,
            line: p.line,
            column: (p.column + 1) as i64,
            len: p.len,
        }
    }
}

/// The covering span from `a` through the end of `b`: it starts where `a`
/// starts and its length runs to `b`'s end, with the same wrap-around
/// arithmetic the executable code performs.
pub open spec fn spec_combine(a: PosV, b: PosV) -> PosV {
    PosV {
        index: a.index,
        filename: a.filename,
        line: a.line,
        column: a.column,
        len: u64::wrapping_add(i64::wrapping_sub(b.index, a.index) as u64, b.len),
    }
}

impl Clone for Position {
    fn clone(&self) -> (r: Self)
        ensures
            r@ == self@,
    {
        Position {
            index: self.index,
            filename: self.filename.clone(),
            line: self.line,
            column: self.column,
            len: self.len,
        }
    }
}

impl Position {
    pub fn new(index: i64, filename: String, line: u64, column: i64, len: u64) -> (r: Self)
        ensures
            r@ == (PosV {
                index: index,
                filename: filename@,
                line: line,
                column: column,
                len: len,
            }),
    {
        Self { index, filename, line, column, len }
    }

    pub fn advance(&mut self, current_char: Option<char>)
        requires
            old(self).index < i64::MAX,
            old(self).column < i64::MAX,
            old(self).line < u64::MAX,
        ensures
            final(self)@ == spec_advance(old(self)@, current_char),
    {
        self.index = self.index + 1;
        let is_newline = match current_char {
            Some(c) => c == '\n',
            None => false,
        };
        if is_newline {
            self.line = self.line + 1;
            self.column = 0;
        } else {
            self.column = self.column + 1;
        }
    }

    pub fn len(&self) -> (r: u64)
        ensures
            r == self.len,
    {
        self.len
    }

    pub fn set_len(&mut self, len: u64)
        ensures
            final(self)@ == (PosV { len: len, ..old(self)@ }),
    {
        self.len = len
    }

    pub fn combine(&self, other: Self) -> (r: Self)
        ensures
            r@ == spec_combine(self@, other@),
    {
        let diff: i64 = other.index.wrapping_sub(self.index);
        let diff_u: u64 = #[verifier::truncate] (diff as u64);
        Position::new(
            self.index,
            self.filename.clone(),
            self.line,
            self.column,
            diff_u.wrapping_add(other.len),
        )
    }
}

} // verus!
