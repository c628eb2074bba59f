use vstd::prelude::*;

use crate::render::{i64_to_string, u64_to_string};
use vstd::string::StringExecFns;

use crate::context::{Context, CtxV};
use crate::position::{PosV, Position};

verus! {

/// The taxonomy of failures: malformed input, premature end of input while
/// an expression was still expected, an operation no token maps to, division
/// by a zero, an unbound name, an operation a value kind does not support,
/// and an operator applied across incompatible value kinds.
#[derive(Clone, Copy, Debug, PartialEq, Eq, Structural)]
pub enum ErrorKind {
    SyntaxError,
    EndOfFile,
    Undefined,
    ZeroDivision,
    NameError,
    Unimplemented,
    TypeError,
}

/// Mathematical model of an error: its kind, its message, and the position
/// or evaluation-context chain it was attributed to.
pub ghost struct ErrV {
    pub kind: ErrorKind,
    pub message: Seq<char>,
    pub position: Option<PosV>,
    pub context: Option<CtxV>,
}

/// An error, raised once and immutable after that; the evaluator can attach
/// an evaluation context as the error propagates outward.
pub struct Error {
    pub kind: ErrorKind,
    pub message: String,
    pub position: Option<Position>,
    pub context: Option<Context>,
}

impl View for Error {
    type V = ErrV;

    open spec fn view(&self) -> ErrV {
        ErrV {
            kind: self.kind,
            message: self.message@,
            position: match self.position {
                Some(ref p) => Some(p@),
                None => None,
            },
            context: match self.context {
                Some(ref c) => Some(c@),
                None => None,
            },
        }
    }
}

/// An error with neither position nor context attached yet.
pub open spec fn spec_err(kind: ErrorKind, message: Seq<char>) -> ErrV {
    ErrV { kind, message, position: None, context: None }
}

/// An error attributed to a position.
pub open spec fn spec_err_at(kind: ErrorKind, message: Seq<char>, position: PosV) -> ErrV {
    ErrV { kind, message, position: Some(position), context: None }
}

impl Error {
    pub fn new(kind: ErrorKind, message: &str, position: Option<Position>) -> (r: Self)
        ensures
            r@ == (ErrV {
                kind,
                message: message@,
                position: match position {
                    Some(p) => Some(p@),
                    None => None,
                },
                context: None,
            }),
    {
        Self { kind, message: message.to_owned(), position, context: None }
    }

    /// The same error, re-attributed to an evaluation context: the position
    /// is dropped and the context chain attached.
    pub fn with_context(self, context: Context) -> (r: Self)
        ensures
            r@ == (ErrV {
                kind: self@.kind,
                message: self@.message,
                position: None,
                context: Some(context@),
            }),
    {
        Self { kind: self.kind, message: self.message, position: None, context: Some(context) }
    }

    pub fn get_kind(&self) -> (r: ErrorKind)
        ensures
            r == self@.kind,
    {
        self.kind
    }

    pub fn get_message(&self) -> (r: String)
        ensures
            r@ == self@.message,
    {
        self.message.clone()
    }
}

/// The model of an executable `Result` whose error side is an `Error`: the
/// success value unchanged, the error replaced by its model.
pub open spec fn spec_ty_res_view<T>(r: Result<T, Error>) -> Result<T, ErrV> {
    match r {
        Ok(t) => Ok(t),
        Err(e) => Err(e@),
    }
}

/// The printed name of an error kind.
pub open spec fn spec_kind_str(kind: ErrorKind) -> Seq<char> {
    match kind {
        ErrorKind::SyntaxError => "SyntaxError"@,
        ErrorKind::EndOfFile => "EndOfFile"@,
        ErrorKind::Undefined => "Undefined"@,
        ErrorKind::ZeroDivision => "ZeroDivision"@,
        ErrorKind::NameError => "NameError"@,
        ErrorKind::Unimplemented => "Unimplemented"@,
        ErrorKind::TypeError => "TypeError"@,
    }
}

/// One traceback line for a position: the file, the 1-based line, and the
/// column as stored.
pub open spec fn spec_file_line(pos: PosV) -> Seq<char> {
    "  File "@ + pos.filename + ", line "@ + crate::render::spec_u64_decimal(
        u64::wrapping_add(pos.line, 1),
    ) + ", column "@ + crate::render::spec_i64_decimal(pos.column) + ":\n"@
}

/// The traceback lines of a context chain, outermost context first.
pub open spec fn spec_ctx_lines(c: CtxV) -> Seq<char>
    decreases c,
{
    match c.parent {
        Some(parent) => spec_ctx_lines(*parent) + spec_file_line(c.pos),
        None => spec_file_line(c.pos),
    }
}

/// The rendered form of an error: when a position or a context chain is
/// attached, the traceback header and its lines, context chain first; then
/// the kind's name and the message.
pub open spec fn spec_error_display(e: ErrV) -> Seq<char> {
    let pos_part = match e.position {
        Some(p) => spec_file_line(p),
        None => Seq::<char>::empty(),
    };
    let tb = match e.context {
        Some(c) => spec_ctx_lines(c) + pos_part,
        None => pos_part,
    };
    let head = if e.position is Some || e.context is Some {
        "ERROR - Traceback:\n"@ + tb
    } else {
        Seq::<char>::empty()
    };
    head + spec_kind_str(e.kind) + ": "@ + e.message
}

/// The printed name of an error kind.
pub fn kind_str(kind: ErrorKind) -> (r: &'static str)
    ensures
        r@ == spec_kind_str(kind),
{
    match kind {
        ErrorKind::SyntaxError => "SyntaxError",
        ErrorKind::EndOfFile => "EndOfFile",
        ErrorKind::Undefined => "Undefined",
        ErrorKind::ZeroDivision => "ZeroDivision",
        ErrorKind::NameError => "NameError",
        ErrorKind::Unimplemented => "Unimplemented",
        ErrorKind::TypeError => "TypeError",
    }
}

/// One traceback line for a position: the file, the 1-based line, and the
/// column.
fn file_line(pos: &Position) -> (r: String)
    ensures
        r@ == spec_file_line(pos@),
{
    let r = String::from_str("  File ").concat(pos.filename.as_str()).concat(", line ").concat(
        u64_to_string(pos.line.wrapping_add(1)).as_str(),
    ).concat(", column ").concat(i64_to_string(pos.column).as_str()).concat(":\n");
    proof {
        assert(r@ =~= spec_file_line(pos@));
    }
    r
}

/// The traceback lines of a context chain, outermost context first.
fn ctx_lines(c: &Context) -> (r: String)
    ensures
        r@ == spec_ctx_lines(c@),
    decreases *c,
{
    let own = file_line(&c.pos);
    match &c.context {
        Some(parent) => {
            let r = ctx_lines(&**parent).concat(own.as_str());
            proof {
                assert(r@ =~= spec_ctx_lines(c@));
            }
            r
        },
        None => own,
    }
}

impl Error {
    /// Renders the error as the read-eval-print loop shows it: a traceback
    /// of the attributed positions, outermost first, then the error kind and
    /// message, as `spec_error_display` lays it out.
    pub fn to_display_string(&self) -> (r: String)
        ensures
            r@ == spec_error_display(self@),
    {
        let mut traceback = String::new();
        let mut has_any = false;
        if let Some(pos) = &self.position {
            traceback = file_line(pos);
            has_any = true;
        }
        if let Some(context) = &self.context {
            traceback = ctx_lines(context).concat(traceback.as_str());
            has_any = true;
        }
        let mut out = String::new();
        if has_any {
            out = String::from_str("ERROR - Traceback:\n").concat(traceback.as_str());
        }
        let r = out.concat(kind_str(self.kind)).concat(": ").concat(self.message.as_str());
        proof {
            assert(r@ =~= spec_error_display(self@));
        }
        r
    }
}

} // verus!
