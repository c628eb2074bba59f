use vstd::prelude::*;

verus! {

/// The closed set of keywords of the language.
#[derive(Clone, Copy, Debug, PartialEq, Eq, Structural)]
pub enum Keyword {
    Let,
    If,
    Else,
    Then,
    Elif,
    For,
    While,
    In,
    To,
}

/// The spelling of each keyword.
pub open spec fn spec_keyword_str(k: Keyword) -> Seq<char> {
    match k {
        Keyword::Let => "let"@,
        Keyword::If => "if"@,
        Keyword::Else => "else"@,
        Keyword::Then => "then"@,
        Keyword::Elif => "elif"@,
        Keyword::For => "for"@,
        Keyword::While => "while"@,
        Keyword::In => "in"@,
        Keyword::To => "to"@,
    }
}

/// The keyword, if any, that a word spells.
pub open spec fn spec_keyword_of(w: Seq<char>) -> Option<Keyword> {
    if w == "let"@ {
        Some(Keyword::Let)
    } else if w == "if"@ {
        Some(Keyword::If)
    } else if w == "else"@ {
        Some(Keyword::Else)
    } else if w == "then"@ {
        Some(Keyword::Then)
    } else if w == "elif"@ {
        Some(Keyword::Elif)
    } else if w == "for"@ {
        Some(Keyword::For)
    } else if w == "while"@ {
        Some(Keyword::While)
    } else if w == "in"@ {
        Some(Keyword::In)
    } else if w == "to"@ {
        Some(Keyword::To)
    } else {
        None
    }
}

/// The fixed keyword list, in source order.
pub fn keywords() -> (r: Vec<String>)
    ensures
        r@.len() == 9,
        r@[0]@ == "let"@,
        r@[1]@ == "if"@,
        r@[2]@ == "else"@,
        r@[3]@ == "then"@,
        r@[4]@ == "elif"@,
        r@[5]@ == "for"@,
        r@[6]@ == "while"@,
        r@[7]@ == "in"@,
        r@[8]@ == "to"@,
{
    let mut r: Vec<String> = Vec::new();
    r.push("let".to_owned());
    r.push("if".to_owned());
    r.push("else".to_owned());
    r.push("then".to_owned());
    r.push("elif".to_owned());
    r.push("for".to_owned());
    r.push("while".to_owned());
    r.push("in".to_owned());
    r.push("to".to_owned());
    r
}

/// Whether a word is a keyword: exact match against the keyword list.
pub fn is_keyword(word: String) -> (r: bool)
    ensures
        r == (spec_keyword_of(word@) is Some),
{
    from_str(word.as_str()).is_some()
}

/// Keyword lookup by exact spelling.
pub fn from_str(v: &str) -> (r: Option<Keyword>)
    ensures
        r == spec_keyword_of(v@),
{
    let w = v.to_owned();
    if w == "let".to_owned() {
        Some(Keyword::Let)
    } else if w == "if".to_owned() {
        Some(Keyword::If)
    } else if w == "else".to_owned() {
        Some(Keyword::Else)
    } else if w == "then".to_owned() {
        Some(Keyword::Then)
    } else if w == "elif".to_owned() {
        Some(Keyword::Elif)
    } else if w == "for".to_owned() {
        Some(Keyword::For)
    } else if w == "while".to_owned() {
        Some(Keyword::While)
    } else if w == "in".to_owned() {
        Some(Keyword::In)
    } else if w == "to".to_owned() {
        Some(Keyword::To)
    } else {
        None
    }
}

/// The spelling of a keyword, for printing a parsed tree back out.
pub fn keyword_str(k: &Keyword) -> (r: &'static str)
    ensures
        r@ == spec_keyword_str(*k),
{
    match k {
        Keyword::Let => "let",
        Keyword::If => "if",
        Keyword::Else => "else",
        Keyword::Then => "then",
        Keyword::Elif => "elif",
        Keyword::For => "for",
        Keyword::While => "while",
        Keyword::In => "in",
        Keyword::To => "to",
    }
}

} // verus!
