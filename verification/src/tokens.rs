//! The lexical tokens the structure parser consumes, and the canonical text
//! each one stands for. Block delimiters arrive as paired open/close markers.

use vstd::prelude::*;

verus! {

/// A lexical token of a stylesheet, as an external tokenizer hands it over.
#[derive(Debug, PartialEq, Eq)]
pub enum CssToken {
    /// A bare identifier.
    Ident(String),
    /// `#name`, an id hash.
    IdHash(String),
    /// `@name`.
    AtKeyword(String),
    /// `name(`: a function name; its arguments follow up to the matching
    /// `ParenClose`.
    Function(String),
    /// A quoted string, carrying its unescaped contents.
    Str(String),
    /// A single delimiter character such as `.`, `*`, `>`, `+`, `~`, `|`, `&`.
    Delim(char),
    /// A run of whitespace.
    Space,
    Colon,
    Semicolon,
    Comma,
    CurlyOpen,
    CurlyClose,
    SquareOpen,
    SquareClose,
    ParenOpen,
    ParenClose,
    /// Any other token, carrying its canonical text.
    Other(String),
}

impl CssToken {
    /// Whether this token opens a nested region in the flat token stream.
    pub open spec fn spec_opens_block(&self) -> bool {
        self is Function || self is CurlyOpen || self is SquareOpen || self is ParenOpen
    }

    /// Whether this token closes a nested region in the flat token stream.
    pub open spec fn spec_closes_block(&self) -> bool {
        self is CurlyClose || self is SquareClose || self is ParenClose
    }

    #[verifier::when_used_as_spec(spec_opens_block)]
    pub fn opens_block(&self) -> (r: bool)
        ensures
            r == self.spec_opens_block(),
    {
        match self {
            CssToken::Function(_) => true,
            CssToken::CurlyOpen => true,
            CssToken::SquareOpen => true,
            CssToken::ParenOpen => true,
            _ => false,
        }
    }

    #[verifier::when_used_as_spec(spec_closes_block)]
    pub fn closes_block(&self) -> (r: bool)
        ensures
            r == self.spec_closes_block(),
    {
        match self {
            CssToken::CurlyClose => true,
            CssToken::SquareClose => true,
            CssToken::ParenClose => true,
            _ => false,
        }
    }
}

/// The canonical source text a token stands for, used when a declaration
/// value is put back together from the tokens between the colon and the
/// terminating semicolon.
pub open spec fn tok_text(t: CssToken) -> Seq<char> {
    match t {
        CssToken::Ident(s) => s@,
        CssToken::IdHash(s) => "#"@ + s@,
        CssToken::AtKeyword(s) => "@"@ + s@,
        CssToken::Function(s) => s@ + "("@,
        CssToken::Str(s) => "\""@ + s@ + "\""@,
        CssToken::Delim(c) => seq![c],
        CssToken::Space => " "@,
        CssToken::Colon => ":"@,
        CssToken::Semicolon => ";"@,
        CssToken::Comma => ","@,
        CssToken::CurlyOpen => "{"@,
        CssToken::CurlyClose => "}"@,
        CssToken::SquareOpen => "["@,
        CssToken::SquareClose => "]"@,
        CssToken::ParenOpen => "("@,
        CssToken::ParenClose => ")"@,
        CssToken::Other(s) => s@,
    }
}

/// Relies on `char::to_string` of std: the resulting string holds exactly
/// the one character.
#[verifier::external_body]
fn char_text(c: char) -> (r: String)
    ensures
        r@ == seq![c],
{
    c.to_string()
}

/// The canonical text of one token, as executable code.
pub fn token_text(t: &CssToken) -> (r: String)
    ensures
        r@ == tok_text(*t),
{
    match t {
        CssToken::Ident(s) => s.clone(),
        CssToken::IdHash(s) => String::from_str("#").concat(s.as_str()),
        CssToken::AtKeyword(s) => String::from_str("@").concat(s.as_str()),
        CssToken::Function(s) => s.clone().concat("("),
        CssToken::Str(s) => String::from_str("\"").concat(s.as_str()).concat("\""),
        CssToken::Delim(c) => char_text(*c),
        CssToken::Space => String::from_str(" "),
        CssToken::Colon => String::from_str(":"),
        CssToken::Semicolon => String::from_str(";"),
        CssToken::Comma => String::from_str(","),
        CssToken::CurlyOpen => String::from_str("{"),
        CssToken::CurlyClose => String::from_str("}"),
        CssToken::SquareOpen => String::from_str("["),
        CssToken::SquareClose => String::from_str("]"),
        CssToken::ParenOpen => String::from_str("("),
        CssToken::ParenClose => String::from_str(")"),
        CssToken::Other(s) => s.clone(),
    }
}

} // verus!
