//! The boundary to the external tokenizer. The cssparser crate turns source
//! text into lexical tokens; everything it hands over is converted to plain
//! `CssToken` values, on which the verified parser does all further work.

use vstd::prelude::*;
use crate::ast::{rules_wf, nodes_view, CssError, RuleNode};
use crate::grammar::MAX_NESTING_DEPTH;
use crate::laws::lemma_stylesheet_wf;
use crate::parser::parse_stylesheet_tokens;
use crate::tokens::CssToken;
use cssparser::Token;

verus! {

#[verifier::external_type_specification]
#[verifier::external_body]
pub struct ExParser<'i>(cssparser::Parser<'i>);

#[verifier::external_type_specification]
#[verifier::external_body]
pub struct ExToken<'i>(Token<'i>);

/// Relies on `cssparser::Parser::new`: a parser reading the given text from
/// its start.
#[verifier::external_body]
fn new_parser<'i>(css: &'i str) -> (p: cssparser::Parser<'i>) {
    cssparser::Parser::new(css)
}

/// Relies on `cssparser::Parser::next_including_whitespace`: the next token
/// of the stream, whitespace kept, comments skipped; an error - reported
/// here as `None` - at the end of the current scope.
#[verifier::external_body]
fn next_tok<'i>(p: &mut cssparser::Parser<'i>) -> (r: Option<Token<'i>>) {
    match p.next_including_whitespace() {
        Ok(t) => Option::Some(t.clone()),
        Err(_) => Option::None,
    }
}

/// Tells the text-carrying `cssparser::Token` variants apart, moving each
/// one's text into the matching plain token.
#[verifier::external_body]
fn conv_named(t: &Token<'_>) -> (r: Option<CssToken>) {
    match t {
        Token::Ident(s) => Option::Some(CssToken::Ident(s.to_string())),
        Token::IDHash(s) => Option::Some(CssToken::IdHash(s.to_string())),
        Token::AtKeyword(s) => Option::Some(CssToken::AtKeyword(s.to_string())),
        Token::Function(s) => Option::Some(CssToken::Function(s.to_string())),
        Token::QuotedString(s) => Option::Some(CssToken::Str(s.to_string())),
        _ => Option::None,
    }
}

/// Tells the punctuation and block-opening `cssparser::Token` variants apart.
#[verifier::external_body]
fn conv_punct(t: &Token<'_>) -> (r: Option<CssToken>) {
    match t {
        Token::Delim(c) => Option::Some(CssToken::Delim(*c)),
        Token::WhiteSpace(_) => Option::Some(CssToken::Space),
        Token::Colon => Option::Some(CssToken::Colon),
        Token::Semicolon => Option::Some(CssToken::Semicolon),
        Token::Comma => Option::Some(CssToken::Comma),
        Token::CurlyBracketBlock => Option::Some(CssToken::CurlyOpen),
        Token::SquareBracketBlock => Option::Some(CssToken::SquareOpen),
        Token::ParenthesisBlock => Option::Some(CssToken::ParenOpen),
        _ => Option::None,
    }
}

/// Relies on `cssparser::ToCss::to_css_string`: the canonical text of any
/// other token, carried through opaquely.
#[verifier::external_body]
fn conv_other(t: &Token<'_>) -> (r: CssToken) {
    CssToken::Other(cssparser::ToCss::to_css_string(t))
}

/// Relies on `cssparser::Parser::parse_nested_block`: it runs the given
/// function on a parser bounded to the just-opened block's interior,
/// consumes the closing delimiter whatever happens, and hands back the
/// function's result - or an error of its own if the function had succeeded
/// without reading the whole interior.
#[verifier::external_body]
fn descend<'i>(p: &mut cssparser::Parser<'i>, depth: usize, fuel: usize) -> (r: Result<
    Vec<CssToken>,
    CssError,
>) {
    let nested = p.parse_nested_block(
        |q| tokenize_region(q, depth, fuel).map_err(cssparser::ParseError::<CssError>::custom),
    );
    match nested {
        Ok(inner) => Ok(inner),
        Err(e) => match e.kind {
            cssparser::ParseErrorKind::Custom(c) => Err(c),
            cssparser::ParseErrorKind::Basic(_) => Err(CssError::TokenMismatch),
        },
    }
}

/// One scope of the token stream, flattened: every token converted in order,
/// each nested block replaced by its open marker, its own flattened tokens,
/// and its close marker. `fuel` bounds the scan as the spent source text
/// does; a stream that outruns it has broken the stream contract.
fn tokenize_region<'i>(p: &mut cssparser::Parser<'i>, depth: usize, fuel: usize) -> (r: Result<
    Vec<CssToken>,
    CssError,
>) {
    let mut out: Vec<CssToken> = Vec::new();
    let mut fuel = fuel;
    loop
        decreases fuel,
    {
        let t = match next_tok(p) {
            Option::None => {
                return Ok(out);
            },
            Option::Some(t) => t,
        };
        if fuel == 0 {
            return Err(CssError::TokenMismatch);
        }
        fuel = fuel - 1;
        let c = match conv_named(&t) {
            Option::Some(c) => c,
            Option::None => match conv_punct(&t) {
                Option::Some(c) => c,
                Option::None => conv_other(&t),
            },
        };
        if c.opens_block() {
            if depth >= MAX_NESTING_DEPTH {
                return Err(CssError::NestingTooDeep);
            }
            let close = match &c {
                CssToken::CurlyOpen => CssToken::CurlyClose,
                CssToken::SquareOpen => CssToken::SquareClose,
                _ => CssToken::ParenClose,
            };
            out.push(c);
            match descend(p, depth + 1, fuel) {
                Err(e) => {
                    return Err(e);
                },
                Ok(mut inner) => {
                    out.append(&mut inner);
                },
            }
            out.push(close);
        } else {
            out.push(c);
        }
    }
}

/// The lexical tokens of `css`, as the external tokenizer reads them, with
/// each block flattened into an open marker, its interior, and a close
/// marker. Fails with `NestingTooDeep` past `MAX_NESTING_DEPTH` nested
/// blocks.
pub fn tokenize(css: &str) -> (r: Result<Vec<CssToken>, CssError>) {
    let mut p = new_parser(css);
    let fuel = css.len();
    tokenize_region(&mut p, 0, fuel)
}

/// Parse a stylesheet from its source text: the external tokenizer reads the
/// text, and the verified parser builds the rule tree from the tokens. Every
/// tree this returns satisfies the nesting invariant: only at-rule nodes
/// carry children, and those carry no selectors or declarations of their
/// own.
pub fn parse_css(css: &str) -> (r: Result<Vec<RuleNode>, CssError>)
    ensures
        match r {
            Ok(ns) => rules_wf(nodes_view(ns@)),
            Err(_) => true,
        },
{
    match tokenize(css) {
        Err(e) => Err(e),
        Ok(toks) => {
            if toks.len() == usize::MAX {
                return Err(CssError::TokenMismatch);
            }
            let r = parse_stylesheet_tokens(&toks);
            proof {
                lemma_stylesheet_wf(toks@);
            }
            r
        },
    }
}

} // verus!
