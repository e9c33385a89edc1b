//! The grammar itself, as specification functions over a token sequence.
//! Each returns what is parsed together with the index where parsing ended;
//! the executable parser is proved to return exactly these values.

use vstd::prelude::*;
use crate::ast::{AttrOperator, AttributeSpec, Combinator, CssError, DeclV, RuleNodeV,
    SelectorAtom, SelectorExpression};
use crate::tokens::{tok_text, CssToken};

verus! {

/// The deepest at-rule nesting a stylesheet may use before the parse
/// surfaces `NestingTooDeep`.
pub const MAX_NESTING_DEPTH: usize = 64;

/// The tokens that remain past `i`: the measure every recursion lowers.
pub open spec fn rem(t: Seq<CssToken>, i: int) -> int {
    if i <= t.len() {
        t.len() - i
    } else {
        0
    }
}

/// `j`, forced past `lo` so that every recursion advances. The executable
/// parser always moves forward, so there the force never fires.
pub open spec fn adv(lo: int, j: int) -> int {
    if j <= lo {
        lo + 1
    } else {
        j
    }
}

/// First index at or after `i` that does not hold whitespace.
pub open spec fn sp_skip_ws(t: Seq<CssToken>, i: int) -> int
    decreases rem(t, i),
{
    if i >= t.len() {
        i
    } else if t[i] is Space {
        sp_skip_ws(t, i + 1)
    } else {
        i
    }
}

/// Index just past the close marker that balances `d` already-open regions,
/// or the end of input if the close never comes.
pub open spec fn sp_skip_bal(t: Seq<CssToken>, i: int, d: int) -> int
    decreases rem(t, i),
{
    if i >= t.len() {
        i
    } else if t[i].opens_block() {
        sp_skip_bal(t, i + 1, d + 1)
    } else if t[i].closes_block() {
        if d <= 1 {
            i + 1
        } else {
            sp_skip_bal(t, i + 1, d - 1)
        }
    } else {
        sp_skip_bal(t, i + 1, d)
    }
}

/// Index of the next top-level `{`. Stops early at a close marker or at the
/// end of input; the caller treats anything but a `{` there as a fault.
pub open spec fn sp_find_curly(t: Seq<CssToken>, i: int) -> int
    decreases rem(t, i),
{
    if i >= t.len() {
        i
    } else if t[i] is CurlyOpen {
        i
    } else if t[i].closes_block() {
        i
    } else if t[i].opens_block() {
        sp_find_curly(t, adv(i, sp_skip_bal(t, i + 1, 1)))
    } else {
        sp_find_curly(t, i + 1)
    }
}

/// Index just past the next top-level `;`, or at a close marker or the end
/// of input if none comes. Used to skip a statement-shaped at-rule.
pub open spec fn sp_skip_semi(t: Seq<CssToken>, i: int) -> int
    decreases rem(t, i),
{
    if i >= t.len() {
        i
    } else if t[i] is Semicolon {
        i + 1
    } else if t[i].closes_block() {
        i
    } else if t[i].opens_block() {
        sp_skip_semi(t, adv(i, sp_skip_bal(t, i + 1, 1)))
    } else {
        sp_skip_semi(t, i + 1)
    }
}

/// The raw text of a declaration value: the canonical text of every token up
/// to the terminating top-level `;` (consumed) or close marker (left in
/// place), with leading and trailing whitespace dropped. Returns the text and
/// the index where the value ended.
pub open spec fn sp_value(
    t: Seq<CssToken>,
    i: int,
    d: int,
    acc: Seq<char>,
    pend: Seq<char>,
) -> (Seq<char>, int)
    decreases rem(t, i),
{
    if i >= t.len() {
        (acc, i)
    } else if d <= 0 && t[i] is Semicolon {
        (acc, i + 1)
    } else if d <= 0 && t[i].closes_block() {
        (acc, i)
    } else if t[i] is Space {
        sp_value(t, i + 1, d, acc, pend + " "@)
    } else {
        let acc2 = if acc.len() == 0 {
            tok_text(t[i])
        } else {
            acc + pend + tok_text(t[i])
        };
        let d2 = if t[i].opens_block() {
            d + 1
        } else if t[i].closes_block() {
            d - 1
        } else {
            d
        };
        sp_value(t, i + 1, d2, acc2, Seq::empty())
    }
}

/// The declarations of a block interior, from `i` up to the close marker of
/// the enclosing block (left in place) or the end of input. A `;` with no
/// key in front of it is tolerated and skipped; a missing key or colon is
/// `MalformedDeclaration`.
pub open spec fn sp_decls(t: Seq<CssToken>, i: int) -> Result<(Seq<DeclV>, int), CssError>
    decreases rem(t, i),
{
    if i >= t.len() {
        Ok((Seq::empty(), i))
    } else if t[i] is Space || t[i] is Semicolon {
        sp_decls(t, i + 1)
    } else if t[i].closes_block() {
        Ok((Seq::empty(), i))
    } else {
        match t[i] {
            CssToken::Ident(k) => {
                let c = adv(i, sp_skip_ws(t, i + 1));
                if c >= t.len() || !(t[c] is Colon) {
                    Err(CssError::MalformedDeclaration)
                } else {
                    let (v, j) = sp_value(t, c + 1, 0, Seq::empty(), Seq::empty());
                    let j2 = adv(c, j);
                    match sp_decls(t, j2) {
                        Ok((rest, e)) => Ok((seq![DeclV { key: k@, value: v }] + rest, e)),
                        Err(er) => Err(er),
                    }
                }
            },
            _ => Err(CssError::MalformedDeclaration),
        }
    }
}

/// The interior of a bracketed attribute selector, from just past the `[`:
/// a name, an optional operator with its value and case flag, then the `]`.
/// Returns the spec and the index just past the `]`.
pub open spec fn sp_attr(t: Seq<CssToken>, i: int) -> Result<(AttributeSpec, int), CssError> {
    let p1 = sp_skip_ws(t, i);
    if p1 >= t.len() || !(t[p1] is Ident) {
        Err(CssError::MalformedSelector)
    } else {
        let name = t[p1]->Ident_0;
        let p2 = sp_skip_ws(t, p1 + 1);
        if p2 >= t.len() {
            Err(CssError::MalformedSelector)
        } else if t[p2] is SquareClose {
            Ok((
                AttributeSpec {
                    name,
                    operator: AttrOperator::Presence,
                    value: Option::None,
                    case_insensitive: false,
                },
                p2 + 1,
            ))
        } else {
            match sp_attr_op(t[p2]) {
                Option::None => Err(CssError::MalformedSelector),
                Option::Some(op) => {
                    let p3 = sp_skip_ws(t, p2 + 1);
                    if p3 >= t.len() || !(t[p3] is Ident || t[p3] is Str) {
                        Err(CssError::MalformedSelector)
                    } else {
                        let v = if t[p3] is Ident {
                            t[p3]->Ident_0
                        } else {
                            t[p3]->Str_0
                        };
                        let p4 = sp_skip_ws(t, p3 + 1);
                        if p4 >= t.len() {
                            Err(CssError::MalformedSelector)
                        } else if t[p4] is SquareClose {
                            Ok((
                                AttributeSpec {
                                    name,
                                    operator: op,
                                    value: Option::Some(v),
                                    case_insensitive: false,
                                },
                                p4 + 1,
                            ))
                        } else {
                            match sp_case_flag(t[p4]) {
                                Option::None => Err(CssError::MalformedSelector),
                                Option::Some(ci) => {
                                    let p5 = sp_skip_ws(t, p4 + 1);
                                    if p5 >= t.len() || !(t[p5] is SquareClose) {
                                        Err(CssError::MalformedSelector)
                                    } else {
                                        Ok((
                                            AttributeSpec {
                                                name,
                                                operator: op,
                                                value: Option::Some(v),
                                                case_insensitive: ci,
                                            },
                                            p5 + 1,
                                        ))
                                    }
                                },
                            }
                        }
                    }
                },
            }
        }
    }
}

/// The attribute operator a token stands for, if any.
pub open spec fn sp_attr_op(t: CssToken) -> Option<AttrOperator> {
    match t {
        CssToken::Delim(c) => if c == '=' {
            Option::Some(AttrOperator::Equals)
        } else {
            Option::None
        },
        CssToken::Other(s) => if s@ == "~="@ {
            Option::Some(AttrOperator::Includes)
        } else if s@ == "|="@ {
            Option::Some(AttrOperator::DashMatch)
        } else if s@ == "^="@ {
            Option::Some(AttrOperator::Prefix)
        } else if s@ == "$="@ {
            Option::Some(AttrOperator::Suffix)
        } else if s@ == "*="@ {
            Option::Some(AttrOperator::Substring)
        } else {
            Option::None
        },
        _ => Option::None,
    }
}

/// The case flag an identifier token stands for at the end of an attribute
/// selector: `i` asks for a case-insensitive match, `s` for a sensitive one.
pub open spec fn sp_case_flag(t: CssToken) -> Option<bool> {
    match t {
        CssToken::Ident(s) => if s@ == "i"@ || s@ == "I"@ {
            Option::Some(true)
        } else if s@ == "s"@ || s@ == "S"@ {
            Option::Some(false)
        } else {
            Option::None
        },
        _ => Option::None,
    }
}

/// `cur` with `a` appended; a pending whitespace first becomes a descendant
/// combinator between the two atoms.
pub open spec fn push_atom(
    cur: Seq<SelectorExpression>,
    pend: bool,
    a: SelectorAtom,
) -> Seq<SelectorExpression> {
    if pend {
        cur + seq![
            SelectorExpression::Combinator(Combinator::Descendant),
            SelectorExpression::Atom(a),
        ]
    } else {
        cur.push(SelectorExpression::Atom(a))
    }
}

/// Whether the last entry of `cur` is an atom that a pseudo-class or
/// attribute selector may wrap: present, an atom, and not cut off from the
/// wrap by pending whitespace.
pub open spec fn can_wrap(cur: Seq<SelectorExpression>, pend: bool) -> bool {
    !pend && cur.len() > 0 && cur.last() is Atom
}

/// `cur` with its last atom wrapped into `a` (which already owns it).
pub open spec fn wrap_last(cur: Seq<SelectorExpression>, a: SelectorAtom) -> Seq<
    SelectorExpression,
> {
    cur.drop_last().push(SelectorExpression::Atom(a))
}

/// The selector list: compound selector sequences split on top-level commas,
/// consumed up to a terminating `{` (consumed, reported `true`) or the end of
/// input (reported `false`). `cur` is the sequence being built, `acc` the
/// finished ones, `pend` whether whitespace is pending behind the last atom.
pub open spec fn sp_sel(
    t: Seq<CssToken>,
    i: int,
    cur: Seq<SelectorExpression>,
    acc: Seq<Seq<SelectorExpression>>,
    pend: bool,
) -> Result<(Seq<Seq<SelectorExpression>>, int, bool), CssError>
    decreases rem(t, i),
{
    if i >= t.len() {
        Ok((acc, i, false))
    } else {
        match t[i] {
            CssToken::CurlyOpen => Ok((acc.push(cur), i + 1, true)),
            CssToken::Comma => sp_sel(t, i + 1, Seq::empty(), acc.push(cur), false),
            CssToken::Space => sp_sel(t, i + 1, cur, acc, cur.len() > 0 && cur.last() is Atom),
            CssToken::Ident(s) => sp_sel(t, i + 1, push_atom(cur, pend, SelectorAtom::Type(s)), acc, false),
            CssToken::IdHash(s) => sp_sel(t, i + 1, push_atom(cur, pend, SelectorAtom::Id(s)), acc, false),
            CssToken::Delim(c) => {
                if c == '.' {
                    let j = adv(i, sp_skip_ws(t, i + 1));
                    if j < t.len() && t[j] is Ident {
                        let nm = t[j]->Ident_0;
                        sp_sel(t, j + 1, push_atom(cur, pend, SelectorAtom::Class(nm)), acc, false)
                    } else {
                        Err(CssError::MalformedSelector)
                    }
                } else if c == '*' {
                    sp_sel(t, i + 1, push_atom(cur, pend, SelectorAtom::Universal), acc, false)
                } else if c == '>' {
                    sp_sel(t, i + 1, cur.push(SelectorExpression::Combinator(Combinator::Child)), acc, false)
                } else if c == '+' {
                    sp_sel(t, i + 1, cur.push(SelectorExpression::Combinator(Combinator::NextSibling)), acc, false)
                } else if c == '~' {
                    sp_sel(t, i + 1, cur.push(SelectorExpression::Combinator(Combinator::SubsequentSibling)), acc, false)
                } else if c == '|' {
                    if i + 1 < t.len() && t[i + 1] == CssToken::Delim('|') {
                        Err(CssError::UnsupportedSelectorSyntax)
                    } else {
                        sp_sel(t, i + 1, cur.push(SelectorExpression::Combinator(Combinator::Namespace)), acc, false)
                    }
                } else if c == '&' {
                    Err(CssError::UnsupportedSelectorSyntax)
                } else {
                    Err(CssError::MalformedSelector)
                }
            },
            CssToken::Colon => {
                if i + 1 < t.len() && t[i + 1] is Ident {
                    if can_wrap(cur, pend) {
                        let a = SelectorAtom::PseudoClass(
                            Box::new(cur.last()->Atom_0),
                            t[i + 1]->Ident_0,
                        );
                        sp_sel(t, i + 2, wrap_last(cur, a), acc, false)
                    } else {
                        Err(CssError::MalformedSelector)
                    }
                } else if i + 1 < t.len() && t[i + 1] is Function {
                    if can_wrap(cur, pend) {
                        let a = SelectorAtom::PseudoClass(
                            Box::new(cur.last()->Atom_0),
                            t[i + 1]->Function_0,
                        );
                        let j = adv(i + 1, sp_skip_bal(t, i + 2, 1));
                        sp_sel(t, j, wrap_last(cur, a), acc, false)
                    } else {
                        Err(CssError::MalformedSelector)
                    }
                } else {
                    Err(CssError::UnsupportedSelectorSyntax)
                }
            },
            CssToken::Function(f) => {
                if can_wrap(cur, pend) {
                    let a = SelectorAtom::PseudoClass(Box::new(cur.last()->Atom_0), f);
                    let j = adv(i, sp_skip_bal(t, i + 1, 1));
                    sp_sel(t, j, wrap_last(cur, a), acc, false)
                } else {
                    Err(CssError::MalformedSelector)
                }
            },
            CssToken::SquareOpen => {
                if cur.len() == 0 || can_wrap(cur, pend) {
                    match sp_attr(t, i + 1) {
                        Ok((aspec, j)) => {
                            let base = if cur.len() == 0 {
                                SelectorAtom::Universal
                            } else {
                                cur.last()->Atom_0
                            };
                            let cur2 = if cur.len() == 0 {
                                cur
                            } else {
                                cur.drop_last()
                            };
                            let a = SelectorAtom::Attribute(Box::new(base), aspec);
                            let j2 = adv(i, j);
                            sp_sel(t, j2, cur2.push(SelectorExpression::Atom(a)), acc, false)
                        },
                        Err(e) => Err(e),
                    }
                } else {
                    Err(CssError::MalformedSelector)
                }
            },
            _ => Err(CssError::MalformedSelector),
        }
    }
}

/// One rule node per compound selector sequence, each holding the same
/// declarations by value and no children.
pub open spec fn expand_rules(
    seqs: Seq<Seq<SelectorExpression>>,
    ds: Seq<DeclV>,
) -> Seq<RuleNodeV> {
    seqs.map_values(
        |s: Seq<SelectorExpression>|
            RuleNodeV { selectors: s, declarations: ds, children: Seq::empty() },
    )
}

/// Whether `kw` is a spelling of the keyframes at-rule, vendor prefixes
/// included.
pub open spec fn is_keyframes_kw(kw: Seq<char>) -> bool {
    ||| kw == "keyframes"@
    ||| kw == "-webkit-keyframes"@
    ||| kw == "-moz-keyframes"@
    ||| kw == "-o-keyframes"@
    ||| kw == "-ms-keyframes"@
}

/// An at-rule, from just past its keyword. `media` and `supports` skip their
/// condition up to the `{` and recurse into it; `container` takes an optional
/// name and a required parenthesized declaration-shaped condition before its
/// block; `keyframes` takes a required name and an opaque block; `font-face`
/// an opaque block; `import` is skipped through its `;`. Anything else is
/// `UnsupportedAtRule`. The nesting-capable rules produce a node whose own
/// selectors and declarations are empty.
pub open spec fn sp_at(t: Seq<CssToken>, i: int, kw: String, depth: int) -> Result<
    (Option<RuleNodeV>, int),
    CssError,
>
    decreases rem(t, i), 0int,
{
    if kw@ == "media"@ || kw@ == "supports"@ {
        let j = sp_find_curly(t, i);
        let j2 = adv(i - 1, j);
        if j2 >= t.len() || !(t[j2] is CurlyOpen) {
            Err(CssError::DelimiterMismatch)
        } else if depth + 1 > MAX_NESTING_DEPTH as int {
            Err(CssError::NestingTooDeep)
        } else {
            match sp_rules(t, j2 + 1, depth + 1) {
                Ok((kids, e)) => {
                    let e2 = if e < t.len() { e + 1 } else { e };
                    Ok((
                        Option::Some(
                            RuleNodeV {
                                selectors: Seq::empty(),
                                declarations: Seq::empty(),
                                children: kids,
                            },
                        ),
                        e2,
                    ))
                },
                Err(er) => Err(er),
            }
        }
    } else if kw@ == "container"@ {
        let p1 = sp_skip_ws(t, i);
        let p2 = if p1 < t.len() && t[p1] is Ident {
            sp_skip_ws(t, p1 + 1)
        } else {
            p1
        };
        if p2 >= t.len() || !(t[p2] is ParenOpen) {
            Err(CssError::DelimiterMismatch)
        } else {
            let p3 = adv(i - 1, p2);
            match sp_decls(t, p3 + 1) {
                Err(er) => Err(er),
                Ok((_cond, q)) => {
                    let q2 = adv(p3, q);
                    if q2 >= t.len() || !(t[q2] is ParenClose) {
                        Err(CssError::DelimiterMismatch)
                    } else {
                        let r1 = sp_skip_ws(t, q2 + 1);
                        if r1 >= t.len() || !(t[r1] is CurlyOpen) {
                            Err(CssError::DelimiterMismatch)
                        } else if depth + 1 > MAX_NESTING_DEPTH as int {
                            Err(CssError::NestingTooDeep)
                        } else {
                            let r2 = adv(q2, r1);
                            match sp_rules(t, r2 + 1, depth + 1) {
                                Ok((kids, e)) => {
                                    let e2 = if e < t.len() { e + 1 } else { e };
                                    Ok((
                                        Option::Some(
                                            RuleNodeV {
                                                selectors: Seq::empty(),
                                                declarations: Seq::empty(),
                                                children: kids,
                                            },
                                        ),
                                        e2,
                                    ))
                                },
                                Err(er) => Err(er),
                            }
                        }
                    }
                },
            }
        }
    } else if is_keyframes_kw(kw@) {
        let p1 = sp_skip_ws(t, i);
        if p1 >= t.len() || !(t[p1] is Ident) {
            Err(CssError::TokenMismatch)
        } else {
            let p2 = sp_skip_ws(t, p1 + 1);
            if p2 >= t.len() || !(t[p2] is CurlyOpen) {
                Err(CssError::DelimiterMismatch)
            } else {
                Ok((Option::None, sp_skip_bal(t, p2 + 1, 1)))
            }
        }
    } else if kw@ == "font-face"@ {
        let p1 = sp_skip_ws(t, i);
        if p1 >= t.len() || !(t[p1] is CurlyOpen) {
            Err(CssError::DelimiterMismatch)
        } else {
            Ok((Option::None, sp_skip_bal(t, p1 + 1, 1)))
        }
    } else if kw@ == "import"@ {
        Ok((Option::None, sp_skip_semi(t, i)))
    } else {
        Err(CssError::UnsupportedAtRule(kw))
    }
}

/// A run of rules: selector blocks and at-rules, whitespace between them
/// skipped, ending at the enclosing block's `}` (left in place) or at the end
/// of input. A stray `{` with no selector in front of it is `UnexpectedBlock`.
pub open spec fn sp_rules(t: Seq<CssToken>, i: int, depth: int) -> Result<
    (Seq<RuleNodeV>, int),
    CssError,
>
    decreases rem(t, i), 1int,
{
    if i >= t.len() {
        Ok((Seq::empty(), i))
    } else if t[i] is Space {
        sp_rules(t, i + 1, depth)
    } else if t[i] is CurlyClose {
        Ok((Seq::empty(), i))
    } else if t[i] is CurlyOpen {
        Err(CssError::UnexpectedBlock)
    } else if t[i] is AtKeyword {
        match sp_at(t, i + 1, t[i]->AtKeyword_0, depth) {
            Err(e) => Err(e),
            Ok((opt, j)) => {
                let j2 = adv(i, j);
                match sp_rules(t, j2, depth) {
                    Err(e) => Err(e),
                    Ok((rest, e)) => Ok((
                        match opt {
                            Option::Some(n) => seq![n] + rest,
                            Option::None => rest,
                        },
                        e,
                    )),
                }
            },
        }
    } else {
        match sp_sel(t, i, Seq::empty(), Seq::empty(), false) {
            Err(e) => Err(e),
            Ok((seqs, j, ended)) => {
                if !ended {
                    Err(CssError::DelimiterMismatch)
                } else {
                    let j2 = adv(i, j);
                    match sp_decls(t, j2) {
                        Err(e) => Err(e),
                        Ok((ds, q)) => {
                            let q2 = adv(j2 - 1, q);
                            if q2 < t.len() && !(t[q2] is CurlyClose) {
                                Err(CssError::MalformedDeclaration)
                            } else {
                                let e1 = if q2 < t.len() {
                                    q2 + 1
                                } else {
                                    q2
                                };
                                let e2 = adv(i, e1);
                                match sp_rules(t, e2, depth) {
                                    Err(e) => Err(e),
                                    Ok((rest, e3)) => Ok((expand_rules(seqs, ds) + rest, e3)),
                                }
                            }
                        },
                    }
                }
            },
        }
    }
}

/// A whole stylesheet: the top-level run of rules, which must consume every
/// token; a token the run would not touch (a stray `}`) is `TokenMismatch`.
pub open spec fn sp_stylesheet(t: Seq<CssToken>) -> Result<Seq<RuleNodeV>, CssError> {
    match sp_rules(t, 0, 0) {
        Err(e) => Err(e),
        Ok((ns, e)) => if e == t.len() {
            Ok(ns)
        } else {
            Err(CssError::TokenMismatch)
        },
    }
}

} // verus!
