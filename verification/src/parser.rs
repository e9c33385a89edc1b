//! The executable parser. Every function mirrors one grammar function and is
//! proved to return exactly what that function specifies.

use vstd::prelude::*;
use crate::ast::{decls_view, node_view, nodes_view, AttrOperator, AttributeSpec, Combinator,
    CssError, DeclV, Declaration, RuleNode, RuleNodeV, SelectorAtom, SelectorExpression};
use crate::grammar::{adv, can_wrap, expand_rules, is_keyframes_kw, push_atom, sp_at, sp_attr,
    sp_attr_op, sp_case_flag, sp_decls, sp_find_curly, sp_rules, sp_sel, sp_skip_bal,
    sp_skip_semi, sp_skip_ws, sp_stylesheet, sp_value, wrap_last, MAX_NESTING_DEPTH};
use crate::tokens::{token_text, CssToken};

verus! {

/// The sequences a vector of selector sequences denotes.
pub open spec fn sels_view(vv: Seq<Vec<SelectorExpression>>) -> Seq<Seq<SelectorExpression>> {
    vv.map_values(|v: Vec<SelectorExpression>| v@)
}

/// The model an optional rule node denotes.
pub open spec fn opt_node_view(o: Option<RuleNode>) -> Option<RuleNodeV> {
    match o {
        Option::Some(n) => Option::Some(node_view(n)),
        Option::None => Option::None,
    }
}

/// Whether two pieces of text are the same.
pub fn str_eq(a: &str, b: &str) -> (r: bool)
    ensures
        r == (a@ == b@),
{
    let x: String = a.to_owned();
    let y: String = b.to_owned();
    x == y
}

fn skip_ws(toks: &Vec<CssToken>, i: usize) -> (j: usize)
    requires
        i <= toks@.len(),
    ensures
        j as int == sp_skip_ws(toks@, i as int),
        i <= j <= toks@.len(),
    decreases toks@.len() - i,
{
    if i < toks.len() {
        match &toks[i] {
            CssToken::Space => skip_ws(toks, i + 1),
            _ => i,
        }
    } else {
        i
    }
}

fn skip_bal(toks: &Vec<CssToken>, i: usize, d: usize) -> (j: usize)
    requires
        i <= toks@.len(),
        toks@.len() < usize::MAX,
        1 <= d,
        d as int <= i + 1,
    ensures
        j as int == sp_skip_bal(toks@, i as int, d as int),
        i <= j <= toks@.len(),
    decreases toks@.len() - i,
{
    if i >= toks.len() {
        return i;
    }
    let tk = &toks[i];
    if tk.opens_block() {
        skip_bal(toks, i + 1, d + 1)
    } else if tk.closes_block() {
        if d <= 1 {
            i + 1
        } else {
            skip_bal(toks, i + 1, d - 1)
        }
    } else {
        skip_bal(toks, i + 1, d)
    }
}

fn find_curly(toks: &Vec<CssToken>, i: usize) -> (j: usize)
    requires
        i <= toks@.len(),
        toks@.len() < usize::MAX,
    ensures
        j as int == sp_find_curly(toks@, i as int),
        i <= j <= toks@.len(),
    decreases toks@.len() - i,
{
    if i >= toks.len() {
        return i;
    }
    let tk = &toks[i];
    if matches!(tk, CssToken::CurlyOpen) {
        i
    } else if tk.closes_block() {
        i
    } else if tk.opens_block() {
        let j = skip_bal(toks, i + 1, 1);
        find_curly(toks, j)
    } else {
        find_curly(toks, i + 1)
    }
}

fn skip_semi(toks: &Vec<CssToken>, i: usize) -> (j: usize)
    requires
        i <= toks@.len(),
        toks@.len() < usize::MAX,
    ensures
        j as int == sp_skip_semi(toks@, i as int),
        i <= j <= toks@.len(),
    decreases toks@.len() - i,
{
    if i >= toks.len() {
        return i;
    }
    let tk = &toks[i];
    if matches!(tk, CssToken::Semicolon) {
        i + 1
    } else if tk.closes_block() {
        i
    } else if tk.opens_block() {
        let j = skip_bal(toks, i + 1, 1);
        skip_semi(toks, j)
    } else {
        skip_semi(toks, i + 1)
    }
}

fn parse_value(toks: &Vec<CssToken>, i: usize, d: usize, acc: String, pend: String) -> (r: (
    String,
    usize,
))
    requires
        i <= toks@.len(),
        toks@.len() < usize::MAX,
        d as int <= i + 1,
    ensures
        r.0@ == sp_value(toks@, i as int, d as int, acc@, pend@).0,
        r.1 as int == sp_value(toks@, i as int, d as int, acc@, pend@).1,
        i <= r.1 <= toks@.len(),
    decreases toks@.len() - i,
{
    if i >= toks.len() {
        return (acc, i);
    }
    let tk = &toks[i];
    if d == 0 && matches!(tk, CssToken::Semicolon) {
        (acc, i + 1)
    } else if d == 0 && tk.closes_block() {
        (acc, i)
    } else if matches!(tk, CssToken::Space) {
        parse_value(toks, i + 1, d, acc, pend.concat(" "))
    } else {
        let txt = token_text(tk);
        let acc2 = if acc.as_str().is_empty() {
            txt
        } else {
            acc.concat(pend.as_str()).concat(txt.as_str())
        };
        let d2 = if tk.opens_block() {
            d + 1
        } else if tk.closes_block() {
            d - 1
        } else {
            d
        };
        parse_value(toks, i + 1, d2, acc2, String::new())
    }
}

/// The declarations of a block interior, starting at `i`, together with the
/// index of the enclosing block's close marker (or the end of input). Exactly
/// the declarations the grammar gives; `MalformedDeclaration` exactly when the
/// grammar says so.
pub fn parse_declarations(toks: &Vec<CssToken>, i: usize) -> (r: Result<
    (Vec<Declaration>, usize),
    CssError,
>)
    requires
        i <= toks@.len(),
        toks@.len() < usize::MAX,
    ensures
        match r {
            Ok((ds, j)) => sp_decls(toks@, i as int) == Ok::<_, CssError>(
                (decls_view(ds@), j as int),
            ) && i <= j <= toks@.len(),
            Err(e) => sp_decls(toks@, i as int) == Err::<(Seq<DeclV>, int), _>(e),
        },
    decreases toks@.len() - i,
{
    if i >= toks.len() {
        let out: Vec<Declaration> = Vec::new();
        proof {
            assert(decls_view(out@) =~= Seq::<DeclV>::empty());
        }
        return Ok((out, i));
    }
    match &toks[i] {
        CssToken::Space => parse_declarations(toks, i + 1),
        CssToken::Semicolon => parse_declarations(toks, i + 1),
        CssToken::Ident(k) => {
            let c = skip_ws(toks, i + 1);
            if c >= toks.len() || !matches!(&toks[c], CssToken::Colon) {
                return Err(CssError::MalformedDeclaration);
            }
            let (v, j) = parse_value(toks, c + 1, 0, String::new(), String::new());
            match parse_declarations(toks, j) {
                Err(e) => Err(e),
                Ok((mut rest, e)) => {
                    let ghost rest0 = rest@;
                    let d = Declaration { key: k.clone(), value: v };
                    rest.insert(0, d);
                    proof {
                        assert(rest@ =~= seq![d] + rest0);
                        assert(decls_view(rest@) =~= seq![DeclV { key: d.key@, value: d.value@ }]
                            + decls_view(rest0));
                    }
                    Ok((rest, e))
                },
            }
        },
        tk => {
            if tk.closes_block() {
                let out: Vec<Declaration> = Vec::new();
                proof {
                    assert(decls_view(out@) =~= Seq::<DeclV>::empty());
                }
                Ok((out, i))
            } else {
                Err(CssError::MalformedDeclaration)
            }
        },
    }
}

/// The attribute operator a token stands for, if any.
fn attr_op(t: &CssToken) -> (r: Option<AttrOperator>)
    ensures
        r == sp_attr_op(*t),
{
    match t {
        CssToken::Delim(c) => {
            if *c == '=' {
                Option::Some(AttrOperator::Equals)
            } else {
                Option::None
            }
        },
        CssToken::Other(s) => {
            if str_eq(s.as_str(), "~=") {
                Option::Some(AttrOperator::Includes)
            } else if str_eq(s.as_str(), "|=") {
                Option::Some(AttrOperator::DashMatch)
            } else if str_eq(s.as_str(), "^=") {
                Option::Some(AttrOperator::Prefix)
            } else if str_eq(s.as_str(), "$=") {
                Option::Some(AttrOperator::Suffix)
            } else if str_eq(s.as_str(), "*=") {
                Option::Some(AttrOperator::Substring)
            } else {
                Option::None
            }
        },
        _ => Option::None,
    }
}

/// The case flag an identifier stands for, if any.
fn case_flag(t: &CssToken) -> (r: Option<bool>)
    ensures
        r == sp_case_flag(*t),
{
    match t {
        CssToken::Ident(s) => {
            if str_eq(s.as_str(), "i") || str_eq(s.as_str(), "I") {
                Option::Some(true)
            } else if str_eq(s.as_str(), "s") || str_eq(s.as_str(), "S") {
                Option::Some(false)
            } else {
                Option::None
            }
        },
        _ => Option::None,
    }
}

/// The interior of a bracketed attribute selector, from just past the `[`.
fn parse_attr(toks: &Vec<CssToken>, i: usize) -> (r: Result<(AttributeSpec, usize), CssError>)
    requires
        i <= toks@.len(),
        toks@.len() < usize::MAX,
    ensures
        match r {
            Ok((a, j)) => sp_attr(toks@, i as int) == Ok::<_, CssError>((a, j as int)) && i < j
                <= toks@.len(),
            Err(e) => sp_attr(toks@, i as int) == Err::<(AttributeSpec, int), _>(e),
        },
{
    let p1 = skip_ws(toks, i);
    if p1 >= toks.len() || !matches!(&toks[p1], CssToken::Ident(_)) {
        return Err(CssError::MalformedSelector);
    }
    let name = match &toks[p1] {
        CssToken::Ident(s) => s.clone(),
        _ => String::new(),
    };
    let p2 = skip_ws(toks, p1 + 1);
    if p2 >= toks.len() {
        return Err(CssError::MalformedSelector);
    }
    if matches!(&toks[p2], CssToken::SquareClose) {
        return Ok((
            AttributeSpec {
                name,
                operator: AttrOperator::Presence,
                value: Option::None,
                case_insensitive: false,
            },
            p2 + 1,
        ));
    }
    let op = match attr_op(&toks[p2]) {
        Option::None => {
            return Err(CssError::MalformedSelector);
        },
        Option::Some(op) => op,
    };
    let p3 = skip_ws(toks, p2 + 1);
    if p3 >= toks.len() {
        return Err(CssError::MalformedSelector);
    }
    let v = match &toks[p3] {
        CssToken::Ident(s) => s.clone(),
        CssToken::Str(s) => s.clone(),
        _ => {
            return Err(CssError::MalformedSelector);
        },
    };
    let p4 = skip_ws(toks, p3 + 1);
    if p4 >= toks.len() {
        return Err(CssError::MalformedSelector);
    }
    if matches!(&toks[p4], CssToken::SquareClose) {
        return Ok((
            AttributeSpec {
                name,
                operator: op,
                value: Option::Some(v),
                case_insensitive: false,
            },
            p4 + 1,
        ));
    }
    let ci = match case_flag(&toks[p4]) {
        Option::None => {
            return Err(CssError::MalformedSelector);
        },
        Option::Some(ci) => ci,
    };
    let p5 = skip_ws(toks, p4 + 1);
    if p5 >= toks.len() || !matches!(&toks[p5], CssToken::SquareClose) {
        return Err(CssError::MalformedSelector);
    }
    Ok((
        AttributeSpec { name, operator: op, value: Option::Some(v), case_insensitive: ci },
        p5 + 1,
    ))
}

/// Whether the last entry of `cur` is an atom a wrap may take.
fn can_wrap_exec(cur: &Vec<SelectorExpression>, pend: bool) -> (r: bool)
    ensures
        r == can_wrap(cur@, pend),
{
    if pend || cur.len() == 0 {
        false
    } else {
        matches!(&cur[cur.len() - 1], SelectorExpression::Atom(_))
    }
}

/// `cur` with `a` appended, materializing pending whitespace as a descendant
/// combinator first.
fn push_atom_exec(cur: &mut Vec<SelectorExpression>, pend: bool, a: SelectorAtom)
    ensures
        final(cur)@ == push_atom(old(cur)@, pend, a),
{
    let ghost cur0 = old(cur)@;
    if pend {
        cur.push(SelectorExpression::Combinator(Combinator::Descendant));
        cur.push(SelectorExpression::Atom(a));
        proof {
            assert(cur@ =~= cur0 + seq![
                SelectorExpression::Combinator(Combinator::Descendant),
                SelectorExpression::Atom(a),
            ]);
        }
    } else {
        cur.push(SelectorExpression::Atom(a));
    }
}

/// `cur` with its last atom taken out, to be wrapped. Call only where
/// `can_wrap` holds.
fn take_last_atom(cur: &mut Vec<SelectorExpression>) -> (a: SelectorAtom)
    requires
        can_wrap(old(cur)@, false),
    ensures
        final(cur)@ == old(cur)@.drop_last(),
        a == old(cur)@.last()->Atom_0,
{
    let popped = match cur.pop() {
        Option::Some(p) => p,
        Option::None => SelectorExpression::Atom(SelectorAtom::Universal),
    };
    proof {
        assert(cur@ =~= old(cur)@.drop_last());
    }
    match popped {
        SelectorExpression::Atom(a) => a,
        SelectorExpression::Combinator(_) => SelectorAtom::Universal,
    }
}

/// The selector list from `i`, with the sequence being built, the finished
/// sequences, and the pending-whitespace flag threaded through.
fn parse_sel(
    toks: &Vec<CssToken>,
    i: usize,
    cur: Vec<SelectorExpression>,
    acc: Vec<Vec<SelectorExpression>>,
    pend: bool,
) -> (r: Result<(Vec<Vec<SelectorExpression>>, usize, bool), CssError>)
    requires
        i <= toks@.len(),
        toks@.len() < usize::MAX,
    ensures
        match r {
            Ok((s, j, b)) => sp_sel(toks@, i as int, cur@, sels_view(acc@), pend)
                == Ok::<_, CssError>((sels_view(s@), j as int, b)) && i <= j <= toks@.len() && (b
                ==> i < j),
            Err(e) => sp_sel(toks@, i as int, cur@, sels_view(acc@), pend) == Err::<
                (Seq<Seq<SelectorExpression>>, int, bool),
                _,
            >(e),
        },
    decreases toks@.len() - i,
{
    if i >= toks.len() {
        return Ok((acc, i, false));
    }
    let ghost cur0 = cur@;
    let ghost acc0 = sels_view(acc@);
    match &toks[i] {
        CssToken::CurlyOpen => {
            let mut acc = acc;
            acc.push(cur);
            proof {
                assert(sels_view(acc@) =~= acc0.push(cur0));
            }
            Ok((acc, i + 1, true))
        },
        CssToken::Comma => {
            let mut acc = acc;
            acc.push(cur);
            proof {
                assert(sels_view(acc@) =~= acc0.push(cur0));
            }
            parse_sel(toks, i + 1, Vec::new(), acc, false)
        },
        CssToken::Space => {
            let p = if cur.len() == 0 {
                false
            } else {
                matches!(&cur[cur.len() - 1], SelectorExpression::Atom(_))
            };
            parse_sel(toks, i + 1, cur, acc, p)
        },
        CssToken::Ident(s) => {
            let mut cur = cur;
            push_atom_exec(&mut cur, pend, SelectorAtom::Type(s.clone()));
            parse_sel(toks, i + 1, cur, acc, false)
        },
        CssToken::IdHash(s) => {
            let mut cur = cur;
            push_atom_exec(&mut cur, pend, SelectorAtom::Id(s.clone()));
            parse_sel(toks, i + 1, cur, acc, false)
        },
        CssToken::Delim(c) => {
            let c = *c;
            if c == '.' {
                let j = skip_ws(toks, i + 1);
                if j < toks.len() && matches!(&toks[j], CssToken::Ident(_)) {
                    let nm = match &toks[j] {
                        CssToken::Ident(s) => s.clone(),
                        _ => String::new(),
                    };
                    let mut cur = cur;
                    push_atom_exec(&mut cur, pend, SelectorAtom::Class(nm));
                    parse_sel(toks, j + 1, cur, acc, false)
                } else {
                    Err(CssError::MalformedSelector)
                }
            } else if c == '*' {
                let mut cur = cur;
                push_atom_exec(&mut cur, pend, SelectorAtom::Universal);
                parse_sel(toks, i + 1, cur, acc, false)
            } else if c == '>' {
                let mut cur = cur;
                cur.push(SelectorExpression::Combinator(Combinator::Child));
                parse_sel(toks, i + 1, cur, acc, false)
            } else if c == '+' {
                let mut cur = cur;
                cur.push(SelectorExpression::Combinator(Combinator::NextSibling));
                parse_sel(toks, i + 1, cur, acc, false)
            } else if c == '~' {
                let mut cur = cur;
                cur.push(SelectorExpression::Combinator(Combinator::SubsequentSibling));
                parse_sel(toks, i + 1, cur, acc, false)
            } else if c == '|' {
                if i + 1 < toks.len() && matches!(&toks[i + 1], CssToken::Delim('|')) {
                    Err(CssError::UnsupportedSelectorSyntax)
                } else {
                    let mut cur = cur;
                    cur.push(SelectorExpression::Combinator(Combinator::Namespace));
                    parse_sel(toks, i + 1, cur, acc, false)
                }
            } else if c == '&' {
                Err(CssError::UnsupportedSelectorSyntax)
            } else {
                Err(CssError::MalformedSelector)
            }
        },
        CssToken::Colon => {
            if i + 1 < toks.len() && matches!(&toks[i + 1], CssToken::Ident(_)) {
                if can_wrap_exec(&cur, pend) {
                    let nm = match &toks[i + 1] {
                        CssToken::Ident(s) => s.clone(),
                        _ => String::new(),
                    };
                    let mut cur = cur;
                    let base = take_last_atom(&mut cur);
                    cur.push(SelectorExpression::Atom(
                        SelectorAtom::PseudoClass(Box::new(base), nm),
                    ));
                    parse_sel(toks, i + 2, cur, acc, false)
                } else {
                    Err(CssError::MalformedSelector)
                }
            } else if i + 1 < toks.len() && matches!(&toks[i + 1], CssToken::Function(_)) {
                if can_wrap_exec(&cur, pend) {
                    let nm = match &toks[i + 1] {
                        CssToken::Function(s) => s.clone(),
                        _ => String::new(),
                    };
                    let mut cur = cur;
                    let base = take_last_atom(&mut cur);
                    cur.push(SelectorExpression::Atom(
                        SelectorAtom::PseudoClass(Box::new(base), nm),
                    ));
                    let j = skip_bal(toks, i + 2, 1);
                    parse_sel(toks, j, cur, acc, false)
                } else {
                    Err(CssError::MalformedSelector)
                }
            } else {
                Err(CssError::UnsupportedSelectorSyntax)
            }
        },
        CssToken::Function(f) => {
            if can_wrap_exec(&cur, pend) {
                let nm = f.clone();
                let mut cur = cur;
                let base = take_last_atom(&mut cur);
                cur.push(SelectorExpression::Atom(
                    SelectorAtom::PseudoClass(Box::new(base), nm),
                ));
                let j = skip_bal(toks, i + 1, 1);
                parse_sel(toks, j, cur, acc, false)
            } else {
                Err(CssError::MalformedSelector)
            }
        },
        CssToken::SquareOpen => {
            if cur.len() == 0 || can_wrap_exec(&cur, pend) {
                match parse_attr(toks, i + 1) {
                    Ok((aspec, j)) => {
                        let mut cur = cur;
                        let base = if cur.len() == 0 {
                            SelectorAtom::Universal
                        } else {
                            take_last_atom(&mut cur)
                        };
                        cur.push(SelectorExpression::Atom(
                            SelectorAtom::Attribute(Box::new(base), aspec),
                        ));
                        parse_sel(toks, j, cur, acc, false)
                    },
                    Err(e) => Err(e),
                }
            } else {
                Err(CssError::MalformedSelector)
            }
        },
        _ => Err(CssError::MalformedSelector),
    }
}

/// The selector list from `i`: the compound selector sequences, the index
/// where parsing ended, and whether a `{` (consumed) ended it. Exactly what
/// the grammar gives, fault for fault.
pub fn parse_selector_list(toks: &Vec<CssToken>, i: usize) -> (r: Result<
    (Vec<Vec<SelectorExpression>>, usize, bool),
    CssError,
>)
    requires
        i <= toks@.len(),
        toks@.len() < usize::MAX,
    ensures
        match r {
            Ok((s, j, b)) => sp_sel(toks@, i as int, Seq::empty(), Seq::empty(), false)
                == Ok::<_, CssError>((sels_view(s@), j as int, b)) && i <= j <= toks@.len() && (b
                ==> i < j),
            Err(e) => sp_sel(toks@, i as int, Seq::empty(), Seq::empty(), false) == Err::<
                (Seq<Seq<SelectorExpression>>, int, bool),
                _,
            >(e),
        },
{
    let cur: Vec<SelectorExpression> = Vec::new();
    let acc: Vec<Vec<SelectorExpression>> = Vec::new();
    proof {
        assert(sels_view(acc@) =~= Seq::<Seq<SelectorExpression>>::empty());
    }
    parse_sel(toks, i, cur, acc, false)
}

/// Prepending one node prepends its model.
proof fn lemma_nodes_view_prepend(n: RuleNode, ns: Seq<RuleNode>)
    ensures
        nodes_view(seq![n] + ns) == seq![node_view(n)] + nodes_view(ns),
    decreases ns.len(),
{
    if ns.len() == 0 {
        assert(seq![n] + ns =~= seq![n]);
        assert((seq![n]).drop_last() =~= Seq::<RuleNode>::empty());
        assert(nodes_view((seq![n]).drop_last()) =~= Seq::<RuleNodeV>::empty());
        assert(nodes_view(seq![n]) =~= Seq::<RuleNodeV>::empty().push(node_view(n)));
        assert(Seq::<RuleNodeV>::empty().push(node_view(n)) =~= seq![node_view(n)] + nodes_view(
            ns,
        ));
    } else {
        let s = seq![n] + ns;
        assert(s.drop_last() =~= seq![n] + ns.drop_last());
        assert(s.last() == ns.last());
        lemma_nodes_view_prepend(n, ns.drop_last());
        assert(nodes_view(s) =~= seq![node_view(n)] + nodes_view(ns));
    }
}

/// Concatenating runs of nodes concatenates their models.
proof fn lemma_nodes_view_concat(a: Seq<RuleNode>, b: Seq<RuleNode>)
    ensures
        nodes_view(a + b) == nodes_view(a) + nodes_view(b),
    decreases b.len(),
{
    if b.len() == 0 {
        assert(a + b =~= a);
        assert(nodes_view(a) + nodes_view(b) =~= nodes_view(a));
    } else {
        assert((a + b).drop_last() =~= a + b.drop_last());
        assert((a + b).last() == b.last());
        lemma_nodes_view_concat(a, b.drop_last());
        assert(nodes_view(a + b) =~= nodes_view(a) + nodes_view(b));
    }
}

/// A fresh copy of a declaration list, equal to it.
fn clone_decls(ds: &Vec<Declaration>) -> (r: Vec<Declaration>)
    ensures
        r@ == ds@,
{
    let mut r: Vec<Declaration> = Vec::new();
    let mut k: usize = 0;
    while k < ds.len()
        invariant
            k <= ds@.len(),
            r@ == ds@.subrange(0, k as int),
        decreases ds@.len() - k,
    {
        let ghost r0 = r@;
        r.push(ds[k].clone());
        proof {
            assert(r@ =~= ds@.subrange(0, k + 1 as int));
        }
        k = k + 1;
    }
    proof {
        assert(ds@.subrange(0, ds@.len() as int) =~= ds@);
    }
    r
}

/// One rule node per selector sequence, each holding its own copy of the
/// declarations and no children.
fn expand(seqs: Vec<Vec<SelectorExpression>>, ds: &Vec<Declaration>) -> (r: Vec<RuleNode>)
    ensures
        nodes_view(r@) == expand_rules(sels_view(seqs@), decls_view(ds@)),
    decreases seqs@.len(),
{
    let ghost seqs0 = seqs@;
    let mut seqs = seqs;
    if seqs.len() == 0 {
        let out: Vec<RuleNode> = Vec::new();
        proof {
            assert(nodes_view(out@) =~= expand_rules(sels_view(seqs0), decls_view(ds@)));
        }
        return out;
    }
    let first = seqs.remove(0);
    let node = RuleNode { selectors: first, declarations: clone_decls(ds), children: Vec::new() };
    let mut rest = expand(seqs, ds);
    let ghost rest0 = rest@;
    rest.insert(0, node);
    proof {
        assert(seqs0 =~= seq![node.selectors] + seqs@);
        assert(rest@ =~= seq![node] + rest0);
        lemma_nodes_view_prepend(node, rest0);
        assert(node_view(node) =~= RuleNodeV {
            selectors: node.selectors@,
            declarations: decls_view(ds@),
            children: Seq::empty(),
        });
        assert(nodes_view(rest@) =~= expand_rules(sels_view(seqs0), decls_view(ds@)));
    }
    rest
}

/// An at-rule from just past its keyword: exactly the node and end index the
/// grammar gives, fault for fault.
fn parse_at(toks: &Vec<CssToken>, i: usize, kw: &String, depth: usize) -> (r: Result<
    (Option<RuleNode>, usize),
    CssError,
>)
    requires
        i <= toks@.len(),
        toks@.len() < usize::MAX,
    ensures
        match r {
            Ok((opt, j)) => sp_at(toks@, i as int, *kw, depth as int) == Ok::<_, CssError>(
                (opt_node_view(opt), j as int),
            ) && i <= j <= toks@.len(),
            Err(e) => sp_at(toks@, i as int, *kw, depth as int) == Err::<
                (Option<RuleNodeV>, int),
                _,
            >(e),
        },
    decreases toks@.len() - i, 0int,
{
    if str_eq(kw.as_str(), "media") || str_eq(kw.as_str(), "supports") {
        let j = find_curly(toks, i);
        if j >= toks.len() || !matches!(&toks[j], CssToken::CurlyOpen) {
            return Err(CssError::DelimiterMismatch);
        }
        if depth >= MAX_NESTING_DEPTH {
            return Err(CssError::NestingTooDeep);
        }
        match parse_rule_list(toks, j + 1, depth + 1) {
            Err(e) => Err(e),
            Ok((kids, e)) => {
                let e2 = if e < toks.len() {
                    e + 1
                } else {
                    e
                };
                let node = RuleNode {
                    selectors: Vec::new(),
                    declarations: Vec::new(),
                    children: kids,
                };
                proof {
                    assert(node_view(node) =~= RuleNodeV {
                        selectors: Seq::empty(),
                        declarations: Seq::empty(),
                        children: nodes_view(node.children@),
                    });
                }
                Ok((Option::Some(node), e2))
            },
        }
    } else if str_eq(kw.as_str(), "container") {
        let p1 = skip_ws(toks, i);
        let p2 = if p1 < toks.len() && matches!(&toks[p1], CssToken::Ident(_)) {
            skip_ws(toks, p1 + 1)
        } else {
            p1
        };
        if p2 >= toks.len() || !matches!(&toks[p2], CssToken::ParenOpen) {
            return Err(CssError::DelimiterMismatch);
        }
        match parse_declarations(toks, p2 + 1) {
            Err(e) => Err(e),
            Ok((_cond, q)) => {
                if q >= toks.len() || !matches!(&toks[q], CssToken::ParenClose) {
                    return Err(CssError::DelimiterMismatch);
                }
                let r1 = skip_ws(toks, q + 1);
                if r1 >= toks.len() || !matches!(&toks[r1], CssToken::CurlyOpen) {
                    return Err(CssError::DelimiterMismatch);
                }
                if depth >= MAX_NESTING_DEPTH {
                    return Err(CssError::NestingTooDeep);
                }
                match parse_rule_list(toks, r1 + 1, depth + 1) {
                    Err(e) => Err(e),
                    Ok((kids, e)) => {
                        let e2 = if e < toks.len() {
                            e + 1
                        } else {
                            e
                        };
                        let node = RuleNode {
                            selectors: Vec::new(),
                            declarations: Vec::new(),
                            children: kids,
                        };
                        proof {
                            assert(node_view(node) =~= RuleNodeV {
                                selectors: Seq::empty(),
                                declarations: Seq::empty(),
                                children: nodes_view(node.children@),
                            });
                        }
                        Ok((Option::Some(node), e2))
                    },
                }
            },
        }
    } else if str_eq(kw.as_str(), "keyframes") || str_eq(kw.as_str(), "-webkit-keyframes")
        || str_eq(kw.as_str(), "-moz-keyframes") || str_eq(kw.as_str(), "-o-keyframes")
        || str_eq(kw.as_str(), "-ms-keyframes") {
        let p1 = skip_ws(toks, i);
        if p1 >= toks.len() || !matches!(&toks[p1], CssToken::Ident(_)) {
            return Err(CssError::TokenMismatch);
        }
        let p2 = skip_ws(toks, p1 + 1);
        if p2 >= toks.len() || !matches!(&toks[p2], CssToken::CurlyOpen) {
            return Err(CssError::DelimiterMismatch);
        }
        let j = skip_bal(toks, p2 + 1, 1);
        Ok((Option::None, j))
    } else if str_eq(kw.as_str(), "font-face") {
        let p1 = skip_ws(toks, i);
        if p1 >= toks.len() || !matches!(&toks[p1], CssToken::CurlyOpen) {
            return Err(CssError::DelimiterMismatch);
        }
        let j = skip_bal(toks, p1 + 1, 1);
        Ok((Option::None, j))
    } else if str_eq(kw.as_str(), "import") {
        let j = skip_semi(toks, i);
        Ok((Option::None, j))
    } else {
        Err(CssError::UnsupportedAtRule(kw.clone()))
    }
}

/// A run of rules from `i`, ending at the enclosing block's `}` (left in
/// place) or the end of input: exactly the nodes and end index the grammar
/// gives, fault for fault.
pub fn parse_rule_list(toks: &Vec<CssToken>, i: usize, depth: usize) -> (r: Result<
    (Vec<RuleNode>, usize),
    CssError,
>)
    requires
        i <= toks@.len(),
        toks@.len() < usize::MAX,
    ensures
        match r {
            Ok((ns, j)) => sp_rules(toks@, i as int, depth as int) == Ok::<_, CssError>(
                (nodes_view(ns@), j as int),
            ) && i <= j <= toks@.len(),
            Err(e) => sp_rules(toks@, i as int, depth as int) == Err::<
                (Seq<RuleNodeV>, int),
                _,
            >(e),
        },
    decreases toks@.len() - i, 1int,
{
    if i >= toks.len() {
        let out: Vec<RuleNode> = Vec::new();
        return Ok((out, i));
    }
    match &toks[i] {
        CssToken::Space => parse_rule_list(toks, i + 1, depth),
        CssToken::CurlyClose => {
            let out: Vec<RuleNode> = Vec::new();
            Ok((out, i))
        },
        CssToken::CurlyOpen => Err(CssError::UnexpectedBlock),
        CssToken::AtKeyword(kw) => {
            match parse_at(toks, i + 1, kw, depth) {
                Err(e) => Err(e),
                Ok((opt, j)) => {
                    match parse_rule_list(toks, j, depth) {
                        Err(e) => Err(e),
                        Ok((rest, e)) => {
                            match opt {
                                Option::Some(n) => {
                                    let ghost rest0 = rest@;
                                    let mut rest = rest;
                                    rest.insert(0, n);
                                    proof {
                                        assert(rest@ =~= seq![n] + rest0);
                                        lemma_nodes_view_prepend(n, rest0);
                                    }
                                    Ok((rest, e))
                                },
                                Option::None => Ok((rest, e)),
                            }
                        },
                    }
                },
            }
        },
        _ => {
            match parse_selector_list(toks, i) {
                Err(e) => Err(e),
                Ok((seqs, j, ended)) => {
                    if !ended {
                        return Err(CssError::DelimiterMismatch);
                    }
                    match parse_declarations(toks, j) {
                        Err(e) => Err(e),
                        Ok((ds, q)) => {
                            if q < toks.len() && !matches!(&toks[q], CssToken::CurlyClose) {
                                return Err(CssError::MalformedDeclaration);
                            }
                            let e1 = if q < toks.len() {
                                q + 1
                            } else {
                                q
                            };
                            let mut nodes = expand(seqs, &ds);
                            match parse_rule_list(toks, e1, depth) {
                                Err(e) => Err(e),
                                Ok((rest, e3)) => {
                                    let ghost nodes0 = nodes@;
                                    let ghost rest0 = rest@;
                                    let mut rest = rest;
                                    nodes.append(&mut rest);
                                    proof {
                                        assert(nodes@ =~= nodes0 + rest0);
                                        lemma_nodes_view_concat(nodes0, rest0);
                                    }
                                    Ok((nodes, e3))
                                },
                            }
                        },
                    }
                },
            }
        },
    }
}

/// A whole stylesheet from its tokens: the rule tree the grammar gives, with
/// every token consumed; a token the top-level run would not touch is
/// `TokenMismatch`; every fault of the grammar surfaces unchanged.
pub fn parse_stylesheet_tokens(toks: &Vec<CssToken>) -> (r: Result<Vec<RuleNode>, CssError>)
    requires
        toks@.len() < usize::MAX,
    ensures
        match r {
            Ok(ns) => sp_stylesheet(toks@) == Ok::<_, CssError>(nodes_view(ns@)),
            Err(e) => sp_stylesheet(toks@) == Err::<Seq<RuleNodeV>, _>(e),
        },
{
    match parse_rule_list(toks, 0, 0) {
        Err(e) => Err(e),
        Ok((ns, j)) => {
            if j == toks.len() {
                Ok(ns)
            } else {
                Err(CssError::TokenMismatch)
            }
        },
    }
}

} // verus!
