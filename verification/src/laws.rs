//! Properties of the grammar that hold across whole parses, each proved once
//! and for all: the nesting invariant, and the declaration-layer round trip.

use vstd::prelude::*;
use crate::ast::{decl_view, decls_view, rule_wf, rules_wf, AttributeSpec, Combinator, CssError,
    DeclV, Declaration, RuleNodeV, SelectorAtom, SelectorExpression};
use crate::grammar::{adv, can_wrap, expand_rules, push_atom, rem, sp_at, sp_attr, sp_attr_op,
    sp_case_flag, sp_decls, sp_rules, sp_sel, sp_skip_bal, sp_skip_ws, sp_stylesheet, sp_value,
    wrap_last};
use crate::tokens::{tok_text, CssToken};

verus! {

/// Nesting invariant, at-rule side: a node an at-rule produces carries no
/// selectors and no declarations of its own, and its children are
/// well-formed in turn.
pub proof fn lemma_at_rule_nodes_wf(t: Seq<CssToken>, i: int, kw: String, depth: int)
    ensures
        sp_at(t, i, kw, depth) matches Ok((opt, j)) ==> (opt matches Option::Some(n)
            ==> rule_wf(n) && n.selectors.len() == 0 && n.declarations.len() == 0),
    decreases rem(t, i), 0int,
{
    if kw@ == "media"@ || kw@ == "supports"@ {
        let j2 = adv(i - 1, crate::grammar::sp_find_curly(t, i));
        if j2 < t.len() && t[j2] is CurlyOpen && depth + 1 <= crate::grammar::MAX_NESTING_DEPTH as int {
            lemma_rule_list_wf(t, j2 + 1, depth + 1);
        }
    } else if kw@ == "container"@ {
        let p1 = sp_skip_ws(t, i);
        let p2 = if p1 < t.len() && t[p1] is Ident {
            sp_skip_ws(t, p1 + 1)
        } else {
            p1
        };
        if !(p2 >= t.len() || !(t[p2] is ParenOpen)) {
            let p3 = adv(i - 1, p2);
            match sp_decls(t, p3 + 1) {
                Err(_) => {
                },
                Ok((_cond, q)) => {
                    let q2 = adv(p3, q);
                    if q2 < t.len() && t[q2] is ParenClose {
                        let r1 = sp_skip_ws(t, q2 + 1);
                        if r1 < t.len() && t[r1] is CurlyOpen && depth + 1
                            <= crate::grammar::MAX_NESTING_DEPTH as int {
                            let r2 = adv(q2, r1);
                            lemma_rule_list_wf(t, r2 + 1, depth + 1);
                        }
                    }
                },
            }
        }
    } else {
    }
}

/// Nesting invariant, rule-list side: every node a run of rules produces is
/// well-formed; in particular a node from a plain selector block has empty
/// children.
pub proof fn lemma_rule_list_wf(t: Seq<CssToken>, i: int, depth: int)
    ensures
        sp_rules(t, i, depth) matches Ok((ns, j)) ==> rules_wf(ns),
    decreases rem(t, i), 1int,
{
    if i >= t.len() {
    } else if t[i] is Space {
        lemma_rule_list_wf(t, i + 1, depth);
    } else if t[i] is CurlyClose {
    } else if t[i] is CurlyOpen {
    } else if t[i] is AtKeyword {
        let kw = t[i]->AtKeyword_0;
        lemma_at_rule_nodes_wf(t, i + 1, kw, depth);
        match sp_at(t, i + 1, kw, depth) {
            Err(_) => {
            },
            Ok((opt, j)) => {
                let j2 = adv(i, j);
                lemma_rule_list_wf(t, j2, depth);
                match sp_rules(t, j2, depth) {
                    Err(_) => {
                    },
                    Ok((rest, _e)) => {
                        match opt {
                            Option::Some(n) => {
                                let all = seq![n] + rest;
                                assert forall|k: int| 0 <= k < all.len() implies rule_wf(
                                    #[trigger] all[k],
                                ) by {
                                    if k == 0 {
                                    } else {
                                        assert(all[k] == rest[k - 1]);
                                    }
                                }
                            },
                            Option::None => {
                            },
                        }
                    },
                }
            },
        }
    } else {
        match sp_sel(t, i, Seq::empty(), Seq::empty(), false) {
            Err(_) => {
            },
            Ok((seqs, j, ended)) => {
                if ended {
                    let j2 = adv(i, j);
                    match sp_decls(t, j2) {
                        Err(_) => {
                        },
                        Ok((ds, q)) => {
                            let q2 = adv(j2 - 1, q);
                            if !(q2 < t.len() && !(t[q2] is CurlyClose)) {
                                let e1 = if q2 < t.len() {
                                    q2 + 1
                                } else {
                                    q2
                                };
                                let e2 = adv(i, e1);
                                lemma_rule_list_wf(t, e2, depth);
                                match sp_rules(t, e2, depth) {
                                    Err(_) => {
                                    },
                                    Ok((rest, _e3)) => {
                                        let own = expand_rules(seqs, ds);
                                        let all = own + rest;
                                        assert forall|k: int| 0 <= k < all.len() implies rule_wf(
                                            #[trigger] all[k],
                                        ) by {
                                            if k < own.len() {
                                                assert(own[k] == RuleNodeV {
                                                    selectors: seqs[k],
                                                    declarations: ds,
                                                    children: Seq::empty(),
                                                });
                                            } else {
                                                assert(all[k] == rest[k - own.len()]);
                                            }
                                        }
                                    },
                                }
                            }
                        },
                    }
                }
            },
        }
    }
}

/// Nesting invariant, whole stylesheet: every rule tree a successful parse
/// yields is well-formed; a node not produced by a nesting-capable at-rule
/// has empty children.
pub proof fn lemma_stylesheet_wf(t: Seq<CssToken>)
    ensures
        sp_stylesheet(t) matches Ok(ns) ==> rules_wf(ns),
{
    lemma_rule_list_wf(t, 0, 0);
}

/// An empty block interior yields an empty declaration list and no fault:
/// at a close marker or at the end of input the declaration parser returns
/// cleanly.
pub proof fn lemma_empty_block_declarations(t: Seq<CssToken>, i: int)
    requires
        i >= t.len() || t[i].closes_block(),
    ensures
        sp_decls(t, i) == Ok::<_, CssError>((Seq::<DeclV>::empty(), i)),
{
}

/// The canonical token form of a declaration list: for each declaration its
/// key, a colon, one space, its value as one opaque token, and a semicolon.
pub open spec fn decls_tokens(ds: Seq<Declaration>) -> Seq<CssToken>
    decreases ds.len(),
{
    if ds.len() == 0 {
        Seq::empty()
    } else {
        seq![
            CssToken::Ident(ds[0].key),
            CssToken::Colon,
            CssToken::Space,
            CssToken::Other(ds[0].value),
            CssToken::Semicolon,
        ] + decls_tokens(ds.drop_first())
    }
}

/// Round trip, general form: wherever the canonical tokens of `ds` stand as
/// the tail of a token sequence, parsing declarations from there yields
/// exactly `ds` and consumes everything.
proof fn lemma_decls_round_trip_from(t: Seq<CssToken>, i: int, ds: Seq<Declaration>)
    requires
        0 <= i <= t.len(),
        t.subrange(i, t.len() as int) == decls_tokens(ds),
    ensures
        sp_decls(t, i) == Ok::<_, CssError>((decls_view(ds), t.len() as int)),
    decreases ds.len(),
{
    let sub = t.subrange(i, t.len() as int);
    if ds.len() == 0 {
        assert(sub.len() == 0);
        assert(i >= t.len());
        assert(i == t.len() as int);
        assert(decls_view(ds) =~= Seq::<DeclV>::empty());
    } else {
        assert(sub.len() == 5 + decls_tokens(ds.drop_first()).len());
        assert(t[i] == sub[0]);
        assert(t[i + 1] == sub[1]);
        assert(t[i + 2] == sub[2]);
        assert(t[i + 3] == sub[3]);
        assert(t[i + 4] == sub[4]);
        assert(t[i] == CssToken::Ident(ds[0].key));
        assert(t[i + 1] is Colon);
        assert(t[i + 2] is Space);
        assert(t[i + 3] == CssToken::Other(ds[0].value));
        assert(t[i + 4] is Semicolon);
        // the key is followed at once by the colon
        assert(i + 1 < t.len());
        assert(sp_skip_ws(t, i + 1) == i + 1);
        assert(adv(i, i + 1) == i + 1);
        // the value scan takes the space as pending, the opaque token as the
        // whole value, and stops just past the semicolon
        assert(Seq::<char>::empty() + " "@ =~= " "@);
        assert(sp_value(t, i + 2, 0, Seq::empty(), Seq::empty()) == sp_value(
            t,
            i + 3,
            0,
            Seq::empty(),
            " "@,
        ));
        assert(tok_text(t[i + 3]) == ds[0].value@);
        assert(sp_value(t, i + 3, 0, Seq::empty(), " "@) == sp_value(
            t,
            i + 4,
            0,
            ds[0].value@,
            Seq::empty(),
        ));
        assert(sp_value(t, i + 4, 0, ds[0].value@, Seq::empty()) == (ds[0].value@, i + 5));
        assert(t.subrange(i + 5, t.len() as int) =~= sub.subrange(5, sub.len() as int));
        assert(sub.subrange(5, sub.len() as int) =~= decls_tokens(ds.drop_first()));
        lemma_decls_round_trip_from(t, i + 5, ds.drop_first());
        assert(DeclV { key: ds[0].key@, value: ds[0].value@ } =~= decl_view(ds[0]));
        assert(decls_view(ds) =~= seq![decl_view(ds[0])] + decls_view(ds.drop_first()));
        assert(adv(i + 1, i + 5) == i + 5);
        assert(sp_decls(t, i) == Ok::<_, CssError>(
            (
                seq![DeclV { key: ds[0].key@, value: ds[0].value@ }] + decls_view(
                    ds.drop_first(),
                ),
                t.len() as int,
            ),
        ));
        assert(seq![DeclV { key: ds[0].key@, value: ds[0].value@ }] + decls_view(ds.drop_first())
            =~= decls_view(ds));
    }
}

/// Round trip on the declaration layer: putting a declaration list back into
/// its canonical token form and parsing it again yields the same list, for
/// every declaration list.
pub proof fn lemma_declarations_round_trip(ds: Seq<Declaration>)
    ensures
        sp_decls(decls_tokens(ds), 0) == Ok::<_, CssError>(
            (decls_view(ds), decls_tokens(ds).len() as int),
        ),
{
    let t = decls_tokens(ds);
    assert(t.subrange(0, t.len() as int) =~= t);
    lemma_decls_round_trip_from(t, 0, ds);
}

/// The canonical `key: value;` text of one declaration.
pub open spec fn decl_text(d: DeclV) -> Seq<char> {
    d.key + ": "@ + d.value + ";"@
}

/// The canonical text of a declaration list, one space between declarations.
pub open spec fn decls_text(ds: Seq<DeclV>) -> Seq<char>
    decreases ds.len(),
{
    if ds.len() == 0 {
        Seq::empty()
    } else {
        decl_text(ds[0]) + " "@ + decls_text(ds.drop_first())
    }
}

fn decls_text_from(ds: &Vec<Declaration>, k: usize) -> (r: String)
    requires
        k <= ds@.len(),
    ensures
        r@ == decls_text(decls_view(ds@).subrange(k as int, ds@.len() as int)),
    decreases ds@.len() - k,
{
    let ghost whole = decls_view(ds@).subrange(k as int, ds@.len() as int);
    if k >= ds.len() {
        let r = String::new();
        proof {
            assert(whole.len() == 0);
            assert(r@ =~= decls_text(whole));
        }
        r
    } else {
        let d = &ds[k];
        let head = d.key.clone().concat(": ").concat(d.value.as_str()).concat("; ");
        let tail = decls_text_from(ds, k + 1);
        let r = head.concat(tail.as_str());
        proof {
            reveal_strlit(": ");
            reveal_strlit("; ");
            reveal_strlit(";");
            reveal_strlit(" ");
            assert(whole[0] == decl_view(ds@[k as int]));
            assert(whole.drop_first() =~= decls_view(ds@).subrange(k + 1 as int, ds@.len() as int));
            assert(head@ =~= decl_text(whole[0]) + " "@);
            assert(r@ =~= decls_text(whole));
        }
        r
    }
}

/// The canonical `key: value;` text of a declaration list, for writing a
/// parsed block back out.
pub fn declarations_text(ds: &Vec<Declaration>) -> (r: String)
    ensures
        r@ == decls_text(decls_view(ds@)),
{
    let r = decls_text_from(ds, 0);
    proof {
        assert(decls_view(ds@).subrange(0, ds@.len() as int) =~= decls_view(ds@));
    }
    r
}

// What follows proves the selector-list law: splitting a selector list on a
// top-level comma and parsing each part alone gives exactly the sequences
// that parsing the whole list gives. The inductions walk the selector
// grammar once for a shared prefix and once for a shifted suffix.

proof fn lemma_skip_bal_bounds(s: Seq<CssToken>, k: int, d: int)
    requires
        0 <= k <= s.len(),
    ensures
        k <= sp_skip_bal(s, k, d) <= s.len(),
    decreases s.len() - k,
{
    if k < s.len() {
        lemma_skip_bal_bounds(s, k + 1, d + 1);
        lemma_skip_bal_bounds(s, k + 1, d - 1);
        lemma_skip_bal_bounds(s, k + 1, d);
    }
}

/// Two streams that agree below `m` and hold something other than
/// whitespace at `m` agree on whitespace skipping up to `m`.
proof fn lemma_skip_ws_agree(s: Seq<CssToken>, u: Seq<CssToken>, m: int, k: int)
    requires
        0 <= k <= m,
        m < s.len(),
        m < u.len(),
        forall|x: int| 0 <= x < m ==> s[x] == u[x],
        !(s[m] is Space),
        !(u[m] is Space),
    ensures
        sp_skip_ws(u, k) == sp_skip_ws(s, k),
        k <= sp_skip_ws(s, k) <= m,
    decreases m - k,
{
    if k < m && s[k] is Space {
        lemma_skip_ws_agree(s, u, m, k + 1);
    }
}

/// Two streams that agree below `m` walk a balanced skip identically, as
/// long as that skip ends at or before `m`.
proof fn lemma_skip_bal_agree(s: Seq<CssToken>, u: Seq<CssToken>, m: int, k: int, d: int)
    requires
        0 <= k <= m,
        m < s.len(),
        m < u.len(),
        forall|x: int| 0 <= x < m ==> s[x] == u[x],
        sp_skip_bal(s, k, d) <= m,
    ensures
        sp_skip_bal(u, k, d) == sp_skip_bal(s, k, d),
    decreases m - k,
{
    if k == m {
        lemma_skip_bal_bounds(s, m + 1, d + 1);
        lemma_skip_bal_bounds(s, m + 1, d - 1);
        lemma_skip_bal_bounds(s, m + 1, d);
        assert(sp_skip_bal(s, m, d) > m);
    } else {
        if s[k].opens_block() {
            lemma_skip_bal_agree(s, u, m, k + 1, d + 1);
        } else if s[k].closes_block() {
            if d > 1 {
                lemma_skip_bal_agree(s, u, m, k + 1, d - 1);
            }
        } else {
            lemma_skip_bal_agree(s, u, m, k + 1, d);
        }
    }
}

/// Two streams that agree below `m`, one holding `{` and the other `,`
/// there, agree on a successful attribute-selector interior, which then
/// ends at or before `m`.
proof fn lemma_attr_agree(s: Seq<CssToken>, u: Seq<CssToken>, m: int, k: int)
    requires
        0 <= k <= m,
        m < s.len(),
        m < u.len(),
        forall|x: int| 0 <= x < m ==> s[x] == u[x],
        s[m] is CurlyOpen,
        u[m] is Comma,
        sp_attr(s, k) is Ok,
    ensures
        sp_attr(u, k) == sp_attr(s, k),
        sp_attr(s, k)->Ok_0.1 <= m,
{
    lemma_skip_ws_agree(s, u, m, k);
    let p1 = sp_skip_ws(s, k);
    assert(p1 < m);
    lemma_skip_ws_agree(s, u, m, p1 + 1);
    let p2 = sp_skip_ws(s, p1 + 1);
    if s[p2] is SquareClose {
        assert(p2 < m);
    } else {
        assert(p2 < m) by {
            assert(sp_attr_op(s[m]) is None);
        }
        lemma_skip_ws_agree(s, u, m, p2 + 1);
        let p3 = sp_skip_ws(s, p2 + 1);
        assert(p3 < m);
        lemma_skip_ws_agree(s, u, m, p3 + 1);
        let p4 = sp_skip_ws(s, p3 + 1);
        if s[p4] is SquareClose {
            assert(p4 < m);
        } else {
            assert(p4 < m) by {
                assert(sp_case_flag(s[m]) is None);
            }
            lemma_skip_ws_agree(s, u, m, p4 + 1);
            let p5 = sp_skip_ws(s, p4 + 1);
            assert(p5 < m);
        }
    }
}

/// Up to the top-level comma, the combined list parses exactly as the first
/// part alone does: when the parse of `s` consumes everything up to its
/// terminating `{` at `m`, the parse of `u` - equal below `m` but holding a
/// comma there - reaches the comma in the same state and goes on past it
/// with the same finished sequences in hand.
proof fn lemma_sel_prefix_agree(
    s: Seq<CssToken>,
    u: Seq<CssToken>,
    m: int,
    i: int,
    cur: Seq<SelectorExpression>,
    acc: Seq<Seq<SelectorExpression>>,
    pend: bool,
    sa: Seq<Seq<SelectorExpression>>,
)
    requires
        0 <= i <= m,
        s.len() == m + 1,
        m < u.len(),
        forall|x: int| 0 <= x < m ==> s[x] == u[x],
        s[m] is CurlyOpen,
        u[m] is Comma,
        sp_sel(s, i, cur, acc, pend) == Ok::<_, CssError>((sa, m + 1, true)),
    ensures
        sp_sel(u, i, cur, acc, pend) == sp_sel(u, m + 1, Seq::empty(), sa, false),
    decreases m - i,
{
    if i == m {
        assert(sa == acc.push(cur));
    } else {
        match s[i] {
            CssToken::CurlyOpen => {
                assert(false);
            },
            CssToken::Comma => {
                lemma_sel_prefix_agree(s, u, m, i + 1, Seq::empty(), acc.push(cur), false, sa);
            },
            CssToken::Space => {
                lemma_sel_prefix_agree(
                    s,
                    u,
                    m,
                    i + 1,
                    cur,
                    acc,
                    cur.len() > 0 && cur.last() is Atom,
                    sa,
                );
            },
            CssToken::Ident(nm) => {
                lemma_sel_prefix_agree(
                    s,
                    u,
                    m,
                    i + 1,
                    push_atom(cur, pend, SelectorAtom::Type(nm)),
                    acc,
                    false,
                    sa,
                );
            },
            CssToken::IdHash(nm) => {
                lemma_sel_prefix_agree(
                    s,
                    u,
                    m,
                    i + 1,
                    push_atom(cur, pend, SelectorAtom::Id(nm)),
                    acc,
                    false,
                    sa,
                );
            },
            CssToken::Delim(c) => {
                if c == '.' {
                    lemma_skip_ws_agree(s, u, m, i + 1);
                    let j = sp_skip_ws(s, i + 1);
                    assert(adv(i, j) == j);
                    if j < s.len() && s[j] is Ident {
                        assert(j < m);
                        lemma_sel_prefix_agree(
                            s,
                            u,
                            m,
                            j + 1,
                            push_atom(cur, pend, SelectorAtom::Class(s[j]->Ident_0)),
                            acc,
                            false,
                            sa,
                        );
                    } else {
                        assert(false);
                    }
                } else if c == '*' {
                    lemma_sel_prefix_agree(
                        s,
                        u,
                        m,
                        i + 1,
                        push_atom(cur, pend, SelectorAtom::Universal),
                        acc,
                        false,
                        sa,
                    );
                } else if c == '>' || c == '+' || c == '~' {
                    let cb = if c == '>' {
                        Combinator::Child
                    } else if c == '+' {
                        Combinator::NextSibling
                    } else {
                        Combinator::SubsequentSibling
                    };
                    lemma_sel_prefix_agree(
                        s,
                        u,
                        m,
                        i + 1,
                        cur.push(SelectorExpression::Combinator(cb)),
                        acc,
                        false,
                        sa,
                    );
                } else if c == '|' {
                    if i + 1 < s.len() && s[i + 1] == CssToken::Delim('|') {
                        assert(false);
                    } else {
                        assert(!(i + 1 < u.len() && u[i + 1] == CssToken::Delim('|')));
                        lemma_sel_prefix_agree(
                            s,
                            u,
                            m,
                            i + 1,
                            cur.push(SelectorExpression::Combinator(Combinator::Namespace)),
                            acc,
                            false,
                            sa,
                        );
                    }
                } else {
                    assert(false);
                }
            },
            CssToken::Colon => {
                assert(i + 1 < m) by {
                    if i + 1 == m {
                        assert(sp_sel(s, i, cur, acc, pend) is Err);
                    }
                }
                if s[i + 1] is Ident {
                    assert(can_wrap(cur, pend));
                    let a = SelectorAtom::PseudoClass(
                        Box::new(cur.last()->Atom_0),
                        s[i + 1]->Ident_0,
                    );
                    lemma_sel_prefix_agree(s, u, m, i + 2, wrap_last(cur, a), acc, false, sa);
                } else if s[i + 1] is Function {
                    assert(can_wrap(cur, pend));
                    let a = SelectorAtom::PseudoClass(
                        Box::new(cur.last()->Atom_0),
                        s[i + 1]->Function_0,
                    );
                    lemma_skip_bal_bounds(s, i + 2, 1);
                    let j = sp_skip_bal(s, i + 2, 1);
                    let j2 = adv(i + 1, j);
                    if j2 > m {
                        assert(sp_sel(s, j2, wrap_last(cur, a), acc, false) == Ok::<_, CssError>(
                            (acc, m + 1, false),
                        ));
                        assert(false);
                    } else {
                        lemma_skip_bal_agree(s, u, m, i + 2, 1);
                        lemma_sel_prefix_agree(s, u, m, j2, wrap_last(cur, a), acc, false, sa);
                    }
                } else {
                    assert(false);
                }
            },
            CssToken::Function(f) => {
                assert(can_wrap(cur, pend));
                let a = SelectorAtom::PseudoClass(Box::new(cur.last()->Atom_0), f);
                lemma_skip_bal_bounds(s, i + 1, 1);
                let j = sp_skip_bal(s, i + 1, 1);
                let j2 = adv(i, j);
                if j2 > m {
                    assert(sp_sel(s, j2, wrap_last(cur, a), acc, false) == Ok::<_, CssError>(
                        (acc, m + 1, false),
                    ));
                    assert(false);
                } else {
                    lemma_skip_bal_agree(s, u, m, i + 1, 1);
                    lemma_sel_prefix_agree(s, u, m, j2, wrap_last(cur, a), acc, false, sa);
                }
            },
            CssToken::SquareOpen => {
                assert(cur.len() == 0 || can_wrap(cur, pend));
                assert(sp_attr(s, i + 1) is Ok);
                lemma_attr_agree(s, u, m, i + 1);
                let aspec = sp_attr(s, i + 1)->Ok_0.0;
                let j = sp_attr(s, i + 1)->Ok_0.1;
                let base = if cur.len() == 0 {
                    SelectorAtom::Universal
                } else {
                    cur.last()->Atom_0
                };
                let cur2 = if cur.len() == 0 {
                    cur
                } else {
                    cur.drop_last()
                };
                let a = SelectorAtom::Attribute(Box::new(base), aspec);
                let j2 = adv(i, j);
                lemma_sel_prefix_agree(
                    s,
                    u,
                    m,
                    j2,
                    cur2.push(SelectorExpression::Atom(a)),
                    acc,
                    false,
                    sa,
                );
            },
            _ => {
                assert(false);
            },
        }
    }
}

proof fn lemma_skip_ws_offset(t: Seq<CssToken>, off: int, w: Seq<CssToken>, k: int)
    requires
        0 <= off <= t.len(),
        w == t.subrange(off, t.len() as int),
        0 <= k <= w.len(),
    ensures
        sp_skip_ws(t, off + k) == off + sp_skip_ws(w, k),
        k <= sp_skip_ws(w, k) <= w.len(),
    decreases w.len() - k,
{
    assert(t.len() == off + w.len());
    if k < w.len() {
        assert(t[off + k] == w[k]);
        if w[k] is Space {
            lemma_skip_ws_offset(t, off, w, k + 1);
        }
    }
}

proof fn lemma_skip_bal_offset(t: Seq<CssToken>, off: int, w: Seq<CssToken>, k: int, d: int)
    requires
        0 <= off <= t.len(),
        w == t.subrange(off, t.len() as int),
        0 <= k <= w.len(),
    ensures
        sp_skip_bal(t, off + k, d) == off + sp_skip_bal(w, k, d),
        k <= sp_skip_bal(w, k, d) <= w.len(),
    decreases w.len() - k,
{
    assert(t.len() == off + w.len());
    if k < w.len() {
        assert(t[off + k] == w[k]);
        if w[k].opens_block() {
            lemma_skip_bal_offset(t, off, w, k + 1, d + 1);
        } else if w[k].closes_block() {
            if d > 1 {
                lemma_skip_bal_offset(t, off, w, k + 1, d - 1);
            }
        } else {
            lemma_skip_bal_offset(t, off, w, k + 1, d);
        }
    }
}

proof fn lemma_attr_offset(t: Seq<CssToken>, off: int, w: Seq<CssToken>, k: int)
    requires
        0 <= off <= t.len(),
        w == t.subrange(off, t.len() as int),
        0 <= k <= w.len(),
    ensures
        match sp_attr(w, k) {
            Ok((a, j)) => sp_attr(t, off + k) == Ok::<_, CssError>((a, off + j)) && k < j
                <= w.len(),
            Err(e) => sp_attr(t, off + k) == Err::<(AttributeSpec, int), _>(e),
        },
{
    assert(t.len() == off + w.len());
    assert(forall|x: int| 0 <= x < w.len() ==> t[off + x] == #[trigger] w[x]);
    lemma_skip_ws_offset(t, off, w, k);
    let p1 = sp_skip_ws(w, k);
    if !(p1 >= w.len() || !(w[p1] is Ident)) {
        lemma_skip_ws_offset(t, off, w, p1 + 1);
        let p2 = sp_skip_ws(w, p1 + 1);
        if p2 < w.len() && !(w[p2] is SquareClose) && !(sp_attr_op(w[p2]) is None) {
            lemma_skip_ws_offset(t, off, w, p2 + 1);
            let p3 = sp_skip_ws(w, p2 + 1);
            if !(p3 >= w.len() || !(w[p3] is Ident || w[p3] is Str)) {
                lemma_skip_ws_offset(t, off, w, p3 + 1);
                let p4 = sp_skip_ws(w, p3 + 1);
                if p4 < w.len() && !(w[p4] is SquareClose) && !(sp_case_flag(w[p4]) is None) {
                    lemma_skip_ws_offset(t, off, w, p4 + 1);
                }
            }
        }
    }
}

/// The selector grammar is invariant under a shift: parsing the suffix of a
/// stream parses as the suffix alone does, with every index shifted and any
/// sequences already finished kept in front.
proof fn lemma_sel_suffix(
    t: Seq<CssToken>,
    off: int,
    w: Seq<CssToken>,
    i: int,
    cur: Seq<SelectorExpression>,
    acc0: Seq<Seq<SelectorExpression>>,
    acc: Seq<Seq<SelectorExpression>>,
    pend: bool,
)
    requires
        0 <= off <= t.len(),
        w == t.subrange(off, t.len() as int),
        0 <= i <= w.len(),
    ensures
        match sp_sel(w, i, cur, acc, pend) {
            Ok((s0, j, b)) => sp_sel(t, off + i, cur, acc0 + acc, pend) == Ok::<_, CssError>(
                (acc0 + s0, off + j, b),
            ),
            Err(e) => sp_sel(t, off + i, cur, acc0 + acc, pend) == Err::<
                (Seq<Seq<SelectorExpression>>, int, bool),
                _,
            >(e),
        },
    decreases w.len() - i,
{
    assert(t.len() == off + w.len());
    assert(forall|x: int| 0 <= x < w.len() ==> t[off + x] == #[trigger] w[x]);
    if i >= w.len() {
    } else {
        match w[i] {
            CssToken::CurlyOpen => {
                assert((acc0 + acc).push(cur) =~= acc0 + acc.push(cur));
            },
            CssToken::Comma => {
                assert((acc0 + acc).push(cur) =~= acc0 + acc.push(cur));
                lemma_sel_suffix(t, off, w, i + 1, Seq::empty(), acc0, acc.push(cur), false);
            },
            CssToken::Space => {
                lemma_sel_suffix(
                    t,
                    off,
                    w,
                    i + 1,
                    cur,
                    acc0,
                    acc,
                    cur.len() > 0 && cur.last() is Atom,
                );
            },
            CssToken::Ident(nm) => {
                lemma_sel_suffix(
                    t,
                    off,
                    w,
                    i + 1,
                    push_atom(cur, pend, SelectorAtom::Type(nm)),
                    acc0,
                    acc,
                    false,
                );
            },
            CssToken::IdHash(nm) => {
                lemma_sel_suffix(
                    t,
                    off,
                    w,
                    i + 1,
                    push_atom(cur, pend, SelectorAtom::Id(nm)),
                    acc0,
                    acc,
                    false,
                );
            },
            CssToken::Delim(c) => {
                if c == '.' {
                    lemma_skip_ws_offset(t, off, w, i + 1);
                    let j = sp_skip_ws(w, i + 1);
                    assert(adv(i, j) == j);
                    assert(adv(off + i, off + j) == off + j);
                    if j < w.len() && w[j] is Ident {
                        lemma_sel_suffix(
                            t,
                            off,
                            w,
                            j + 1,
                            push_atom(cur, pend, SelectorAtom::Class(w[j]->Ident_0)),
                            acc0,
                            acc,
                            false,
                        );
                    }
                } else if c == '*' {
                    lemma_sel_suffix(
                        t,
                        off,
                        w,
                        i + 1,
                        push_atom(cur, pend, SelectorAtom::Universal),
                        acc0,
                        acc,
                        false,
                    );
                } else if c == '>' || c == '+' || c == '~' {
                    let cb = if c == '>' {
                        Combinator::Child
                    } else if c == '+' {
                        Combinator::NextSibling
                    } else {
                        Combinator::SubsequentSibling
                    };
                    lemma_sel_suffix(
                        t,
                        off,
                        w,
                        i + 1,
                        cur.push(SelectorExpression::Combinator(cb)),
                        acc0,
                        acc,
                        false,
                    );
                } else if c == '|' {
                    assert((i + 1 < w.len() && w[i + 1] == CssToken::Delim('|')) == (off + i + 1
                        < t.len() && t[off + i + 1] == CssToken::Delim('|')));
                    if !(i + 1 < w.len() && w[i + 1] == CssToken::Delim('|')) {
                        lemma_sel_suffix(
                            t,
                            off,
                            w,
                            i + 1,
                            cur.push(SelectorExpression::Combinator(Combinator::Namespace)),
                            acc0,
                            acc,
                            false,
                        );
                    }
                }
            },
            CssToken::Colon => {
                assert((i + 1 < w.len() && w[i + 1] is Ident) == (off + i + 1 < t.len() && t[off
                    + i + 1] is Ident));
                assert((i + 1 < w.len() && w[i + 1] is Function) == (off + i + 1 < t.len()
                    && t[off + i + 1] is Function));
                if i + 1 < w.len() && w[i + 1] is Ident {
                    if can_wrap(cur, pend) {
                        let a = SelectorAtom::PseudoClass(
                            Box::new(cur.last()->Atom_0),
                            w[i + 1]->Ident_0,
                        );
                        lemma_sel_suffix(t, off, w, i + 2, wrap_last(cur, a), acc0, acc, false);
                    }
                } else if i + 1 < w.len() && w[i + 1] is Function {
                    if can_wrap(cur, pend) {
                        let a = SelectorAtom::PseudoClass(
                            Box::new(cur.last()->Atom_0),
                            w[i + 1]->Function_0,
                        );
                        lemma_skip_bal_offset(t, off, w, i + 2, 1);
                        let j = sp_skip_bal(w, i + 2, 1);
                        let j2 = adv(i + 1, j);
                        assert(adv(off + i + 1, off + j) == off + j2);
                        lemma_sel_suffix(t, off, w, j2, wrap_last(cur, a), acc0, acc, false);
                    }
                }
            },
            CssToken::Function(f) => {
                if can_wrap(cur, pend) {
                    let a = SelectorAtom::PseudoClass(Box::new(cur.last()->Atom_0), f);
                    lemma_skip_bal_offset(t, off, w, i + 1, 1);
                    let j = sp_skip_bal(w, i + 1, 1);
                    let j2 = adv(i, j);
                    assert(adv(off + i, off + j) == off + j2);
                    lemma_sel_suffix(t, off, w, j2, wrap_last(cur, a), acc0, acc, false);
                }
            },
            CssToken::SquareOpen => {
                if cur.len() == 0 || can_wrap(cur, pend) {
                    lemma_attr_offset(t, off, w, i + 1);
                    match sp_attr(w, i + 1) {
                        Ok((aspec, j)) => {
                            let base = if cur.len() == 0 {
                                SelectorAtom::Universal
                            } else {
                                cur.last()->Atom_0
                            };
                            let cur2 = if cur.len() == 0 {
                                cur
                            } else {
                                cur.drop_last()
                            };
                            let a = SelectorAtom::Attribute(Box::new(base), aspec);
                            let j2 = adv(i, j);
                            assert(adv(off + i, off + j) == off + j2);
                            lemma_sel_suffix(
                                t,
                                off,
                                w,
                                j2,
                                cur2.push(SelectorExpression::Atom(a)),
                                acc0,
                                acc,
                                false,
                            );
                        },
                        Err(_) => {
                        },
                    }
                }
            },
            _ => {
            },
        }
    }
}

/// Splitting on a top-level comma: a selector list made of two lists joined
/// by a comma parses into exactly the sequences of the first followed by the
/// sequences of the second, each part parsing as it does alone.
pub proof fn lemma_selector_list_concat(
    t1: Seq<CssToken>,
    t2: Seq<CssToken>,
    s1: Seq<Seq<SelectorExpression>>,
    s2: Seq<Seq<SelectorExpression>>,
)
    requires
        sp_sel(t1.push(CssToken::CurlyOpen), 0, Seq::empty(), Seq::empty(), false) == Ok::<
            _,
            CssError,
        >((s1, t1.len() as int + 1, true)),
        sp_sel(t2.push(CssToken::CurlyOpen), 0, Seq::empty(), Seq::empty(), false) == Ok::<
            _,
            CssError,
        >((s2, t2.len() as int + 1, true)),
    ensures
        sp_sel(
            t1 + seq![CssToken::Comma] + t2 + seq![CssToken::CurlyOpen],
            0,
            Seq::empty(),
            Seq::empty(),
            false,
        ) == Ok::<_, CssError>((s1 + s2, t1.len() as int + t2.len() as int + 2, true)),
{
    let a = t1.push(CssToken::CurlyOpen);
    let b = t2.push(CssToken::CurlyOpen);
    let u = t1 + seq![CssToken::Comma] + t2 + seq![CssToken::CurlyOpen];
    let m = t1.len() as int;
    assert(a.len() == m + 1);
    assert(u.len() == m + 1 + t2.len() + 1);
    assert(forall|x: int| 0 <= x < m ==> a[x] == #[trigger] u[x]);
    assert(a[m] is CurlyOpen);
    assert(u[m] is Comma);
    lemma_sel_prefix_agree(a, u, m, 0, Seq::empty(), Seq::empty(), false, s1);
    assert(u.subrange(m + 1, u.len() as int) =~= b);
    lemma_sel_suffix(u, m + 1, b, 0, Seq::empty(), s1, Seq::empty(), false);
    assert(s1 + Seq::<Seq<SelectorExpression>>::empty() =~= s1);
    assert(sp_sel(u, 0, Seq::empty(), Seq::empty(), false) == Ok::<_, CssError>(
        (s1 + s2, t1.len() as int + t2.len() as int + 2, true),
    ));
}

} // verus!
