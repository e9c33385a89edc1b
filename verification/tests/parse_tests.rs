use css_tree::ast::{AttrOperator, Combinator, CssError, Declaration, SelectorAtom,
    SelectorExpression};
use css_tree::css::parse_css;
use css_tree::laws::declarations_text;
use css_tree::parser::{parse_declarations, parse_selector_list, parse_stylesheet_tokens};
use css_tree::tokens::CssToken;

fn class(n: &str) -> SelectorExpression {
    SelectorExpression::Atom(SelectorAtom::Class(String::from(n)))
}

fn ty(n: &str) -> SelectorExpression {
    SelectorExpression::Atom(SelectorAtom::Type(String::from(n)))
}

fn comb(c: Combinator) -> SelectorExpression {
    SelectorExpression::Combinator(c)
}

fn decl(k: &str, v: &str) -> Declaration {
    Declaration { key: String::from(k), value: String::from(v) }
}

#[test]
fn scenario_a_compound_selector() {
    let rules = parse_css(".a.b > div { color: red; }").unwrap();
    assert_eq!(rules.len(), 1);
    assert_eq!(
        rules[0].selectors,
        vec![class("a"), class("b"), comb(Combinator::Child), ty("div")]
    );
    assert_eq!(rules[0].declarations, vec![decl("color", "red")]);
    assert!(rules[0].children.is_empty());
}

#[test]
fn scenario_b_comma_list_expands() {
    let rules = parse_css(".a, .b { x: y; }").unwrap();
    assert_eq!(rules.len(), 2);
    assert_eq!(rules[0].selectors, vec![class("a")]);
    assert_eq!(rules[1].selectors, vec![class("b")]);
    assert_eq!(rules[0].declarations, vec![decl("x", "y")]);
    assert_eq!(rules[1].declarations, vec![decl("x", "y")]);
}

#[test]
fn scenario_c_pseudo_class() {
    let rules = parse_css(".a:hover { x: y; }").unwrap();
    assert_eq!(rules.len(), 1);
    assert_eq!(
        rules[0].selectors,
        vec![SelectorExpression::Atom(SelectorAtom::PseudoClass(
            Box::new(SelectorAtom::Class(String::from("a"))),
            String::from("hover"),
        ))]
    );
}

#[test]
fn scenario_d_media_nests() {
    let rules = parse_css("@media (x) { .a { y: z; } }").unwrap();
    assert_eq!(rules.len(), 1);
    assert!(rules[0].selectors.is_empty());
    assert!(rules[0].declarations.is_empty());
    assert_eq!(rules[0].children.len(), 1);
    let child = &rules[0].children[0];
    assert_eq!(child.selectors, vec![class("a")]);
    assert_eq!(child.declarations, vec![decl("y", "z")]);
    assert!(child.children.is_empty());
}

#[test]
fn scenario_e_missing_colon_is_malformed_declaration() {
    assert_eq!(parse_css(".a { color }"), Err(CssError::MalformedDeclaration));
}

#[test]
fn empty_block_yields_empty_declarations() {
    let rules = parse_css(".x {}").unwrap();
    assert_eq!(rules.len(), 1);
    assert_eq!(rules[0].selectors, vec![class("x")]);
    assert!(rules[0].declarations.is_empty());
    assert!(rules[0].children.is_empty());
}

#[test]
fn empty_input_yields_no_rules() {
    assert_eq!(parse_css(""), Ok(vec![]));
}

#[test]
fn comma_split_matches_parsing_alone() {
    let both = parse_css(".x > p, .y em {}").unwrap();
    let first = parse_css(".x > p {}").unwrap();
    let second = parse_css(".y em {}").unwrap();
    assert_eq!(both.len(), 2);
    assert_eq!(both[0].selectors, first[0].selectors);
    assert_eq!(both[1].selectors, second[0].selectors);
}

#[test]
fn declaration_round_trip() {
    let rules = parse_css(".k { a: b; c: d e; }").unwrap();
    let text = declarations_text(&rules[0].declarations);
    let again = parse_css(&format!(".k {{ {} }}", text)).unwrap();
    assert_eq!(rules, again);
}

#[test]
fn descendant_combinator_from_whitespace() {
    let rules = parse_css(" .a  .b {}").unwrap();
    assert_eq!(
        rules[0].selectors,
        vec![class("a"), comb(Combinator::Descendant), class("b")]
    );
}

#[test]
fn id_universal_and_siblings() {
    let rules = parse_css("#nav + * ~ p {}").unwrap();
    assert_eq!(
        rules[0].selectors,
        vec![
            SelectorExpression::Atom(SelectorAtom::Id(String::from("nav"))),
            comb(Combinator::NextSibling),
            SelectorExpression::Atom(SelectorAtom::Universal),
            comb(Combinator::SubsequentSibling),
            ty("p"),
        ]
    );
}

#[test]
fn attribute_presence_wraps_preceding_atom() {
    let rules = parse_css(".a[href] {}").unwrap();
    match &rules[0].selectors[0] {
        SelectorExpression::Atom(SelectorAtom::Attribute(inner, spec)) => {
            assert_eq!(**inner, SelectorAtom::Class(String::from("a")));
            assert_eq!(spec.name, "href");
            assert_eq!(spec.operator, AttrOperator::Presence);
            assert_eq!(spec.value, None);
            assert!(!spec.case_insensitive);
        }
        other => panic!("expected an attribute atom, got {:?}", other),
    }
}

#[test]
fn attribute_with_operator_value_and_flag() {
    let rules = parse_css("[data-x=y i] {}").unwrap();
    match &rules[0].selectors[0] {
        SelectorExpression::Atom(SelectorAtom::Attribute(inner, spec)) => {
            assert_eq!(**inner, SelectorAtom::Universal);
            assert_eq!(spec.name, "data-x");
            assert_eq!(spec.operator, AttrOperator::Equals);
            assert_eq!(spec.value, Some(String::from("y")));
            assert!(spec.case_insensitive);
        }
        other => panic!("expected an attribute atom, got {:?}", other),
    }
}

#[test]
fn value_text_is_reassembled() {
    let rules = parse_css(".a { margin: 0 auto !important; width: calc(1px + 2%); }").unwrap();
    assert_eq!(
        rules[0].declarations,
        vec![decl("margin", "0 auto !important"), decl("width", "calc(1px + 2%)")]
    );
}

#[test]
fn import_and_opaque_at_rules_are_skipped() {
    let rules = parse_css("@import x; .a { x: y; }").unwrap();
    assert_eq!(rules.len(), 1);
    let rules = parse_css("@font-face { font-family: x; } .b {}").unwrap();
    assert_eq!(rules.len(), 1);
    assert_eq!(rules[0].selectors, vec![class("b")]);
    let rules = parse_css("@keyframes spin { 0% { x: y; } } .c {}").unwrap();
    assert_eq!(rules.len(), 1);
    assert_eq!(rules[0].selectors, vec![class("c")]);
}

#[test]
fn supports_and_container_nest() {
    let rules = parse_css("@supports (display: grid) { .e {} }").unwrap();
    assert_eq!(rules.len(), 1);
    assert_eq!(rules[0].children.len(), 1);
    let rules = parse_css("@container side (min-width: 400px) { .d { x: y; } }").unwrap();
    assert_eq!(rules.len(), 1);
    assert_eq!(rules[0].children.len(), 1);
    assert_eq!(rules[0].children[0].selectors, vec![class("d")]);
}

#[test]
fn unsupported_at_rule_names_the_keyword() {
    assert_eq!(
        parse_css("@foo x;"),
        Err(CssError::UnsupportedAtRule(String::from("foo")))
    );
}

#[test]
fn stray_block_is_unexpected() {
    assert_eq!(parse_css("{ a: b; }"), Err(CssError::UnexpectedBlock));
}

#[test]
fn selector_without_block_is_delimiter_mismatch() {
    assert_eq!(parse_css(".a"), Err(CssError::DelimiterMismatch));
    assert_eq!(parse_css("@media (x) .a"), Err(CssError::DelimiterMismatch));
}

#[test]
fn keyframes_without_name_is_token_mismatch() {
    assert_eq!(parse_css("@keyframes { }"), Err(CssError::TokenMismatch));
}

#[test]
fn nesting_selector_and_column_are_unsupported() {
    assert_eq!(parse_css(".a & {}"), Err(CssError::UnsupportedSelectorSyntax));
    assert_eq!(parse_css("a || b {}"), Err(CssError::UnsupportedSelectorSyntax));
    assert_eq!(parse_css(".a :{}"), Err(CssError::UnsupportedSelectorSyntax));
}

#[test]
fn class_without_name_is_malformed() {
    assert_eq!(parse_css(". {}"), Err(CssError::MalformedSelector));
}

#[test]
fn pseudo_class_without_base_is_malformed() {
    assert_eq!(parse_css(":hover {}"), Err(CssError::MalformedSelector));
}

#[test]
fn too_deep_nesting_is_reported() {
    let mut s = String::new();
    for _ in 0..70 {
        s.push_str("@media (x) { ");
    }
    for _ in 0..70 {
        s.push('}');
    }
    assert_eq!(parse_css(&s), Err(CssError::NestingTooDeep));
}

#[test]
fn tokens_parse_without_the_tokenizer() {
    let toks = vec![
        CssToken::Ident(String::from("a")),
        CssToken::CurlyOpen,
        CssToken::Ident(String::from("k")),
        CssToken::Colon,
        CssToken::Ident(String::from("v")),
        CssToken::Semicolon,
        CssToken::CurlyClose,
    ];
    let rules = parse_stylesheet_tokens(&toks).unwrap();
    assert_eq!(rules.len(), 1);
    assert_eq!(rules[0].selectors, vec![ty("a")]);
    assert_eq!(rules[0].declarations, vec![decl("k", "v")]);
}

#[test]
fn declaration_parser_on_tokens() {
    let toks = vec![
        CssToken::Ident(String::from("k")),
        CssToken::Colon,
        CssToken::Space,
        CssToken::Other(String::from("v w")),
        CssToken::Semicolon,
    ];
    let (ds, end) = parse_declarations(&toks, 0).unwrap();
    assert_eq!(ds, vec![decl("k", "v w")]);
    assert_eq!(end, 5);
}

#[test]
fn selector_list_parser_on_tokens() {
    let toks = vec![
        CssToken::Delim('.'),
        CssToken::Ident(String::from("a")),
        CssToken::Comma,
        CssToken::Ident(String::from("b")),
        CssToken::CurlyOpen,
    ];
    let (seqs, end, ended) = parse_selector_list(&toks, 0).unwrap();
    assert_eq!(seqs, vec![vec![class("a")], vec![ty("b")]]);
    assert_eq!(end, 5);
    assert!(ended);
}

#[test]
fn selector_display_text() {
    let rules = parse_css(".a:hover > b {}").unwrap();
    let parts: Vec<String> = rules[0].selectors.iter().map(|e| e.text()).collect();
    assert_eq!(
        parts,
        vec![
            String::from("Atom(PseudoClass(hover, Class(a)))"),
            String::from("Combinator(Child)"),
            String::from("Atom(Type(b))"),
        ]
    );
}

#[test]
fn namespace_combinator() {
    let rules = parse_css("svg|rect {}").unwrap();
    assert_eq!(
        rules[0].selectors,
        vec![ty("svg"), comb(Combinator::Namespace), ty("rect")]
    );
}

#[test]
fn pseudo_class_function_form_drops_arguments() {
    let rules = parse_css(".a:not(.b) { x: y; }").unwrap();
    assert_eq!(
        rules[0].selectors,
        vec![SelectorExpression::Atom(SelectorAtom::PseudoClass(
            Box::new(SelectorAtom::Class(String::from("a"))),
            String::from("not"),
        ))]
    );
    assert_eq!(rules[0].declarations, vec![decl("x", "y")]);
}

#[test]
fn function_token_wraps_on_tokens() {
    let toks = vec![
        CssToken::Ident(String::from("a")),
        CssToken::Function(String::from("is")),
        CssToken::ParenClose,
        CssToken::CurlyOpen,
    ];
    let (seqs, _, ended) = parse_selector_list(&toks, 0).unwrap();
    assert!(ended);
    assert_eq!(
        seqs,
        vec![vec![SelectorExpression::Atom(SelectorAtom::PseudoClass(
            Box::new(SelectorAtom::Type(String::from("a"))),
            String::from("is"),
        ))]]
    );
}

#[test]
fn empty_statement_is_tolerated() {
    let rules = parse_css(".a { ; x: y;; }").unwrap();
    assert_eq!(rules[0].declarations, vec![decl("x", "y")]);
}

#[test]
fn rule_tree_value_copies_are_independent() {
    let mut rules = parse_css(".a, .b { x: y; }").unwrap();
    rules[0].declarations[0].value = String::from("changed");
    assert_eq!(rules[1].declarations[0].value, "y");
}
