//! The rule tree that parsing produces: selector expressions, declarations,
//! rule nodes, and the faults a parse can surface.

use vstd::prelude::*;

verus! {

broadcast use vstd::seq::axiom_seq_index_decreases;

/// Operator joining two simple selectors inside a compound selector sequence.
#[derive(Clone, Copy, Debug, PartialEq, Eq, Structural)]
pub enum Combinator {
    /// Whitespace between two atoms.
    Descendant,
    /// `>`
    Child,
    /// `+`
    NextSibling,
    /// `~`
    SubsequentSibling,
    /// `|`
    Namespace,
    /// `||`, recognized but rejected as unsupported.
    Column,
}

/// How an attribute selector compares the attribute against its value.
#[derive(Clone, Copy, Debug, PartialEq, Eq, Structural)]
pub enum AttrOperator {
    /// `[attr]`: only the attribute's presence is required.
    Presence,
    /// `=`
    Equals,
    /// `~=`
    Includes,
    /// `|=`
    DashMatch,
    /// `^=`
    Prefix,
    /// `$=`
    Suffix,
    /// `*=`
    Substring,
}

/// The parsed interior of a bracketed attribute selector:
/// name, optional operator and value, and the case flag.
#[derive(Debug, PartialEq, Eq)]
pub struct AttributeSpec {
    pub name: String,
    pub operator: AttrOperator,
    pub value: Option<String>,
    pub case_insensitive: bool,
}

/// One simple selector. `Attribute` and `PseudoClass` each own the nested
/// atom they refine, so an atom is a tree, never a cycle.
#[derive(Debug, PartialEq, Eq)]
pub enum SelectorAtom {
    /// `*`
    Universal,
    /// A bare element name.
    Type(String),
    /// `.name`
    Class(String),
    /// `#name`
    Id(String),
    /// `inner[spec]`
    Attribute(Box<SelectorAtom>, AttributeSpec),
    /// `inner:name(...)`
    PseudoClass(Box<SelectorAtom>, String),
}

/// One entry of a compound selector sequence: an atom or a combinator.
#[derive(Debug, PartialEq, Eq)]
pub enum SelectorExpression {
    Atom(SelectorAtom),
    Combinator(Combinator),
}

/// One `key: value;` pair of a declaration block. The value is kept as the
/// raw text between the colon and the terminating semicolon, not interpreted.
#[derive(Debug, PartialEq, Eq)]
pub struct Declaration {
    pub key: String,
    pub value: String,
}

impl Clone for Declaration {
    fn clone(&self) -> (r: Self)
        ensures
            r == *self,
    {
        Declaration { key: self.key.clone(), value: self.value.clone() }
    }
}

/// One node of the rule tree: a compound selector sequence, the declarations
/// of its block, and the nested rules an at-rule block contributed.
#[derive(Debug, PartialEq)]
pub struct RuleNode {
    pub selectors: Vec<SelectorExpression>,
    pub declarations: Vec<Declaration>,
    pub children: Vec<RuleNode>,
}

/// The faults a parse can surface. All are recoverable error values; none
/// ends the process.
#[derive(Debug, PartialEq, Eq)]
pub enum CssError {
    /// Bad selector-list syntax.
    MalformedSelector,
    /// Bad `key: value` syntax inside a declaration block.
    MalformedDeclaration,
    /// Recognized but unimplemented selector syntax: a bare pseudo-class
    /// with no name, the nesting selector `&`, the column combinator `||`.
    UnsupportedSelectorSyntax,
    /// An at-keyword outside the supported grammar, carrying the keyword.
    UnsupportedAtRule(String),
    /// A stray block with no selector in front of it.
    UnexpectedBlock,
    /// A required block delimiter was not found.
    DelimiterMismatch,
    /// The token stream ended, or went on, where the grammar did not allow.
    TokenMismatch,
    /// Nested at-rule blocks deeper than the configured bound.
    NestingTooDeep,
}

/// Mathematical model of a declaration: its key and its value as text.
#[verifier::ext_equal]
pub struct DeclV {
    pub key: Seq<char>,
    pub value: Seq<char>,
}

/// The model a `Declaration` denotes.
pub open spec fn decl_view(d: Declaration) -> DeclV {
    DeclV { key: d.key@, value: d.value@ }
}

/// The models a sequence of `Declaration`s denotes, in order.
pub open spec fn decls_view(ds: Seq<Declaration>) -> Seq<DeclV> {
    ds.map_values(|d: Declaration| decl_view(d))
}

/// Mathematical model of a rule node, with sequences for the vectors.
#[verifier::ext_equal]
pub struct RuleNodeV {
    pub selectors: Seq<SelectorExpression>,
    pub declarations: Seq<DeclV>,
    pub children: Seq<RuleNodeV>,
}

/// The model a `RuleNode` denotes.
pub open spec fn node_view(n: RuleNode) -> RuleNodeV
    decreases n,
{
    RuleNodeV {
        selectors: n.selectors@,
        declarations: decls_view(n.declarations@),
        children: nodes_view(n.children@),
    }
}

/// The models a sequence of `RuleNode`s denotes, in order.
pub open spec fn nodes_view(ns: Seq<RuleNode>) -> Seq<RuleNodeV>
    decreases ns,
{
    if ns.len() == 0 {
        Seq::empty()
    } else {
        nodes_view(ns.drop_last()).push(node_view(ns.last()))
    }
}

/// The nesting invariant: a node with nested children is an at-rule node,
/// which carries no selectors and no declarations of its own; every plain
/// selector node has empty children, recursively.
pub open spec fn rule_wf(n: RuleNodeV) -> bool
    decreases n,
{
    &&& (n.children.len() > 0 ==> n.selectors.len() == 0 && n.declarations.len() == 0)
    &&& rules_wf(n.children)
}

/// `rule_wf` over every node of a sequence.
pub open spec fn rules_wf(ns: Seq<RuleNodeV>) -> bool
    decreases ns,
{
    forall|i: int| 0 <= i < ns.len() ==> rule_wf(#[trigger] ns[i])
}

/// The display name of a combinator.
pub open spec fn comb_text(c: Combinator) -> Seq<char> {
    match c {
        Combinator::Descendant => "Descendant"@,
        Combinator::Child => "Child"@,
        Combinator::NextSibling => "NextSibling"@,
        Combinator::SubsequentSibling => "SubsequentSibling"@,
        Combinator::Namespace => "Namespace"@,
        Combinator::Column => "Column"@,
    }
}

/// The display text of a selector atom: the variant's name around its data,
/// a pseudo-class showing its name before the atom it refines, an attribute
/// selector showing the attribute's name.
pub open spec fn atom_text(a: SelectorAtom) -> Seq<char>
    decreases a,
{
    match a {
        SelectorAtom::Universal => "Universal()"@,
        SelectorAtom::Type(s) => "Type("@ + s@ + ")"@,
        SelectorAtom::Class(s) => "Class("@ + s@ + ")"@,
        SelectorAtom::Id(s) => "Id("@ + s@ + ")"@,
        SelectorAtom::Attribute(_, spec) => "Attribute("@ + spec.name@ + ")"@,
        SelectorAtom::PseudoClass(inner, nm) => "PseudoClass("@ + nm@ + ", "@ + atom_text(*inner)
            + ")"@,
    }
}

/// The display text of one selector-sequence entry.
pub open spec fn expr_text(e: SelectorExpression) -> Seq<char> {
    match e {
        SelectorExpression::Atom(a) => "Atom("@ + atom_text(a) + ")"@,
        SelectorExpression::Combinator(c) => "Combinator("@ + comb_text(c) + ")"@,
    }
}

impl Combinator {
    /// The display name of this combinator.
    pub fn text(&self) -> (r: String)
        ensures
            r@ == comb_text(*self),
    {
        match self {
            Combinator::Descendant => String::from_str("Descendant"),
            Combinator::Child => String::from_str("Child"),
            Combinator::NextSibling => String::from_str("NextSibling"),
            Combinator::SubsequentSibling => String::from_str("SubsequentSibling"),
            Combinator::Namespace => String::from_str("Namespace"),
            Combinator::Column => String::from_str("Column"),
        }
    }
}

impl SelectorAtom {
    /// The display text of this atom.
    pub fn text(&self) -> (r: String)
        ensures
            r@ == atom_text(*self),
        decreases *self,
    {
        match self {
            SelectorAtom::Universal => String::from_str("Universal()"),
            SelectorAtom::Type(s) => String::from_str("Type(").concat(s.as_str()).concat(")"),
            SelectorAtom::Class(s) => String::from_str("Class(").concat(s.as_str()).concat(")"),
            SelectorAtom::Id(s) => String::from_str("Id(").concat(s.as_str()).concat(")"),
            SelectorAtom::Attribute(_, spec) => String::from_str("Attribute(").concat(
                spec.name.as_str(),
            ).concat(")"),
            SelectorAtom::PseudoClass(inner, nm) => String::from_str("PseudoClass(").concat(
                nm.as_str(),
            ).concat(", ").concat(inner.text().as_str()).concat(")"),
        }
    }
}

impl SelectorExpression {
    /// The display text of this entry.
    pub fn text(&self) -> (r: String)
        ensures
            r@ == expr_text(*self),
    {
        match self {
            SelectorExpression::Atom(a) => String::from_str("Atom(").concat(
                a.text().as_str(),
            ).concat(")"),
            SelectorExpression::Combinator(c) => String::from_str("Combinator(").concat(
                c.text().as_str(),
            ).concat(")"),
        }
    }
}

} // verus!
