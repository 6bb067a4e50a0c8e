//! The node kinds the engine tells apart, and the host's types it carries.

use vstd::prelude::*;

verus! {

/// `swc_common::Span`, the position token stamped on every node. The engine
/// only copies it.
#[verifier::external_type_specification]
#[verifier::external_body]
pub struct ExSpan(swc_common::Span);

/// `swc_ecma_ast::Expr`, a whole expression of the host tree. The engine never
/// looks inside one.
#[verifier::external_type_specification]
#[verifier::external_body]
pub struct ExHostExpr(swc_ecma_ast::Expr);

/// `Clone::clone` of `swc_ecma_ast::Expr`: the implementation clones the
/// payload of whichever variant it is given, so the copy is the same
/// expression.
pub assume_specification[ <swc_ecma_ast::Expr as Clone>::clone ](e: &swc_ecma_ast::Expr) -> (r:
    swc_ecma_ast::Expr)
    ensures
        r == *e,
;

/// An identifier used as an expression, such as the `l` of `l.common`.
#[derive(Debug, PartialEq, Eq)]
pub struct Ident {
    pub span: swc_common::Span,
    pub sym: String,
}

/// The name after the dot in `a.b`.
#[derive(Debug, PartialEq, Eq)]
pub struct IdentName {
    pub span: swc_common::Span,
    pub sym: String,
}

/// The private name after the dot in `a.#b`, without its `#`.
#[derive(Debug, PartialEq, Eq)]
pub struct PrivateName {
    pub span: swc_common::Span,
    pub name: String,
}

/// The bracketed part of `a[b]`; `span` covers the brackets.
#[derive(Debug, PartialEq, Eq)]
pub struct ComputedPropName {
    pub span: swc_common::Span,
    pub expr: Box<Node>,
}

/// The property side of a property access.
#[derive(Debug, PartialEq, Eq)]
pub enum MemberProp {
    /// `a.b`
    Ident(IdentName),
    /// `a.#b`
    PrivateName(PrivateName),
    /// `a[b]`
    Computed(ComputedPropName),
}

/// A property access `obj.prop` or `obj[prop]`.
#[derive(Debug, PartialEq, Eq)]
pub struct MemberExpr {
    pub span: swc_common::Span,
    pub obj: Box<Node>,
    pub prop: MemberProp,
}

/// A string literal: its value and, where known, its quoted source form.
#[derive(Debug, PartialEq, Eq)]
pub struct Str {
    pub span: swc_common::Span,
    pub value: String,
    pub raw: Option<String>,
}

/// One literal fragment of a template literal.
#[derive(Debug, PartialEq, Eq)]
pub struct TplElement {
    pub span: swc_common::Span,
    pub tail: bool,
    pub cooked: Option<String>,
    pub raw: String,
}

/// A template literal: `quasis[0] ${exprs[0]} quasis[1] ${exprs[1]} ...`.
#[derive(Debug, PartialEq, Eq)]
pub struct Tpl {
    pub span: swc_common::Span,
    pub exprs: Vec<Box<Node>>,
    pub quasis: Vec<TplElement>,
}

/// An expression of the source tree, as far as the engine distinguishes
/// expressions.
#[derive(Debug, PartialEq, Eq)]
pub enum Node {
    Ident(Ident),
    Member(MemberExpr),
    /// Any other expression, kept as the host's node.
    Other(Box<swc_ecma_ast::Expr>),
}

/// The expression that takes the place of a translation reference.
#[derive(Debug, PartialEq, Eq)]
pub enum Replacement {
    /// A string literal, when every segment of the key is a name.
    Str(Str),
    /// A template literal, when some segment is only known at run time.
    Tpl(Tpl),
}

/// What stands between the braces of a JSX expression container.
#[derive(Debug, PartialEq, Eq)]
pub enum JSXExpr {
    /// Nothing but a comment or white space, at the given position.
    JSXEmptyExpr(swc_common::Span),
    Expr(Box<Replacement>),
}

/// What a call expression calls.
#[derive(Debug, PartialEq, Eq)]
pub enum Callee {
    Super,
    Import,
    Expr(Box<Node>),
}

/// A call expression, reduced to its callee.
#[derive(Debug, PartialEq, Eq)]
pub struct CallExpr {
    pub span: swc_common::Span,
    pub callee: Callee,
}

fn copy_member(m: &MemberExpr) -> (r: MemberExpr)
    ensures
        r == *m,
    decreases *m,
{
    let prop = match &m.prop {
        MemberProp::Ident(name) => MemberProp::Ident(
            IdentName { span: name.span, sym: name.sym.clone() },
        ),
        MemberProp::PrivateName(p) => MemberProp::PrivateName(
            PrivateName { span: p.span, name: p.name.clone() },
        ),
        MemberProp::Computed(c) => MemberProp::Computed(
            ComputedPropName { span: c.span, expr: Box::new(copy_node(&*c.expr)) },
        ),
    };
    MemberExpr { span: m.span, obj: Box::new(copy_node(&*m.obj)), prop }
}

impl Clone for Node {
    /// A copy of the node, equal to it in every part.
    fn clone(&self) -> (r: Self)
        ensures
            r == *self,
    {
        copy_node(self)
    }
}

impl Clone for MemberExpr {
    /// A copy of the property access, equal to it in every part.
    fn clone(&self) -> (r: Self)
        ensures
            r == *self,
    {
        copy_member(self)
    }
}

fn copy_node(n: &Node) -> (r: Node)
    ensures
        r == *n,
    decreases *n,
{
    match n {
        Node::Ident(i) => Node::Ident(Ident { span: i.span, sym: i.sym.clone() }),
        Node::Member(m) => Node::Member(copy_member(m)),
        Node::Other(e) => Node::Other(e.clone()),
    }
}

} // verus!
